use trading_core::strategy::MACDStrategy;
use trading_core::types::MACD;

const SCALE: i64 = 1_000_000;

fn engine() -> MACDStrategy {
    MACDStrategy::new(12, 26, 9)
}

#[test]
fn no_point_below_the_slow_period() {
    let mut s = engine();
    for i in 0..25 {
        s.add_price(100 * SCALE + i * SCALE);
        assert_eq!(s.momentum_point_count(), 0);
        assert!(s.latest_macd().is_none());
    }
    // the 26th price crosses the threshold
    s.add_price(126 * SCALE);
    assert_eq!(s.momentum_point_count(), 1);
    assert!(s.latest_macd().is_some());
}

#[test]
fn flat_prices_give_a_zero_point() {
    let mut s = engine();
    for _ in 0..26 {
        s.add_price(100 * SCALE);
    }
    assert_eq!(
        s.latest_macd(),
        Some(MACD { macd: 0, signal: 0, histogram: 0 })
    );
}

#[test]
fn ema_is_seeded_at_the_oldest_price() {
    let s = engine();
    // seeded at 1, then stepped toward 2, 3 and 4 with multiplier 2/4,
    // rounding toward zero at each step
    let prices = vec![SCALE, 2 * SCALE, 3 * SCALE, 4 * SCALE];
    assert_eq!(s.calculate_ema(3, &prices), Some(3_125_000));
    // fewer entries than the period: no value
    assert_eq!(s.calculate_ema(5, &prices), None);
}

#[test]
fn first_point_of_a_rising_window() {
    let mut s = engine();
    for i in 0..26 {
        s.add_price(100 * SCALE + i * SCALE);
    }
    // fast average rides closer to the recent prices than the slow one
    assert_eq!(
        s.latest_macd(),
        Some(MACD { macd: 5_259_228, signal: 0, histogram: 5_259_228 })
    );
}

#[test]
fn windows_stay_bounded() {
    let mut s = engine();
    for i in 0..200 {
        s.add_price(100 * SCALE + (i % 40) * SCALE);
        assert!(s.price_count() <= 52);
        assert!(s.momentum_point_count() <= 18);
    }
    assert_eq!(s.price_count(), 52);
    assert_eq!(s.momentum_point_count(), 18);
}

#[test]
fn rising_prices_lean_positive_more_often_than_falling_ones() {
    let mut rising = engine();
    let mut rising_nonneg: i32 = 0;
    for i in 0..30 {
        rising.add_price(100 * SCALE + i * SCALE);
        if let Some(p) = rising.latest_macd() {
            if p.macd >= 0 {
                rising_nonneg += 1;
            }
        }
    }
    let mut falling = engine();
    let mut falling_nonneg: i32 = 0;
    for i in 0..30 {
        falling.add_price(100 * SCALE - i * SCALE);
        if let Some(p) = falling.latest_macd() {
            if p.macd >= 0 {
                falling_nonneg += 1;
            }
        }
    }
    assert_eq!(rising.momentum_point_count(), 5);
    assert_eq!(falling.momentum_point_count(), 5);
    assert!(rising_nonneg > falling_nonneg);
    assert_eq!(rising_nonneg, 5);
    assert_eq!(falling_nonneg, 0);
}
