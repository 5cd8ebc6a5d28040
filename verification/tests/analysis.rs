use trading_core::market::{MarketDepth, MarketTicker};
use trading_core::strategy::MACDStrategy;

fn engine() -> MACDStrategy {
    MACDStrategy::new(12, 26, 9)
}

fn ticker() -> MarketTicker {
    // calm, liquid, mildly rising day: last near the low of a 1% range
    MarketTicker {
        price_change_percent: 500_000,  // +0.5%
        high_price: 101_000_000,
        low_price: 100_000_000,
        last_price: 100_100_000,
        volume: 5_000_000_000,
        bid_price: 100_050_000,
        ask_price: 100_060_000,  // 0.01% spread
    }
}

#[test]
fn empty_ask_book_signals_strong_buying_only() {
    let depth = MarketDepth { asks: vec![], bids: vec![(100_000_000, 5_000_000)] };
    let (strong_buy, strong_sell) = engine().analyze_depth(&depth, 100_000_000);
    assert!(strong_buy);
    assert!(!strong_sell);
}

#[test]
fn balanced_book_signals_nothing() {
    let depth = MarketDepth {
        asks: vec![(100_100_000, 5_000_000)],
        bids: vec![(99_900_000, 5_000_000)],
    };
    assert_eq!(engine().analyze_depth(&depth, 100_000_000), (false, false));
}

#[test]
fn pressure_must_exceed_the_other_side_by_a_fifth() {
    // exactly 6:5 is not beyond a fifth; 6.1:5 is
    let depth = MarketDepth {
        asks: vec![(100_000_000, 5_000_000)],
        bids: vec![(100_000_000, 6_000_000)],
    };
    assert_eq!(engine().analyze_depth(&depth, 100_000_000), (false, false));
    let depth2 = MarketDepth {
        asks: vec![(100_000_000, 5_000_000)],
        bids: vec![(100_000_000, 6_100_000)],
    };
    assert_eq!(engine().analyze_depth(&depth2, 100_000_000), (true, false));
}

#[test]
fn depth_ignores_rows_far_from_the_reference_price() {
    // bid at 98 sits below 99% of 100; ask at 102 above 101% of 100
    let depth = MarketDepth {
        asks: vec![(102_000_000, 1_000_000)],
        bids: vec![(98_000_000, 50_000_000)],
    };
    assert_eq!(engine().analyze_depth(&depth, 100_000_000), (false, false));
}

#[test]
fn illiquidity_veto_silences_both_flags() {
    // spread 0.2% > 0.1%: whatever else holds, both flags are off
    let mut t = ticker();
    t.ask_price = 100_250_000;  // vs bid 100_050_000
    assert_eq!(engine().analyze_ticker(&t), (false, false));
    t.price_change_percent = -5_000_000;
    t.last_price = 100_900_000;
    assert_eq!(engine().analyze_ticker(&t), (false, false));
}

#[test]
fn daily_change_sets_the_flags() {
    let mut t = ticker();
    t.last_price = 100_500_000;  // mid-range: position rules stay quiet
    t.price_change_percent = 500_000;
    assert_eq!(engine().analyze_ticker(&t), (true, false));
    t.price_change_percent = -500_000;
    assert_eq!(engine().analyze_ticker(&t), (false, true));
    t.price_change_percent = 100_000;  // within +-0.2%: neither
    assert_eq!(engine().analyze_ticker(&t), (false, false));
}

#[test]
fn range_position_sets_the_flags() {
    let mut t = ticker();
    t.price_change_percent = 0;
    t.last_price = 100_100_000;  // 10% of the range: near the low
    assert_eq!(engine().analyze_ticker(&t), (true, false));
    t.last_price = 100_900_000;  // 90% of the range: near the high
    assert_eq!(engine().analyze_ticker(&t), (false, true));
}

#[test]
fn volatility_gate_narrows_the_flags() {
    // 3% day range: bullishness from the daily change alone no longer
    // suffices when the price sits at 50% of the range
    let mut t = ticker();
    t.high_price = 103_000_000;
    t.low_price = 100_000_000;
    t.last_price = 101_500_000;
    t.price_change_percent = 500_000;
    assert_eq!(engine().analyze_ticker(&t), (false, false));
    // at 30% of the range the bullish flag survives the volatility rule
    t.last_price = 100_900_000;
    assert_eq!(engine().analyze_ticker(&t), (true, false));
}
