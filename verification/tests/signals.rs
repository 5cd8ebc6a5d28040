use trading_core::market::{MarketDepth, MarketTicker};
use trading_core::strategy::{MACDStrategy, Signal};

const SCALE: i64 = 1_000_000;

/// Thirty closes accelerating upward: the histogram deltas grow, their
/// difference stays positive, and the latest delta clears 3% of the previous
/// histogram.
fn accelerating_closes() -> Vec<i64> {
    (0..30).map(|i: i64| 100 * SCALE + 200_000 * i * i).collect()
}

fn confirming_depth(price: i64) -> MarketDepth {
    MarketDepth {
        asks: vec![(price, 1 * SCALE)],
        bids: vec![(price, 10 * SCALE)],
    }
}

fn confirming_ticker(price: i64) -> MarketTicker {
    MarketTicker {
        price_change_percent: 500_000,
        high_price: price + 3 * SCALE,
        low_price: price - 200_000,
        last_price: price,
        volume: 5_000 * SCALE,
        bid_price: price,
        ask_price: price + 50_000,
    }
}

#[test]
fn accelerating_rise_with_confirmation_buys_then_holds() {
    let mut s = MACDStrategy::new(12, 26, 9);
    let closes = accelerating_closes();
    for &c in &closes {
        s.add_price(c);
    }
    let last = closes[closes.len() - 1];
    let depth = confirming_depth(last);
    let ticker = confirming_ticker(last);
    assert!(s.should_buy(last, Some(&depth), Some(&ticker)));
    assert!(!s.should_sell(last, Some(&depth), Some(&ticker)));

    // one flat close: the deltas disagree, the candidate falls back to hold
    s.add_price(last);
    assert!(!s.should_buy(last, Some(&depth), Some(&ticker)));
    assert!(!s.should_sell(last, Some(&depth), Some(&ticker)));
}

#[test]
fn absent_snapshots_count_as_agreement() {
    let mut s = MACDStrategy::new(12, 26, 9);
    for &c in &accelerating_closes() {
        s.add_price(c);
    }
    let last = 100 * SCALE + 200_000 * 29 * 29;
    assert!(s.should_buy(last, None, None));
}

#[test]
fn an_unconfirming_book_blocks_the_buy() {
    let mut s = MACDStrategy::new(12, 26, 9);
    let closes = accelerating_closes();
    for &c in &closes {
        s.add_price(c);
    }
    let last = closes[closes.len() - 1];
    // heavy asks near the price: no strong buying pressure
    let depth = MarketDepth {
        asks: vec![(last, 10 * SCALE)],
        bids: vec![(last, 1 * SCALE)],
    };
    assert!(!s.should_buy(last, Some(&depth), None));
}

#[test]
fn an_illiquid_ticker_blocks_the_buy() {
    let mut s = MACDStrategy::new(12, 26, 9);
    let closes = accelerating_closes();
    for &c in &closes {
        s.add_price(c);
    }
    let last = closes[closes.len() - 1];
    let mut ticker = confirming_ticker(last);
    ticker.ask_price = ticker.bid_price + ticker.bid_price / 500;  // 0.2% spread
    assert!(!s.should_buy(last, None, Some(&ticker)));
}

#[test]
fn recording_the_signal_debounces_a_repeat() {
    let mut s = MACDStrategy::new(12, 26, 9);
    for &c in &accelerating_closes() {
        s.add_price(c);
    }
    let last = 100 * SCALE + 200_000 * 29 * 29;
    assert!(s.should_buy(last, None, None));
    // by default nothing records the emitted signal, so the buy repeats;
    // once a caller records it, the same evaluation is suppressed
    assert!(s.should_buy(last, None, None));
    s.record_emitted_signal(Signal::Buy);
    assert!(!s.should_buy(last, None, None));
}

#[test]
fn too_little_history_never_signals() {
    let s = MACDStrategy::new(12, 26, 9);
    assert!(!s.should_buy(100 * SCALE, None, None));
    assert!(!s.should_sell(100 * SCALE, None, None));
}

#[test]
fn falling_prices_do_not_buy() {
    let mut s = MACDStrategy::new(12, 26, 9);
    for i in 0..30i64 {
        s.add_price(100 * SCALE - 200_000 * i * i);
    }
    let last = 100 * SCALE - 200_000 * 29 * 29;
    assert!(!s.should_buy(last, None, None));
}

#[test]
fn buy_and_sell_never_agree() {
    // across a spread of histories, the two verdicts are never both true
    for k in 0..6i64 {
        let mut s = MACDStrategy::new(12, 26, 9);
        for i in 0..30i64 {
            let wobble = (i % (k + 2)) * 300_000;
            s.add_price(100 * SCALE + (k - 3) * 200_000 * i * i / 10 + wobble);
        }
        let last = 100 * SCALE;
        let buy = s.should_buy(last, None, None);
        let sell = s.should_sell(last, None, None);
        assert!(!(buy && sell));
    }
}
