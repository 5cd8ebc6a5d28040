use trading_core::market::{MarketDepth, MarketTicker};
use trading_core::trading::TradingManager;
use trading_core::types::{CurrencyConfig, OrderSide, TradingStatus};

const SCALE: i64 = 1_000_000;

fn btc_config() -> CurrencyConfig {
    CurrencyConfig::new("BTC-USDT", "BTC", "USDT", 1 * SCALE, 1, 3, 5 * SCALE, 20)
}

fn accelerating_closes() -> Vec<i64> {
    (0..30).map(|i: i64| 100 * SCALE + 200_000 * i * i).collect()
}

fn confirming_depth(price: i64) -> MarketDepth {
    MarketDepth {
        asks: vec![(price, 1 * SCALE)],
        bids: vec![(price, 10 * SCALE)],
    }
}

fn confirming_ticker(price: i64) -> MarketTicker {
    MarketTicker {
        price_change_percent: 500_000,
        high_price: price + 3 * SCALE,
        low_price: price - 200_000,
        last_price: price,
        volume: 5_000 * SCALE,
        bid_price: price,
        ask_price: price + 50_000,
    }
}

#[test]
fn a_full_cycle_finds_the_buy_and_shapes_the_order() {
    let mut m = TradingManager::new();
    m.add_currency(btc_config(), 1_000);
    let closes = accelerating_closes();
    let last = closes[closes.len() - 1];
    let depth = confirming_depth(last);
    let ticker = confirming_ticker(last);
    let verdict = m.process_market_data("BTC-USDT", &closes, Some(&depth), Some(&ticker));
    assert_eq!(verdict, Some(OrderSide::Buy));
    // the order the gateway would submit
    let plan = m.place_order("BTC-USDT", OrderSide::Buy, last).unwrap();
    assert_eq!(plan.quantity, 1 * SCALE);
    // a flat follow-up cycle qualifies as hold
    let verdict2 = m.process_market_data("BTC-USDT", &vec![last], Some(&depth), Some(&ticker));
    assert_eq!(verdict2, None);
}

#[test]
fn unknown_or_suspended_symbols_are_skipped() {
    let mut m = TradingManager::new();
    let closes = accelerating_closes();
    assert_eq!(m.process_market_data("BTC-USDT", &closes, None, None), None);
    m.add_currency(btc_config(), 1_000);
    m.update_currency_status("BTC-USDT", TradingStatus::Suspended, 2_000);
    assert_eq!(m.process_market_data("BTC-USDT", &closes, None, None), None);
    // the suspended cycle fed nothing: resuming and feeding now buys
    m.update_currency_status("BTC-USDT", TradingStatus::Active, 3_000);
    assert_eq!(m.process_market_data("BTC-USDT", &closes, None, None), Some(OrderSide::Buy));
}

#[test]
fn an_empty_candle_fetch_decides_nothing() {
    let mut m = TradingManager::new();
    m.add_currency(btc_config(), 1_000);
    assert_eq!(m.process_market_data("BTC-USDT", &Vec::new(), None, None), None);
}

#[test]
fn the_engine_state_carries_across_cycles() {
    let mut m = TradingManager::new();
    m.add_currency(btc_config(), 1_000);
    let closes = accelerating_closes();
    // feed the same closes in two halves: the second cycle sees the full
    // window and reaches the same verdict as one big cycle
    let first: Vec<i64> = closes[..20].to_vec();
    let second: Vec<i64> = closes[20..].to_vec();
    assert_eq!(m.process_market_data("BTC-USDT", &first, None, None), None);
    assert_eq!(m.process_market_data("BTC-USDT", &second, None, None), Some(OrderSide::Buy));
}
