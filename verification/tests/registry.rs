use trading_core::trading::{init_currencies, risk_overlay, TradingManager};
use trading_core::types::{
    CurrencyConfig, OrderSide, OrderType, Position, TradingError, TradingStatus,
};

const SCALE: i64 = 1_000_000;

fn btc_config() -> CurrencyConfig {
    CurrencyConfig::new("BTC-USDT", "BTC", "USDT", 1 * SCALE, 1, 3, 5 * SCALE, 20)
}

#[test]
fn a_new_symbol_is_active_with_no_position() {
    let mut m = TradingManager::new();
    m.add_currency(btc_config(), 1_000);
    let all = m.get_all_status();
    assert_eq!(all.len(), 1);
    let (symbol, status) = &all[0];
    assert_eq!(symbol.as_str(), "BTC-USDT");
    assert!(matches!(status.status, TradingStatus::Active));
    assert!(status.current_position.is_none());
    assert_eq!(status.last_update, 1_000);
    assert_eq!(status.config.min_qty, 1 * SCALE);
}

#[test]
fn a_recorded_fill_replaces_the_position() {
    let mut m = TradingManager::new();
    m.add_currency(btc_config(), 1_000);
    m.record_position(
        "BTC-USDT",
        Position {
            symbol: "BTC-USDT".to_string(),
            side: OrderSide::Buy,
            quantity: 1 * SCALE,
            entry_price: 100 * SCALE,
            unrealized_pnl: 0,
            leverage: 20,
        },
    );
    let status = m.get_currency_status("BTC-USDT").unwrap();
    let p = status.current_position.unwrap();
    assert_eq!(p.side, OrderSide::Buy);
    assert_eq!(p.entry_price, 100 * SCALE);
    // a later order replaces, never nets
    m.record_position(
        "BTC-USDT",
        Position {
            symbol: "BTC-USDT".to_string(),
            side: OrderSide::Sell,
            quantity: 1 * SCALE,
            entry_price: 105 * SCALE,
            unrealized_pnl: 0,
            leverage: 20,
        },
    );
    let p2 = m.get_currency_status("BTC-USDT").unwrap().current_position.unwrap();
    assert_eq!(p2.side, OrderSide::Sell);
    assert_eq!(p2.entry_price, 105 * SCALE);
}

#[test]
fn removal_forgets_the_symbol() {
    let mut m = TradingManager::new();
    m.add_currency(btc_config(), 1_000);
    m.remove_currency("BTC-USDT");
    assert!(m.get_currency_status("BTC-USDT").is_none());
    assert_eq!(m.get_all_status().len(), 0);
}

#[test]
fn re_registration_overwrites() {
    let mut m = TradingManager::new();
    m.add_currency(btc_config(), 1_000);
    let richer = CurrencyConfig::new("BTC-USDT", "BTC", "USDT", 2 * SCALE, 1, 3, 5 * SCALE, 10);
    m.add_currency(richer, 2_000);
    let all = m.get_all_status();
    assert_eq!(all.len(), 1);
    assert_eq!(all[0].1.config.min_qty, 2 * SCALE);
    assert_eq!(all[0].1.config.leverage, 10);
    assert_eq!(all[0].1.last_update, 2_000);
}

#[test]
fn status_updates_stamp_the_time() {
    let mut m = TradingManager::new();
    m.add_currency(btc_config(), 1_000);
    m.update_currency_status("BTC-USDT", TradingStatus::Suspended, 2_000);
    let s = m.get_currency_status("BTC-USDT").unwrap();
    assert!(matches!(s.status, TradingStatus::Suspended));
    assert_eq!(s.last_update, 2_000);
    m.update_currency_status("BTC-USDT", TradingStatus::Error("venue down".to_string()), 3_000);
    let s2 = m.get_currency_status("BTC-USDT").unwrap();
    assert!(matches!(&s2.status, TradingStatus::Error(reason) if reason == "venue down"));
}

#[test]
fn orders_need_a_known_active_symbol() {
    let mut m = TradingManager::new();
    assert_eq!(
        m.place_order("BTC-USDT", OrderSide::Buy, 100 * SCALE).unwrap_err(),
        TradingError::UnknownSymbol
    );
    m.add_currency(btc_config(), 1_000);
    m.update_currency_status("BTC-USDT", TradingStatus::Suspended, 2_000);
    assert_eq!(
        m.place_order("BTC-USDT", OrderSide::Buy, 100 * SCALE).unwrap_err(),
        TradingError::TradingBlocked
    );
    m.update_currency_status("BTC-USDT", TradingStatus::Active, 3_000);
    assert!(m.place_order("BTC-USDT", OrderSide::Buy, 100 * SCALE).is_ok());
}

#[test]
fn an_order_plan_carries_the_risk_overlay() {
    let mut m = TradingManager::new();
    m.add_currency(btc_config(), 1_000);
    let plan = m.place_order("BTC-USDT", OrderSide::Buy, 100 * SCALE).unwrap();
    assert_eq!(plan.symbol.as_str(), "BTC-USDT");
    assert_eq!(plan.side, OrderSide::Buy);
    assert_eq!(plan.order_type, OrderType::Market);
    assert_eq!(plan.quantity, 1 * SCALE);
    assert_eq!(plan.take_profit_price, 110 * SCALE);
    assert_eq!(plan.stop_loss_price, 95 * SCALE);
}

#[test]
fn the_risk_overlay_is_fixed_at_one_to_two() {
    assert_eq!(risk_overlay(OrderSide::Buy, 100 * SCALE), (110 * SCALE, 95 * SCALE));
    assert_eq!(risk_overlay(OrderSide::Sell, 100 * SCALE), (90 * SCALE, 105 * SCALE));
}

#[test]
fn the_preset_list_names_eight_symbols() {
    let presets = init_currencies();
    assert_eq!(presets.len(), 8);
    assert_eq!(presets[0].symbol.as_str(), "BTC-USDT");
    assert_eq!(presets[0].min_qty, 1 * SCALE);
    assert_eq!(presets[3].symbol.as_str(), "XRP-USDT");
    assert_eq!(presets[3].min_qty, 10_000 * SCALE);
    assert!(presets.iter().all(|c| c.quote_currency == "USDT" && c.leverage == 20));
}
