use trading_core::config::parse_currency_line;
use trading_core::fixed::{parse_amount, MAX_AMOUNT, SCALE};
use trading_core::market::{convert_depth, convert_ticker, parse_kline, DepthData, TickerData};
use trading_core::types::Interval;

#[test]
fn interval_wire_codes() {
    assert_eq!(Interval::OneMinute.as_code(), "1m");
    assert_eq!(Interval::FiveMinutes.as_code(), "5m");
    assert_eq!(Interval::FifteenMinutes.as_code(), "15m");
    assert_eq!(Interval::OneHour.as_code(), "1h");
    assert_eq!(Interval::FourHours.as_code(), "4h");
    assert_eq!(Interval::OneDay.as_code(), "1d");
}

#[test]
fn parses_plain_integers() {
    assert_eq!(parse_amount("0"), Some(0));
    assert_eq!(parse_amount("7"), Some(7 * SCALE));
    assert_eq!(parse_amount("007"), Some(7 * SCALE));
    assert_eq!(parse_amount("123"), Some(123 * SCALE));
}

#[test]
fn parses_fractions() {
    assert_eq!(parse_amount("123.45"), Some(123_450_000));
    assert_eq!(parse_amount("0.000001"), Some(1));
    assert_eq!(parse_amount("1."), Some(SCALE));
    assert_eq!(parse_amount("0.5"), Some(500_000));
}

#[test]
fn parses_negative_numbers() {
    assert_eq!(parse_amount("-0.2"), Some(-200_000));
    assert_eq!(parse_amount("-123.45"), Some(-123_450_000));
    assert_eq!(parse_amount("-0"), Some(0));
}

#[test]
fn truncates_beyond_six_fraction_digits() {
    assert_eq!(parse_amount("0.1234567"), Some(123_456));
    assert_eq!(parse_amount("0.9999999"), Some(999_999));
    assert_eq!(parse_amount("1.0000009"), Some(SCALE));
}

#[test]
fn refuses_malformed_text() {
    assert_eq!(parse_amount(""), None);
    assert_eq!(parse_amount("abc"), None);
    assert_eq!(parse_amount("1e5"), None);
    assert_eq!(parse_amount("."), None);
    assert_eq!(parse_amount(".5"), None);
    assert_eq!(parse_amount("-"), None);
    assert_eq!(parse_amount("-.5"), None);
    assert_eq!(parse_amount("1.2.3"), None);
    assert_eq!(parse_amount("1-2"), None);
    assert_eq!(parse_amount("+5"), None);
    assert_eq!(parse_amount("1 "), None);
}

#[test]
fn refuses_out_of_range_magnitudes() {
    assert_eq!(parse_amount("1000000000"), Some(MAX_AMOUNT));
    assert_eq!(parse_amount("-1000000000"), Some(-MAX_AMOUNT));
    assert_eq!(parse_amount("1000000000.000001"), None);
    assert_eq!(parse_amount("1000000001"), None);
    assert_eq!(parse_amount("99999999999999999999999999"), None);
}

#[test]
fn reads_a_manual_symbol_entry() {
    let c = parse_currency_line("BTC-USDT,BTC,USDT,0.001,1,3,5.0,20").unwrap();
    assert_eq!(c.symbol.as_str(), "BTC-USDT");
    assert_eq!(c.base_currency.as_str(), "BTC");
    assert_eq!(c.quote_currency.as_str(), "USDT");
    assert_eq!(c.min_qty, 1_000);
    assert_eq!(c.price_precision, 1);
    assert_eq!(c.qty_precision, 3);
    assert_eq!(c.min_notional, 5 * SCALE);
    assert_eq!(c.leverage, 20);
}

#[test]
fn refuses_a_malformed_symbol_entry() {
    // wrong field count
    assert!(parse_currency_line("BTC-USDT,BTC,USDT,0.001,1,3,5.0").is_err());
    assert!(parse_currency_line("").is_err());
    // a field that is not a number rejects the whole line, defaulting nothing
    assert!(parse_currency_line("BTC-USDT,BTC,USDT,lots,1,3,5.0,20").is_err());
    assert!(parse_currency_line("BTC-USDT,BTC,USDT,0.001,one,3,5.0,20").is_err());
    assert!(parse_currency_line("BTC-USDT,BTC,USDT,0.001,1,3,5.0,20,extra").is_err());
    // precision fields are plain unsigned integers
    assert!(parse_currency_line("BTC-USDT,BTC,USDT,0.001,1.5,3,5.0,20").is_err());
    assert!(parse_currency_line("BTC-USDT,BTC,USDT,0.001,-1,3,5.0,20").is_err());
}

fn row(p: &str, q: &str) -> [String; 2] {
    [p.to_string(), q.to_string()]
}

#[test]
fn convert_depth_drops_malformed_rows() {
    let raw = DepthData {
        timestamp: 1,
        asks: vec![row("100.5", "2"), row("bad", "3"), row("101", "x")],
        bids: vec![row("99.5", "4")],
        asks_coin: vec![],
        bids_coin: vec![],
    };
    let depth = convert_depth(&raw);
    assert_eq!(depth.asks, vec![(100_500_000, 2_000_000)]);
    assert_eq!(depth.bids, vec![(99_500_000, 4_000_000)]);
}

fn raw_ticker() -> TickerData {
    TickerData {
        symbol: "BTC-USDT".to_string(),
        price_change: "1.0".to_string(),
        price_change_percent: "0.5".to_string(),
        last_price: "100.1".to_string(),
        last_qty: "1".to_string(),
        high_price: "101".to_string(),
        low_price: "100".to_string(),
        volume: "5000".to_string(),
        quote_volume: "500000".to_string(),
        open_price: "99.6".to_string(),
        open_time: 1,
        close_time: 2,
        bid_price: "100.05".to_string(),
        bid_qty: "3".to_string(),
        ask_price: "100.10".to_string(),
        ask_qty: "4".to_string(),
    }
}

#[test]
fn convert_ticker_reads_all_numeric_fields() {
    let t = convert_ticker(&raw_ticker()).unwrap();
    assert_eq!(t.price_change_percent, 500_000);
    assert_eq!(t.last_price, 100_100_000);
    assert_eq!(t.high_price, 101_000_000);
    assert_eq!(t.low_price, 100_000_000);
    assert_eq!(t.volume, 5_000_000_000);
    assert_eq!(t.bid_price, 100_050_000);
    assert_eq!(t.ask_price, 100_100_000);
}

#[test]
fn convert_ticker_refuses_any_malformed_field() {
    let mut raw = raw_ticker();
    raw.low_price = "n/a".to_string();
    assert!(convert_ticker(&raw).is_err());
}

#[test]
fn parse_kline_reads_candle_fields() {
    let k = parse_kline(42, "99.5", "101", "99", "100.25", "12.5").unwrap();
    assert_eq!(k.open_time, 42);
    assert_eq!(k.close_time, 42);
    assert_eq!(k.open, 99_500_000);
    assert_eq!(k.high, 101_000_000);
    assert_eq!(k.low, 99_000_000);
    assert_eq!(k.close, 100_250_000);
    assert_eq!(k.volume, 12_500_000);
    assert!(parse_kline(42, "99.5", "101", "99", "oops", "12.5").is_err());
}
