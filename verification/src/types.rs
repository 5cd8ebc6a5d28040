//! Data model of the trading core: symbol configuration, lifecycle status,
//! positions, candles and momentum points.
//!
//! Types that carry a `String` get an explicit mathematical view (`…V`) whose
//! string fields are `Seq<char>`, and a hand-written `Clone` that provably
//! preserves the view.

use vstd::prelude::*;

verus! {

/// Credentials for the venue, read by the surrounding program at startup.
#[derive(Debug)]
pub struct Config {
    pub api_key: String,
    pub api_secret: String,
}

/// Candle interval offered by the venue.
#[derive(Clone, Copy, Debug, PartialEq, Eq, Structural)]
pub enum Interval {
    OneMinute,
    FiveMinutes,
    FifteenMinutes,
    OneHour,
    FourHours,
    OneDay,
}

impl Interval {
    /// The venue's wire code for this interval.
    pub fn as_code(&self) -> (s: &'static str)
        ensures
            (match self {
                Interval::OneMinute => s@ == "1m"@,
                Interval::FiveMinutes => s@ == "5m"@,
                Interval::FifteenMinutes => s@ == "15m"@,
                Interval::OneHour => s@ == "1h"@,
                Interval::FourHours => s@ == "4h"@,
                Interval::OneDay => s@ == "1d"@,
            }),
    {
        match self {
            Interval::OneMinute => "1m",
            Interval::FiveMinutes => "5m",
            Interval::FifteenMinutes => "15m",
            Interval::OneHour => "1h",
            Interval::FourHours => "4h",
            Interval::OneDay => "1d",
        }
    }
}

/// Shape of an order sent to the venue.
#[derive(Clone, Copy, Debug, PartialEq, Eq, Structural)]
pub enum OrderType {
    Limit,
    Market,
    StopMarket,
    TakeProfitMarket,
}

/// Direction of an order.
#[derive(Clone, Copy, Debug, PartialEq, Eq, Structural)]
pub enum OrderSide {
    Buy,
    Sell,
}

/// Position side, as the venue's order endpoint names it.
#[derive(Clone, Copy, Debug, PartialEq, Eq, Structural)]
pub enum PositionSide {
    Both,
    Long,
    Short,
}

/// One candle, with fixed-point prices and volume.
#[derive(Clone, Copy, Debug, PartialEq, Eq, Structural)]
pub struct Kline {
    pub open_time: i64,
    pub open: i64,
    pub high: i64,
    pub low: i64,
    pub close: i64,
    pub volume: i64,
    pub close_time: i64,
}

/// A resting order book: `(price, quantity)` rows per side.
#[derive(Debug)]
pub struct OrderBook {
    pub bids: Vec<(i64, i64)>,
    pub asks: Vec<(i64, i64)>,
}

/// One executed trade.
#[derive(Debug)]
pub struct Trade {
    pub id: String,
    pub price: i64,
    pub quantity: i64,
    pub time: i64,
}

/// One momentum point: oscillator value, its signal line, and the histogram
/// (their difference). Fixed-point amounts.
#[derive(Clone, Copy, Debug, PartialEq, Eq, Structural)]
pub struct MACD {
    pub macd: i64,
    pub signal: i64,
    pub histogram: i64,
}

/// Per-symbol configuration. Immutable once stored; replaced as a whole.
#[derive(Debug)]
pub struct CurrencyConfig {
    pub symbol: String,
    pub base_currency: String,
    pub quote_currency: String,
    pub min_qty: i64,
    pub price_precision: u32,
    pub qty_precision: u32,
    pub min_notional: i64,
    pub leverage: u32,
}

/// Mathematical view of a `CurrencyConfig`.
#[verifier::ext_equal]
pub struct CurrencyConfigV {
    pub symbol: Seq<char>,
    pub base_currency: Seq<char>,
    pub quote_currency: Seq<char>,
    pub min_qty: i64,
    pub price_precision: u32,
    pub qty_precision: u32,
    pub min_notional: i64,
    pub leverage: u32,
}

impl View for CurrencyConfig {
    type V = CurrencyConfigV;

    open spec fn view(&self) -> CurrencyConfigV {
        CurrencyConfigV {
            symbol: self.symbol@,
            base_currency: self.base_currency@,
            quote_currency: self.quote_currency@,
            min_qty: self.min_qty,
            price_precision: self.price_precision,
            qty_precision: self.qty_precision,
            min_notional: self.min_notional,
            leverage: self.leverage,
        }
    }
}

impl Clone for CurrencyConfig {
    fn clone(&self) -> (r: Self)
        ensures
            r@ == self@,
    {
        CurrencyConfig {
            symbol: self.symbol.clone(),
            base_currency: self.base_currency.clone(),
            quote_currency: self.quote_currency.clone(),
            min_qty: self.min_qty,
            price_precision: self.price_precision,
            qty_precision: self.qty_precision,
            min_notional: self.min_notional,
            leverage: self.leverage,
        }
    }
}

impl CurrencyConfig {
    pub fn new(
        symbol: &str,
        base_currency: &str,
        quote_currency: &str,
        min_qty: i64,
        price_precision: u32,
        qty_precision: u32,
        min_notional: i64,
        leverage: u32,
    ) -> (r: Self)
        ensures
            r@ == (CurrencyConfigV {
                symbol: symbol@,
                base_currency: base_currency@,
                quote_currency: quote_currency@,
                min_qty,
                price_precision,
                qty_precision,
                min_notional,
                leverage,
            }),
    {
        CurrencyConfig {
            symbol: symbol.to_owned(),
            base_currency: base_currency.to_owned(),
            quote_currency: quote_currency.to_owned(),
            min_qty,
            price_precision,
            qty_precision,
            min_notional,
            leverage,
        }
    }
}

/// Lifecycle state of a tracked symbol.
#[derive(Debug)]
pub enum TradingStatus {
    Active,
    Suspended,
    Error(String),
}

/// Mathematical view of a `TradingStatus`.
pub enum TradingStatusV {
    Active,
    Suspended,
    Error(Seq<char>),
}

impl View for TradingStatus {
    type V = TradingStatusV;

    open spec fn view(&self) -> TradingStatusV {
        match self {
            TradingStatus::Active => TradingStatusV::Active,
            TradingStatus::Suspended => TradingStatusV::Suspended,
            TradingStatus::Error(reason) => TradingStatusV::Error(reason@),
        }
    }
}

impl Clone for TradingStatus {
    fn clone(&self) -> (r: Self)
        ensures
            r@ == self@,
    {
        match self {
            TradingStatus::Active => TradingStatus::Active,
            TradingStatus::Suspended => TradingStatus::Suspended,
            TradingStatus::Error(reason) => TradingStatus::Error(reason.clone()),
        }
    }
}

impl TradingStatus {
    /// Whether orders may be placed and the monitor may evaluate the symbol.
    pub fn is_active(&self) -> (r: bool)
        ensures
            r == (self@ is Active),
    {
        match self {
            TradingStatus::Active => true,
            _ => false,
        }
    }
}

/// An open position, as recorded after a successful order.
#[derive(Debug)]
pub struct Position {
    pub symbol: String,
    pub side: OrderSide,
    pub quantity: i64,
    pub entry_price: i64,
    pub unrealized_pnl: i64,
    pub leverage: u32,
}

/// Mathematical view of a `Position`.
#[verifier::ext_equal]
pub struct PositionV {
    pub symbol: Seq<char>,
    pub side: OrderSide,
    pub quantity: i64,
    pub entry_price: i64,
    pub unrealized_pnl: i64,
    pub leverage: u32,
}

impl View for Position {
    type V = PositionV;

    open spec fn view(&self) -> PositionV {
        PositionV {
            symbol: self.symbol@,
            side: self.side,
            quantity: self.quantity,
            entry_price: self.entry_price,
            unrealized_pnl: self.unrealized_pnl,
            leverage: self.leverage,
        }
    }
}

impl Clone for Position {
    fn clone(&self) -> (r: Self)
        ensures
            r@ == self@,
    {
        Position {
            symbol: self.symbol.clone(),
            side: self.side,
            quantity: self.quantity,
            entry_price: self.entry_price,
            unrealized_pnl: self.unrealized_pnl,
            leverage: self.leverage,
        }
    }
}

/// Everything the registry holds for one symbol.
#[derive(Debug)]
pub struct CurrencyStatus {
    pub config: CurrencyConfig,
    pub status: TradingStatus,
    pub last_update: i64,
    pub current_position: Option<Position>,
}

/// Mathematical view of a `CurrencyStatus`.
#[verifier::ext_equal]
pub struct CurrencyStatusV {
    pub config: CurrencyConfigV,
    pub status: TradingStatusV,
    pub last_update: i64,
    pub current_position: Option<PositionV>,
}

impl View for CurrencyStatus {
    type V = CurrencyStatusV;

    open spec fn view(&self) -> CurrencyStatusV {
        CurrencyStatusV {
            config: self.config@,
            status: self.status@,
            last_update: self.last_update,
            current_position: match self.current_position {
                Some(p) => Some(p@),
                None => None,
            },
        }
    }
}

impl Clone for CurrencyStatus {
    fn clone(&self) -> (r: Self)
        ensures
            r@ == self@,
    {
        CurrencyStatus {
            config: self.config.clone(),
            status: self.status.clone(),
            last_update: self.last_update,
            current_position: match &self.current_position {
                Some(p) => Some(p.clone()),
                None => None,
            },
        }
    }
}

/// A fully shaped order, ready for the gateway to submit: a market order for
/// the symbol's minimum quantity with its two protective attachments.
#[derive(Debug)]
pub struct OrderPlan {
    pub symbol: String,
    pub side: OrderSide,
    pub order_type: OrderType,
    pub quantity: i64,
    pub take_profit_price: i64,
    pub stop_loss_price: i64,
}

/// Mathematical view of an `OrderPlan`.
#[verifier::ext_equal]
pub struct OrderPlanV {
    pub symbol: Seq<char>,
    pub side: OrderSide,
    pub order_type: OrderType,
    pub quantity: i64,
    pub take_profit_price: i64,
    pub stop_loss_price: i64,
}

impl View for OrderPlan {
    type V = OrderPlanV;

    open spec fn view(&self) -> OrderPlanV {
        OrderPlanV {
            symbol: self.symbol@,
            side: self.side,
            order_type: self.order_type,
            quantity: self.quantity,
            take_profit_price: self.take_profit_price,
            stop_loss_price: self.stop_loss_price,
        }
    }
}

/// Why an order was refused before reaching the gateway.
#[derive(Clone, Copy, Debug, PartialEq, Eq, Structural)]
pub enum TradingError {
    /// The symbol is not in the registry.
    UnknownSymbol,
    /// The symbol is registered but not currently tradable.
    TradingBlocked,
}

/// A numeric field from the venue did not parse as a fixed-point amount.
#[derive(Clone, Copy, Debug, PartialEq, Eq, Structural)]
pub struct ParseError;

} // verus!
