//! Market snapshots and the two confirmation analyses.
//!
//! The venue hands the order book and the 24-hour ticker over as text; the
//! conversion functions here turn them into fixed-point snapshots, dropping
//! malformed book rows and refusing a ticker with any malformed field. The
//! analysis rules themselves are stated as spec functions over the snapshots;
//! `MACDStrategy::analyze_depth` and `MACDStrategy::analyze_ticker` implement
//! them.
//!
//! Every ratio rule is an exact cross-multiplied comparison:
//! - a book row counts toward buy pressure when its price is above 99% of the
//!   reference price, toward sell pressure when below 101% of it;
//! - pressure is strong when one side's volume exceeds the other by a fifth;
//! - the ticker is bullish/bearish on a ±0.2% daily change, near the day's
//!   low/high (20%/80% of the range), gated to the lower/upper 40%/60% when
//!   the day's swing exceeds 2%, and silenced entirely when the bid/ask
//!   spread exceeds 0.1% (the illiquidity veto).

use vstd::prelude::*;

use crate::fixed::{spec_parse_amount, parse_amount, MAX_AMOUNT};
use crate::types::{Kline, ParseError};

verus! {

/// Order-book snapshot: `(price, quantity)` rows, best offers first.
#[derive(Debug)]
pub struct MarketDepth {
    pub asks: Vec<(i64, i64)>,
    pub bids: Vec<(i64, i64)>,
}

/// 24-hour ticker snapshot.
#[derive(Clone, Copy, Debug, PartialEq, Eq, Structural)]
pub struct MarketTicker {
    pub price_change_percent: i64,
    pub high_price: i64,
    pub low_price: i64,
    pub last_price: i64,
    pub volume: i64,
    pub bid_price: i64,
    pub ask_price: i64,
}

/// An amount the engine may work with.
pub open spec fn wf_amount(v: i64) -> bool {
    -MAX_AMOUNT <= v <= MAX_AMOUNT
}

pub open spec fn wf_levels(s: Seq<(i64, i64)>) -> bool {
    forall|i: int| 0 <= i < s.len() ==> wf_amount(#[trigger] s[i].0) && wf_amount(s[i].1)
}

pub open spec fn wf_depth(d: &MarketDepth) -> bool {
    wf_levels(d.asks@) && wf_levels(d.bids@)
}

pub open spec fn wf_ticker(t: MarketTicker) -> bool {
    &&& wf_amount(t.price_change_percent)
    &&& wf_amount(t.high_price)
    &&& wf_amount(t.low_price)
    &&& wf_amount(t.last_price)
    &&& wf_amount(t.volume)
    &&& wf_amount(t.bid_price)
    &&& wf_amount(t.ask_price)
}

/// Total bid quantity at prices above 99% of the reference price.
pub open spec fn bid_volume(bids: Seq<(i64, i64)>, price: i64) -> int
    decreases bids.len(),
{
    if bids.len() == 0 {
        0
    } else {
        bid_volume(bids.drop_last(), price) + if 100 * (bids.last().0 as int) > 99 * (
        price as int) {
            bids.last().1 as int
        } else {
            0
        }
    }
}

/// Total ask quantity at prices below 101% of the reference price.
pub open spec fn ask_volume(asks: Seq<(i64, i64)>, price: i64) -> int
    decreases asks.len(),
{
    if asks.len() == 0 {
        0
    } else {
        ask_volume(asks.drop_last(), price) + if 100 * (asks.last().0 as int) < 101 * (
        price as int) {
            asks.last().1 as int
        } else {
            0
        }
    }
}

/// Depth analysis: `(strong_buy, strong_sell)`. A side is strong when it has
/// volume near the reference price and exceeds the other side's by more than
/// a fifth (an absent other side counts as zero).
pub open spec fn spec_depth_flags(bids: Seq<(i64, i64)>, asks: Seq<(i64, i64)>, price: i64) -> (
    bool,
    bool,
) {
    let bv = bid_volume(bids, price);
    let av = ask_volume(asks, price);
    (bv > 0 && 5 * bv > 6 * av, av > 0 && 5 * av > 6 * bv)
}

/// Ticker analysis: `(bullish, bearish)`, the rules applied in order: daily
/// change, position in the day's range, the volatility gate, and last the
/// illiquidity veto.
pub open spec fn spec_ticker_flags(t: MarketTicker) -> (bool, bool) {
    let pos5 = 5 * (t.last_price as int - t.low_price as int);
    let range = t.high_price as int - t.low_price as int;
    let bull1 = t.price_change_percent > 200_000;
    let bear1 = t.price_change_percent < -200_000;
    let bull2 = bull1 || pos5 < range;
    let bear2 = bear1 || (!(pos5 < range) && pos5 > 4 * range);
    let volatile = 50 * range > t.low_price as int;
    let bull3 = if volatile {
        bull2 && pos5 < 2 * range
    } else {
        bull2
    };
    let bear3 = if volatile {
        bear2 && pos5 > 3 * range
    } else {
        bear2
    };
    let illiquid = 1000 * (t.ask_price as int - t.bid_price as int) > t.bid_price as int;
    if illiquid {
        (false, false)
    } else {
        (bull3, bear3)
    }
}

/// The illiquidity veto: whatever the other fields say, a spread above a
/// tenth of a percent forces both ticker flags off.
pub proof fn lemma_illiquidity_veto(t: MarketTicker)
    requires
        1000 * (t.ask_price as int - t.bid_price as int) > t.bid_price as int,
    ensures
        spec_ticker_flags(t) == (false, false),
{
}

/// The two depth flags are never both set: buy and sell pressure cannot both
/// exceed the other by a fifth.
pub proof fn lemma_depth_flags_exclusive(bids: Seq<(i64, i64)>, asks: Seq<(i64, i64)>, price: i64)
    ensures
        !(spec_depth_flags(bids, asks, price).0 && spec_depth_flags(bids, asks, price).1),
{
}

/// A book with no asks and bid volume near the reference price signals
/// strong buying and no strong selling.
pub proof fn lemma_empty_ask_book(bids: Seq<(i64, i64)>, asks: Seq<(i64, i64)>, price: i64)
    requires
        asks.len() == 0,
        bid_volume(bids, price) > 0,
    ensures
        spec_depth_flags(bids, asks, price) == (true, false),
{
}

/// Raw order-book snapshot as the venue reports it: each row a
/// `[price, quantity]` pair of decimal strings.
pub struct DepthData {
    pub timestamp: i64,
    pub asks: Vec<[String; 2]>,
    pub bids: Vec<[String; 2]>,
    pub asks_coin: Vec<[String; 2]>,
    pub bids_coin: Vec<[String; 2]>,
}

/// Raw 24-hour ticker as the venue reports it.
pub struct TickerData {
    pub symbol: String,
    pub price_change: String,
    pub price_change_percent: String,
    pub last_price: String,
    pub last_qty: String,
    pub high_price: String,
    pub low_price: String,
    pub volume: String,
    pub quote_volume: String,
    pub open_price: String,
    pub open_time: i64,
    pub close_time: i64,
    pub bid_price: String,
    pub bid_qty: String,
    pub ask_price: String,
    pub ask_qty: String,
}

/// Both cells of a book row as fixed-point amounts, or `None` if either is
/// malformed.
pub open spec fn spec_parse_level(row: [String; 2]) -> Option<(i64, i64)> {
    match (spec_parse_amount(row@[0]@), spec_parse_amount(row@[1]@)) {
        (Some(p), Some(q)) => Some((p, q)),
        _ => None,
    }
}

/// The well-formed rows of a raw book side, in order; malformed rows are
/// dropped.
pub open spec fn spec_parse_levels(rows: Seq<[String; 2]>) -> Seq<(i64, i64)>
    decreases rows.len(),
{
    if rows.len() == 0 {
        Seq::<(i64, i64)>::empty()
    } else {
        let rest = spec_parse_levels(rows.drop_last());
        match spec_parse_level(rows.last()) {
            Some(l) => rest.push(l),
            None => rest,
        }
    }
}

fn parse_levels(rows: &Vec<[String; 2]>) -> (r: Vec<(i64, i64)>)
    ensures
        r@ == spec_parse_levels(rows@),
        wf_levels(r@),
{
    let mut out: Vec<(i64, i64)> = Vec::new();
    for i in 0..rows.len()
        invariant
            out@ == spec_parse_levels(rows@.take(i as int)),
            wf_levels(out@),
    {
        let row = &rows[i];
        let p = parse_amount(row[0].as_str());
        let q = parse_amount(row[1].as_str());
        proof {
            assert(rows@.take(i + 1).drop_last() =~= rows@.take(i as int));
            assert(rows@.take(i + 1).last() == rows@[i as int]);
        }
        match (p, q) {
            (Some(pv), Some(qv)) => {
                out.push((pv, qv));
            },
            _ => {},
        }
    }
    proof {
        assert(rows@.take(rows@.len() as int) =~= rows@);
    }
    out
}

/// Turn a raw book snapshot into a fixed-point one, keeping only the rows
/// whose price and quantity both parse.
pub fn convert_depth(d: &DepthData) -> (r: MarketDepth)
    ensures
        r.asks@ == spec_parse_levels(d.asks@),
        r.bids@ == spec_parse_levels(d.bids@),
        wf_depth(&r),
{
    MarketDepth { asks: parse_levels(&d.asks), bids: parse_levels(&d.bids) }
}

/// Turn a raw ticker into a fixed-point one; any malformed numeric field
/// refuses the whole ticker.
pub fn convert_ticker(t: &TickerData) -> (r: Result<MarketTicker, ParseError>)
    ensures
        (match r {
            Ok(m) => {
                &&& Some(m.price_change_percent) == spec_parse_amount(t.price_change_percent@)
                &&& Some(m.high_price) == spec_parse_amount(t.high_price@)
                &&& Some(m.low_price) == spec_parse_amount(t.low_price@)
                &&& Some(m.last_price) == spec_parse_amount(t.last_price@)
                &&& Some(m.volume) == spec_parse_amount(t.volume@)
                &&& Some(m.bid_price) == spec_parse_amount(t.bid_price@)
                &&& Some(m.ask_price) == spec_parse_amount(t.ask_price@)
                &&& wf_ticker(m)
            },
            Err(_) => {
                ||| spec_parse_amount(t.price_change_percent@) is None
                ||| spec_parse_amount(t.high_price@) is None
                ||| spec_parse_amount(t.low_price@) is None
                ||| spec_parse_amount(t.last_price@) is None
                ||| spec_parse_amount(t.volume@) is None
                ||| spec_parse_amount(t.bid_price@) is None
                ||| spec_parse_amount(t.ask_price@) is None
            },
        }),
{
    let pcp = parse_amount(t.price_change_percent.as_str());
    let high = parse_amount(t.high_price.as_str());
    let low = parse_amount(t.low_price.as_str());
    let last = parse_amount(t.last_price.as_str());
    let vol = parse_amount(t.volume.as_str());
    let bid = parse_amount(t.bid_price.as_str());
    let ask = parse_amount(t.ask_price.as_str());
    match (pcp, high, low, last, vol, bid, ask) {
        (Some(p), Some(h), Some(l), Some(c), Some(v), Some(b), Some(a)) => Ok(
            MarketTicker {
                price_change_percent: p,
                high_price: h,
                low_price: l,
                last_price: c,
                volume: v,
                bid_price: b,
                ask_price: a,
            },
        ),
        _ => Err(ParseError),
    }
}

/// Read one candle from the venue's strings; the venue reports a single
/// timestamp, which stands as both open and close time.
pub fn parse_kline(
    time: i64,
    open: &str,
    high: &str,
    low: &str,
    close: &str,
    volume: &str,
) -> (r: Result<Kline, ParseError>)
    ensures
        (match r {
            Ok(k) => {
                &&& k.open_time == time && k.close_time == time
                &&& Some(k.open) == spec_parse_amount(open@)
                &&& Some(k.high) == spec_parse_amount(high@)
                &&& Some(k.low) == spec_parse_amount(low@)
                &&& Some(k.close) == spec_parse_amount(close@)
                &&& Some(k.volume) == spec_parse_amount(volume@)
                &&& wf_amount(k.close)
            },
            Err(_) => {
                ||| spec_parse_amount(open@) is None
                ||| spec_parse_amount(high@) is None
                ||| spec_parse_amount(low@) is None
                ||| spec_parse_amount(close@) is None
                ||| spec_parse_amount(volume@) is None
            },
        }),
{
    let o = parse_amount(open);
    let h = parse_amount(high);
    let l = parse_amount(low);
    let c = parse_amount(close);
    let v = parse_amount(volume);
    match (o, h, l, c, v) {
        (Some(ov), Some(hv), Some(lv), Some(cv), Some(vv)) => Ok(
            Kline {
                open_time: time,
                open: ov,
                high: hv,
                low: lv,
                close: cv,
                volume: vv,
                close_time: time,
            },
        ),
        _ => Err(ParseError),
    }
}

} // verus!
