//! The momentum engine and signal generator.
//!
//! `MACDStrategy` keeps a bounded window of closing prices per symbol and, for
//! each new price once the window holds `slow_period` entries, derives one
//! momentum point: a fast and a slow exponential average of the prices, their
//! difference (the oscillator), an exponential average of the oscillator (the
//! signal line), and the histogram (oscillator minus signal line).
//!
//! The exponential average is seeded at the oldest retained value and walks
//! the whole window with multiplier `2 / (period + 1)`; in fixed point one
//! step is `ema + (2 * (x - ema)) / (period + 1)` with the quotient rounded
//! toward zero. The confirmation thresholds are tuned against this seeding,
//! so it is part of the contract, not an implementation detail.
//!
//! A signal needs at least three momentum points: both recent histogram
//! deltas and their difference must agree on a direction, the latest delta
//! must exceed 3% of the previous histogram's magnitude, and the oscillator
//! must sit on the right side of its signal line (or within 0.1% of it).
//! `should_buy` / `should_sell` further require minimal strength, agreement
//! from whatever book and ticker snapshots are at hand, and that the
//! candidate differs from the last recorded signal.

use vstd::arithmetic::div_mod::{
    lemma_div_is_ordered_by_denominator, lemma_div_multiples_vanish, lemma_div_pos_is_pos,
};
use vstd::math::abs;
use vstd::prelude::*;

use crate::fixed::{div_trunc, tdiv, MAX_AMOUNT};
use crate::market::{
    spec_depth_flags, spec_ticker_flags, wf_amount, wf_depth, wf_ticker, MarketDepth, MarketTicker,
};
use crate::types::MACD;

verus! {

/// Histogram movement below this many micro-units is noise, not a signal.
pub const STRENGTH_FLOOR: i64 = 100;

/// What the generator last said for this symbol.
#[derive(Clone, Copy, Debug, PartialEq, Eq, Structural)]
pub enum Signal {
    Buy,
    Sell,
    Hold,
}

/// Per-symbol momentum engine and signal generator.
pub struct MACDStrategy {
    price_history: Vec<i64>,
    fast_period: usize,
    slow_period: usize,
    signal_period: usize,
    last_signal: Option<Signal>,
    macd_history: Vec<MACD>,
}

/// Mathematical view of a `MACDStrategy`.
#[verifier::ext_equal]
pub struct StrategyV {
    pub price_history: Seq<i64>,
    pub fast_period: int,
    pub slow_period: int,
    pub signal_period: int,
    pub last_signal: Option<Signal>,
    pub macd_history: Seq<MACD>,
}

impl View for MACDStrategy {
    type V = StrategyV;

    closed spec fn view(&self) -> StrategyV {
        StrategyV {
            price_history: self.price_history@,
            fast_period: self.fast_period as int,
            slow_period: self.slow_period as int,
            signal_period: self.signal_period as int,
            last_signal: self.last_signal,
            macd_history: self.macd_history@,
        }
    }
}

/// A momentum point the engine could have produced: the oscillator and its
/// signal line span at most twice the price range, the histogram four times.
pub open spec fn wf_macd(m: MACD) -> bool {
    &&& -2 * (MAX_AMOUNT as int) <= m.macd as int <= 2 * (MAX_AMOUNT as int)
    &&& -2 * (MAX_AMOUNT as int) <= m.signal as int <= 2 * (MAX_AMOUNT as int)
    &&& -4 * (MAX_AMOUNT as int) <= m.histogram as int <= 4 * (MAX_AMOUNT as int)
}

/// The engine's invariant: positive periods, both windows within their caps,
/// and every stored value in range.
pub open spec fn wf_strategy(v: StrategyV) -> bool {
    &&& 1 <= v.fast_period
    &&& 1 <= v.slow_period <= usize::MAX as int / 2
    &&& 1 <= v.signal_period <= usize::MAX as int / 2
    &&& v.price_history.len() <= 2 * v.slow_period
    &&& forall|i: int|
        0 <= i < v.price_history.len() ==> wf_amount(#[trigger] v.price_history[i])
    &&& v.macd_history.len() <= 2 * v.signal_period
    &&& forall|i: int| 0 <= i < v.macd_history.len() ==> wf_macd(#[trigger] v.macd_history[i])
}

/// One step of the exponential average, rounded toward zero.
pub open spec fn ema_step(prev: int, x: int, period: int) -> int {
    prev + tdiv(2 * (x - prev), period + 1)
}

/// The exponential average of a sequence, seeded at its first element.
pub open spec fn ema_rec(s: Seq<i64>, period: int) -> int
    decreases s.len(),
{
    if s.len() <= 1 {
        s[0] as int
    } else {
        ema_step(ema_rec(s.drop_last(), period), s.last() as int, period)
    }
}

/// Halving (or better) a quantity by truncating division keeps it between
/// zero and the quantity.
pub proof fn lemma_tdiv_double_bound(d: int, b: int)
    requires
        b >= 2,
    ensures
        d >= 0 ==> 0 <= tdiv(2 * d, b) <= d,
        d < 0 ==> d <= tdiv(2 * d, b) <= 0,
{
    if d >= 0 {
        lemma_div_pos_is_pos(2 * d, b);
        lemma_div_is_ordered_by_denominator(2 * d, 2, b);
        lemma_div_multiples_vanish(d, 2);
    } else {
        let m = -d;
        lemma_div_pos_is_pos(2 * m, b);
        lemma_div_is_ordered_by_denominator(2 * m, 2, b);
        lemma_div_multiples_vanish(m, 2);
    }
}

/// One average step stays between its two inputs' bounds.
pub proof fn lemma_ema_step_bounds(prev: int, x: int, period: int, lo: int, hi: int)
    requires
        period >= 1,
        lo <= prev <= hi,
        lo <= x <= hi,
    ensures
        lo <= ema_step(prev, x, period) <= hi,
{
    lemma_tdiv_double_bound(x - prev, period + 1);
}

/// The exponential average of a bounded sequence is bounded the same way.
pub proof fn lemma_ema_rec_bounds(s: Seq<i64>, period: int, lo: int, hi: int)
    requires
        period >= 1,
        s.len() >= 1,
        forall|i: int| 0 <= i < s.len() ==> lo <= #[trigger] s[i] <= hi,
    ensures
        lo <= ema_rec(s, period) <= hi,
    decreases s.len(),
{
    if s.len() > 1 {
        lemma_ema_rec_bounds(s.drop_last(), period, lo, hi);
        lemma_ema_step_bounds(ema_rec(s.drop_last(), period), s.last() as int, period, lo, hi);
    }
}

/// The oscillator values of a momentum history.
pub open spec fn macd_vals(h: Seq<MACD>) -> Seq<i64> {
    h.map_values(|m: MACD| m.macd)
}

/// The oscillator for a price window: fast average minus slow average, each
/// standing at zero while the window is shorter than its period.
pub open spec fn spec_macd_line(prices: Seq<i64>, fast: int, slow: int) -> int {
    (if prices.len() >= fast {
        ema_rec(prices, fast)
    } else {
        0
    }) - (if prices.len() >= slow {
        ema_rec(prices, slow)
    } else {
        0
    })
}

/// The signal line: the exponential average of the oscillator series, zero
/// while that series is shorter than the signal period.
pub open spec fn spec_signal_line(mvals: Seq<i64>, sigp: int) -> int {
    if mvals.len() >= sigp {
        ema_rec(mvals, sigp)
    } else {
        0
    }
}

/// The momentum point a window and a momentum history give rise to.
pub open spec fn spec_next_point(
    prices: Seq<i64>,
    fast: int,
    slow: int,
    sigp: int,
    hist: Seq<MACD>,
) -> MACD {
    let m = spec_macd_line(prices, fast, slow);
    let s = spec_signal_line(macd_vals(hist).push(m as i64), sigp);
    MACD { macd: m as i64, signal: s as i64, histogram: (m - s) as i64 }
}

/// Evict the oldest entry once a window exceeds its cap.
pub open spec fn cap_front<T>(s: Seq<T>, bound: int) -> Seq<T> {
    if s.len() > bound {
        s.drop_first()
    } else {
        s
    }
}

/// What recomputing the momentum does to the engine: nothing while the
/// window is short, otherwise one new point, the history capped at twice the
/// signal period.
pub open spec fn spec_update_macd(v: StrategyV) -> StrategyV {
    if v.price_history.len() < v.slow_period {
        v
    } else {
        let pt = spec_next_point(
            v.price_history,
            v.fast_period,
            v.slow_period,
            v.signal_period,
            v.macd_history,
        );
        StrategyV { macd_history: cap_front(v.macd_history.push(pt), 2 * v.signal_period), ..v }
    }
}

/// What one price does to the engine: it enters the window (capped at twice
/// the slow period), then the momentum is recomputed.
pub open spec fn spec_add_price(v: StrategyV, price: i64) -> StrategyV {
    spec_update_macd(
        StrategyV { price_history: cap_front(v.price_history.push(price), 2 * v.slow_period), ..v },
    )
}

/// A whole price sequence fed in order.
pub open spec fn spec_feed(v: StrategyV, prices: Seq<i64>) -> StrategyV
    decreases prices.len(),
{
    if prices.len() == 0 {
        v
    } else {
        spec_add_price(spec_feed(v, prices.drop_last()), prices.last())
    }
}

impl MACDStrategy {
    /// A fresh engine with the given periods and no history.
    pub fn new(fast_period: usize, slow_period: usize, signal_period: usize) -> (r: Self)
        requires
            1 <= fast_period,
            1 <= slow_period <= usize::MAX / 2,
            1 <= signal_period <= usize::MAX / 2,
        ensures
            r@ == (StrategyV {
                price_history: Seq::<i64>::empty(),
                fast_period: fast_period as int,
                slow_period: slow_period as int,
                signal_period: signal_period as int,
                last_signal: None::<Signal>,
                macd_history: Seq::<MACD>::empty(),
            }),
            wf_strategy(r@),
    {
        let r = MACDStrategy {
            price_history: Vec::new(),
            fast_period,
            slow_period,
            signal_period,
            last_signal: None,
            macd_history: Vec::new(),
        };
        proof {
            assert(r@ =~= (StrategyV {
                price_history: Seq::<i64>::empty(),
                fast_period: fast_period as int,
                slow_period: slow_period as int,
                signal_period: signal_period as int,
                last_signal: None::<Signal>,
                macd_history: Seq::<MACD>::empty(),
            }));
        }
        r
    }

    /// The exponential average of `prices`, or `None` when there are fewer
    /// entries than the period asks for.
    pub fn calculate_ema(&self, period: usize, prices: &Vec<i64>) -> (r: Option<i64>)
        requires
            period >= 1,
            forall|i: int|
                0 <= i < prices@.len() ==> -2 * (MAX_AMOUNT as int) <= #[trigger] prices@[i] <= 2
                    * (MAX_AMOUNT as int),
        ensures
            prices@.len() < period ==> r is None,
            prices@.len() >= period ==> (r matches Some(v) && v as int == ema_rec(
                prices@,
                period as int,
            ) && -2 * (MAX_AMOUNT as int) <= v <= 2 * (MAX_AMOUNT as int)),
            (forall|i: int|
                0 <= i < prices@.len() ==> -(MAX_AMOUNT as int) <= #[trigger] prices@[i]
                    <= MAX_AMOUNT as int) && prices@.len() >= period ==> (r matches Some(v) && -(
            MAX_AMOUNT as int) <= v <= MAX_AMOUNT as int),
    {
        if prices.len() < period {
            return None;
        }
        let ghost lo: int = if forall|i: int|
            0 <= i < prices@.len() ==> -(MAX_AMOUNT as int) <= #[trigger] prices@[i]
                <= MAX_AMOUNT as int {
            -(MAX_AMOUNT as int)
        } else {
            -2 * (MAX_AMOUNT as int)
        };
        let ghost hi: int = -lo;
        let mut ema: i64 = prices[0];
        let mut i: usize = 1;
        while i < prices.len()
            invariant
                1 <= i <= prices@.len(),
                period >= 1,
                lo == -hi,
                hi == MAX_AMOUNT as int || hi == 2 * (MAX_AMOUNT as int),
                forall|j: int| 0 <= j < prices@.len() ==> lo <= #[trigger] prices@[j] <= hi,
                ema as int == ema_rec(prices@.take(i as int), period as int),
                lo <= ema as int <= hi,
            decreases prices@.len() - i,
        {
            let x = prices[i];
            let delta: i128 = 2 * ((x as i128) - (ema as i128));
            let step = div_trunc(delta, (period as i128) + 1);
            proof {
                lemma_ema_step_bounds(ema as int, x as int, period as int, lo, hi);
                assert(prices@.take(i + 1).drop_last() =~= prices@.take(i as int));
                assert(prices@.take(i + 1).last() == prices@[i as int]);
            }
            ema = ((ema as i128) + step) as i64;
            i += 1;
        }
        proof {
            assert(prices@.take(prices@.len() as int) =~= prices@);
        }
        Some(ema)
    }

    /// Recompute the latest momentum point from the current window; a window
    /// shorter than the slow period produces nothing.
    pub fn update_macd(&mut self)
        requires
            wf_strategy(old(self)@),
        ensures
            final(self)@ == spec_update_macd(old(self)@),
            wf_strategy(final(self)@),
    {
        if self.price_history.len() < self.slow_period {
            proof {
                assert(final(self)@ =~= spec_update_macd(old(self)@));
            }
            return;
        }
        let fast_ema = match self.calculate_ema(self.fast_period, &self.price_history) {
            Some(v) => v,
            None => 0,
        };
        let slow_ema = match self.calculate_ema(self.slow_period, &self.price_history) {
            Some(v) => v,
            None => 0,
        };
        let macd_line = fast_ema - slow_ema;
        proof {
            assert(macd_line as int == spec_macd_line(
                old(self)@.price_history,
                old(self)@.fast_period,
                old(self)@.slow_period,
            ));
        }

        let mut macd_values: Vec<i64> = Vec::new();
        let mut k: usize = 0;
        while k < self.macd_history.len()
            invariant
                0 <= k <= self.macd_history@.len(),
                wf_strategy(self@),
                macd_values@ =~= macd_vals(self.macd_history@.take(k as int)),
                forall|j: int|
                    0 <= j < macd_values@.len() ==> -2 * (MAX_AMOUNT as int)
                        <= #[trigger] macd_values@[j] <= 2 * (MAX_AMOUNT as int),
            decreases self.macd_history@.len() - k,
        {
            let m = self.macd_history[k].macd;
            macd_values.push(m);
            proof {
                assert(self.macd_history@.take(k + 1).drop_last() =~= self.macd_history@.take(
                    k as int,
                ));
                assert(macd_vals(self.macd_history@.take(k + 1)) =~= macd_vals(
                    self.macd_history@.take(k as int),
                ).push(m));
            }
            k += 1;
        }
        proof {
            assert(self.macd_history@.take(self.macd_history@.len() as int)
                =~= self.macd_history@);
        }
        macd_values.push(macd_line);

        let signal_line = match self.calculate_ema(self.signal_period, &macd_values) {
            Some(v) => v,
            None => 0,
        };
        let histogram = macd_line - signal_line;
        let pt = MACD { macd: macd_line, signal: signal_line, histogram };
        proof {
            assert(macd_values@ =~= macd_vals(old(self)@.macd_history).push(macd_line));
            assert(pt == spec_next_point(
                old(self)@.price_history,
                old(self)@.fast_period,
                old(self)@.slow_period,
                old(self)@.signal_period,
                old(self)@.macd_history,
            ));
        }
        self.macd_history.push(pt);
        if self.macd_history.len() > self.signal_period * 2 {
            self.macd_history.remove(0);
            proof {
                assert(self.macd_history@ =~= old(self)@.macd_history.push(pt).drop_first());
            }
        }
        proof {
            assert(final(self)@ =~= spec_update_macd(old(self)@));
        }
    }

    /// Append one closing price; the window is capped at twice the slow
    /// period and the momentum recomputed.
    pub fn add_price(&mut self, price: i64)
        requires
            wf_strategy(old(self)@),
            wf_amount(price),
        ensures
            final(self)@ == spec_add_price(old(self)@, price),
            wf_strategy(final(self)@),
    {
        self.price_history.push(price);
        if self.price_history.len() > self.slow_period * 2 {
            self.price_history.remove(0);
            proof {
                assert(self.price_history@ =~= old(self)@.price_history.push(
                    price,
                ).drop_first());
            }
        }
        proof {
            assert(self@ =~= (StrategyV {
                price_history: cap_front(
                    old(self)@.price_history.push(price),
                    2 * old(self)@.slow_period,
                ),
                ..old(self)@
            }));
        }
        self.update_macd();
    }
}

/// The histogram trend over the last three points: `Some((rising, strong))`
/// when both deltas and their difference agree on a direction, where
/// `strong` says the latest delta exceeds 3% of the previous histogram's
/// magnitude; `None` when the deltas disagree or history is short.
pub open spec fn spec_trend(h: Seq<MACD>) -> Option<(bool, bool)> {
    if h.len() < 3 {
        None
    } else {
        let cur = h[h.len() - 1];
        let prev = h[h.len() - 2];
        let prev_prev = h[h.len() - 3];
        let curr_change = cur.histogram as int - prev.histogram as int;
        let prev_change = prev.histogram as int - prev_prev.histogram as int;
        let acceleration = curr_change - prev_change;
        let rising = curr_change > 0 && prev_change > 0 && acceleration > 0;
        let falling = curr_change < 0 && prev_change < 0 && acceleration < 0;
        if rising || falling {
            Some((rising, 100 * abs(curr_change) > 3 * abs(prev.histogram as int)))
        } else {
            None
        }
    }
}

/// The oscillator sits within 0.1% of its signal line.
pub open spec fn spec_near_cross(m: MACD) -> bool {
    1000 * abs(m.macd as int - m.signal as int) < abs(m.signal as int)
}

/// The candidate signal: `None` below two points; a buy on an accelerating
/// rise with the oscillator at or near/above its signal line; a sell on the
/// mirrored fall; otherwise hold.
pub open spec fn spec_check_momentum(h: Seq<MACD>) -> Option<Signal> {
    if h.len() < 2 {
        None
    } else {
        let cur = h[h.len() - 1];
        match spec_trend(h) {
            Some((rising, strong)) => {
                if rising && strong && (cur.macd >= cur.signal || spec_near_cross(cur)) {
                    Some(Signal::Buy)
                } else if !rising && strong && (cur.macd <= cur.signal || spec_near_cross(cur)) {
                    Some(Signal::Sell)
                } else {
                    Some(Signal::Hold)
                }
            },
            None => Some(Signal::Hold),
        }
    }
}

/// Magnitude of the latest histogram move (meaningful from two points on).
pub open spec fn spec_strength(h: Seq<MACD>) -> int {
    abs(h[h.len() - 1].histogram as int - h[h.len() - 2].histogram as int) as int
}

/// Everything `should_buy` checks, given what the book and ticker said (an
/// absent snapshot counts as agreement).
pub open spec fn spec_should_buy(v: StrategyV, depth_ok: bool, ticker_ok: bool) -> bool {
    &&& v.macd_history.len() >= 2
    &&& spec_check_momentum(v.macd_history) == Some(Signal::Buy)
    &&& spec_strength(v.macd_history) > STRENGTH_FLOOR as int
    &&& v.last_signal != Some(Signal::Buy)
    &&& depth_ok
    &&& ticker_ok
}

/// Everything `should_sell` checks.
pub open spec fn spec_should_sell(v: StrategyV, depth_ok: bool, ticker_ok: bool) -> bool {
    &&& v.macd_history.len() >= 2
    &&& spec_check_momentum(v.macd_history) == Some(Signal::Sell)
    &&& spec_strength(v.macd_history) > STRENGTH_FLOOR as int
    &&& v.last_signal != Some(Signal::Sell)
    &&& depth_ok
    &&& ticker_ok
}

fn abs_i64(x: i64) -> (r: i64)
    requires
        x > i64::MIN,
    ensures
        r as int == abs(x as int),
{
    if x >= 0 {
        x
    } else {
        -x
    }
}

impl MACDStrategy {
    /// The histogram trend over the last three momentum points.
    pub fn check_momentum_trend(&self) -> (r: Option<(bool, bool)>)
        requires
            wf_strategy(self@),
        ensures
            r == spec_trend(self@.macd_history),
    {
        let n = self.macd_history.len();
        if n < 3 {
            return None;
        }
        let current = self.macd_history[n - 1];
        let previous = self.macd_history[n - 2];
        let prev_prev = self.macd_history[n - 3];
        let curr_change = current.histogram - previous.histogram;
        let prev_change = previous.histogram - prev_prev.histogram;
        let acceleration = curr_change - prev_change;
        let rising = curr_change > 0 && prev_change > 0 && acceleration > 0;
        let falling = curr_change < 0 && prev_change < 0 && acceleration < 0;
        if rising || falling {
            let strong = 100 * abs_i64(curr_change) > 3 * abs_i64(previous.histogram);
            Some((rising, strong))
        } else {
            None
        }
    }

    fn near_cross(&self, m: MACD) -> (r: bool)
        requires
            wf_macd(m),
        ensures
            r == spec_near_cross(m),
    {
        1000 * abs_i64(m.macd - m.signal) < abs_i64(m.signal)
    }

    /// The candidate signal for the current momentum history.
    pub fn check_momentum(&self) -> (r: Option<Signal>)
        requires
            wf_strategy(self@),
        ensures
            r == spec_check_momentum(self@.macd_history),
    {
        let n = self.macd_history.len();
        if n < 2 {
            return None;
        }
        let current = self.macd_history[n - 1];
        match self.check_momentum_trend() {
            Some((rising, strong)) => {
                if rising && strong {
                    if current.macd >= current.signal || self.near_cross(current) {
                        return Some(Signal::Buy);
                    }
                } else if !rising && strong {
                    if current.macd <= current.signal || self.near_cross(current) {
                        return Some(Signal::Sell);
                    }
                }
                Some(Signal::Hold)
            },
            None => Some(Signal::Hold),
        }
    }

    /// Magnitude of the latest histogram move, from two points on.
    pub fn momentum_strength(&self) -> (r: Option<i64>)
        requires
            wf_strategy(self@),
        ensures
            self@.macd_history.len() < 2 ==> r is None,
            self@.macd_history.len() >= 2 ==> (r matches Some(v) && v as int == spec_strength(
                self@.macd_history,
            )),
    {
        let n = self.macd_history.len();
        if n < 2 {
            return None;
        }
        let current = self.macd_history[n - 1];
        let previous = self.macd_history[n - 2];
        Some(abs_i64(current.histogram - previous.histogram))
    }

    /// Depth analysis: `(strong_buy, strong_sell)` from the book rows near
    /// the reference price.
    pub fn analyze_depth(&self, depth: &MarketDepth, current_price: i64) -> (r: (bool, bool))
        requires
            wf_depth(depth),
            wf_amount(current_price),
        ensures
            r == spec_depth_flags(depth.bids@, depth.asks@, current_price),
    {
        let mut bid_vol: i128 = 0;
        let mut i: usize = 0;
        while i < depth.bids.len()
            invariant
                0 <= i <= depth.bids@.len(),
                wf_depth(depth),
                wf_amount(current_price),
                bid_vol == crate::market::bid_volume(depth.bids@.take(i as int), current_price),
                -(i as int) * (MAX_AMOUNT as int) <= bid_vol <= (i as int) * (MAX_AMOUNT as int),
            decreases depth.bids@.len() - i,
        {
            let level = depth.bids[i];
            proof {
                assert(depth.bids@.take(i + 1).drop_last() =~= depth.bids@.take(i as int));
                assert(depth.bids@.take(i + 1).last() == depth.bids@[i as int]);
            }
            if 100 * (level.0 as i128) > 99 * (current_price as i128) {
                bid_vol = bid_vol + (level.1 as i128);
            }
            i += 1;
        }
        proof {
            assert(depth.bids@.take(depth.bids@.len() as int) =~= depth.bids@);
        }
        let mut ask_vol: i128 = 0;
        let mut j: usize = 0;
        while j < depth.asks.len()
            invariant
                0 <= j <= depth.asks@.len(),
                wf_depth(depth),
                wf_amount(current_price),
                ask_vol == crate::market::ask_volume(depth.asks@.take(j as int), current_price),
                -(j as int) * (MAX_AMOUNT as int) <= ask_vol <= (j as int) * (MAX_AMOUNT as int),
            decreases depth.asks@.len() - j,
        {
            let level = depth.asks[j];
            proof {
                assert(depth.asks@.take(j + 1).drop_last() =~= depth.asks@.take(j as int));
                assert(depth.asks@.take(j + 1).last() == depth.asks@[j as int]);
            }
            if 100 * (level.0 as i128) < 101 * (current_price as i128) {
                ask_vol = ask_vol + (level.1 as i128);
            }
            j += 1;
        }
        proof {
            assert(depth.asks@.take(depth.asks@.len() as int) =~= depth.asks@);
        }
        let strong_buy = bid_vol > 0 && 5 * bid_vol > 6 * ask_vol;
        let strong_sell = ask_vol > 0 && 5 * ask_vol > 6 * bid_vol;
        (strong_buy, strong_sell)
    }

    /// Ticker analysis: `(bullish, bearish)` from daily change, range
    /// position, the volatility gate, and the illiquidity veto, in that
    /// order.
    pub fn analyze_ticker(&self, ticker: &MarketTicker) -> (r: (bool, bool))
        requires
            wf_ticker(*ticker),
        ensures
            r == spec_ticker_flags(*ticker),
    {
        let pos5: i128 = 5 * ((ticker.last_price as i128) - (ticker.low_price as i128));
        let range: i128 = (ticker.high_price as i128) - (ticker.low_price as i128);
        let mut bullish = false;
        let mut bearish = false;
        if ticker.price_change_percent > 200_000 {
            bullish = true;
        } else if ticker.price_change_percent < -200_000 {
            bearish = true;
        }
        if pos5 < range {
            bullish = true;
        } else if pos5 > 4 * range {
            bearish = true;
        }
        let volatile = 50 * range > ticker.low_price as i128;
        if volatile {
            bullish = bullish && pos5 < 2 * range;
            bearish = bearish && pos5 > 3 * range;
        }
        let illiquid = 1000 * ((ticker.ask_price as i128) - (ticker.bid_price as i128))
            > ticker.bid_price as i128;
        if illiquid {
            bullish = false;
            bearish = false;
        }
        (bullish, bearish)
    }

    /// Whether to open a long position now: a buy candidate with enough
    /// strength, not repeating the last recorded signal, and confirmed by
    /// whatever book and ticker snapshots are at hand.
    pub fn should_buy(
        &self,
        price: i64,
        depth: Option<&MarketDepth>,
        ticker: Option<&MarketTicker>,
    ) -> (r: bool)
        requires
            wf_strategy(self@),
            wf_amount(price),
            depth matches Some(d) ==> wf_depth(d),
            ticker matches Some(t) ==> wf_ticker(*t),
        ensures
            r == spec_should_buy(
                self@,
                match depth {
                    Some(d) => spec_depth_flags(d.bids@, d.asks@, price).0,
                    None => true,
                },
                match ticker {
                    Some(t) => spec_ticker_flags(*t).0,
                    None => true,
                },
            ),
    {
        let signal = self.check_momentum();
        let strength = self.momentum_strength();
        let depth_confirms = match depth {
            Some(d) => self.analyze_depth(d, price).0,
            None => true,
        };
        let ticker_confirms = match ticker {
            Some(t) => self.analyze_ticker(t).0,
            None => true,
        };
        match (signal, strength) {
            (Some(Signal::Buy), Some(strength)) => {
                let not_repeated = match self.last_signal {
                    Some(Signal::Buy) => false,
                    _ => true,
                };
                strength > STRENGTH_FLOOR && not_repeated && depth_confirms && ticker_confirms
            },
            _ => false,
        }
    }

    /// Whether to open a short position now; the mirror of `should_buy`.
    pub fn should_sell(
        &self,
        price: i64,
        depth: Option<&MarketDepth>,
        ticker: Option<&MarketTicker>,
    ) -> (r: bool)
        requires
            wf_strategy(self@),
            wf_amount(price),
            depth matches Some(d) ==> wf_depth(d),
            ticker matches Some(t) ==> wf_ticker(*t),
        ensures
            r == spec_should_sell(
                self@,
                match depth {
                    Some(d) => spec_depth_flags(d.bids@, d.asks@, price).1,
                    None => true,
                },
                match ticker {
                    Some(t) => spec_ticker_flags(*t).1,
                    None => true,
                },
            ),
    {
        let signal = self.check_momentum();
        let strength = self.momentum_strength();
        let depth_confirms = match depth {
            Some(d) => self.analyze_depth(d, price).1,
            None => true,
        };
        let ticker_confirms = match ticker {
            Some(t) => self.analyze_ticker(t).1,
            None => true,
        };
        match (signal, strength) {
            (Some(Signal::Sell), Some(strength)) => {
                let not_repeated = match self.last_signal {
                    Some(Signal::Sell) => false,
                    _ => true,
                };
                strength > STRENGTH_FLOOR && not_repeated && depth_confirms && ticker_confirms
            },
            _ => false,
        }
    }

    /// Record an emitted signal for debouncing. This is the one place the
    /// last-signal field changes; the monitor does not call it, so by default
    /// a repeated directional signal is not suppressed. A caller that wants
    /// effective debouncing records each emitted signal here.
    pub fn record_emitted_signal(&mut self, signal: Signal)
        ensures
            final(self)@ == (StrategyV { last_signal: Some(signal), ..old(self)@ }),
            wf_strategy(old(self)@) ==> wf_strategy(final(self)@),
    {
        self.last_signal = Some(signal);
        proof {
            assert(final(self)@ =~= (StrategyV { last_signal: Some(signal), ..old(self)@ }));
        }
    }

    /// The most recent momentum point, if any has been produced.
    pub fn latest_macd(&self) -> (r: Option<MACD>)
        ensures
            self@.macd_history.len() == 0 ==> r is None,
            self@.macd_history.len() > 0 ==> r == Some(self@.macd_history.last()),
    {
        let n = self.macd_history.len();
        if n == 0 {
            None
        } else {
            Some(self.macd_history[n - 1])
        }
    }

    /// How many momentum points the engine currently retains.
    pub fn momentum_point_count(&self) -> (r: usize)
        ensures
            r == self@.macd_history.len(),
    {
        self.macd_history.len()
    }

    /// How many prices the window currently retains.
    pub fn price_count(&self) -> (r: usize)
        ensures
            r == self@.price_history.len(),
    {
        self.price_history.len()
    }
}

/// Too little history produces nothing: a fresh engine fed fewer prices than
/// its slow period retains them all and emits no momentum point.
pub proof fn lemma_short_history_no_point(v: StrategyV, prices: Seq<i64>)
    requires
        wf_strategy(v),
        v.price_history.len() == 0,
        v.macd_history.len() == 0,
        prices.len() < v.slow_period,
    ensures
        spec_feed(v, prices).macd_history.len() == 0,
        spec_feed(v, prices).price_history == prices,
        spec_feed(v, prices).slow_period == v.slow_period,
    decreases prices.len(),
{
    if prices.len() == 0 {
        assert(spec_feed(v, prices) == v);
        assert(v.price_history =~= prices);
    } else {
        lemma_short_history_no_point(v, prices.drop_last());
        let w = spec_feed(v, prices.drop_last());
        assert(w.price_history.push(prices.last()) =~= prices);
    }
}

/// Prices that never fall.
pub open spec fn nondecreasing(s: Seq<i64>) -> bool {
    forall|i: int, j: int| 0 <= i <= j < s.len() ==> s[i] <= s[j]
}

/// Prices that never rise.
pub open spec fn nonincreasing(s: Seq<i64>) -> bool {
    forall|i: int, j: int| 0 <= i <= j < s.len() ==> s[i] >= s[j]
}

/// One average step keeps order: stepping a larger value toward the same
/// target never lands below stepping a smaller one.
proof fn lemma_step_monotone(a: int, b: int, x: int, m: int)
    requires
        m >= 2,
        b <= a <= x,
    ensures
        b + tdiv(2 * (x - b), m) <= a + tdiv(2 * (x - a), m),
{
    let d1 = x - a;
    let d2 = x - b;
    let delta = d2 - d1;
    // both quotients are ordinary divisions of non-negative numerators
    let q = (2 * d1) / m;
    vstd::arithmetic::div_mod::lemma_fundamental_div_mod(2 * d1, m);
    vstd::arithmetic::div_mod::lemma_mod_bound(2 * d1, m);
    vstd::arithmetic::div_mod::lemma_div_pos_is_pos(2 * d1, m);
    assert(2 * delta <= m * delta) by (nonlinear_arith)
        requires
            m >= 2,
            delta >= 0,
    ;
    assert(2 * d2 <= m * (q + delta) + (m - 1)) by (nonlinear_arith)
        requires
            2 * d2 == 2 * d1 + 2 * delta,
            2 * d1 == m * q + (2 * d1) % m,
            (2 * d1) % m <= m - 1,
            2 * delta <= m * delta,
    ;
    vstd::arithmetic::div_mod::lemma_div_is_ordered(2 * d2, m * (q + delta) + (m - 1), m);
    vstd::arithmetic::div_mod::lemma_div_multiples_vanish_fancy(q + delta, m - 1, m);
    assert((2 * d2) / m <= q + delta);
}

/// With a shorter period the average chases the prices harder: over a window
/// that never falls, the faster average never ends below the slower one.
proof fn lemma_ema_rec_ordered(s: Seq<i64>, fast: int, slow: int)
    requires
        1 <= fast <= slow,
        s.len() >= 1,
        nondecreasing(s),
    ensures
        ema_rec(s, fast) >= ema_rec(s, slow),
    decreases s.len(),
{
    if s.len() > 1 {
        let rest = s.drop_last();
        assert(nondecreasing(rest)) by {
            assert(forall|i: int, j: int|
                0 <= i <= j < rest.len() ==> rest[i] == s[i] && rest[j] == s[j]);
        }
        lemma_ema_rec_ordered(rest, fast, slow);
        let a = ema_rec(rest, fast);
        let b = ema_rec(rest, slow);
        let x = s.last() as int;
        let lo = rest[0] as int;
        let hi = rest[rest.len() - 1] as int;
        lemma_ema_rec_bounds(rest, fast, lo, hi);
        lemma_ema_rec_bounds(rest, slow, lo, hi);
        assert(hi <= x);
        // the faster step from the larger value stays ahead: first bring the
        // slow step up to the fast period, then use step monotonicity
        vstd::arithmetic::div_mod::lemma_div_pos_is_pos(2 * (x - b), slow + 1);
        vstd::arithmetic::div_mod::lemma_div_is_ordered_by_denominator(
            2 * (x - b),
            fast + 1,
            slow + 1,
        );
        lemma_step_monotone(a, b, x, fast + 1);
    }
}

/// Negating every price negates the average: the rounding is symmetric.
proof fn lemma_ema_rec_negated(s: Seq<i64>, t: Seq<i64>, period: int)
    requires
        period >= 1,
        s.len() >= 1,
        s.len() == t.len(),
        forall|i: int| 0 <= i < s.len() ==> (#[trigger] t[i]) as int == -(s[i] as int),
    ensures
        ema_rec(t, period) == -ema_rec(s, period),
    decreases s.len(),
{
    if s.len() > 1 {
        assert(t.drop_last().len() == s.drop_last().len());
        lemma_ema_rec_negated(s.drop_last(), t.drop_last(), period);
        assert(t.last() as int == -(s.last() as int));
    }
}

/// Directional sanity, upward: over a window of never-falling prices the
/// oscillator is never negative, and neither is the momentum point computed
/// from that window.
pub proof fn lemma_rising_window_momentum(
    prices: Seq<i64>,
    fast: int,
    slow: int,
    sigp: int,
    hist: Seq<MACD>,
)
    requires
        1 <= fast <= slow <= prices.len(),
        nondecreasing(prices),
        forall|i: int| 0 <= i < prices.len() ==> wf_amount(#[trigger] prices[i]),
    ensures
        spec_macd_line(prices, fast, slow) >= 0,
        spec_next_point(prices, fast, slow, sigp, hist).macd >= 0,
{
    lemma_ema_rec_ordered(prices, fast, slow);
    lemma_ema_rec_bounds(prices, fast, -(MAX_AMOUNT as int), MAX_AMOUNT as int);
    lemma_ema_rec_bounds(prices, slow, -(MAX_AMOUNT as int), MAX_AMOUNT as int);
}

/// Directional sanity, downward: over a window of never-rising prices the
/// oscillator is never positive, and neither is the momentum point computed
/// from that window.
pub proof fn lemma_falling_window_momentum(
    prices: Seq<i64>,
    fast: int,
    slow: int,
    sigp: int,
    hist: Seq<MACD>,
)
    requires
        1 <= fast <= slow <= prices.len(),
        nonincreasing(prices),
        forall|i: int| 0 <= i < prices.len() ==> wf_amount(#[trigger] prices[i]),
    ensures
        spec_macd_line(prices, fast, slow) <= 0,
        spec_next_point(prices, fast, slow, sigp, hist).macd <= 0,
{
    let flipped = prices.map_values(|v: i64| (-(v as int)) as i64);
    assert(forall|i: int|
        0 <= i < prices.len() ==> (#[trigger] flipped[i]) as int == -(prices[i] as int));
    assert(nondecreasing(flipped));
    lemma_ema_rec_ordered(flipped, fast, slow);
    lemma_ema_rec_negated(prices, flipped, fast);
    lemma_ema_rec_negated(prices, flipped, slow);
    lemma_ema_rec_bounds(prices, fast, -(MAX_AMOUNT as int), MAX_AMOUNT as int);
    lemma_ema_rec_bounds(prices, slow, -(MAX_AMOUNT as int), MAX_AMOUNT as int);
}

/// The windowed feed: after `k` prices the engine's window holds the last
/// `2 * slow_period` of them (or all, while fewer), and when fed prices that
/// never fall, every momentum point it has produced is non-negative.
proof fn lemma_rising_feed_invariant(v: StrategyV, prices: Seq<i64>)
    requires
        wf_strategy(v),
        v.fast_period <= v.slow_period,
        v.price_history.len() == 0,
        v.macd_history.len() == 0,
        nondecreasing(prices),
        forall|i: int| 0 <= i < prices.len() ==> wf_amount(#[trigger] prices[i]),
    ensures
        ({
            let w = spec_feed(v, prices);
            let n = prices.len() as int;
            let start = if n > 2 * v.slow_period {
                n - 2 * v.slow_period
            } else {
                0
            };
            &&& w.fast_period == v.fast_period
            &&& w.slow_period == v.slow_period
            &&& w.signal_period == v.signal_period
            &&& w.price_history == prices.subrange(start, n)
            &&& forall|i: int| 0 <= i < w.macd_history.len() ==> (#[trigger] w.macd_history[i]).macd >= 0
        }),
    decreases prices.len(),
{
    let n = prices.len() as int;
    let slow = v.slow_period;
    if n == 0 {
        assert(spec_feed(v, prices).price_history =~= prices.subrange(0, 0));
    } else {
        let rest = prices.drop_last();
        assert(nondecreasing(rest) && forall|i: int|
            0 <= i < rest.len() ==> wf_amount(#[trigger] rest[i])) by {
            assert(forall|i: int| 0 <= i < rest.len() ==> rest[i] == prices[i]);
        }
        lemma_rising_feed_invariant(v, rest);
        let w0 = spec_feed(v, rest);
        let start0 = if n - 1 > 2 * slow {
            n - 1 - 2 * slow
        } else {
            0
        };
        let x = prices.last();
        let pushed = w0.price_history.push(x);
        assert(pushed =~= prices.subrange(start0, n));
        let start = if n > 2 * slow {
            n - 2 * slow
        } else {
            0
        };
        let window = cap_front(pushed, 2 * slow);
        assert(window =~= prices.subrange(start, n));
        assert(nondecreasing(window) && forall|i: int|
            0 <= i < window.len() ==> wf_amount(#[trigger] window[i])) by {
            assert(forall|i: int| 0 <= i < window.len() ==> window[i] == prices[i + start]);
        }
        let w1 = StrategyV { price_history: window, ..w0 };
        if window.len() >= slow {
            lemma_rising_window_momentum(
                window,
                w1.fast_period,
                w1.slow_period,
                w1.signal_period,
                w1.macd_history,
            );
            let pt = spec_next_point(
                window,
                w1.fast_period,
                w1.slow_period,
                w1.signal_period,
                w1.macd_history,
            );
            let h1 = w1.macd_history.push(pt);
            assert(forall|i: int| 0 <= i < h1.len() ==> (#[trigger] h1[i]).macd >= 0);
            assert(forall|i: int|
                0 <= i < cap_front(h1, 2 * w1.signal_period).len() ==> (#[trigger] cap_front(
                    h1,
                    2 * w1.signal_period,
                )[i]).macd >= 0);
        }
    }
}

/// Directional sanity over a whole run: a fresh engine fed prices that never
/// fall never produces a negative momentum point.
pub proof fn lemma_rising_feed_momentum(v: StrategyV, prices: Seq<i64>)
    requires
        wf_strategy(v),
        v.fast_period <= v.slow_period,
        v.price_history.len() == 0,
        v.macd_history.len() == 0,
        nondecreasing(prices),
        forall|i: int| 0 <= i < prices.len() ==> wf_amount(#[trigger] prices[i]),
    ensures
        forall|i: int|
            0 <= i < spec_feed(v, prices).macd_history.len() ==> (#[trigger] spec_feed(
                v,
                prices,
            ).macd_history[i]).macd >= 0,
{
    lemma_rising_feed_invariant(v, prices);
}

/// Directional sanity over a whole run, downward: a fresh engine fed prices
/// that never rise never produces a positive momentum point.
pub proof fn lemma_falling_feed_momentum(v: StrategyV, prices: Seq<i64>)
    requires
        wf_strategy(v),
        v.fast_period <= v.slow_period,
        v.price_history.len() == 0,
        v.macd_history.len() == 0,
        nonincreasing(prices),
        forall|i: int| 0 <= i < prices.len() ==> wf_amount(#[trigger] prices[i]),
    ensures
        forall|i: int|
            0 <= i < spec_feed(v, prices).macd_history.len() ==> (#[trigger] spec_feed(
                v,
                prices,
            ).macd_history[i]).macd <= 0,
    decreases prices.len(),
{
    lemma_falling_feed_invariant(v, prices);
}

/// The mirror of `lemma_rising_feed_invariant` for prices that never rise.
proof fn lemma_falling_feed_invariant(v: StrategyV, prices: Seq<i64>)
    requires
        wf_strategy(v),
        v.fast_period <= v.slow_period,
        v.price_history.len() == 0,
        v.macd_history.len() == 0,
        nonincreasing(prices),
        forall|i: int| 0 <= i < prices.len() ==> wf_amount(#[trigger] prices[i]),
    ensures
        ({
            let w = spec_feed(v, prices);
            let n = prices.len() as int;
            let start = if n > 2 * v.slow_period {
                n - 2 * v.slow_period
            } else {
                0
            };
            &&& w.fast_period == v.fast_period
            &&& w.slow_period == v.slow_period
            &&& w.signal_period == v.signal_period
            &&& w.price_history == prices.subrange(start, n)
            &&& forall|i: int| 0 <= i < w.macd_history.len() ==> (#[trigger] w.macd_history[i]).macd <= 0
        }),
    decreases prices.len(),
{
    let n = prices.len() as int;
    let slow = v.slow_period;
    if n == 0 {
        assert(spec_feed(v, prices).price_history =~= prices.subrange(0, 0));
    } else {
        let rest = prices.drop_last();
        assert(nonincreasing(rest) && forall|i: int|
            0 <= i < rest.len() ==> wf_amount(#[trigger] rest[i])) by {
            assert(forall|i: int| 0 <= i < rest.len() ==> rest[i] == prices[i]);
        }
        lemma_falling_feed_invariant(v, rest);
        let w0 = spec_feed(v, rest);
        let start0 = if n - 1 > 2 * slow {
            n - 1 - 2 * slow
        } else {
            0
        };
        let x = prices.last();
        let pushed = w0.price_history.push(x);
        assert(pushed =~= prices.subrange(start0, n));
        let start = if n > 2 * slow {
            n - 2 * slow
        } else {
            0
        };
        let window = cap_front(pushed, 2 * slow);
        assert(window =~= prices.subrange(start, n));
        assert(nonincreasing(window) && forall|i: int|
            0 <= i < window.len() ==> wf_amount(#[trigger] window[i])) by {
            assert(forall|i: int| 0 <= i < window.len() ==> window[i] == prices[i + start]);
        }
        let w1 = StrategyV { price_history: window, ..w0 };
        if window.len() >= slow {
            lemma_falling_window_momentum(
                window,
                w1.fast_period,
                w1.slow_period,
                w1.signal_period,
                w1.macd_history,
            );
            let pt = spec_next_point(
                window,
                w1.fast_period,
                w1.slow_period,
                w1.signal_period,
                w1.macd_history,
            );
            let h1 = w1.macd_history.push(pt);
            assert(forall|i: int| 0 <= i < h1.len() ==> (#[trigger] h1[i]).macd <= 0);
            assert(forall|i: int|
                0 <= i < cap_front(h1, 2 * w1.signal_period).len() ==> (#[trigger] cap_front(
                    h1,
                    2 * w1.signal_period,
                )[i]).macd <= 0);
        }
    }
}

/// Debouncing, for a caller that records what it emits: against a recorded
/// buy the next buy is suppressed, and likewise for a sell.
pub proof fn lemma_recorded_signal_debounces(v: StrategyV, depth_ok: bool, ticker_ok: bool)
    ensures
        !spec_should_buy(
            (StrategyV { last_signal: Some(Signal::Buy), ..v }),
            depth_ok,
            ticker_ok,
        ),
        !spec_should_sell(
            (StrategyV { last_signal: Some(Signal::Sell), ..v }),
            depth_ok,
            ticker_ok,
        ),
{
}

/// One evaluation never calls for both a buy and a sell, whatever the book
/// and ticker said: the candidate signal is a single value.
pub proof fn lemma_signals_exclusive(
    v: StrategyV,
    depth_buy: bool,
    depth_sell: bool,
    ticker_bull: bool,
    ticker_bear: bool,
)
    ensures
        !(spec_should_buy(v, depth_buy, ticker_bull) && spec_should_sell(
            v,
            depth_sell,
            ticker_bear,
        )),
{
}

} // verus!
