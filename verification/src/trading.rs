//! The per-symbol registry and the trading decisions built on it.
//!
//! `TradingManager` owns one `CurrencyStatus` and one momentum engine per
//! tracked symbol. It is a plain data structure; the surrounding program
//! wraps it in whatever locking its scheduler needs and performs the venue
//! calls, handing the fetched values in and the produced order plans out.
//!
//! Contracts are stated over `lookup`, a first-match search of the key/value
//! view of each table; both tables keep their keys unique, so `lookup` is
//! exactly the map the registry represents.

use vstd::prelude::*;

use crate::fixed::{div_trunc, str_eq, tdiv, MAX_AMOUNT};
use crate::market::{
    spec_depth_flags, spec_ticker_flags, wf_amount, wf_depth, wf_ticker, MarketDepth, MarketTicker,
};
use crate::strategy::{
    spec_feed, spec_should_buy, spec_should_sell, wf_strategy, MACDStrategy, Signal, StrategyV,
};
use crate::types::{
    CurrencyConfig, CurrencyStatus, CurrencyStatusV, OrderPlan, OrderPlanV, OrderSide, OrderType,
    Position, TradingError, TradingStatus, TradingStatusV,
};

verus! {

/// First value stored under `key`, or `None`.
pub open spec fn lookup<T>(s: Seq<(Seq<char>, T)>, key: Seq<char>) -> Option<T>
    decreases s.len(),
{
    if s.len() == 0 {
        None
    } else if s[0].0 == key {
        Some(s[0].1)
    } else {
        lookup(s.drop_first(), key)
    }
}

/// No two entries share a key.
pub open spec fn unique_keys<T>(s: Seq<(Seq<char>, T)>) -> bool {
    forall|i: int, j: int| 0 <= i < j < s.len() ==> (#[trigger] s[i]).0 != (#[trigger] s[j]).0
}

/// When no entry has the key, `lookup` finds nothing.
pub proof fn lemma_lookup_none<T>(s: Seq<(Seq<char>, T)>, key: Seq<char>)
    requires
        forall|j: int| 0 <= j < s.len() ==> (#[trigger] s[j]).0 != key,
    ensures
        lookup(s, key) is None,
    decreases s.len(),
{
    if s.len() > 0 {
        assert forall|j: int| 0 <= j < s.drop_first().len() implies (#[trigger] s.drop_first()[j]).0
            != key by {
            assert(s.drop_first()[j] == s[j + 1]);
        }
        lemma_lookup_none(s.drop_first(), key);
    }
}

/// `lookup` finds the entry at the first index holding the key.
pub proof fn lemma_lookup_at<T>(s: Seq<(Seq<char>, T)>, key: Seq<char>, i: int)
    requires
        0 <= i < s.len(),
        s[i].0 == key,
        forall|j: int| 0 <= j < i ==> (#[trigger] s[j]).0 != key,
    ensures
        lookup(s, key) == Some(s[i].1),
    decreases i,
{
    if i > 0 {
        assert forall|j: int| 0 <= j < i - 1 implies (#[trigger] s.drop_first()[j]).0 != key by {
            assert(s.drop_first()[j] == s[j + 1]);
        }
        assert(s.drop_first()[i - 1] == s[i]);
        lemma_lookup_at(s.drop_first(), key, i - 1);
    }
}

/// Appending a fresh key stores its value and touches no other key.
pub proof fn lemma_lookup_push<T>(s: Seq<(Seq<char>, T)>, key: Seq<char>, v: T, k: Seq<char>)
    requires
        forall|j: int| 0 <= j < s.len() ==> (#[trigger] s[j]).0 != key,
    ensures
        lookup(s.push((key, v)), key) == Some(v),
        k != key ==> lookup(s.push((key, v)), k) == lookup(s, k),
        unique_keys(s) ==> unique_keys(s.push((key, v))),
    decreases s.len(),
{
    if s.len() == 0 {
        assert(s.push((key, v))[0] == (key, v));
        assert(s.push((key, v)).drop_first() =~= Seq::<(Seq<char>, T)>::empty());
        lemma_lookup_none(s.push((key, v)).drop_first(), k);
        lemma_lookup_none(s, k);
    } else {
        assert(s.push((key, v))[0] == s[0]);
        assert(s.push((key, v)).drop_first() =~= s.drop_first().push((key, v)));
        assert forall|j: int| 0 <= j < s.drop_first().len() implies (#[trigger] s.drop_first()[j]).0
            != key by {
            assert(s.drop_first()[j] == s[j + 1]);
        }
        lemma_lookup_push(s.drop_first(), key, v, k);
    }
    if unique_keys(s) {
        assert forall|i: int, j: int| 0 <= i < j < s.push((key, v)).len() implies (#[trigger] s.push(
            (key, v),
        )[i]).0 != (#[trigger] s.push((key, v))[j]).0 by {
            if j < s.len() {
                assert(s.push((key, v))[i] == s[i] && s.push((key, v))[j] == s[j]);
            } else {
                assert(s.push((key, v))[i] == s[i] && s.push((key, v))[j] == (key, v));
            }
        }
    }
}

/// Replacing the entry at a key's index stores the new value and touches no
/// other key.
pub proof fn lemma_lookup_update<T>(s: Seq<(Seq<char>, T)>, i: int, p: (Seq<char>, T), k: Seq<char>)
    requires
        0 <= i < s.len(),
        p.0 == s[i].0,
        unique_keys(s),
    ensures
        lookup(s.update(i, p), p.0) == Some(p.1),
        k != p.0 ==> lookup(s.update(i, p), k) == lookup(s, k),
        unique_keys(s.update(i, p)),
    decreases i,
{
    if i == 0 {
        assert(s.update(0, p)[0] == p);
        assert(s.update(0, p).drop_first() =~= s.drop_first());
    } else {
        assert(s.update(i, p)[0] == s[0]);
        assert(s[0].0 != s[i].0);
        assert(s.update(i, p).drop_first() =~= s.drop_first().update(i - 1, p));
        assert forall|a: int, b: int| 0 <= a < b < s.drop_first().len() implies (
        #[trigger] s.drop_first()[a]).0 != (#[trigger] s.drop_first()[b]).0 by {
            assert(s.drop_first()[a] == s[a + 1] && s.drop_first()[b] == s[b + 1]);
        }
        assert(s.drop_first()[i - 1] == s[i]);
        lemma_lookup_update(s.drop_first(), i - 1, p, k);
    }
    assert forall|a: int, b: int| 0 <= a < b < s.update(i, p).len() implies (#[trigger] s.update(
        i,
        p,
    )[a]).0 != (#[trigger] s.update(i, p)[b]).0 by {
        assert(s.update(i, p)[a].0 == s[a].0 && s.update(i, p)[b].0 == s[b].0);
    }
}

/// Removing a key's entry empties that key and touches no other.
pub proof fn lemma_lookup_remove<T>(s: Seq<(Seq<char>, T)>, i: int, k: Seq<char>)
    requires
        0 <= i < s.len(),
        unique_keys(s),
    ensures
        lookup(s.remove(i), s[i].0) is None,
        k != s[i].0 ==> lookup(s.remove(i), k) == lookup(s, k),
        unique_keys(s.remove(i)),
    decreases i,
{
    s.remove_ensures(i);
    if i == 0 {
        assert(s.remove(0) =~= s.drop_first());
        assert forall|j: int| 0 <= j < s.drop_first().len() implies (#[trigger] s.drop_first()[j]).0
            != s[0].0 by {
            assert(s.drop_first()[j] == s[j + 1]);
        }
        lemma_lookup_none(s.drop_first(), s[0].0);
    } else {
        assert(s.remove(i)[0] == s[0]);
        assert(s.remove(i).drop_first() =~= s.drop_first().remove(i - 1));
        assert forall|a: int, b: int| 0 <= a < b < s.drop_first().len() implies (
        #[trigger] s.drop_first()[a]).0 != (#[trigger] s.drop_first()[b]).0 by {
            assert(s.drop_first()[a] == s[a + 1] && s.drop_first()[b] == s[b + 1]);
        }
        assert(s.drop_first()[i - 1] == s[i]);
        lemma_lookup_remove(s.drop_first(), i - 1, k);
        assert(s[0].0 != s[i].0);
    }
    assert forall|a: int, b: int| 0 <= a < b < s.remove(i).len() implies (#[trigger] s.remove(
        i,
    )[a]).0 != (#[trigger] s.remove(i)[b]).0 by {
        let sa = if a < i {
            a
        } else {
            a + 1
        };
        let sb = if b < i {
            b
        } else {
            b + 1
        };
        assert(s.remove(i)[a] == s[sa] && s.remove(i)[b] == s[sb]);
    }
}

/// The key/value view of a registry table.
pub open spec fn entries_view<T: View>(s: Seq<(String, T)>) -> Seq<(Seq<char>, T::V)> {
    s.map_values(|p: (String, T)| (p.0@, p.1@))
}

/// The per-symbol registry: symbol configuration and live status on one
/// side, the symbol's momentum engine on the other.
pub struct TradingManager {
    currencies: Vec<(String, CurrencyStatus)>,
    strategies: Vec<(String, MACDStrategy)>,
}

/// Mathematical view of the registry: two key/value tables.
#[verifier::ext_equal]
pub struct TradingManagerV {
    pub currencies: Seq<(Seq<char>, CurrencyStatusV)>,
    pub strategies: Seq<(Seq<char>, StrategyV)>,
}

impl View for TradingManager {
    type V = TradingManagerV;

    closed spec fn view(&self) -> TradingManagerV {
        TradingManagerV {
            currencies: entries_view(self.currencies@),
            strategies: entries_view(self.strategies@),
        }
    }
}

/// The registry's invariant: unique keys in both tables, every engine well
/// formed.
pub open spec fn wf_manager(v: TradingManagerV) -> bool {
    &&& unique_keys(v.currencies)
    &&& unique_keys(v.strategies)
    &&& forall|i: int| 0 <= i < v.strategies.len() ==> wf_strategy((#[trigger] v.strategies[i]).1)
}

impl TradingManager {
    /// An empty registry.
    pub fn new() -> (r: Self)
        ensures
            r@.currencies.len() == 0,
            r@.strategies.len() == 0,
            wf_manager(r@),
    {
        TradingManager { currencies: Vec::new(), strategies: Vec::new() }
    }

    fn find_currency_index(&self, symbol: &str) -> (r: Option<usize>)
        ensures
            match r {
                Some(i) => i < self@.currencies.len() && self@.currencies[i as int].0 == symbol@
                    && (forall|j: int|
                    0 <= j < i ==> (#[trigger] self@.currencies[j]).0 != symbol@),
                None => forall|j: int|
                    0 <= j < self@.currencies.len() ==> (#[trigger] self@.currencies[j]).0
                        != symbol@,
            },
    {
        let mut i: usize = 0;
        while i < self.currencies.len()
            invariant
                0 <= i <= self.currencies@.len(),
                self@.currencies.len() == self.currencies@.len(),
                forall|j: int| 0 <= j < i ==> (#[trigger] self@.currencies[j]).0 != symbol@,
                forall|j: int|
                    0 <= j < self.currencies@.len() ==> (#[trigger] self@.currencies[j]).0
                        == self.currencies@[j].0@,
            decreases self.currencies@.len() - i,
        {
            if str_eq(self.currencies[i].0.as_str(), symbol) {
                return Some(i);
            }
            i += 1;
        }
        None
    }

    fn find_strategy_index(&self, symbol: &str) -> (r: Option<usize>)
        ensures
            match r {
                Some(i) => i < self@.strategies.len() && self@.strategies[i as int].0 == symbol@
                    && (forall|j: int|
                    0 <= j < i ==> (#[trigger] self@.strategies[j]).0 != symbol@),
                None => forall|j: int|
                    0 <= j < self@.strategies.len() ==> (#[trigger] self@.strategies[j]).0
                        != symbol@,
            },
    {
        let mut i: usize = 0;
        while i < self.strategies.len()
            invariant
                0 <= i <= self.strategies@.len(),
                self@.strategies.len() == self.strategies@.len(),
                forall|j: int| 0 <= j < i ==> (#[trigger] self@.strategies[j]).0 != symbol@,
                forall|j: int|
                    0 <= j < self.strategies@.len() ==> (#[trigger] self@.strategies[j]).0
                        == self.strategies@[j].0@,
            decreases self.strategies@.len() - i,
        {
            if str_eq(self.strategies[i].0.as_str(), symbol) {
                return Some(i);
            }
            i += 1;
        }
        None
    }

    /// Drop a symbol from both tables; unknown symbols are a no-op.
    pub fn remove_currency(&mut self, symbol: &str)
        requires
            wf_manager(old(self)@),
        ensures
            wf_manager(final(self)@),
            lookup(final(self)@.currencies, symbol@) is None,
            lookup(final(self)@.strategies, symbol@) is None,
            forall|k: Seq<char>|
                k != symbol@ ==> lookup(final(self)@.currencies, k) == lookup(
                    old(self)@.currencies,
                    k,
                ),
            forall|k: Seq<char>|
                k != symbol@ ==> lookup(final(self)@.strategies, k) == lookup(
                    old(self)@.strategies,
                    k,
                ),
    {
        let cidx = self.find_currency_index(symbol);
        match cidx {
            Some(i) => {
                let ghost pre = self@.currencies;
                self.currencies.remove(i);
                proof {
                    assert(entries_view(self.currencies@) =~= pre.remove(i as int));
                    lemma_lookup_remove(pre, i as int, symbol@);
                    assert forall|k: Seq<char>| k != symbol@ implies lookup(
                        pre.remove(i as int),
                        k,
                    ) == lookup(pre, k) by {
                        lemma_lookup_remove(pre, i as int, k);
                    }
                }
            },
            None => {
                proof {
                    lemma_lookup_none(self@.currencies, symbol@);
                }
            },
        }
        let sidx = self.find_strategy_index(symbol);
        match sidx {
            Some(i) => {
                let ghost pre = self@.strategies;
                self.strategies.remove(i);
                proof {
                    assert(entries_view(self.strategies@) =~= pre.remove(i as int));
                    lemma_lookup_remove(pre, i as int, symbol@);
                    assert forall|k: Seq<char>| k != symbol@ implies lookup(
                        pre.remove(i as int),
                        k,
                    ) == lookup(pre, k) by {
                        lemma_lookup_remove(pre, i as int, k);
                    }
                }
            },
            None => {
                proof {
                    lemma_lookup_none(self@.strategies, symbol@);
                }
            },
        }
    }

    /// Register a symbol (replacing any earlier registration): status
    /// `Active`, no position, a fresh momentum engine with the standard
    /// periods, and the given time as last update.
    pub fn add_currency(&mut self, config: CurrencyConfig, now_millis: i64)
        requires
            wf_manager(old(self)@),
        ensures
            wf_manager(final(self)@),
            lookup(final(self)@.currencies, config.symbol@) == Some(
                CurrencyStatusV {
                    config: config@,
                    status: TradingStatusV::Active,
                    last_update: now_millis,
                    current_position: None,
                },
            ),
            lookup(final(self)@.strategies, config.symbol@) == Some(
                StrategyV {
                    price_history: Seq::<i64>::empty(),
                    fast_period: 12,
                    slow_period: 26,
                    signal_period: 9,
                    last_signal: None::<Signal>,
                    macd_history: Seq::<crate::types::MACD>::empty(),
                },
            ),
            forall|k: Seq<char>|
                k != config.symbol@ ==> lookup(final(self)@.currencies, k) == lookup(
                    old(self)@.currencies,
                    k,
                ),
            forall|k: Seq<char>|
                k != config.symbol@ ==> lookup(final(self)@.strategies, k) == lookup(
                    old(self)@.strategies,
                    k,
                ),
    {
        self.remove_currency(config.symbol.as_str());
        let ghost mid = self@;
        let key = config.symbol.clone();
        let key2 = config.symbol.clone();
        let ghost symbol_key = config.symbol@;
        let status = CurrencyStatus {
            config,
            status: TradingStatus::Active,
            last_update: now_millis,
            current_position: None,
        };
        let ghost status_v = status@;
        proof {
            assert forall|j: int| 0 <= j < mid.currencies.len() implies (
            #[trigger] mid.currencies[j]).0 != symbol_key by {
                if mid.currencies[j].0 == symbol_key {
                    lemma_lookup_at(mid.currencies, symbol_key, j);
                }
            }
            assert forall|j: int| 0 <= j < mid.strategies.len() implies (
            #[trigger] mid.strategies[j]).0 != symbol_key by {
                if mid.strategies[j].0 == symbol_key {
                    lemma_lookup_at(mid.strategies, symbol_key, j);
                }
            }
        }
        self.currencies.push((key, status));
        proof {
            assert(entries_view(self.currencies@) =~= mid.currencies.push(
                (symbol_key, status_v),
            ));
            lemma_lookup_push(mid.currencies, symbol_key, status_v, symbol_key);
            assert forall|k: Seq<char>| k != symbol_key implies lookup(
                mid.currencies.push((symbol_key, status_v)),
                k,
            ) == lookup(mid.currencies, k) by {
                lemma_lookup_push(mid.currencies, symbol_key, status_v, k);
            }
        }
        let engine = MACDStrategy::new(12, 26, 9);
        let ghost engine_v = engine@;
        self.strategies.push((key2, engine));
        proof {
            assert(entries_view(self.strategies@) =~= mid.strategies.push(
                (symbol_key, engine_v),
            ));
            lemma_lookup_push(mid.strategies, symbol_key, engine_v, symbol_key);
            assert forall|k: Seq<char>| k != symbol_key implies lookup(
                mid.strategies.push((symbol_key, engine_v)),
                k,
            ) == lookup(mid.strategies, k) by {
                lemma_lookup_push(mid.strategies, symbol_key, engine_v, k);
            }
        }
    }

    /// A copy of the symbol's status, if it is registered.
    pub fn get_currency_status(&self, symbol: &str) -> (r: Option<CurrencyStatus>)
        requires
            wf_manager(self@),
        ensures
            match r {
                Some(cs) => lookup(self@.currencies, symbol@) == Some(cs@),
                None => lookup(self@.currencies, symbol@) is None,
            },
    {
        match self.find_currency_index(symbol) {
            Some(i) => {
                proof {
                    lemma_lookup_at(self@.currencies, symbol@, i as int);
                }
                Some(self.currencies[i].1.clone())
            },
            None => {
                proof {
                    lemma_lookup_none(self@.currencies, symbol@);
                }
                None
            },
        }
    }

    /// Set the symbol's lifecycle state, stamping the update time; unknown
    /// symbols are a no-op.
    pub fn update_currency_status(&mut self, symbol: &str, status: TradingStatus, now_millis: i64)
        requires
            wf_manager(old(self)@),
        ensures
            wf_manager(final(self)@),
            final(self)@.strategies == old(self)@.strategies,
            (match lookup(old(self)@.currencies, symbol@) {
                Some(cs) => lookup(final(self)@.currencies, symbol@) == Some(
                    CurrencyStatusV { status: status@, last_update: now_millis, ..cs },
                ),
                None => final(self)@ == old(self)@,
            }),
            forall|k: Seq<char>|
                k != symbol@ ==> lookup(final(self)@.currencies, k) == lookup(
                    old(self)@.currencies,
                    k,
                ),
    {
        match self.find_currency_index(symbol) {
            Some(i) => {
                proof {
                    lemma_lookup_at(self@.currencies, symbol@, i as int);
                }
                let ghost pre = self@.currencies;
                let (key, mut cs) = self.currencies.remove(i);
                cs.status = status;
                cs.last_update = now_millis;
                let ghost cs_v = cs@;
                self.currencies.insert(i, (key, cs));
                proof {
                    pre.remove_ensures(i as int);
                    pre.remove(i as int).insert_ensures(i as int, (symbol@, cs_v));
                    assert(entries_view(self.currencies@) =~= pre.update(
                        i as int,
                        (symbol@, cs_v),
                    ));
                    lemma_lookup_update(pre, i as int, (symbol@, cs_v), symbol@);
                    assert forall|k: Seq<char>| k != symbol@ implies lookup(
                        pre.update(i as int, (symbol@, cs_v)),
                        k,
                    ) == lookup(pre, k) by {
                        lemma_lookup_update(pre, i as int, (symbol@, cs_v), k);
                    }
                }
            },
            None => {
                proof {
                    lemma_lookup_none(self@.currencies, symbol@);
                    assert(final(self)@ =~= old(self)@);
                }
            },
        }
    }

    /// Replace the symbol's stored position (a new order always replaces,
    /// never nets); unknown symbols are a no-op.
    pub fn record_position(&mut self, symbol: &str, position: Position)
        requires
            wf_manager(old(self)@),
        ensures
            wf_manager(final(self)@),
            final(self)@.strategies == old(self)@.strategies,
            (match lookup(old(self)@.currencies, symbol@) {
                Some(cs) => lookup(final(self)@.currencies, symbol@) == Some(
                    CurrencyStatusV { current_position: Some(position@), ..cs },
                ),
                None => final(self)@ == old(self)@,
            }),
            forall|k: Seq<char>|
                k != symbol@ ==> lookup(final(self)@.currencies, k) == lookup(
                    old(self)@.currencies,
                    k,
                ),
    {
        match self.find_currency_index(symbol) {
            Some(i) => {
                proof {
                    lemma_lookup_at(self@.currencies, symbol@, i as int);
                }
                let ghost pre = self@.currencies;
                let (key, mut cs) = self.currencies.remove(i);
                cs.current_position = Some(position);
                let ghost cs_v = cs@;
                self.currencies.insert(i, (key, cs));
                proof {
                    pre.remove_ensures(i as int);
                    pre.remove(i as int).insert_ensures(i as int, (symbol@, cs_v));
                    assert(entries_view(self.currencies@) =~= pre.update(
                        i as int,
                        (symbol@, cs_v),
                    ));
                    lemma_lookup_update(pre, i as int, (symbol@, cs_v), symbol@);
                    assert forall|k: Seq<char>| k != symbol@ implies lookup(
                        pre.update(i as int, (symbol@, cs_v)),
                        k,
                    ) == lookup(pre, k) by {
                        lemma_lookup_update(pre, i as int, (symbol@, cs_v), k);
                    }
                }
            },
            None => {
                proof {
                    lemma_lookup_none(self@.currencies, symbol@);
                    assert(final(self)@ =~= old(self)@);
                }
            },
        }
    }

    /// The shape of the order the gateway should submit, or why none may be:
    /// an unknown symbol or one that is not currently tradable is refused
    /// before any venue call. The order is a market order for the symbol's
    /// configured minimum quantity, with the risk overlay's two protective
    /// prices attached.
    pub fn place_order(&self, symbol: &str, side: OrderSide, price: i64) -> (r: Result<
        OrderPlan,
        TradingError,
    >)
        requires
            wf_manager(self@),
            wf_amount(price),
        ensures
            (match r {
                Err(TradingError::UnknownSymbol) => lookup(self@.currencies, symbol@) is None,
                Err(TradingError::TradingBlocked) => (lookup(self@.currencies, symbol@) matches Some(
                    cs,
                ) && !(cs.status is Active)),
                Ok(plan) => (lookup(self@.currencies, symbol@) matches Some(cs) && cs.status
                    is Active && plan@ == (OrderPlanV {
                    symbol: symbol@,
                    side,
                    order_type: OrderType::Market,
                    quantity: cs.config.min_qty,
                    take_profit_price: spec_take_profit(side, price) as i64,
                    stop_loss_price: spec_stop_loss(side, price) as i64,
                })),
            }),
    {
        let idx = match self.find_currency_index(symbol) {
            Some(i) => i,
            None => {
                proof {
                    lemma_lookup_none(self@.currencies, symbol@);
                }
                return Err(TradingError::UnknownSymbol);
            },
        };
        proof {
            lemma_lookup_at(self@.currencies, symbol@, idx as int);
        }
        let pair = &self.currencies[idx];
        if !pair.1.status.is_active() {
            return Err(TradingError::TradingBlocked);
        }
        let (tp, sl) = risk_overlay(side, price);
        Ok(
            OrderPlan {
                symbol: symbol.to_owned(),
                side,
                order_type: OrderType::Market,
                quantity: pair.1.config.min_qty,
                take_profit_price: tp,
                stop_loss_price: sl,
            },
        )
    }

    /// Run one monitoring cycle for a symbol: feed the fetched closes to its
    /// engine in order, then judge the latest close against whatever book
    /// and ticker snapshots were fetched. `None` when the symbol is unknown,
    /// not tradable, or no close arrived; otherwise the side to open, if
    /// any.
    #[verifier::rlimit(80)]
    pub fn process_market_data(
        &mut self,
        symbol: &str,
        closes: &Vec<i64>,
        depth: Option<&MarketDepth>,
        ticker: Option<&MarketTicker>,
    ) -> (r: Option<OrderSide>)
        requires
            wf_manager(old(self)@),
            forall|i: int| 0 <= i < closes@.len() ==> wf_amount(#[trigger] closes@[i]),
            depth matches Some(d) ==> wf_depth(d),
            ticker matches Some(t) ==> wf_ticker(*t),
        ensures
            wf_manager(final(self)@),
            final(self)@.currencies == old(self)@.currencies,
            forall|k: Seq<char>|
                k != symbol@ ==> lookup(final(self)@.strategies, k) == lookup(
                    old(self)@.strategies,
                    k,
                ),
            (match (lookup(old(self)@.currencies, symbol@), lookup(old(self)@.strategies, symbol@)) {
                (Some(cs), Some(sv)) => {
                    if cs.status is Active {
                        let fed = spec_feed(sv, closes@);
                        &&& lookup(final(self)@.strategies, symbol@) == Some(fed)
                        &&& (if closes@.len() == 0 {
                            r is None
                        } else {
                            r == spec_cycle_decision(
                                fed,
                                match depth {
                                    Some(d) => spec_depth_flags(
                                        d.bids@,
                                        d.asks@,
                                        closes@.last(),
                                    ).0,
                                    None => true,
                                },
                                match depth {
                                    Some(d) => spec_depth_flags(
                                        d.bids@,
                                        d.asks@,
                                        closes@.last(),
                                    ).1,
                                    None => true,
                                },
                                match ticker {
                                    Some(t) => spec_ticker_flags(*t).0,
                                    None => true,
                                },
                                match ticker {
                                    Some(t) => spec_ticker_flags(*t).1,
                                    None => true,
                                },
                            )
                        })
                    } else {
                        final(self)@ == old(self)@ && r is None
                    }
                },
                _ => final(self)@ == old(self)@ && r is None,
            }),
    {
        let cidx = match self.find_currency_index(symbol) {
            Some(i) => i,
            None => {
                proof {
                    lemma_lookup_none(self@.currencies, symbol@);
                }
                return None;
            },
        };
        proof {
            lemma_lookup_at(self@.currencies, symbol@, cidx as int);
        }
        let cpair = &self.currencies[cidx];
        if !cpair.1.status.is_active() {
            return None;
        }
        let sidx = match self.find_strategy_index(symbol) {
            Some(i) => i,
            None => {
                proof {
                    lemma_lookup_none(self@.strategies, symbol@);
                }
                return None;
            },
        };
        proof {
            lemma_lookup_at(self@.strategies, symbol@, sidx as int);
        }
        let ghost pre = self@.strategies;
        let ghost pre_exec = self.strategies@;
        let (key, mut engine) = self.strategies.remove(sidx);
        let ghost sv0 = engine@;

        let mut i: usize = 0;
        while i < closes.len()
            invariant
                0 <= i <= closes@.len(),
                forall|j: int| 0 <= j < closes@.len() ==> wf_amount(#[trigger] closes@[j]),
                wf_strategy(engine@),
                engine@ == spec_feed(sv0, closes@.take(i as int)),
            decreases closes@.len() - i,
        {
            let c = closes[i];
            proof {
                assert(closes@.take(i + 1).drop_last() =~= closes@.take(i as int));
                assert(closes@.take(i + 1).last() == closes@[i as int]);
            }
            engine.add_price(c);
            i += 1;
        }
        proof {
            assert(closes@.take(closes@.len() as int) =~= closes@);
        }

        let decision: Option<OrderSide> = if closes.len() == 0 {
            None
        } else {
            let price = closes[closes.len() - 1];
            if engine.should_buy(price, depth, ticker) {
                Some(OrderSide::Buy)
            } else if engine.should_sell(price, depth, ticker) {
                Some(OrderSide::Sell)
            } else {
                None
            }
        };
        let ghost fed = engine@;
        let ghost inserted: (String, MACDStrategy) = (key, engine);
        self.strategies.insert(sidx, (key, engine));
        proof {
            pre_exec.remove_ensures(sidx as int);
            pre_exec.remove(sidx as int).insert_ensures(sidx as int, inserted);
            assert(inserted.0@ == symbol@ && inserted.1@ == fed);
            assert forall|j: int| 0 <= j < pre.len() implies entries_view(self.strategies@)[j]
                == pre.update(sidx as int, (symbol@, fed))[j] by {
                assert(self.strategies@[j] == pre_exec.remove(sidx as int).insert(
                    sidx as int,
                    inserted,
                )[j]);
            }
            assert(entries_view(self.strategies@) =~= pre.update(sidx as int, (symbol@, fed)));
            lemma_lookup_update(pre, sidx as int, (symbol@, fed), symbol@);
            assert forall|k: Seq<char>| k != symbol@ implies lookup(
                pre.update(sidx as int, (symbol@, fed)),
                k,
            ) == lookup(pre, k) by {
                lemma_lookup_update(pre, sidx as int, (symbol@, fed), k);
            }
        }
        decision
    }

    /// A copy of every tracked symbol with its status, in table order.
    pub fn get_all_status(&self) -> (r: Vec<(String, CurrencyStatus)>)
        ensures
            r@.len() == self@.currencies.len(),
            forall|i: int|
                0 <= i < r@.len() ==> ((#[trigger] r@[i]).0@, r@[i].1@) == self@.currencies[i],
    {
        let mut out: Vec<(String, CurrencyStatus)> = Vec::new();
        let mut i: usize = 0;
        while i < self.currencies.len()
            invariant
                0 <= i <= self.currencies@.len(),
                self@.currencies.len() == self.currencies@.len(),
                out@.len() == i,
                forall|j: int|
                    0 <= j < self.currencies@.len() ==> #[trigger] self@.currencies[j] == (
                    self.currencies@[j].0@,
                    self.currencies@[j].1@,
                ),
                forall|j: int|
                    0 <= j < i as int ==> ((#[trigger] out@[j]).0@, out@[j].1@)
                        == self@.currencies[j],
            decreases self.currencies@.len() - i,
        {
            let key = self.currencies[i].0.clone();
            let cs = self.currencies[i].1.clone();
            out.push((key, cs));
            i += 1;
        }
        out
    }
}

/// Take-profit price for a side at an entry price: a tenth above it on a
/// buy, a tenth below it on a sell (rounded toward zero).
pub open spec fn spec_take_profit(side: OrderSide, price: i64) -> int {
    match side {
        OrderSide::Buy => tdiv(110 * price, 100),
        OrderSide::Sell => tdiv(90 * price, 100),
    }
}

/// Stop-loss price for a side at an entry price: a twentieth below it on a
/// buy, a twentieth above it on a sell (rounded toward zero); risk to reward
/// stands fixed at one to two.
pub open spec fn spec_stop_loss(side: OrderSide, price: i64) -> int {
    match side {
        OrderSide::Buy => tdiv(95 * price, 100),
        OrderSide::Sell => tdiv(105 * price, 100),
    }
}

/// Truncating division by a positive divisor never grows a magnitude.
proof fn lemma_tdiv_abs_le(a: int, b: int)
    requires
        b >= 1,
    ensures
        a >= 0 ==> 0 <= tdiv(a, b) <= a,
        a < 0 ==> a <= tdiv(a, b) <= 0,
{
    if a >= 0 {
        vstd::arithmetic::div_mod::lemma_div_pos_is_pos(a, b);
        vstd::arithmetic::div_mod::lemma_div_nonincreasing(a, b);
    } else {
        vstd::arithmetic::div_mod::lemma_div_pos_is_pos(-a, b);
        vstd::arithmetic::div_mod::lemma_div_nonincreasing(-a, b);
    }
}

/// The risk overlay: `(take_profit, stop_loss)` for opening at `price`.
pub fn risk_overlay(side: OrderSide, price: i64) -> (r: (i64, i64))
    requires
        wf_amount(price),
    ensures
        r.0 as int == spec_take_profit(side, price),
        r.1 as int == spec_stop_loss(side, price),
{
    proof {
        lemma_tdiv_abs_le(110 * price, 100);
        lemma_tdiv_abs_le(95 * price, 100);
        lemma_tdiv_abs_le(90 * price, 100);
        lemma_tdiv_abs_le(105 * price, 100);
    }
    match side {
        OrderSide::Buy => {
            let tp = div_trunc(110 * (price as i128), 100) as i64;
            let sl = div_trunc(95 * (price as i128), 100) as i64;
            (tp, sl)
        },
        OrderSide::Sell => {
            let tp = div_trunc(90 * (price as i128), 100) as i64;
            let sl = div_trunc(105 * (price as i128), 100) as i64;
            (tp, sl)
        },
    }
}

/// The monitor's verdict once a symbol's engine has been fed: buy before
/// sell, else nothing.
pub open spec fn spec_cycle_decision(
    fed: StrategyV,
    depth_buy: bool,
    depth_sell: bool,
    ticker_bull: bool,
    ticker_bear: bool,
) -> Option<OrderSide> {
    if spec_should_buy(fed, depth_buy, ticker_bull) {
        Some(OrderSide::Buy)
    } else if spec_should_sell(fed, depth_sell, ticker_bear) {
        Some(OrderSide::Sell)
    } else {
        None
    }
}

/// The preset symbols an operator can register in one step.
pub fn init_currencies() -> (r: Vec<CurrencyConfig>)
    ensures
        r@.len() == 8,
        r@[0]@ == (crate::types::CurrencyConfigV {
            symbol: "BTC-USDT"@,
            base_currency: "BTC"@,
            quote_currency: "USDT"@,
            min_qty: 1_000_000i64,
            price_precision: 1u32,
            qty_precision: 3u32,
            min_notional: 5_000_000i64,
            leverage: 20u32,
        }),
        r@[1]@ == (crate::types::CurrencyConfigV {
            symbol: "ETH-USDT"@,
            base_currency: "ETH"@,
            quote_currency: "USDT"@,
            min_qty: 30_000_000i64,
            price_precision: 2u32,
            qty_precision: 3u32,
            min_notional: 5_000_000i64,
            leverage: 20u32,
        }),
        r@[2]@ == (crate::types::CurrencyConfigV {
            symbol: "SOL-USDT"@,
            base_currency: "SOL"@,
            quote_currency: "USDT"@,
            min_qty: 410_000_000i64,
            price_precision: 3u32,
            qty_precision: 1u32,
            min_notional: 5_000_000i64,
            leverage: 20u32,
        }),
        r@[3]@ == (crate::types::CurrencyConfigV {
            symbol: "XRP-USDT"@,
            base_currency: "XRP"@,
            quote_currency: "USDT"@,
            min_qty: 10_000_000_000i64,
            price_precision: 4u32,
            qty_precision: 1u32,
            min_notional: 5_000_000i64,
            leverage: 20u32,
        }),
        r@[4]@ == (crate::types::CurrencyConfigV {
            symbol: "BNB-USDT"@,
            base_currency: "BNB"@,
            quote_currency: "USDT"@,
            min_qty: 16_000_000i64,
            price_precision: 4u32,
            qty_precision: 1u32,
            min_notional: 5_000_000i64,
            leverage: 20u32,
        }),
        r@[5]@ == (crate::types::CurrencyConfigV {
            symbol: "1000PEPE-USDT"@,
            base_currency: "1000PEPE"@,
            quote_currency: "USDT"@,
            min_qty: 980_000_000_000i64,
            price_precision: 4u32,
            qty_precision: 1u32,
            min_notional: 5_000_000i64,
            leverage: 20u32,
        }),
        r@[6]@ == (crate::types::CurrencyConfigV {
            symbol: "SUI-USDT"@,
            base_currency: "SUI"@,
            quote_currency: "USDT"@,
            min_qty: 5_800_000_000i64,
            price_precision: 4u32,
            qty_precision: 1u32,
            min_notional: 5_000_000i64,
            leverage: 20u32,
        }),
        r@[7]@ == (crate::types::CurrencyConfigV {
            symbol: "ARB-USDT"@,
            base_currency: "ARB"@,
            quote_currency: "USDT"@,
            min_qty: 38_000_000_000i64,
            price_precision: 4u32,
            qty_precision: 1u32,
            min_notional: 5_000_000i64,
            leverage: 20u32,
        }),
{
    let mut v: Vec<CurrencyConfig> = Vec::new();
    v.push(CurrencyConfig::new("BTC-USDT", "BTC", "USDT", 1_000_000, 1, 3, 5_000_000, 20));
    v.push(CurrencyConfig::new("ETH-USDT", "ETH", "USDT", 30_000_000, 2, 3, 5_000_000, 20));
    v.push(CurrencyConfig::new("SOL-USDT", "SOL", "USDT", 410_000_000, 3, 1, 5_000_000, 20));
    v.push(CurrencyConfig::new("XRP-USDT", "XRP", "USDT", 10_000_000_000, 4, 1, 5_000_000, 20));
    v.push(CurrencyConfig::new("BNB-USDT", "BNB", "USDT", 16_000_000, 4, 1, 5_000_000, 20));
    v.push(
        CurrencyConfig::new(
            "1000PEPE-USDT",
            "1000PEPE",
            "USDT",
            980_000_000_000,
            4,
            1,
            5_000_000,
            20,
        ),
    );
    v.push(CurrencyConfig::new("SUI-USDT", "SUI", "USDT", 5_800_000_000, 4, 1, 5_000_000, 20));
    v.push(CurrencyConfig::new("ARB-USDT", "ARB", "USDT", 38_000_000_000, 4, 1, 5_000_000, 20));
    v
}

} // verus!
