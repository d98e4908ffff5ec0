//! Liquidity tracker: the effective spread of each execution on a valid
//! book, `ES = 2 * |P - M| / M * 10000` basis points with `M` the mid before
//! the trade, held exactly as a ratio of integers.

use vstd::prelude::*;
use crate::book::{BookSnapshot, OrderEvent};

verus! {

/// An exact effective spread: `numerator / denominator` basis points,
/// with `numerator = 20000 * |2P - (bid + ask)|` and `denominator = bid + ask`
/// (all in nanodollars).
#[derive(Clone, Copy, Debug, PartialEq, Eq)]
pub struct EffectiveSpread {
    pub numerator: u128,
    pub denominator: u128,
    pub size: u32,
}

/// `|x|`.
pub open spec fn abs_int(x: int) -> int {
    if x < 0 { -x } else { x }
}

/// The effective spread numerator of a trade at `price` against `bid + ask == mid_x2`.
pub open spec fn es_numerator(price: int, mid_x2: int) -> int {
    20000 * abs_int(2 * price - mid_x2)
}

/// Integer core of the liquidity tracker.
pub struct LiquidityTracker {
    pub n_trade_events: u64,
    pub n_days: u32,
}

impl LiquidityTracker {
    pub fn new() -> (r: Self)
        ensures
            r.n_trade_events == 0,
            r.n_days == 0,
    {
        LiquidityTracker { n_trade_events: 0, n_days: 0 }
    }

    /// The effective spread of an execution at a positive price on a valid
    /// book with a positive mid; other events are skipped.
    pub fn process_event(&mut self, msg: &OrderEvent, book: &BookSnapshot) -> (r: Option<
        EffectiveSpread,
    >)
        requires
            old(self).n_trade_events < u64::MAX,
        ensures
            final(self).n_days == old(self).n_days,
            ({
                let measured = book.is_valid() && msg.is_execution() && book.spec_mid_x2() is Some
                    && book.spec_mid_x2()->0 > 0 && msg.price > 0;
                &&& !measured ==> r is None && final(self).n_trade_events == old(
                    self,
                ).n_trade_events
                &&& measured ==> {
                    &&& final(self).n_trade_events == old(self).n_trade_events + 1
                    &&& r == Some(
                        EffectiveSpread {
                            numerator: es_numerator(
                                msg.price as int,
                                book.spec_mid_x2()->0,
                            ) as u128,
                            denominator: book.spec_mid_x2()->0 as u128,
                            size: msg.size,
                        },
                    )
                }
            }),
    {
        if !book.is_valid() || !msg.is_execution() {
            return None;
        }
        let mid_x2 = match book.mid_x2() {
            Some(m) => m,
            None => {
                return None;
            },
        };
        if mid_x2 <= 0 || msg.price <= 0 {
            return None;
        }
        let dev: i128 = 2 * (msg.price as i128) - mid_x2;
        let mag: u128 = if dev < 0 {
            (-dev) as u128
        } else {
            dev as u128
        };
        self.n_trade_events = self.n_trade_events + 1;
        Some(EffectiveSpread { numerator: 20000 * mag, denominator: mid_x2 as u128, size: msg.size })
    }

    pub fn end_of_day(&mut self)
        requires
            old(self).n_days < u32::MAX,
        ensures
            final(self).n_days == old(self).n_days + 1,
            final(self).n_trade_events == old(self).n_trade_events,
    {
        self.n_days = self.n_days + 1;
    }

    /// The tracker's report name, `LiquidityTracker`.
    pub fn name(&self) -> (r: &'static str)
        ensures
            r@ == "LiquidityTracker"@,
    {
        "LiquidityTracker"
    }
}

/// A trade printed at the mid has zero effective spread, and a trade
/// printed at the best bid or the best ask has the quoted spread as its
/// effective spread: `2 * |P - M| == ask - bid`.
pub proof fn lemma_effective_spread_at_quotes(bid: int, ask: int, price: int)
    ensures
        2 * price == bid + ask ==> es_numerator(price, bid + ask) == 0,
        es_numerator(ask, bid + ask) == 20000 * abs_int(ask - bid),
        es_numerator(bid, bid + ask) == 20000 * abs_int(ask - bid),
{
}


impl Default for LiquidityTracker {
    fn default() -> (r: Self)
        ensures
            r.n_trade_events == 0,
            r.n_days == 0,
    {
        LiquidityTracker::new()
    }
}

} // verus!
