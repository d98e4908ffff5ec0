//! Order flow imbalance tracker: the exact per-event OFI stream of each day,
//! its decomposition by triggering action, the day's mid-price and spread
//! samples for time-bin resampling, and the aggressor volume split.

use vstd::prelude::*;
use crate::book::{Action, BookSnapshot, OrderEvent, Side, TICK_NANOS};
use crate::ofi_core::{ofi_from, OfiState, OfiStep};

verus! {

/// Bound on the magnitude of one event's imbalance (two full top-of-book sizes).
pub open spec fn ofi_bound() -> int {
    2 * (u32::MAX as int)
}

/// Sum of a sequence of imbalances.
pub open spec fn seq_sum(s: Seq<i64>) -> int
    decreases s.len(),
{
    if s.len() == 0 {
        0
    } else {
        seq_sum(s.drop_last()) + s.last() as int
    }
}

/// The absolute value of an integer.
pub open spec fn abs(x: int) -> int {
    if x < 0 { -x } else { x }
}

/// Whether a book is one the imbalance is measured on: classified valid,
/// with both best quotes present and non-zero.
pub open spec fn ofi_admits(book: &BookSnapshot) -> bool {
    &&& book.consistency == crate::book::BookConsistency::Valid
    &&& book.best_bid matches Some(b) && b != 0
    &&& book.best_ask matches Some(a) && a != 0
}

/// Which component bucket an imbalance belongs to, by the action that
/// produced the book: 0 = add, 1 = cancel, 2 = trade, none otherwise.
pub open spec fn component_of(a: Option<Action>) -> Option<int> {
    match a {
        Some(Action::Add) => Some(0),
        Some(Action::Cancel) => Some(1),
        Some(Action::Trade) => Some(2),
        Some(Action::Fill) => Some(2),
        _ => None,
    }
}

/// The component buckets by triggering action: adds go to the add bucket (0),
/// cancels to the cancel bucket (1), trades and fills both to the trade
/// bucket (2); modifies, clears, aggregate prints, events without an action
/// and books without a triggering action go to none.
pub proof fn lemma_component_buckets()
    ensures
        component_of(Some(Action::Add)) == Some(0int),
        component_of(Some(Action::Cancel)) == Some(1int),
        component_of(Some(Action::Trade)) == Some(2int),
        component_of(Some(Action::Fill)) == Some(2int),
        component_of(Some(Action::Modify)) is None,
        component_of(Some(Action::Clear)) is None,
        component_of(Some(Action::NoAction)) is None,
        component_of(Some(Action::TradeAggregate)) is None,
        component_of(None) is None,
{
}

/// Number of spread buckets for the spread-conditional OFI-return correlation.
pub const N_SPREAD_BUCKETS: usize = 4;

/// The spread bucket of a spread of `spread` nanodollars: none for a
/// non-positive spread; otherwise by width in ticks, below 1.5 ticks,
/// below 2.5, below 4.5, and the rest.
pub open spec fn spec_spread_bucket(spread: int) -> Option<int> {
    if spread <= 0 {
        None
    } else if 2 * spread < 3 * TICK_NANOS {
        Some(0)
    } else if 2 * spread < 5 * TICK_NANOS {
        Some(1)
    } else if 2 * spread < 9 * TICK_NANOS {
        Some(2)
    } else {
        Some(3)
    }
}

/// The spread bucket of a spread of `spread` nanodollars.
pub fn spread_bucket(spread: i128) -> (r: Option<usize>)
    ensures
        r matches Some(b) ==> spec_spread_bucket(spread as int) == Some(b as int),
        r is None <==> spec_spread_bucket(spread as int) is None,
{
    // Half-tick thresholds: 1.5, 2.5 and 4.5 ticks.
    let t = TICK_NANOS as i128;
    if spread <= 0 {
        None
    } else if spread < 3 * t / 2 {
        Some(0)
    } else if spread < 5 * t / 2 {
        Some(1)
    } else if spread < 9 * t / 2 {
        Some(2)
    } else {
        Some(3)
    }
}

/// Wider spreads fall in the same or a wider bucket.
pub proof fn lemma_spread_bucket_monotone(s1: int, s2: int)
    requires
        0 < s1 <= s2,
    ensures
        spec_spread_bucket(s1) is Some,
        spec_spread_bucket(s2) is Some,
        spec_spread_bucket(s1)->0 <= spec_spread_bucket(s2)->0,
{
}

/// Number of lags of the OFI-return and OFI-spread cross-correlations.
pub const N_LAGS: usize = 6;

/// The `(bin, bin + lag)` pairs among the first `n` bins: a bin takes part
/// when it holds an imbalance (`usable`) and the bin `lag` later exists and
/// holds a value of the other series (`has_value`).
pub open spec fn lagged_pairs(usable: Seq<bool>, has_value: Seq<bool>, lag: int, n: int) -> Seq<
    (usize, usize),
>
    decreases n,
{
    if n <= 0 {
        Seq::empty()
    } else {
        let before = lagged_pairs(usable, has_value, lag, n - 1);
        let j = n - 1 + lag;
        if usable[n - 1] && j < has_value.len() && has_value[j] {
            before.push(((n - 1) as usize, j as usize))
        } else {
            before
        }
    }
}

/// Pair each bin holding an imbalance with the bin `lag` later of a
/// second series, where that bin exists and holds a value.
pub fn lagged_bin_pairs(usable: &Vec<bool>, has_value: &Vec<bool>, lag: usize) -> (r: Vec<
    (usize, usize),
>)
    ensures
        r@ == lagged_pairs(usable@, has_value@, lag as int, usable.len() as int),
{
    let mut out: Vec<(usize, usize)> = Vec::new();
    let mut i: usize = 0;
    while i < usable.len()
        invariant
            i <= usable.len(),
            out@ == lagged_pairs(usable@, has_value@, lag as int, i as int),
        decreases usable.len() - i,
    {
        if usable[i] && lag < has_value.len() && i < has_value.len() - lag {
            let j = i + lag;
            if has_value[j] {
                out.push((i, j));
            }
        }
        i = i + 1;
    }
    out
}

/// End-of-day summary of the imbalance stream.
#[derive(Clone, Copy, Debug)]
pub struct OfiDaySummary {
    /// Sum of the day's imbalances (cumulative delta at the close).
    pub eod_delta: i128,
    /// Whether the day had enough imbalances (at least two) for its
    /// time-binned statistics and component totals to be taken.
    pub processed: bool,
}

/// Integer core of the order flow imbalance tracker.
pub struct OfiTracker {
    pub state: OfiState,
    pub day_ofi_ts: Vec<i64>,
    pub day_ofi_vals: Vec<i64>,
    /// The day's sums of |OFI| by triggering action.
    pub day_abs_add: u128,
    pub day_abs_cancel: u128,
    pub day_abs_trade: u128,
    /// Mid-price samples of the day as `bid + ask` (twice the mid), nanodollars.
    pub day_mid_ts: Vec<i64>,
    pub day_mid_x2: Vec<i128>,
    /// Non-negative spread samples of the day, nanodollars.
    pub day_spread_ts: Vec<i64>,
    pub day_spreads: Vec<i128>,
    /// Totals of |OFI| by triggering action over processed days.
    pub total_abs_add: u128,
    pub total_abs_cancel: u128,
    pub total_abs_trade: u128,
    /// Executed volume by aggressor side.
    pub total_buyer_vol: u128,
    pub total_seller_vol: u128,
    pub n_days: u32,
    /// Day context cached by `begin_day`.
    pub utc_offset: i32,
    pub day_epoch_ns: i64,
}

impl OfiTracker {
    pub open spec fn wf(&self) -> bool {
        &&& self.day_ofi_ts.len() == self.day_ofi_vals.len()
        &&& self.day_mid_ts.len() == self.day_mid_x2.len()
        &&& self.day_spread_ts.len() == self.day_spreads.len()
        &&& forall|i: int|
            0 <= i < self.day_ofi_vals.len() ==> abs(#[trigger] self.day_ofi_vals@[i] as int)
                <= ofi_bound()
    }

    /// Room left in the 128-bit accumulators for one more event and one
    /// more end of day.
    pub open spec fn has_headroom(&self) -> bool {
        &&& self.day_abs_add + ofi_bound() <= u128::MAX
        &&& self.day_abs_cancel + ofi_bound() <= u128::MAX
        &&& self.day_abs_trade + ofi_bound() <= u128::MAX
        &&& self.total_abs_add + self.day_abs_add <= u128::MAX
        &&& self.total_abs_cancel + self.day_abs_cancel <= u128::MAX
        &&& self.total_abs_trade + self.day_abs_trade <= u128::MAX
        &&& self.total_buyer_vol + u32::MAX <= u128::MAX
        &&& self.total_seller_vol + u32::MAX <= u128::MAX
        &&& self.n_days < u32::MAX
    }

    /// Executable check of [`Self::has_headroom`].
    pub fn headroom(&self) -> (r: bool)
        ensures
            r == self.has_headroom(),
    {
        let b: u128 = 2 * (u32::MAX as u128);
        self.day_abs_add <= u128::MAX - b && self.day_abs_cancel <= u128::MAX - b
            && self.day_abs_trade <= u128::MAX - b && self.total_abs_add <= u128::MAX
            - self.day_abs_add && self.total_abs_cancel <= u128::MAX - self.day_abs_cancel
            && self.total_abs_trade <= u128::MAX - self.day_abs_trade && self.total_buyer_vol
            <= u128::MAX - (u32::MAX as u128) && self.total_seller_vol <= u128::MAX - (
        u32::MAX as u128) && self.n_days < u32::MAX
    }

    pub fn new() -> (r: Self)
        ensures
            r.wf(),
            r.has_headroom(),
            !r.state.initialized,
            r.day_ofi_vals.len() == 0,
            r.day_mid_x2.len() == 0,
            r.day_spreads.len() == 0,
            r.total_abs_add == 0 && r.total_abs_cancel == 0 && r.total_abs_trade == 0,
            r.day_abs_add == 0 && r.day_abs_cancel == 0 && r.day_abs_trade == 0,
            r.total_buyer_vol == 0 && r.total_seller_vol == 0,
            r.n_days == 0,
            r.utc_offset == -5,
            r.day_epoch_ns == 0,
    {
        OfiTracker {
            state: OfiState::new(),
            day_ofi_ts: Vec::new(),
            day_ofi_vals: Vec::new(),
            day_abs_add: 0,
            day_abs_cancel: 0,
            day_abs_trade: 0,
            day_mid_ts: Vec::new(),
            day_mid_x2: Vec::new(),
            day_spread_ts: Vec::new(),
            day_spreads: Vec::new(),
            total_abs_add: 0,
            total_abs_cancel: 0,
            total_abs_trade: 0,
            total_buyer_vol: 0,
            total_seller_vol: 0,
            n_days: 0,
            utc_offset: -5,
            day_epoch_ns: 0,
        }
    }

    /// Cache the day context.
    pub fn begin_day(&mut self, day_index: u32, utc_offset: i32, day_epoch_ns: i64)
        ensures
            final(self).utc_offset == utc_offset,
            final(self).day_epoch_ns == day_epoch_ns,
            final(self).state == old(self).state,
            final(self).day_ofi_vals@ == old(self).day_ofi_vals@,
            final(self).day_ofi_ts@ == old(self).day_ofi_ts@,
            final(self).day_mid_x2@ == old(self).day_mid_x2@,
            final(self).day_mid_ts@ == old(self).day_mid_ts@,
            final(self).day_spreads@ == old(self).day_spreads@,
            final(self).day_spread_ts@ == old(self).day_spread_ts@,
            final(self).day_abs_add == old(self).day_abs_add,
            final(self).day_abs_cancel == old(self).day_abs_cancel,
            final(self).day_abs_trade == old(self).day_abs_trade,
            final(self).total_abs_add == old(self).total_abs_add,
            final(self).total_abs_cancel == old(self).total_abs_cancel,
            final(self).total_abs_trade == old(self).total_abs_trade,
            final(self).total_buyer_vol == old(self).total_buyer_vol,
            final(self).total_seller_vol == old(self).total_seller_vol,
            final(self).n_days == old(self).n_days,
    {
        self.utc_offset = utc_offset;
        self.day_epoch_ns = day_epoch_ns;
    }

    /// Process one event and the book it produced. Returns the imbalance
    /// when one was recorded for the day (the book was admitted, the state
    /// was already primed and the event carries a timestamp).
    pub fn process_event(&mut self, msg: &OrderEvent, book: &BookSnapshot) -> (r: Option<i64>)
        requires
            old(self).wf(),
            ofi_admits(book) ==> old(self).has_headroom(),
            book.well_shaped(),
        ensures
            final(self).wf(),
            final(self).utc_offset == old(self).utc_offset,
            final(self).day_epoch_ns == old(self).day_epoch_ns,
            final(self).n_days == old(self).n_days,
            final(self).total_abs_add == old(self).total_abs_add,
            final(self).total_abs_cancel == old(self).total_abs_cancel,
            final(self).total_abs_trade == old(self).total_abs_trade,
            // Books that are not admitted leave the tracker untouched.
            !ofi_admits(book) ==> {
                &&& r is None
                &&& final(self).state == old(self).state
                &&& final(self).day_ofi_vals@ == old(self).day_ofi_vals@
                &&& final(self).day_ofi_ts@ == old(self).day_ofi_ts@
                &&& final(self).day_mid_x2@ == old(self).day_mid_x2@
                &&& final(self).day_mid_ts@ == old(self).day_mid_ts@
                &&& final(self).day_spreads@ == old(self).day_spreads@
                &&& final(self).day_spread_ts@ == old(self).day_spread_ts@
                &&& final(self).day_abs_add == old(self).day_abs_add
                &&& final(self).day_abs_cancel == old(self).day_abs_cancel
                &&& final(self).day_abs_trade == old(self).day_abs_trade
                &&& final(self).total_buyer_vol == old(self).total_buyer_vol
                &&& final(self).total_seller_vol == old(self).total_seller_vol
            },
            ofi_admits(book) ==> {
                let bid = book.best_bid->0;
                let ask = book.best_ask->0;
                let bs = book.bid_sizes@[0];
                let asz = book.ask_sizes@[0];
                let v = ofi_from(old(self).state, bid, bs, ask, asz);
                let recorded = old(self).state.initialized && msg.timestamp is Some;
                let execution = old(self).state.initialized && msg.is_execution() && msg.side
                    != Side::Unspecified;
                // The book becomes the remembered top of the book.
                &&& final(self).state.initialized
                &&& final(self).state.prev_bid_price == bid
                &&& final(self).state.prev_ask_price == ask
                &&& final(self).state.prev_bid_size == bs
                &&& final(self).state.prev_ask_size == asz
                // Mid and spread samples are taken for every timestamped admitted book.
                &&& final(self).day_mid_x2@ == (if msg.timestamp is Some {
                    old(self).day_mid_x2@.push((bid + ask) as i128)
                } else {
                    old(self).day_mid_x2@
                })
                &&& final(self).day_mid_ts@ == (if msg.timestamp is Some {
                    old(self).day_mid_ts@.push(msg.timestamp->0)
                } else {
                    old(self).day_mid_ts@
                })
                &&& final(self).day_spreads@ == (if msg.timestamp is Some && ask - bid >= 0 {
                    old(self).day_spreads@.push((ask - bid) as i128)
                } else {
                    old(self).day_spreads@
                })
                &&& final(self).day_spread_ts@ == (if msg.timestamp is Some && ask - bid >= 0 {
                    old(self).day_spread_ts@.push(msg.timestamp->0)
                } else {
                    old(self).day_spread_ts@
                })
                // The imbalance is recorded once the state is primed.
                &&& r == (if recorded {
                    Some(v as i64)
                } else {
                    None::<i64>
                })
                &&& final(self).day_ofi_vals@ == (if recorded {
                    old(self).day_ofi_vals@.push(v as i64)
                } else {
                    old(self).day_ofi_vals@
                })
                &&& final(self).day_ofi_ts@ == (if recorded {
                    old(self).day_ofi_ts@.push(msg.timestamp->0)
                } else {
                    old(self).day_ofi_ts@
                })
                // ... and its magnitude goes to exactly one component, or none.
                &&& final(self).day_abs_add == old(self).day_abs_add + (if recorded
                    && component_of(book.triggering_action) == Some(0int) {
                    abs(v)
                } else {
                    0
                })
                &&& final(self).day_abs_cancel == old(self).day_abs_cancel + (if recorded
                    && component_of(book.triggering_action) == Some(1int) {
                    abs(v)
                } else {
                    0
                })
                &&& final(self).day_abs_trade == old(self).day_abs_trade + (if recorded
                    && component_of(book.triggering_action) == Some(2int) {
                    abs(v)
                } else {
                    0
                })
                // By triggering action: a trade or fill goes to the trade component
                // only, a cancel to the cancel component only, an add to the add
                // component only, and any other action to none of them.
                &&& (recorded && (book.triggering_action == Some(Action::Trade)
                    || book.triggering_action == Some(Action::Fill))) ==> {
                    &&& final(self).day_abs_trade == old(self).day_abs_trade + abs(v)
                    &&& final(self).day_abs_add == old(self).day_abs_add
                    &&& final(self).day_abs_cancel == old(self).day_abs_cancel
                }
                &&& (recorded && book.triggering_action == Some(Action::Cancel)) ==> {
                    &&& final(self).day_abs_cancel == old(self).day_abs_cancel + abs(v)
                    &&& final(self).day_abs_add == old(self).day_abs_add
                    &&& final(self).day_abs_trade == old(self).day_abs_trade
                }
                &&& (recorded && book.triggering_action == Some(Action::Add)) ==> {
                    &&& final(self).day_abs_add == old(self).day_abs_add + abs(v)
                    &&& final(self).day_abs_cancel == old(self).day_abs_cancel
                    &&& final(self).day_abs_trade == old(self).day_abs_trade
                }
                &&& (!recorded || !(book.triggering_action == Some(Action::Add)
                    || book.triggering_action == Some(Action::Cancel)
                    || book.triggering_action == Some(Action::Trade)
                    || book.triggering_action == Some(Action::Fill))) ==> {
                    &&& final(self).day_abs_add == old(self).day_abs_add
                    &&& final(self).day_abs_cancel == old(self).day_abs_cancel
                    &&& final(self).day_abs_trade == old(self).day_abs_trade
                }
                // Executions with a disclosed side count toward the aggressor split.
                &&& final(self).total_buyer_vol == old(self).total_buyer_vol + (if execution
                    && msg.side == Side::Bid {
                    msg.size as int
                } else {
                    0
                })
                &&& final(self).total_seller_vol == old(self).total_seller_vol + (if execution
                    && msg.side == Side::Ask {
                    msg.size as int
                } else {
                    0
                })
            },
    {
        if !book.is_valid() {
            return None;
        }
        let bid = match book.best_bid {
            Some(b) => b,
            None => 0,
        };
        let ask = match book.best_ask {
            Some(a) => a,
            None => 0,
        };
        if bid == 0 || ask == 0 {
            return None;
        }
        proof {
            assert(ofi_admits(book));
        }
        if let Some(ts) = msg.timestamp {
            self.day_mid_x2.push(bid as i128 + ask as i128);
            self.day_mid_ts.push(ts);
            let spread = ask as i128 - bid as i128;
            if spread >= 0 {
                self.day_spreads.push(spread);
                self.day_spread_ts.push(ts);
            }
        }
        let bs = book.bid_sizes[0];
        let asz = book.ask_sizes[0];
        let step = self.state.observe(bid, bs, ask, asz);
        match step {
            OfiStep::Primed => None,
            OfiStep::Imbalance(ofi) => {
                let mut recorded: Option<i64> = None;
                if let Some(ts) = msg.timestamp {
                    self.day_ofi_ts.push(ts);
                    self.day_ofi_vals.push(ofi);
                    let mag: u128 = if ofi < 0 {
                        (-(ofi as i128)) as u128
                    } else {
                        ofi as u128
                    };
                    match book.triggering_action {
                        Some(Action::Add) => {
                            self.day_abs_add = self.day_abs_add + mag;
                        },
                        Some(Action::Cancel) => {
                            self.day_abs_cancel = self.day_abs_cancel + mag;
                        },
                        Some(Action::Trade) | Some(Action::Fill) => {
                            self.day_abs_trade = self.day_abs_trade + mag;
                        },
                        _ => {},
                    }
                    recorded = Some(ofi);
                }
                if msg.is_execution() {
                    match msg.side {
                        Side::Bid => {
                            self.total_buyer_vol = self.total_buyer_vol + msg.size as u128;
                        },
                        Side::Ask => {
                            self.total_seller_vol = self.total_seller_vol + msg.size as u128;
                        },
                        Side::Unspecified => {},
                    }
                }
                recorded
            },
        }
    }

    /// Close the day: the cumulative delta of the day's imbalances, and, when
    /// the day recorded at least two imbalances, its component magnitudes are
    /// added to the running totals.
    pub fn end_of_day(&mut self) -> (r: OfiDaySummary)
        requires
            old(self).wf(),
            old(self).has_headroom(),
        ensures
            final(self).wf(),
            r.eod_delta == seq_sum(old(self).day_ofi_vals@),
            r.processed == (old(self).day_ofi_vals.len() >= 2),
            final(self).n_days == old(self).n_days + 1,
            final(self).total_abs_add == old(self).total_abs_add + (if r.processed {
                old(self).day_abs_add as int
            } else {
                0
            }),
            final(self).total_abs_cancel == old(self).total_abs_cancel + (if r.processed {
                old(self).day_abs_cancel as int
            } else {
                0
            }),
            final(self).total_abs_trade == old(self).total_abs_trade + (if r.processed {
                old(self).day_abs_trade as int
            } else {
                0
            }),
            final(self).state == old(self).state,
            final(self).day_ofi_vals@ == old(self).day_ofi_vals@,
            final(self).day_ofi_ts@ == old(self).day_ofi_ts@,
            final(self).day_mid_x2@ == old(self).day_mid_x2@,
            final(self).day_mid_ts@ == old(self).day_mid_ts@,
            final(self).day_spreads@ == old(self).day_spreads@,
            final(self).day_spread_ts@ == old(self).day_spread_ts@,
            final(self).day_abs_add == old(self).day_abs_add,
            final(self).day_abs_cancel == old(self).day_abs_cancel,
            final(self).day_abs_trade == old(self).day_abs_trade,
            final(self).total_buyer_vol == old(self).total_buyer_vol,
            final(self).total_seller_vol == old(self).total_seller_vol,
            final(self).utc_offset == old(self).utc_offset,
            final(self).day_epoch_ns == old(self).day_epoch_ns,
    {
        let eod_delta = sum_ofi(&self.day_ofi_vals);
        let processed = self.day_ofi_vals.len() >= 2;
        if processed {
            self.total_abs_add = self.total_abs_add + self.day_abs_add;
            self.total_abs_cancel = self.total_abs_cancel + self.day_abs_cancel;
            self.total_abs_trade = self.total_abs_trade + self.day_abs_trade;
        }
        self.n_days = self.n_days + 1;
        OfiDaySummary { eod_delta, processed }
    }

    /// Clear the day's buffers and forget the remembered book.
    pub fn reset_day(&mut self)
        requires
            old(self).wf(),
        ensures
            final(self).wf(),
            !final(self).state.initialized,
            final(self).day_ofi_vals.len() == 0,
            final(self).day_ofi_ts.len() == 0,
            final(self).day_mid_x2.len() == 0,
            final(self).day_mid_ts.len() == 0,
            final(self).day_spreads.len() == 0,
            final(self).day_spread_ts.len() == 0,
            final(self).day_abs_add == 0,
            final(self).day_abs_cancel == 0,
            final(self).day_abs_trade == 0,
            final(self).total_abs_add == old(self).total_abs_add,
            final(self).total_abs_cancel == old(self).total_abs_cancel,
            final(self).total_abs_trade == old(self).total_abs_trade,
            final(self).total_buyer_vol == old(self).total_buyer_vol,
            final(self).total_seller_vol == old(self).total_seller_vol,
            final(self).n_days == old(self).n_days,
            final(self).utc_offset == old(self).utc_offset,
            final(self).day_epoch_ns == old(self).day_epoch_ns,
    {
        self.day_ofi_ts.clear();
        self.day_ofi_vals.clear();
        self.day_mid_ts.clear();
        self.day_mid_x2.clear();
        self.day_spread_ts.clear();
        self.day_spreads.clear();
        self.day_abs_add = 0;
        self.day_abs_cancel = 0;
        self.day_abs_trade = 0;
        self.state.reset();
    }

    /// The tracker's report name, `OfiTracker`.
    pub fn name(&self) -> (r: &'static str)
        ensures
            r@ == "OfiTracker"@,
    {
        "OfiTracker"
    }
}

/// The exact sum of a day's imbalances.
pub fn sum_ofi(v: &Vec<i64>) -> (r: i128)
    requires
        forall|i: int| 0 <= i < v.len() ==> abs(#[trigger] v@[i] as int) <= ofi_bound(),
    ensures
        r == seq_sum(v@),
{
    let mut total: i128 = 0;
    let mut i: usize = 0;
    while i < v.len()
        invariant
            i <= v.len(),
            forall|k: int| 0 <= k < v.len() ==> abs(#[trigger] v@[k] as int) <= ofi_bound(),
            total == seq_sum(v@.subrange(0, i as int)),
            abs(total as int) <= i * ofi_bound(),
        decreases v.len() - i,
    {
        proof {
            let s = v@.subrange(0, i as int + 1);
            assert(s.drop_last() =~= v@.subrange(0, i as int));
            assert(s.last() == v@[i as int]);
            assert((i as int + 1) * ofi_bound() == i as int * ofi_bound() + ofi_bound())
                by (nonlinear_arith);
            assert((i as int + 1) * ofi_bound() <= 0x1_0000_0000_0000_0000 * 0x2_0000_0000)
                by (nonlinear_arith)
                requires
                    i as int + 1 <= 0x1_0000_0000_0000_0000,
                    ofi_bound() == 2 * 4294967295,
            ;
        }
        let x = v[i];
        assert(abs(x as int) <= ofi_bound());
        total = total + x as i128;
        i = i + 1;
    }
    proof {
        assert(v@.subrange(0, v.len() as int) =~= v@);
    }
    total
}

} // verus!
