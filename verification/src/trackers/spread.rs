//! Bid-ask spread tracker. Spreads are measured in nanodollars on valid
//! books with a non-negative spread and a positive mid, and classified by
//! width in ticks (SEC Rule 612 tick of $0.01): one tick or less, two,
//! three to four, five or more.

use vstd::prelude::*;
use crate::book::{BookSnapshot, OrderEvent, TICK_NANOS};
use crate::counts::{count_sum, lemma_count_sum_bounds_entry, lemma_count_sum_increment, lemma_count_sum_zeros};

verus! {

/// Number of width classes.
pub const N_WIDTH_CLASSES: usize = 4;

/// A spread of `spread` nanodollars in ticks, rounded to the nearest tick
/// (halves round up).
pub open spec fn spec_rounded_ticks(spread: int) -> int {
    (spread + TICK_NANOS / 2) / (TICK_NANOS as int)
}

/// The width class of a rounded tick count.
pub open spec fn spec_width_class(ticks: int) -> int {
    if ticks <= 1 {
        0
    } else if ticks == 2 {
        1
    } else if ticks <= 4 {
        2
    } else {
        3
    }
}

/// The width class of a non-negative spread in nanodollars.
pub fn width_class(spread: i128) -> (r: usize)
    requires
        spread >= 0,
        spread < i128::MAX / 2,
    ensures
        r == spec_width_class(spec_rounded_ticks(spread as int)),
        r < N_WIDTH_CLASSES,
{
    let ticks = (spread + (TICK_NANOS / 2) as i128) / (TICK_NANOS as i128);
    if ticks <= 1 {
        0
    } else if ticks == 2 {
        1
    } else if ticks <= 4 {
        2
    } else {
        3
    }
}

/// One spread measurement.
#[derive(Clone, Copy, Debug, PartialEq, Eq)]
pub struct SpreadObservation {
    /// `ask - bid`, nanodollars (non-negative).
    pub spread_nanos: i128,
    /// `bid + ask` (twice the mid), nanodollars (positive).
    pub mid_x2: i128,
    pub timestamp: Option<i64>,
    /// The day's UTC offset (hours) cached by `begin_day`.
    pub utc_offset: i32,
    /// Whether the book was produced by an execution.
    pub trade_event: bool,
}

/// Integer core of the spread tracker.
pub struct SpreadTracker {
    /// One tick or less, two, three to four, five or more.
    pub width_counts: [u64; N_WIDTH_CLASSES],
    pub total_events: u64,
    pub n_days: u32,
    pub utc_offset: i32,
    /// Reservoir capacity of the spread distributions.
    pub reservoir_capacity: usize,
}

impl SpreadTracker {
    /// Every measured spread is counted in exactly one width class.
    pub open spec fn wf(&self) -> bool {
        count_sum(self.width_counts@) == self.total_events
    }

    pub fn new(reservoir_capacity: usize) -> (r: Self)
        ensures
            r.wf(),
            r.total_events == 0,
            r.width_counts@ == Seq::new(N_WIDTH_CLASSES as nat, |i: int| 0u64),
            r.n_days == 0,
            r.utc_offset == -5,
            r.reservoir_capacity == reservoir_capacity,
    {
        let r = SpreadTracker {
            width_counts: [0u64; N_WIDTH_CLASSES],
            total_events: 0,
            n_days: 0,
            utc_offset: -5,
            reservoir_capacity,
        };
        proof {
            assert(r.width_counts@ =~= Seq::new(N_WIDTH_CLASSES as nat, |i: int| 0u64));
            lemma_count_sum_zeros(N_WIDTH_CLASSES as nat);
        }
        r
    }

    /// Cache the day's UTC offset.
    pub fn begin_day(&mut self, day_index: u32, utc_offset: i32, day_epoch_ns: i64)
        ensures
            final(self).utc_offset == utc_offset,
            final(self).width_counts == old(self).width_counts,
            final(self).total_events == old(self).total_events,
            final(self).n_days == old(self).n_days,
            final(self).reservoir_capacity == old(self).reservoir_capacity,
    {
        self.utc_offset = utc_offset;
    }

    /// Measure the spread of a valid book with a non-negative spread and a
    /// positive mid; other books are skipped.
    pub fn process_event(&mut self, msg: &OrderEvent, book: &BookSnapshot, regime: u8) -> (r:
        Option<SpreadObservation>)
        requires
            old(self).wf(),
            old(self).total_events < u64::MAX,
        ensures
            final(self).wf(),
            final(self).n_days == old(self).n_days,
            final(self).utc_offset == old(self).utc_offset,
            final(self).reservoir_capacity == old(self).reservoir_capacity,
            ({
                let measured = book.is_valid() && book.spec_spread() is Some
                    && book.spec_spread()->0 >= 0 && book.spec_mid_x2()->0 > 0;
                &&& !measured ==> r is None && final(self).width_counts == old(self).width_counts
                    && final(self).total_events == old(self).total_events
                &&& measured ==> {
                    let s = book.spec_spread()->0;
                    let w = spec_width_class(spec_rounded_ticks(s));
                    &&& r == Some(
                        SpreadObservation {
                            spread_nanos: s as i128,
                            mid_x2: book.spec_mid_x2()->0 as i128,
                            timestamp: msg.timestamp,
                            utc_offset: old(self).utc_offset,
                            trade_event: book.trade_event,
                        },
                    )
                    &&& final(self).total_events == old(self).total_events + 1
                    &&& final(self).width_counts@ == old(self).width_counts@.update(
                        w,
                        (old(self).width_counts@[w] + 1) as u64,
                    )
                }
            }),
    {
        if !book.is_valid() {
            return None;
        }
        let spread = match book.spread() {
            Some(s) => s,
            None => {
                return None;
            },
        };
        if spread < 0 {
            return None;
        }
        let mid_x2 = match book.mid_x2() {
            Some(m) => m,
            None => {
                return None;
            },
        };
        if mid_x2 <= 0 {
            return None;
        }
        let w = width_class(spread);
        proof {
            lemma_count_sum_bounds_entry(self.width_counts@, w as int);
            lemma_count_sum_increment(self.width_counts@, w as int);
        }
        self.total_events = self.total_events + 1;
        self.width_counts[w] = self.width_counts[w] + 1;
        Some(
            SpreadObservation {
                spread_nanos: spread,
                mid_x2,
                timestamp: msg.timestamp,
                utc_offset: self.utc_offset,
                trade_event: book.trade_event,
            },
        )
    }

    pub fn end_of_day(&mut self)
        requires
            old(self).n_days < u32::MAX,
        ensures
            final(self).n_days == old(self).n_days + 1,
            final(self).width_counts == old(self).width_counts,
            final(self).total_events == old(self).total_events,
            final(self).utc_offset == old(self).utc_offset,
            final(self).reservoir_capacity == old(self).reservoir_capacity,
    {
        self.n_days = self.n_days + 1;
    }

    /// Nothing is kept per day.
    pub fn reset_day(&mut self)
        ensures
            final(self).n_days == old(self).n_days,
            final(self).width_counts == old(self).width_counts,
            final(self).total_events == old(self).total_events,
            final(self).utc_offset == old(self).utc_offset,
            final(self).reservoir_capacity == old(self).reservoir_capacity,
    {
    }

    /// The tracker's report name, `SpreadTracker`.
    pub fn name(&self) -> (r: &'static str)
        ensures
            r@ == "SpreadTracker"@,
    {
        "SpreadTracker"
    }
}

} // verus!
