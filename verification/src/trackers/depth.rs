//! Order book depth tracker: per-level sizes, depth imbalance
//! `DI = (bid_vol - ask_vol) / (bid_vol + ask_vol)` in `[-1, 1]`, and L1
//! concentration `C_L1 = (bid_size[0] + ask_size[0]) / (bid_vol + ask_vol)`
//! in `[0, 1]`, measured exactly as integer ratios on every valid book.

use vstd::prelude::*;
use crate::book::{BookSnapshot, OrderEvent, lemma_sum_sizes_bounds, lemma_sum_sizes_ge_first};

verus! {

/// Number of book levels in the depth profile.
pub const DEPTH_PROFILE_LEVELS: usize = 10;

/// The depth measurements of one valid book.
#[derive(Clone, Copy, Debug, PartialEq, Eq)]
pub struct DepthObservation {
    /// Number of profiled levels: the book's levels, at most [`DEPTH_PROFILE_LEVELS`].
    pub levels: usize,
    /// Total bid volume over all levels.
    pub bid_vol: u64,
    /// Total ask volume over all levels.
    pub ask_vol: u64,
    /// Volume at the top of the book on both sides.
    pub l1_vol: u64,
}

impl DepthObservation {
    pub open spec fn total(&self) -> int {
        self.bid_vol + self.ask_vol
    }

    /// Depth imbalance as `(numerator, denominator)`, when the book holds volume.
    pub fn imbalance(&self) -> (r: Option<(i128, u128)>)
        ensures
            self.total() > 0 <==> r is Some,
            r matches Some((n, d)) ==> {
                &&& n == self.bid_vol - self.ask_vol
                &&& d == self.total()
                &&& -(d as int) <= n <= d
            },
    {
        let total = self.bid_vol as u128 + self.ask_vol as u128;
        if total > 0 {
            Some((self.bid_vol as i128 - self.ask_vol as i128, total))
        } else {
            None
        }
    }

    /// L1 concentration as `(numerator, denominator)`, when the book holds volume.
    pub fn l1_concentration(&self) -> (r: Option<(u128, u128)>)
        requires
            self.l1_vol <= self.total(),
        ensures
            self.total() > 0 <==> r is Some,
            r matches Some((n, d)) ==> {
                &&& n == self.l1_vol
                &&& d == self.total()
                &&& n <= d
            },
    {
        let total = self.bid_vol as u128 + self.ask_vol as u128;
        if total > 0 {
            Some((self.l1_vol as u128, total))
        } else {
            None
        }
    }
}

/// Integer core of the depth tracker.
pub struct DepthTracker {
    pub n_snapshots: u64,
    pub n_days: u32,
}

impl DepthTracker {
    pub fn new() -> (r: Self)
        ensures
            r.n_snapshots == 0,
            r.n_days == 0,
    {
        DepthTracker { n_snapshots: 0, n_days: 0 }
    }

    /// Measure a valid book; other books are skipped.
    pub fn process_event(&mut self, msg: &OrderEvent, book: &BookSnapshot, regime: u8) -> (r:
        Option<DepthObservation>)
        requires
            book.well_shaped(),
            old(self).n_snapshots < u64::MAX,
        ensures
            final(self).n_days == old(self).n_days,
            !book.is_valid() ==> r is None && final(self).n_snapshots == old(self).n_snapshots,
            book.is_valid() ==> {
                &&& final(self).n_snapshots == old(self).n_snapshots + 1
                &&& r matches Some(o) && {
                    &&& o.levels == (if book.bid_sizes.len() < DEPTH_PROFILE_LEVELS {
                        book.bid_sizes.len()
                    } else {
                        DEPTH_PROFILE_LEVELS
                    })
                    &&& o.bid_vol == book.spec_total_bid()
                    &&& o.ask_vol == book.spec_total_ask()
                    &&& o.l1_vol == book.bid_sizes@[0] + book.ask_sizes@[0]
                    &&& o.l1_vol <= o.total()
                }
            },
    {
        if !book.is_valid() {
            return None;
        }
        self.n_snapshots = self.n_snapshots + 1;
        let levels = if book.bid_sizes.len() < DEPTH_PROFILE_LEVELS {
            book.bid_sizes.len()
        } else {
            DEPTH_PROFILE_LEVELS
        };
        let bid_vol = book.total_bid_volume();
        let ask_vol = book.total_ask_volume();
        proof {
            lemma_sum_sizes_ge_first(book.bid_sizes@, book.bid_sizes@.len() as int);
            lemma_sum_sizes_ge_first(book.ask_sizes@, book.ask_sizes@.len() as int);
        }
        let l1_vol = book.bid_sizes[0] as u64 + book.ask_sizes[0] as u64;
        Some(DepthObservation { levels, bid_vol, ask_vol, l1_vol })
    }

    pub fn end_of_day(&mut self, day_index: u32)
        requires
            old(self).n_days < u32::MAX,
        ensures
            final(self).n_days == old(self).n_days + 1,
            final(self).n_snapshots == old(self).n_snapshots,
    {
        self.n_days = self.n_days + 1;
    }

    /// Nothing is kept per day.
    pub fn reset_day(&mut self)
        ensures
            final(self).n_days == old(self).n_days,
            final(self).n_snapshots == old(self).n_snapshots,
    {
    }

    /// The tracker's report name, `DepthTracker`.
    pub fn name(&self) -> (r: &'static str)
        ensures
            r@ == "DepthTracker"@,
    {
        "DepthTracker"
    }
}


impl Default for DepthTracker {
    fn default() -> (r: Self)
        ensures
            r.n_snapshots == 0,
            r.n_days == 0,
    {
        DepthTracker::new()
    }
}

} // verus!
