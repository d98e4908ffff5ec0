//! The day's mid-price series of valid books, and the trackers built on it:
//! returns, realized volatility, jumps and microstructure noise. The series
//! is exact (`bid + ask`, twice the mid, in nanodollars); the statistics
//! computed from its log returns are floating point.

use vstd::prelude::*;
use crate::book::{BookConsistency, BookSnapshot, OrderEvent};

verus! {

/// The timestamped mid prices of the day's valid books with a positive mid.
pub struct MidSeries {
    pub day_timestamps: Vec<i64>,
    /// `bid + ask` (twice the mid), nanodollars, always positive.
    pub day_mid_x2: Vec<i128>,
}

/// Whether a book and event contribute a mid-price sample.
pub open spec fn samples_mid(msg: &OrderEvent, book: &BookSnapshot) -> bool {
    &&& book.is_valid()
    &&& book.spec_mid_x2() is Some
    &&& book.spec_mid_x2()->0 > 0
    &&& msg.timestamp is Some
}

/// The sampling rule, by the book and the event alone: a sample is taken
/// exactly when the book is classified valid, both best quotes are present
/// with a positive sum, and the event carries a timestamp. What the event
/// was (its action, side, size, price or order) plays no part: two events
/// with the same timestamp on the same book are both sampled or both not.
pub proof fn lemma_sampling_rule(msg: &OrderEvent, other: &OrderEvent, book: &BookSnapshot)
    ensures
        samples_mid(msg, book) <==> {
            &&& book.consistency == BookConsistency::Valid
            &&& book.best_bid is Some
            &&& book.best_ask is Some
            &&& book.best_bid->0 + book.best_ask->0 > 0
            &&& msg.timestamp is Some
        },
        msg.timestamp == other.timestamp ==> (samples_mid(msg, book) <==> samples_mid(
            other,
            book,
        )),
{
}

impl MidSeries {
    pub open spec fn wf(&self) -> bool {
        &&& self.day_timestamps.len() == self.day_mid_x2.len()
        &&& forall|i: int| 0 <= i < self.day_mid_x2.len() ==> #[trigger] self.day_mid_x2@[i] > 0
    }

    pub fn new() -> (r: Self)
        ensures
            r.wf(),
            r.day_timestamps.len() == 0,
            r.day_mid_x2.len() == 0,
    {
        MidSeries { day_timestamps: Vec::new(), day_mid_x2: Vec::new() }
    }

    /// Sample the mid of a valid book with a positive mid, when the event is timestamped.
    pub fn record(&mut self, msg: &OrderEvent, book: &BookSnapshot)
        requires
            old(self).wf(),
        ensures
            final(self).wf(),
            samples_mid(msg, book) ==> {
                &&& final(self).day_timestamps@ == old(self).day_timestamps@.push(msg.timestamp->0)
                &&& final(self).day_mid_x2@ == old(self).day_mid_x2@.push(
                    book.spec_mid_x2()->0 as i128,
                )
            },
            !samples_mid(msg, book) ==> {
                &&& final(self).day_timestamps@ == old(self).day_timestamps@
                &&& final(self).day_mid_x2@ == old(self).day_mid_x2@
            },
            // Whatever the event's action: a timestamped valid book with both
            // quotes and a positive mid is sampled, and nothing else is.
            ({
                let sampled = book.consistency == BookConsistency::Valid && book.best_bid is Some
                    && book.best_ask is Some && book.best_bid->0 + book.best_ask->0 > 0
                    && msg.timestamp is Some;
                &&& sampled ==> final(self).day_timestamps@ == old(self).day_timestamps@.push(
                    msg.timestamp->0,
                )
                &&& sampled ==> final(self).day_mid_x2@ == old(self).day_mid_x2@.push(
                    (book.best_bid->0 + book.best_ask->0) as i128,
                )
                &&& !sampled ==> final(self).day_timestamps@ == old(self).day_timestamps@
                &&& !sampled ==> final(self).day_mid_x2@ == old(self).day_mid_x2@
            }),
    {
        if !book.is_valid() {
            return;
        }
        if let Some(mid_x2) = book.mid_x2() {
            if let Some(ts) = msg.timestamp {
                if mid_x2 > 0 {
                    self.day_timestamps.push(ts);
                    self.day_mid_x2.push(mid_x2);
                }
            }
        }
    }

    pub fn len(&self) -> (r: usize)
        ensures
            r == self.day_mid_x2.len(),
    {
        self.day_mid_x2.len()
    }

    pub fn clear(&mut self)
        ensures
            final(self).wf(),
            final(self).day_timestamps.len() == 0,
            final(self).day_mid_x2.len() == 0,
    {
        self.day_timestamps.clear();
        self.day_mid_x2.clear();
    }
}

/// Integer core of the multi-scale return tracker.
pub struct ReturnTracker {
    pub series: MidSeries,
    pub n_days: u32,
    /// Day context cached by `begin_day`.
    pub utc_offset: i32,
    pub day_epoch_ns: i64,
}

impl ReturnTracker {
    pub fn new() -> (r: Self)
        ensures
            r.series.wf(),
            r.series.day_mid_x2.len() == 0,
            r.n_days == 0,
            r.utc_offset == -5,
            r.day_epoch_ns == 0,
    {
        ReturnTracker { series: MidSeries::new(), n_days: 0, utc_offset: -5, day_epoch_ns: 0 }
    }

    pub fn begin_day(&mut self, day_index: u32, utc_offset: i32, day_epoch_ns: i64)
        ensures
            final(self).utc_offset == utc_offset,
            final(self).day_epoch_ns == day_epoch_ns,
            final(self).series == old(self).series,
            final(self).n_days == old(self).n_days,
    {
        self.utc_offset = utc_offset;
        self.day_epoch_ns = day_epoch_ns;
    }

    pub fn process_event(&mut self, msg: &OrderEvent, book: &BookSnapshot)
        requires
            old(self).series.wf(),
        ensures
            final(self).series.wf(),
            samples_mid(msg, book) ==> final(self).series.day_mid_x2@ == old(
                self,
            ).series.day_mid_x2@.push(book.spec_mid_x2()->0 as i128),
            !samples_mid(msg, book) ==> final(self).series.day_mid_x2@ == old(
                self,
            ).series.day_mid_x2@,
            samples_mid(msg, book) ==> final(self).series.day_timestamps@ == old(
                self,
            ).series.day_timestamps@.push(msg.timestamp->0),
            !samples_mid(msg, book) ==> final(self).series.day_timestamps@ == old(
                self,
            ).series.day_timestamps@,
            // Executions are sampled like any other event.
            ({
                let sampled = book.consistency == BookConsistency::Valid && book.best_bid is Some
                    && book.best_ask is Some && book.best_bid->0 + book.best_ask->0 > 0
                    && msg.timestamp is Some;
                &&& sampled ==> final(self).series.day_mid_x2@ == old(
                    self,
                ).series.day_mid_x2@.push((book.best_bid->0 + book.best_ask->0) as i128)
                &&& sampled ==> final(self).series.day_timestamps@ == old(
                    self,
                ).series.day_timestamps@.push(msg.timestamp->0)
                &&& !sampled ==> final(self).series.day_mid_x2@ == old(self).series.day_mid_x2@
            }),
            final(self).n_days == old(self).n_days,
            final(self).utc_offset == old(self).utc_offset,
            final(self).day_epoch_ns == old(self).day_epoch_ns,
    {
        self.series.record(msg, book);
    }

    /// Close the day; returns whether the day has the two samples its
    /// return statistics need.
    pub fn end_of_day(&mut self) -> (r: bool)
        requires
            old(self).n_days < u32::MAX,
        ensures
            r == (old(self).series.day_mid_x2.len() >= 2),
            final(self).n_days == old(self).n_days + 1,
            final(self).series == old(self).series,
            final(self).utc_offset == old(self).utc_offset,
            final(self).day_epoch_ns == old(self).day_epoch_ns,
    {
        self.n_days = self.n_days + 1;
        self.series.len() >= 2
    }

    pub fn reset_day(&mut self)
        ensures
            final(self).series.wf(),
            final(self).series.day_mid_x2.len() == 0,
            final(self).series.day_timestamps.len() == 0,
            final(self).n_days == old(self).n_days,
            final(self).utc_offset == old(self).utc_offset,
            final(self).day_epoch_ns == old(self).day_epoch_ns,
    {
        self.series.clear();
    }

    /// The tracker's report name, `ReturnTracker`.
    pub fn name(&self) -> (r: &'static str)
        ensures
            r@ == "ReturnTracker"@,
    {
        "ReturnTracker"
    }
}

/// Integer core of the realized volatility tracker: the mid series and the
/// day's non-negative spreads.
pub struct VolatilityTracker {
    pub series: MidSeries,
    /// Non-negative spreads of the day's valid books, nanodollars.
    pub day_spreads: Vec<i128>,
    pub n_days: u32,
}

impl VolatilityTracker {
    pub fn new() -> (r: Self)
        ensures
            r.series.wf(),
            r.series.day_mid_x2.len() == 0,
            r.day_spreads.len() == 0,
            r.n_days == 0,
    {
        VolatilityTracker { series: MidSeries::new(), day_spreads: Vec::new(), n_days: 0 }
    }

    pub fn process_event(&mut self, msg: &OrderEvent, book: &BookSnapshot)
        requires
            old(self).series.wf(),
        ensures
            final(self).series.wf(),
            samples_mid(msg, book) ==> final(self).series.day_mid_x2@ == old(
                self,
            ).series.day_mid_x2@.push(book.spec_mid_x2()->0 as i128),
            !samples_mid(msg, book) ==> final(self).series.day_mid_x2@ == old(
                self,
            ).series.day_mid_x2@,
            samples_mid(msg, book) ==> final(self).series.day_timestamps@ == old(
                self,
            ).series.day_timestamps@.push(msg.timestamp->0),
            !samples_mid(msg, book) ==> final(self).series.day_timestamps@ == old(
                self,
            ).series.day_timestamps@,
            final(self).day_spreads@ == (if book.is_valid() && book.spec_spread() is Some
                && book.spec_spread()->0 >= 0 {
                old(self).day_spreads@.push(book.spec_spread()->0 as i128)
            } else {
                old(self).day_spreads@
            }),
            final(self).n_days == old(self).n_days,
    {
        if !book.is_valid() {
            return;
        }
        self.series.record(msg, book);
        if let Some(spread) = book.spread() {
            if spread >= 0 {
                self.day_spreads.push(spread);
            }
        }
    }

    /// Close the day; returns whether the day has the two samples its
    /// volatility statistics need.
    pub fn end_of_day(&mut self) -> (r: bool)
        requires
            old(self).n_days < u32::MAX,
        ensures
            r == (old(self).series.day_mid_x2.len() >= 2),
            final(self).n_days == old(self).n_days + 1,
            final(self).series == old(self).series,
            final(self).day_spreads@ == old(self).day_spreads@,
    {
        self.n_days = self.n_days + 1;
        self.series.len() >= 2
    }

    pub fn reset_day(&mut self)
        ensures
            final(self).series.wf(),
            final(self).series.day_mid_x2.len() == 0,
            final(self).day_spreads.len() == 0,
            final(self).n_days == old(self).n_days,
    {
        self.series.clear();
        self.day_spreads.clear();
    }

    /// The tracker's report name, `VolatilityTracker`.
    pub fn name(&self) -> (r: &'static str)
        ensures
            r@ == "VolatilityTracker"@,
    {
        "VolatilityTracker"
    }
}

/// Integer core of the bipower-variation jump tracker.
pub struct JumpTracker {
    pub series: MidSeries,
    pub n_days: u32,
}

impl JumpTracker {
    pub fn new() -> (r: Self)
        ensures
            r.series.wf(),
            r.series.day_mid_x2.len() == 0,
            r.n_days == 0,
    {
        JumpTracker { series: MidSeries::new(), n_days: 0 }
    }

    pub fn process_event(&mut self, msg: &OrderEvent, book: &BookSnapshot)
        requires
            old(self).series.wf(),
        ensures
            final(self).series.wf(),
            samples_mid(msg, book) ==> final(self).series.day_mid_x2@ == old(
                self,
            ).series.day_mid_x2@.push(book.spec_mid_x2()->0 as i128),
            !samples_mid(msg, book) ==> final(self).series.day_mid_x2@ == old(
                self,
            ).series.day_mid_x2@,
            samples_mid(msg, book) ==> final(self).series.day_timestamps@ == old(
                self,
            ).series.day_timestamps@.push(msg.timestamp->0),
            !samples_mid(msg, book) ==> final(self).series.day_timestamps@ == old(
                self,
            ).series.day_timestamps@,
            final(self).n_days == old(self).n_days,
    {
        self.series.record(msg, book);
    }

    /// Close the day; returns whether the day has the two samples its jump
    /// statistics need.
    pub fn end_of_day(&mut self) -> (r: bool)
        requires
            old(self).n_days < u32::MAX,
        ensures
            r == (old(self).series.day_mid_x2.len() >= 2),
            final(self).n_days == old(self).n_days + 1,
            final(self).series == old(self).series,
    {
        self.n_days = self.n_days + 1;
        self.series.len() >= 2
    }

    pub fn reset_day(&mut self)
        ensures
            final(self).series.wf(),
            final(self).series.day_mid_x2.len() == 0,
            final(self).n_days == old(self).n_days,
    {
        self.series.clear();
    }

    /// The tracker's report name, `JumpTracker`.
    pub fn name(&self) -> (r: &'static str)
        ensures
            r@ == "JumpTracker"@,
    {
        "JumpTracker"
    }
}

/// Minimum number of samples for a day's noise statistics.
pub const MIN_NOISE_SAMPLES: usize = 10;

/// Integer core of the microstructure noise tracker.
pub struct NoiseTracker {
    pub series: MidSeries,
    pub n_days: u32,
}

impl NoiseTracker {
    pub fn new() -> (r: Self)
        ensures
            r.series.wf(),
            r.series.day_mid_x2.len() == 0,
            r.n_days == 0,
    {
        NoiseTracker { series: MidSeries::new(), n_days: 0 }
    }

    pub fn process_event(&mut self, msg: &OrderEvent, book: &BookSnapshot)
        requires
            old(self).series.wf(),
        ensures
            final(self).series.wf(),
            samples_mid(msg, book) ==> final(self).series.day_mid_x2@ == old(
                self,
            ).series.day_mid_x2@.push(book.spec_mid_x2()->0 as i128),
            !samples_mid(msg, book) ==> final(self).series.day_mid_x2@ == old(
                self,
            ).series.day_mid_x2@,
            samples_mid(msg, book) ==> final(self).series.day_timestamps@ == old(
                self,
            ).series.day_timestamps@.push(msg.timestamp->0),
            !samples_mid(msg, book) ==> final(self).series.day_timestamps@ == old(
                self,
            ).series.day_timestamps@,
            final(self).n_days == old(self).n_days,
    {
        self.series.record(msg, book);
    }

    /// Close the day; returns whether the day has the ten samples its noise
    /// statistics need.
    pub fn end_of_day(&mut self) -> (r: bool)
        requires
            old(self).n_days < u32::MAX,
        ensures
            r == (old(self).series.day_mid_x2.len() >= MIN_NOISE_SAMPLES),
            final(self).n_days == old(self).n_days + 1,
            final(self).series == old(self).series,
    {
        self.n_days = self.n_days + 1;
        self.series.len() >= MIN_NOISE_SAMPLES
    }

    pub fn reset_day(&mut self)
        ensures
            final(self).series.wf(),
            final(self).series.day_mid_x2.len() == 0,
            final(self).n_days == old(self).n_days,
    {
        self.series.clear();
    }

    /// The tracker's report name, `NoiseTracker`.
    pub fn name(&self) -> (r: &'static str)
        ensures
            r@ == "NoiseTracker"@,
    {
        "NoiseTracker"
    }
}

} // verus!
