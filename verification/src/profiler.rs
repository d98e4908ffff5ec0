//! The day loop of a profiling run: which day is being processed, how many
//! events it and the whole run have seen.

use vstd::prelude::*;

verus! {

/// Counters of a profiling run.
pub struct RunCounters {
    /// Index of the day being processed (number of days completed).
    pub day_index: u32,
    /// Events of completed days.
    pub total_events: u64,
    /// Events of the day in progress.
    pub day_events: u64,
}

impl RunCounters {
    pub fn new() -> (r: Self)
        ensures
            r.day_index == 0,
            r.total_events == 0,
            r.day_events == 0,
    {
        RunCounters { day_index: 0, total_events: 0, day_events: 0 }
    }

    /// Start a new day.
    pub fn start_day(&mut self)
        ensures
            final(self).day_events == 0,
            final(self).day_index == old(self).day_index,
            final(self).total_events == old(self).total_events,
    {
        self.day_events = 0;
    }

    /// Count one event of the day in progress.
    pub fn count_event(&mut self)
        requires
            old(self).day_events < u64::MAX,
        ensures
            final(self).day_events == old(self).day_events + 1,
            final(self).day_index == old(self).day_index,
            final(self).total_events == old(self).total_events,
    {
        self.day_events = self.day_events + 1;
    }

    /// Complete the day in progress: its events join the run's total.
    pub fn finish_day(&mut self)
        requires
            old(self).total_events + old(self).day_events <= u64::MAX,
            old(self).day_index < u32::MAX,
        ensures
            final(self).total_events == old(self).total_events + old(self).day_events,
            final(self).day_index == old(self).day_index + 1,
            final(self).day_events == old(self).day_events,
    {
        self.total_events = self.total_events + self.day_events;
        self.day_index = self.day_index + 1;
    }
}

} // verus!
