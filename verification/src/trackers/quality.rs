//! Data quality tracker: event counts, the action distribution, the book
//! consistency distribution, the time-regime distribution and the per-day
//! event counts.

use vstd::prelude::*;
use crate::book::{Action, BookConsistency, BookSnapshot, OrderEvent, N_REGIMES};
use crate::counts::{count_sum, lemma_count_sum_bounds_entry, lemma_count_sum_increment, lemma_count_sum_zeros};

verus! {

/// Number of action buckets: Add, Modify, Cancel, Trade, Fill, Clear, none.
pub const N_ACTION_BUCKETS: usize = 7;

/// Number of book consistency classes: Valid, Empty, Locked, Crossed.
pub const N_CONSISTENCY_CLASSES: usize = 4;

/// The bucket an action is counted in. Aggressor prints are trades.
pub open spec fn spec_action_index(a: Action) -> int {
    match a {
        Action::Add => 0,
        Action::Modify => 1,
        Action::Cancel => 2,
        Action::Trade => 3,
        Action::TradeAggregate => 3,
        Action::Fill => 4,
        Action::Clear => 5,
        Action::NoAction => 6,
    }
}

/// The class index of a consistency classification.
pub open spec fn spec_consistency_index(c: BookConsistency) -> int {
    match c {
        BookConsistency::Valid => 0,
        BookConsistency::Empty => 1,
        BookConsistency::Locked => 2,
        BookConsistency::Crossed => 3,
    }
}

/// The action buckets are, in order, Add, Modify, Cancel, Trade (aggressor
/// prints included), Fill, Clear and none; the consistency classes are, in
/// order, Valid, Empty, Locked and Crossed. Distinct actions share a bucket
/// only for the two kinds of trade print.
pub proof fn lemma_bucket_order()
    ensures
        spec_action_index(Action::Add) == 0,
        spec_action_index(Action::Modify) == 1,
        spec_action_index(Action::Cancel) == 2,
        spec_action_index(Action::Trade) == 3,
        spec_action_index(Action::TradeAggregate) == 3,
        spec_action_index(Action::Fill) == 4,
        spec_action_index(Action::Clear) == 5,
        spec_action_index(Action::NoAction) == 6,
        spec_consistency_index(BookConsistency::Valid) == 0,
        spec_consistency_index(BookConsistency::Empty) == 1,
        spec_consistency_index(BookConsistency::Locked) == 2,
        spec_consistency_index(BookConsistency::Crossed) == 3,
        forall|a: Action, b: Action|
            spec_action_index(a) == spec_action_index(b) ==> a == b || (spec_action_index(a)
                == 3 && spec_action_index(b) == 3),
{
}

/// Integer core of the data quality tracker.
pub struct QualityTracker {
    pub total_events: u64,
    /// Add, Modify, Cancel, Trade, Fill, Clear, none.
    pub action_counts: [u64; N_ACTION_BUCKETS],
    /// Valid, Empty, Locked, Crossed.
    pub book_consistency_counts: [u64; N_CONSISTENCY_CLASSES],
    pub regime_counts: [u64; N_REGIMES],
    pub n_days: u32,
    /// `(day_index, event_count)` of each ended day.
    pub per_day_counts: Vec<(u32, u64)>,
    pub current_day_count: u64,
    /// The regime of every event counted, in order.
    pub regimes: Ghost<Seq<u8>>,
}

/// The number of entries of `s` that name a regime (are below [`N_REGIMES`]).
pub open spec fn in_regime_count(s: Seq<u8>) -> int
    decreases s.len(),
{
    if s.len() == 0 {
        0
    } else {
        in_regime_count(s.drop_last()) + (if (s.last() as int) < N_REGIMES {
            1int
        } else {
            0
        })
    }
}

proof fn lemma_in_regime_count_all(s: Seq<u8>)
    ensures
        0 <= in_regime_count(s) <= s.len(),
        in_regime_count(s) == s.len() <==> forall|i: int|
            0 <= i < s.len() ==> (#[trigger] s[i] as int) < N_REGIMES,
    decreases s.len(),
{
    if s.len() > 0 {
        let p = s.drop_last();
        lemma_in_regime_count_all(p);
        if in_regime_count(s) == s.len() {
            assert forall|i: int| 0 <= i < s.len() implies (#[trigger] s[i] as int) < N_REGIMES by {
                if i < s.len() - 1 {
                    assert(p[i] == s[i]);
                }
            }
        }
        if forall|i: int| 0 <= i < s.len() ==> (#[trigger] s[i] as int) < N_REGIMES {
            assert forall|i: int| 0 <= i < p.len() implies (#[trigger] p[i] as int) < N_REGIMES by {
                assert(p[i] == s[i]);
            }
            assert(s[s.len() - 1] == s.last());
        }
    }
}

/// The regime distribution covers every event exactly when every event
/// came with a regime in range: the regime counts sum to the event total
/// if and only if no event's regime was out of range.
pub proof fn lemma_regime_counts_cover_all(t: QualityTracker)
    requires
        t.wf(),
    ensures
        count_sum(t.regime_counts@) <= t.total_events,
        count_sum(t.regime_counts@) == t.total_events <==> forall|i: int|
            0 <= i < t.regimes@.len() ==> (#[trigger] t.regimes@[i] as int) < N_REGIMES,
{
    lemma_in_regime_count_all(t.regimes@);
}

impl QualityTracker {
    /// Every event is counted in exactly one action bucket and exactly one
    /// consistency class; the regime counts hold exactly the events whose
    /// regime is in range.
    pub open spec fn wf(&self) -> bool {
        &&& count_sum(self.action_counts@) == self.total_events
        &&& count_sum(self.book_consistency_counts@) == self.total_events
        &&& self.regimes@.len() == self.total_events
        &&& count_sum(self.regime_counts@) == in_regime_count(self.regimes@)
        &&& self.current_day_count <= self.total_events
    }

    /// Room left in the counters for one more event.
    pub open spec fn has_headroom(&self) -> bool {
        &&& self.total_events < u64::MAX
        &&& self.n_days < u32::MAX
    }

    /// Executable check of [`Self::has_headroom`].
    pub fn headroom(&self) -> (r: bool)
        ensures
            r == self.has_headroom(),
    {
        self.total_events < u64::MAX && self.n_days < u32::MAX
    }

    pub fn new() -> (r: Self)
        ensures
            r.wf(),
            r.total_events == 0,
            r.action_counts@ == Seq::new(N_ACTION_BUCKETS as nat, |i: int| 0u64),
            r.book_consistency_counts@ == Seq::new(N_CONSISTENCY_CLASSES as nat, |i: int| 0u64),
            r.regime_counts@ == Seq::new(N_REGIMES as nat, |i: int| 0u64),
            r.n_days == 0,
            r.per_day_counts.len() == 0,
            r.current_day_count == 0,
            r.regimes@.len() == 0,
    {
        let r = QualityTracker {
            total_events: 0,
            action_counts: [0u64; N_ACTION_BUCKETS],
            book_consistency_counts: [0u64; N_CONSISTENCY_CLASSES],
            regime_counts: [0u64; N_REGIMES],
            n_days: 0,
            per_day_counts: Vec::new(),
            current_day_count: 0,
            regimes: Ghost(Seq::empty()),
        };
        proof {
            assert(r.action_counts@ =~= Seq::new(N_ACTION_BUCKETS as nat, |i: int| 0u64));
            assert(r.book_consistency_counts@ =~= Seq::new(
                N_CONSISTENCY_CLASSES as nat,
                |i: int| 0u64,
            ));
            assert(r.regime_counts@ =~= Seq::new(N_REGIMES as nat, |i: int| 0u64));
            lemma_count_sum_zeros(N_ACTION_BUCKETS as nat);
            lemma_count_sum_zeros(N_CONSISTENCY_CLASSES as nat);
            lemma_count_sum_zeros(N_REGIMES as nat);
        }
        r
    }

    /// The bucket an action is counted in.
    pub fn action_index(action: Action) -> (r: usize)
        ensures
            r == spec_action_index(action),
            r < N_ACTION_BUCKETS,
            action == Action::Add ==> r == 0,
            action == Action::Modify ==> r == 1,
            action == Action::Cancel ==> r == 2,
            action == Action::Trade ==> r == 3,
            action == Action::TradeAggregate ==> r == 3,
            action == Action::Fill ==> r == 4,
            action == Action::Clear ==> r == 5,
            action == Action::NoAction ==> r == 6,
    {
        match action {
            Action::Add => 0,
            Action::Modify => 1,
            Action::Cancel => 2,
            Action::Trade | Action::TradeAggregate => 3,
            Action::Fill => 4,
            Action::Clear => 5,
            Action::NoAction => 6,
        }
    }

    /// The class index of a consistency classification.
    pub fn consistency_index(consistency: BookConsistency) -> (r: usize)
        ensures
            r == spec_consistency_index(consistency),
            r < N_CONSISTENCY_CLASSES,
            consistency == BookConsistency::Valid ==> r == 0,
            consistency == BookConsistency::Empty ==> r == 1,
            consistency == BookConsistency::Locked ==> r == 2,
            consistency == BookConsistency::Crossed ==> r == 3,
    {
        match consistency {
            BookConsistency::Valid => 0,
            BookConsistency::Empty => 1,
            BookConsistency::Locked => 2,
            BookConsistency::Crossed => 3,
        }
    }

    /// Count one event.
    pub fn process_event(&mut self, msg: &OrderEvent, book: &BookSnapshot, regime: u8)
        requires
            old(self).wf(),
            old(self).has_headroom(),
        ensures
            final(self).wf(),
            final(self).total_events == old(self).total_events + 1,
            final(self).current_day_count == old(self).current_day_count + 1,
            final(self).action_counts@ == old(self).action_counts@.update(
                spec_action_index(msg.action),
                (old(self).action_counts@[spec_action_index(msg.action)] + 1) as u64,
            ),
            final(self).book_consistency_counts@ == old(self).book_consistency_counts@.update(
                spec_consistency_index(book.consistency),
                (old(self).book_consistency_counts@[spec_consistency_index(book.consistency)]
                    + 1) as u64,
            ),
            final(self).regime_counts@ == (if (regime as int) < N_REGIMES {
                old(self).regime_counts@.update(
                    regime as int,
                    (old(self).regime_counts@[regime as int] + 1) as u64,
                )
            } else {
                old(self).regime_counts@
            }),
            final(self).n_days == old(self).n_days,
            final(self).per_day_counts@ == old(self).per_day_counts@,
            final(self).regimes@ == old(self).regimes@.push(regime),
    {
        proof {
            let a = spec_action_index(msg.action);
            let c = spec_consistency_index(book.consistency);
            lemma_in_regime_count_all(self.regimes@);
            lemma_count_sum_bounds_entry(self.action_counts@, a);
            lemma_count_sum_bounds_entry(self.book_consistency_counts@, c);
            lemma_count_sum_increment(self.action_counts@, a);
            lemma_count_sum_increment(self.book_consistency_counts@, c);
            if (regime as int) < N_REGIMES {
                lemma_count_sum_bounds_entry(self.regime_counts@, regime as int);
                lemma_count_sum_increment(self.regime_counts@, regime as int);
            }
        }
        self.total_events = self.total_events + 1;
        self.current_day_count = self.current_day_count + 1;
        let a = Self::action_index(msg.action);
        self.action_counts[a] = self.action_counts[a] + 1;
        let c = Self::consistency_index(book.consistency);
        self.book_consistency_counts[c] = self.book_consistency_counts[c] + 1;
        if (regime as usize) < N_REGIMES {
            let g = regime as usize;
            self.regime_counts[g] = self.regime_counts[g] + 1;
        }
        proof {
            let old_regimes = self.regimes@;
            self.regimes@ = old_regimes.push(regime);
            assert(self.regimes@.drop_last() =~= old_regimes);
        }
    }

    /// Record the day's event count under `day_index`.
    pub fn end_of_day(&mut self, day_index: u32)
        requires
            old(self).wf(),
            old(self).has_headroom(),
        ensures
            final(self).wf(),
            final(self).per_day_counts@ == old(self).per_day_counts@.push(
                (day_index, old(self).current_day_count),
            ),
            final(self).n_days == old(self).n_days + 1,
            final(self).total_events == old(self).total_events,
            final(self).current_day_count == old(self).current_day_count,
            final(self).action_counts == old(self).action_counts,
            final(self).book_consistency_counts == old(self).book_consistency_counts,
            final(self).regime_counts == old(self).regime_counts,
            final(self).regimes@ == old(self).regimes@,
    {
        self.per_day_counts.push((day_index, self.current_day_count));
        self.n_days = self.n_days + 1;
    }

    /// Start counting a new day.
    pub fn reset_day(&mut self)
        requires
            old(self).wf(),
        ensures
            final(self).wf(),
            final(self).current_day_count == 0,
            final(self).per_day_counts@ == old(self).per_day_counts@,
            final(self).n_days == old(self).n_days,
            final(self).total_events == old(self).total_events,
            final(self).action_counts == old(self).action_counts,
            final(self).book_consistency_counts == old(self).book_consistency_counts,
            final(self).regime_counts == old(self).regime_counts,
            final(self).regimes@ == old(self).regimes@,
    {
        self.current_day_count = 0;
    }

    /// The tracker's report name, `QualityTracker`.
    pub fn name(&self) -> (r: &'static str)
        ensures
            r@ == "QualityTracker"@,
    {
        "QualityTracker"
    }
}


impl Default for QualityTracker {
    fn default() -> (r: Self)
        ensures
            r.wf(),
            r.total_events == 0,
            r.n_days == 0,
            r.per_day_counts.len() == 0,
            r.current_day_count == 0,
    {
        QualityTracker::new()
    }
}

} // verus!
