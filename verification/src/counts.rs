//! Sums of count vectors.

use vstd::prelude::*;

verus! {

/// The sum of a sequence of counts.
pub open spec fn count_sum(s: Seq<u64>) -> int
    decreases s.len(),
{
    if s.len() == 0 {
        0
    } else {
        count_sum(s.drop_last()) + s.last() as int
    }
}

/// Adding one to an entry adds one to the sum.
pub proof fn lemma_count_sum_increment(s: Seq<u64>, i: int)
    requires
        0 <= i < s.len(),
        s[i] < u64::MAX,
    ensures
        count_sum(s.update(i, (s[i] + 1) as u64)) == count_sum(s) + 1,
    decreases s.len(),
{
    let t = s.update(i, (s[i] + 1) as u64);
    if i == s.len() - 1 {
        assert(t.drop_last() =~= s.drop_last());
    } else {
        assert(t.drop_last() =~= s.drop_last().update(i, (s[i] + 1) as u64));
        lemma_count_sum_increment(s.drop_last(), i);
    }
}

/// Every entry is at most the sum.
pub proof fn lemma_count_sum_bounds_entry(s: Seq<u64>, i: int)
    requires
        0 <= i < s.len(),
    ensures
        s[i] <= count_sum(s),
        0 <= count_sum(s),
    decreases s.len(),
{
    if i < s.len() - 1 {
        lemma_count_sum_bounds_entry(s.drop_last(), i);
    } else {
        lemma_count_sum_nonneg(s.drop_last());
    }
}

pub proof fn lemma_count_sum_nonneg(s: Seq<u64>)
    ensures
        0 <= count_sum(s),
    decreases s.len(),
{
    if s.len() > 0 {
        lemma_count_sum_nonneg(s.drop_last());
    }
}

/// The sum of a sequence of zeros is zero.
pub proof fn lemma_count_sum_zeros(n: nat)
    ensures
        count_sum(Seq::new(n, |i: int| 0u64)) == 0,
    decreases n,
{
    if n > 0 {
        assert(Seq::new(n, |i: int| 0u64).drop_last() =~= Seq::new((n - 1) as nat, |i: int| 0u64));
        lemma_count_sum_zeros((n - 1) as nat);
    }
}

} // verus!
