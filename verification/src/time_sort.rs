//! Sorting `(order id, add time)` pairs by add time, by merge sort.

use vstd::prelude::*;

verus! {

broadcast use {vstd::seq_lib::group_to_multiset_ensures, vstd::multiset::group_multiset_axioms};

/// The pairs are in non-decreasing order of their time component.
pub open spec fn sorted_by_time(s: Seq<(u64, i64)>) -> bool {
    forall|p: int, q: int| 0 <= p <= q < s.len() ==> s[p].1 <= s[q].1
}

/// A copy of `v[from..to]`.
fn copy_range(v: &Vec<(u64, i64)>, from: usize, to: usize) -> (r: Vec<(u64, i64)>)
    requires
        from <= to <= v.len(),
    ensures
        r@ == v@.subrange(from as int, to as int),
{
    let mut out: Vec<(u64, i64)> = Vec::new();
    let mut i = from;
    while i < to
        invariant
            from <= i <= to <= v.len(),
            out@ == v@.subrange(from as int, i as int),
        decreases to - i,
    {
        out.push(v[i]);
        i = i + 1;
        assert(out@ =~= v@.subrange(from as int, i as int));
    }
    out
}

/// Merge two time-sorted sequences into one time-sorted sequence holding
/// the pairs of both.
fn merge(a: &Vec<(u64, i64)>, b: &Vec<(u64, i64)>) -> (r: Vec<(u64, i64)>)
    requires
        sorted_by_time(a@),
        sorted_by_time(b@),
    ensures
        sorted_by_time(r@),
        r@.to_multiset() == a@.to_multiset().add(b@.to_multiset()),
{
    let mut out: Vec<(u64, i64)> = Vec::new();
    let mut i: usize = 0;
    let mut j: usize = 0;
    proof {
        assert(a@.subrange(0, 0) =~= Seq::<(u64, i64)>::empty());
        assert(b@.subrange(0, 0) =~= Seq::<(u64, i64)>::empty());
        assert(out@.to_multiset() =~= a@.subrange(0, 0).to_multiset().add(
            b@.subrange(0, 0).to_multiset(),
        ));
    }
    while i < a.len() || j < b.len()
        invariant
            i <= a.len(),
            j <= b.len(),
            sorted_by_time(a@),
            sorted_by_time(b@),
            sorted_by_time(out@),
            out@.to_multiset() == a@.subrange(0, i as int).to_multiset().add(
                b@.subrange(0, j as int).to_multiset(),
            ),
            out.len() > 0 && i < a.len() ==> out@.last().1 <= a@[i as int].1,
            out.len() > 0 && j < b.len() ==> out@.last().1 <= b@[j as int].1,
        decreases a.len() + b.len() - i - j,
    {
        let take_a = j >= b.len() || (i < a.len() && a[i].1 <= b[j].1);
        let ghost before = out@;
        if take_a {
            let x = a[i];
            out.push(x);
            proof {
                assert(a@.subrange(0, i as int + 1) =~= a@.subrange(0, i as int).push(x));
                assert(out@ =~= before.push(x));
                assert(out@.to_multiset() =~= a@.subrange(0, i as int + 1).to_multiset().add(
                    b@.subrange(0, j as int).to_multiset(),
                ));
                assert forall|p: int, q: int| 0 <= p <= q < out@.len() implies out@[p].1
                    <= out@[q].1 by {
                    if q == out@.len() - 1 && p < q {
                        assert(before[p].1 <= before.last().1);
                    }
                }
                if i + 1 < a.len() {
                    assert(a@[i as int].1 <= a@[i as int + 1].1);
                }
            }
            i = i + 1;
        } else {
            let x = b[j];
            out.push(x);
            proof {
                assert(b@.subrange(0, j as int + 1) =~= b@.subrange(0, j as int).push(x));
                assert(out@ =~= before.push(x));
                assert(out@.to_multiset() =~= a@.subrange(0, i as int).to_multiset().add(
                    b@.subrange(0, j as int + 1).to_multiset(),
                ));
                assert forall|p: int, q: int| 0 <= p <= q < out@.len() implies out@[p].1
                    <= out@[q].1 by {
                    if q == out@.len() - 1 && p < q {
                        assert(before[p].1 <= before.last().1);
                    }
                }
                if j + 1 < b.len() {
                    assert(b@[j as int].1 <= b@[j as int + 1].1);
                }
            }
            j = j + 1;
        }
    }
    proof {
        assert(a@.subrange(0, a.len() as int) =~= a@);
        assert(b@.subrange(0, b.len() as int) =~= b@);
    }
    out
}

/// A time-sorted copy of `v` holding the same pairs.
fn merge_sort(v: &Vec<(u64, i64)>) -> (r: Vec<(u64, i64)>)
    ensures
        sorted_by_time(r@),
        r@.to_multiset() == v@.to_multiset(),
    decreases v.len(),
{
    if v.len() <= 1 {
        let r = copy_range(v, 0, v.len());
        proof {
            assert(r@ =~= v@);
        }
        return r;
    }
    let mid = v.len() / 2;
    let left = copy_range(v, 0, mid);
    let right = copy_range(v, mid, v.len());
    let sl = merge_sort(&left);
    let sr = merge_sort(&right);
    let r = merge(&sl, &sr);
    proof {
        assert(v@ =~= left@ + right@);
        vstd::seq_lib::lemma_multiset_commutative(left@, right@);
    }
    r
}

/// Sort `(order id, add time)` pairs by add time: the same pairs, in
/// non-decreasing time order.
pub(crate) fn sort_by_add_time(v: &mut Vec<(u64, i64)>)
    ensures
        final(v)@.to_multiset() == old(v)@.to_multiset(),
        forall|i: int, j: int| 0 <= i <= j < final(v).len() ==> final(v)@[i].1 <= final(v)@[j].1,
{
    let sorted = merge_sort(v);
    *v = sorted;
}

} // verus!
