//! Cross-scale OFI tracker: the day's exact imbalance stream and mid series,
//! and the predictive alignment of a source time bin with the target-scale
//! bin whose return it is paired with.
//!
//! For distinct scales, OFI in the source bin ending at `t` is paired with
//! the return of the target bin *starting* at or after `t` (the next
//! return); same-scale pairs are contemporaneous.

use vstd::prelude::*;
use crate::book::{BookSnapshot, OrderEvent};
use crate::ofi_core::{ofi_from, OfiState, OfiStep};
use crate::trackers::ofi::{ofi_admits, abs, ofi_bound};

verus! {

/// The target bin paired with source bin `src_bin`: the first target bin
/// starting at or after the end of the source bin,
/// `ceil((src_bin + 1) * src_width / tgt_width)`.
pub open spec fn spec_target_bin(src_bin: int, src_width: int, tgt_width: int) -> int {
    ((src_bin + 1) * src_width + tgt_width - 1) / tgt_width
}

/// The target bin paired with source bin `src_bin` (bin widths in nanoseconds).
pub fn predictive_target_bin(src_bin: u64, src_width_ns: u64, tgt_width_ns: u64) -> (r: u128)
    requires
        tgt_width_ns > 0,
    ensures
        r == spec_target_bin(src_bin as int, src_width_ns as int, tgt_width_ns as int),
{
    proof {
        assert((src_bin as int + 1) * (src_width_ns as int) <= 0x1_0000_0000_0000_0000
            * 0xFFFF_FFFF_FFFF_FFFF) by (nonlinear_arith)
            requires
                0 <= src_bin as int + 1 <= 0x1_0000_0000_0000_0000,
                0 <= src_width_ns as int <= 0xFFFF_FFFF_FFFF_FFFF,
        ;
        assert(0 <= (src_bin as int + 1) * (src_width_ns as int)) by (nonlinear_arith)
            requires
                src_bin as int + 1 >= 0,
                src_width_ns as int >= 0,
        ;
    }
    let end = (src_bin as u128 + 1) * src_width_ns as u128;
    (end + tgt_width_ns as u128 - 1) / tgt_width_ns as u128
}

/// The paired target bin starts at or after the end of the source bin, and
/// the bin before it starts strictly before that end.
pub proof fn lemma_target_bin_is_next_start(src_bin: int, src_width: int, tgt_width: int)
    requires
        src_bin >= 0,
        src_width > 0,
        tgt_width > 0,
    ensures
        ({
            let t = spec_target_bin(src_bin, src_width, tgt_width);
            let end = (src_bin + 1) * src_width;
            &&& t * tgt_width >= end
            &&& (t - 1) * tgt_width < end
        }),
{
    let end = (src_bin + 1) * src_width;
    let t = spec_target_bin(src_bin, src_width, tgt_width);
    vstd::arithmetic::div_mod::lemma_fundamental_div_mod(end + tgt_width - 1, tgt_width);
    let r = (end + tgt_width - 1) % tgt_width;
    vstd::arithmetic::div_mod::lemma_mod_bound(end + tgt_width - 1, tgt_width);
    assert(end + tgt_width - 1 == tgt_width * t + r);
    assert(t * tgt_width == tgt_width * t) by (nonlinear_arith);
    assert((t - 1) * tgt_width == t * tgt_width - tgt_width) by (nonlinear_arith);
}

/// The target bin a source bin is paired with: the same bin on the same
/// scale, the next target bin starting at or after the source bin's end
/// across scales.
pub open spec fn paired_bin(src_bin: int, same_scale: bool, src_width: int, tgt_width: int) -> int {
    if same_scale {
        src_bin
    } else {
        spec_target_bin(src_bin, src_width, tgt_width)
    }
}

/// The `(source bin, target bin)` pairs among the first `n` source bins: a
/// source bin takes part when it holds an imbalance (`usable`) and its
/// paired target bin exists and has a return (`has_return`).
pub open spec fn aligned_pairs(
    usable: Seq<bool>,
    has_return: Seq<bool>,
    same_scale: bool,
    src_width: int,
    tgt_width: int,
    n: int,
) -> Seq<(usize, usize)>
    decreases n,
{
    if n <= 0 {
        Seq::empty()
    } else {
        let before = aligned_pairs(usable, has_return, same_scale, src_width, tgt_width, n - 1);
        let t = paired_bin(n - 1, same_scale, src_width, tgt_width);
        if usable[n - 1] && 0 <= t < has_return.len() && has_return[t] {
            before.push(((n - 1) as usize, t as usize))
        } else {
            before
        }
    }
}

/// Every aligned pair is contemporaneous on the same scale; across scales
/// its target bin is the first one starting at or after the end of its
/// source bin, so an imbalance is only paired with a return that follows it.
pub proof fn lemma_aligned_pairs_predictive(
    usable: Seq<bool>,
    has_return: Seq<bool>,
    same_scale: bool,
    src_width: int,
    tgt_width: int,
    n: int,
)
    requires
        src_width > 0,
        tgt_width > 0,
        n <= usable.len() <= usize::MAX,
        has_return.len() <= usize::MAX,
    ensures
        forall|k: int|
            0 <= k < aligned_pairs(usable, has_return, same_scale, src_width, tgt_width, n).len()
                ==> {
                let p = #[trigger] aligned_pairs(
                    usable,
                    has_return,
                    same_scale,
                    src_width,
                    tgt_width,
                    n,
                )[k];
                &&& 0 <= p.0 < n
                &&& usable[p.0 as int]
                &&& has_return[p.1 as int]
                &&& same_scale ==> p.1 == p.0
                &&& !same_scale ==> p.1 * tgt_width >= (p.0 + 1) * src_width
                &&& !same_scale ==> (p.1 - 1) * tgt_width < (p.0 + 1) * src_width
            },
    decreases n,
{
    if n > 0 {
        lemma_aligned_pairs_predictive(usable, has_return, same_scale, src_width, tgt_width, n - 1);
        if !same_scale {
            lemma_target_bin_is_next_start(n - 1, src_width, tgt_width);
        }
        let before = aligned_pairs(usable, has_return, same_scale, src_width, tgt_width, n - 1);
        let all = aligned_pairs(usable, has_return, same_scale, src_width, tgt_width, n);
        let t = paired_bin(n - 1, same_scale, src_width, tgt_width);
        if usable[n - 1] && 0 <= t < has_return.len() && has_return[t] {
            assert(all == before.push(((n - 1) as usize, t as usize)));
            assert(all[before.len() as int] == ((n - 1) as usize, t as usize));
            assert(((n - 1) as usize) as int == n - 1);
            assert((t as usize) as int == t);
        }
    }
}

/// A target bin that starts at or after `end` while the bin before it starts
/// strictly before `end` is the ceiling of `end / width`.
proof fn lemma_next_start_unique(end: int, width: int, t: int)
    requires
        end >= 0,
        width > 0,
        t * width >= end,
        (t - 1) * width < end,
    ensures
        t == (end + width - 1) / width,
{
    let q = (end + width - 1) / width;
    vstd::arithmetic::div_mod::lemma_fundamental_div_mod(end + width - 1, width);
    vstd::arithmetic::div_mod::lemma_mod_bound(end + width - 1, width);
    let r = (end + width - 1) % width;
    assert(end + width - 1 == width * q + r);
    assert(q * width == width * q) by (nonlinear_arith);
    assert((q - 1) * width == q * width - width) by (nonlinear_arith);
    assert((t - 1) * width == t * width - width) by (nonlinear_arith);
    if t < q {
        assert(t * width <= (q - 1) * width) by (nonlinear_arith)
            requires
                t <= q - 1,
                width > 0,
        ;
    }
    if t > q {
        assert((t - 1) * width >= q * width) by (nonlinear_arith)
            requires
                t - 1 >= q,
                width > 0,
        ;
    }
}

/// Completeness of the alignment: every usable source bin among the first
/// `n` is paired with its target bin whenever that target bin exists and has
/// a return. The target bin is the source bin itself on the same scale, and
/// across scales the target bin starting at or after the end of the source
/// bin whose predecessor starts strictly before it; it may lie past the end
/// of the source series.
pub proof fn lemma_aligned_pairs_complete(
    usable: Seq<bool>,
    has_return: Seq<bool>,
    same_scale: bool,
    src_width: int,
    tgt_width: int,
    n: int,
    i: int,
    t: int,
)
    requires
        src_width >= 0,
        tgt_width > 0,
        0 <= i < n <= usable.len(),
        usable[i],
        0 <= t < has_return.len() <= usize::MAX,
        has_return[t],
        same_scale ==> t == i,
        !same_scale ==> t * tgt_width >= (i + 1) * src_width,
        !same_scale ==> (t - 1) * tgt_width < (i + 1) * src_width,
    ensures
        aligned_pairs(usable, has_return, same_scale, src_width, tgt_width, n).contains(
            (i as usize, t as usize),
        ),
    decreases n,
{
    let before = aligned_pairs(usable, has_return, same_scale, src_width, tgt_width, n - 1);
    let all = aligned_pairs(usable, has_return, same_scale, src_width, tgt_width, n);
    let p = paired_bin(n - 1, same_scale, src_width, tgt_width);
    if i == n - 1 {
        if !same_scale {
            assert((i + 1) * src_width >= 0) by (nonlinear_arith)
                requires
                    i + 1 >= 0,
                    src_width >= 0,
            ;
            lemma_next_start_unique((i + 1) * src_width, tgt_width, t);
        }
        assert(p == t);
        assert(all == before.push(((n - 1) as usize, t as usize)));
        assert(all[before.len() as int] == (i as usize, t as usize));
    } else {
        lemma_aligned_pairs_complete(
            usable,
            has_return,
            same_scale,
            src_width,
            tgt_width,
            n - 1,
            i,
            t,
        );
        let k = choose|k: int| 0 <= k < before.len() && before[k] == (i as usize, t as usize);
        if usable[n - 1] && 0 <= p < has_return.len() && has_return[p] {
            assert(all == before.push(((n - 1) as usize, p as usize)));
            assert(all[k] == before[k]);
        }
        assert(all[k] == (i as usize, t as usize));
    }
}

/// Pair each usable source bin with its target bin, contemporaneously on
/// the same scale and predictively across scales (bin widths in nanoseconds).
pub fn aligned_bin_pairs(
    usable: &Vec<bool>,
    has_return: &Vec<bool>,
    same_scale: bool,
    src_width_ns: u64,
    tgt_width_ns: u64,
) -> (r: Vec<(usize, usize)>)
    requires
        tgt_width_ns > 0,
    ensures
        r@ == aligned_pairs(
            usable@,
            has_return@,
            same_scale,
            src_width_ns as int,
            tgt_width_ns as int,
            usable.len() as int,
        ),
        forall|i: int, t: int|
            #![trigger usable@[i], has_return@[t]]
            0 <= i < usable.len() && usable@[i] && 0 <= t < has_return.len() && has_return@[t]
                && (same_scale ==> t == i) && (!same_scale ==> t * tgt_width_ns >= (i + 1)
                * src_width_ns && (t - 1) * tgt_width_ns < (i + 1) * src_width_ns)
                ==> r@.contains((i as usize, t as usize)),
{
    proof {
        assert forall|i: int, t: int|
            #![trigger usable@[i], has_return@[t]]
            0 <= i < usable.len() && usable@[i] && 0 <= t < has_return.len() && has_return@[t]
                && (same_scale ==> t == i) && (!same_scale ==> t * tgt_width_ns >= (i + 1)
                * src_width_ns && (t - 1) * tgt_width_ns < (i + 1) * src_width_ns) implies
            aligned_pairs(
                usable@,
                has_return@,
                same_scale,
                src_width_ns as int,
                tgt_width_ns as int,
                usable.len() as int,
            ).contains((i as usize, t as usize)) by {
            lemma_aligned_pairs_complete(
                usable@,
                has_return@,
                same_scale,
                src_width_ns as int,
                tgt_width_ns as int,
                usable.len() as int,
                i,
                t,
            );
        }
    }
    let mut out: Vec<(usize, usize)> = Vec::new();
    let mut i: usize = 0;
    while i < usable.len()
        invariant
            i <= usable.len(),
            tgt_width_ns > 0,
            out@ == aligned_pairs(
                usable@,
                has_return@,
                same_scale,
                src_width_ns as int,
                tgt_width_ns as int,
                i as int,
            ),
        decreases usable.len() - i,
    {
        if usable[i] {
            let t: u128 = if same_scale {
                i as u128
            } else {
                predictive_target_bin(i as u64, src_width_ns, tgt_width_ns)
            };
            if t < has_return.len() as u128 {
                let tu = t as usize;
                if has_return[tu] {
                    out.push((i, tu));
                }
            }
        }
        i = i + 1;
    }
    out
}

/// Integer core of the cross-scale OFI tracker.
pub struct CrossScaleOfiTracker {
    pub state: OfiState,
    pub day_ofi_ts: Vec<i64>,
    pub day_ofi_vals: Vec<i64>,
    pub day_mid_ts: Vec<i64>,
    /// `bid + ask` (twice the mid), nanodollars.
    pub day_mid_x2: Vec<i128>,
    pub n_days: u32,
    /// Day context cached by `begin_day`.
    pub utc_offset: i32,
    pub day_epoch_ns: i64,
}

impl CrossScaleOfiTracker {
    pub open spec fn wf(&self) -> bool {
        &&& self.day_ofi_ts.len() == self.day_ofi_vals.len()
        &&& self.day_mid_ts.len() == self.day_mid_x2.len()
        &&& forall|i: int|
            0 <= i < self.day_ofi_vals.len() ==> abs(#[trigger] self.day_ofi_vals@[i] as int)
                <= ofi_bound()
    }

    pub fn new() -> (r: Self)
        ensures
            r.wf(),
            !r.state.initialized,
            r.day_ofi_vals.len() == 0,
            r.day_mid_x2.len() == 0,
            r.n_days == 0,
            r.utc_offset == -5,
            r.day_epoch_ns == 0,
    {
        CrossScaleOfiTracker {
            state: OfiState::new(),
            day_ofi_ts: Vec::new(),
            day_ofi_vals: Vec::new(),
            day_mid_ts: Vec::new(),
            day_mid_x2: Vec::new(),
            n_days: 0,
            utc_offset: -5,
            day_epoch_ns: 0,
        }
    }

    pub fn begin_day(&mut self, day_index: u32, utc_offset: i32, day_epoch_ns: i64)
        ensures
            final(self).utc_offset == utc_offset,
            final(self).day_epoch_ns == day_epoch_ns,
            final(self).state == old(self).state,
            final(self).day_ofi_vals@ == old(self).day_ofi_vals@,
            final(self).day_ofi_ts@ == old(self).day_ofi_ts@,
            final(self).day_mid_x2@ == old(self).day_mid_x2@,
            final(self).day_mid_ts@ == old(self).day_mid_ts@,
            final(self).n_days == old(self).n_days,
    {
        self.utc_offset = utc_offset;
        self.day_epoch_ns = day_epoch_ns;
    }

    /// Process one event and the book it produced.
    pub fn process_event(&mut self, msg: &OrderEvent, book: &BookSnapshot)
        requires
            old(self).wf(),
            book.well_shaped(),
        ensures
            final(self).wf(),
            final(self).n_days == old(self).n_days,
            final(self).utc_offset == old(self).utc_offset,
            final(self).day_epoch_ns == old(self).day_epoch_ns,
            !ofi_admits(book) ==> {
                &&& final(self).state == old(self).state
                &&& final(self).day_ofi_vals@ == old(self).day_ofi_vals@
                &&& final(self).day_ofi_ts@ == old(self).day_ofi_ts@
                &&& final(self).day_mid_x2@ == old(self).day_mid_x2@
                &&& final(self).day_mid_ts@ == old(self).day_mid_ts@
            },
            ofi_admits(book) ==> {
                let bid = book.best_bid->0;
                let ask = book.best_ask->0;
                let bs = book.bid_sizes@[0];
                let asz = book.ask_sizes@[0];
                let v = ofi_from(old(self).state, bid, bs, ask, asz);
                let recorded = old(self).state.initialized && msg.timestamp is Some;
                &&& final(self).state.initialized
                &&& final(self).state.prev_bid_price == bid
                &&& final(self).state.prev_ask_price == ask
                &&& final(self).state.prev_bid_size == bs
                &&& final(self).state.prev_ask_size == asz
                &&& final(self).day_mid_x2@ == (if msg.timestamp is Some {
                    old(self).day_mid_x2@.push((bid + ask) as i128)
                } else {
                    old(self).day_mid_x2@
                })
                &&& final(self).day_mid_ts@ == (if msg.timestamp is Some {
                    old(self).day_mid_ts@.push(msg.timestamp->0)
                } else {
                    old(self).day_mid_ts@
                })
                &&& final(self).day_ofi_vals@ == (if recorded {
                    old(self).day_ofi_vals@.push(v as i64)
                } else {
                    old(self).day_ofi_vals@
                })
                &&& final(self).day_ofi_ts@ == (if recorded {
                    old(self).day_ofi_ts@.push(msg.timestamp->0)
                } else {
                    old(self).day_ofi_ts@
                })
            },
    {
        if !book.is_valid() {
            return;
        }
        let bid = match book.best_bid {
            Some(b) => b,
            None => 0,
        };
        let ask = match book.best_ask {
            Some(a) => a,
            None => 0,
        };
        if bid == 0 || ask == 0 {
            return;
        }
        if let Some(ts) = msg.timestamp {
            self.day_mid_x2.push(bid as i128 + ask as i128);
            self.day_mid_ts.push(ts);
        }
        let step = self.state.observe(bid, book.bid_sizes[0], ask, book.ask_sizes[0]);
        match step {
            OfiStep::Primed => {},
            OfiStep::Imbalance(ofi) => {
                if let Some(ts) = msg.timestamp {
                    self.day_ofi_ts.push(ts);
                    self.day_ofi_vals.push(ofi);
                }
            },
        }
    }

    /// Close the day; returns whether the day has the two imbalances its
    /// correlation statistics need.
    pub fn end_of_day(&mut self) -> (r: bool)
        requires
            old(self).n_days < u32::MAX,
        ensures
            r == (old(self).day_ofi_vals.len() >= 2),
            final(self).n_days == old(self).n_days + 1,
            final(self).state == old(self).state,
            final(self).day_ofi_vals@ == old(self).day_ofi_vals@,
            final(self).day_ofi_ts@ == old(self).day_ofi_ts@,
            final(self).day_mid_x2@ == old(self).day_mid_x2@,
            final(self).day_mid_ts@ == old(self).day_mid_ts@,
            final(self).utc_offset == old(self).utc_offset,
            final(self).day_epoch_ns == old(self).day_epoch_ns,
    {
        self.n_days = self.n_days + 1;
        self.day_ofi_vals.len() >= 2
    }

    /// Clear the day's buffers and forget the remembered book.
    pub fn reset_day(&mut self)
        requires
            old(self).wf(),
        ensures
            final(self).wf(),
            !final(self).state.initialized,
            final(self).day_ofi_vals.len() == 0,
            final(self).day_ofi_ts.len() == 0,
            final(self).day_mid_x2.len() == 0,
            final(self).day_mid_ts.len() == 0,
            final(self).n_days == old(self).n_days,
            final(self).utc_offset == old(self).utc_offset,
            final(self).day_epoch_ns == old(self).day_epoch_ns,
    {
        self.day_ofi_ts.clear();
        self.day_ofi_vals.clear();
        self.day_mid_ts.clear();
        self.day_mid_x2.clear();
        self.state.reset();
    }

    /// The tracker's report name, `CrossScaleOfiTracker`.
    pub fn name(&self) -> (r: &'static str)
        ensures
            r@ == "CrossScaleOfiTracker"@,
    {
        "CrossScaleOfiTracker"
    }
}

} // verus!
