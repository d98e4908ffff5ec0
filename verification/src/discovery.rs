//! Day-file discovery: which file names of a data directory hold a trading
//! day, under a file name pattern with a `{date}` placeholder standing for
//! an eight-digit `YYYYMMDD` date, restricted to an inclusive date range
//! and ordered by date. File names and dates are byte strings.

use vstd::prelude::*;

verus! {

/// The bytes of `{date}`.
pub open spec fn placeholder() -> Seq<u8> {
    seq![123u8, 100u8, 97u8, 116u8, 101u8, 125u8]
}

/// Whether `p` occurs in `s` at byte offset `i`.
pub open spec fn occurs_at(s: Seq<u8>, p: Seq<u8>, i: int) -> bool {
    &&& 0 <= i
    &&& i + p.len() <= s.len()
    &&& s.subrange(i, i + p.len()) == p
}

pub open spec fn starts_with(s: Seq<u8>, p: Seq<u8>) -> bool {
    p.len() <= s.len() && s.subrange(0, p.len() as int) == p
}

pub open spec fn ends_with(s: Seq<u8>, p: Seq<u8>) -> bool {
    p.len() <= s.len() && s.subrange(s.len() - p.len(), s.len() as int) == p
}

pub open spec fn is_ascii_digit(b: u8) -> bool {
    48 <= b <= 57
}

/// `a` sorts strictly before `b` in byte-lexicographic order.
pub open spec fn lex_lt(a: Seq<u8>, b: Seq<u8>) -> bool {
    exists|k: int|
        #![trigger a.subrange(0, k)]
        0 <= k <= a.len() && k <= b.len() && a.subrange(0, k) == b.subrange(0, k) && ((k
            < a.len() && k < b.len() && a[k] < b[k]) || (k == a.len() && k < b.len()))
}

/// Why the file name pattern cannot be used.
#[derive(Clone, Copy, Debug, PartialEq, Eq, Structural)]
pub enum PatternError {
    /// The pattern holds no `{date}` placeholder.
    MissingDatePlaceholder,
}

/// Whether `p` occurs in `s` at byte offset `i`.
fn occurs_at_exec(s: &[u8], p: &[u8], i: usize) -> (r: bool)
    ensures
        r == occurs_at(s@, p@, i as int),
{
    if i > s.len() || p.len() > s.len() - i {
        return false;
    }
    let mut j: usize = 0;
    while j < p.len()
        invariant
            i + p.len() <= s.len(),
            j <= p.len(),
            forall|t: int| 0 <= t < j ==> s@[i + t] == p@[t],
        decreases p.len() - j,
    {
        if s[i + j] != p[j] {
            proof {
                assert(s@.subrange(i as int, i + p.len())[j as int] != p@[j as int]);
            }
            return false;
        }
        j = j + 1;
    }
    proof {
        assert(s@.subrange(i as int, i + p.len()) =~= p@);
    }
    true
}

/// The offset of the first `{date}` placeholder in `pattern`, split into the
/// prefix before it and the suffix after it.
pub fn split_pattern(pattern: &[u8]) -> (r: Result<(Vec<u8>, Vec<u8>), PatternError>)
    ensures
        r is Err <==> (forall|i: int| !occurs_at(pattern@, placeholder(), i)),
        r matches Ok((prefix, suffix)) ==> {
            let i = prefix@.len() as int;
            &&& occurs_at(pattern@, placeholder(), i)
            &&& forall|j: int| 0 <= j < i ==> !occurs_at(pattern@, placeholder(), j)
            &&& prefix@ == pattern@.subrange(0, i)
            &&& suffix@ == pattern@.subrange(i + 6, pattern@.len() as int)
        },
{
    let ph: [u8; 6] = [123u8, 100u8, 97u8, 116u8, 101u8, 125u8];
    proof {
        assert(ph@ =~= placeholder());
    }
    let mut i: usize = 0;
    while i < pattern.len()
        invariant
            i <= pattern.len(),
            ph@ == placeholder(),
            forall|j: int| 0 <= j < i ==> !occurs_at(pattern@, placeholder(), j),
        decreases pattern.len() - i,
    {
        if occurs_at_exec(pattern, ph.as_slice(), i) {
            let prefix = slice_to_vec(pattern, 0, i);
            let suffix = slice_to_vec(pattern, i + 6, pattern.len());
            return Ok((prefix, suffix));
        }
        i = i + 1;
    }
    proof {
        assert forall|j: int| !occurs_at(pattern@, placeholder(), j) by {
            if j >= i {
                assert(!(j + 6 <= pattern@.len()));
            }
        }
    }
    Err(PatternError::MissingDatePlaceholder)
}

/// A copy of `s[from..to]`.
fn slice_to_vec(s: &[u8], from: usize, to: usize) -> (r: Vec<u8>)
    requires
        from <= to <= s.len(),
    ensures
        r@ == s@.subrange(from as int, to as int),
{
    let mut v: Vec<u8> = Vec::new();
    let mut i = from;
    while i < to
        invariant
            from <= i <= to <= s.len(),
            v@ == s@.subrange(from as int, i as int),
        decreases to - i,
    {
        v.push(s[i]);
        i = i + 1;
        assert(v@ =~= s@.subrange(from as int, i as int));
    }
    v
}

pub fn starts_with_exec(s: &[u8], p: &[u8]) -> (r: bool)
    ensures
        r == starts_with(s@, p@),
{
    if p.len() > s.len() {
        return false;
    }
    let r = occurs_at_exec(s, p, 0);
    proof {
        assert(r == (s@.subrange(0, p@.len() as int) == p@));
    }
    r
}

pub fn ends_with_exec(s: &[u8], p: &[u8]) -> (r: bool)
    ensures
        r == ends_with(s@, p@),
{
    if p.len() > s.len() {
        return false;
    }
    occurs_at_exec(s, p, s.len() - p.len())
}

/// The date of a day file: the eight bytes between the prefix and the
/// suffix, all ASCII digits, read as `YYYYMMDD`.
pub open spec fn spec_day_key(name: Seq<u8>, prefix: Seq<u8>, suffix: Seq<u8>) -> Option<u32> {
    if starts_with(name, prefix) && ends_with(name, suffix) && name.len() == prefix.len()
        + 8 + suffix.len() && (forall|t: int|
        prefix.len() <= t < prefix.len() + 8 ==> is_ascii_digit(#[trigger] name[t])) {
        Some(digits_value(name.subrange(prefix.len() as int, prefix.len() + 8int)) as u32)
    } else {
        None
    }
}

/// The decimal value of a string of ASCII digits.
pub open spec fn digits_value(d: Seq<u8>) -> int
    decreases d.len(),
{
    if d.len() == 0 {
        0
    } else {
        digits_value(d.drop_last()) * 10 + (d.last() - 48)
    }
}

proof fn lemma_digits_value_bound(d: Seq<u8>)
    requires
        forall|t: int| 0 <= t < d.len() ==> is_ascii_digit(#[trigger] d[t]),
    ensures
        0 <= digits_value(d) < pow10(d.len()),
    decreases d.len(),
{
    if d.len() > 0 {
        assert forall|t: int| 0 <= t < d.drop_last().len() implies is_ascii_digit(
            #[trigger] d.drop_last()[t],
        ) by {
            assert(d.drop_last()[t] == d[t]);
        }
        lemma_digits_value_bound(d.drop_last());
        assert(is_ascii_digit(d[d.len() - 1]));
        assert(pow10(d.len()) == pow10((d.len() - 1) as nat) * 10);
        assert(digits_value(d.drop_last()) * 10 + 9 < pow10(d.len())) by (nonlinear_arith)
            requires
                digits_value(d.drop_last()) < pow10((d.len() - 1) as nat),
                pow10(d.len()) == pow10((d.len() - 1) as nat) * 10,
        ;
    }
}

pub open spec fn pow10(n: nat) -> int
    decreases n,
{
    if n == 0 {
        1
    } else {
        pow10((n - 1) as nat) * 10
    }
}

/// The date key of a file name, when the name holds a day file under the
/// pattern's prefix and suffix. The name's prefix and suffix must not
/// overlap when it both starts with the prefix and ends with the suffix.
pub fn day_key(name: &[u8], prefix: &[u8], suffix: &[u8]) -> (r: Option<u32>)
    requires
        (starts_with(name@, prefix@) && ends_with(name@, suffix@)) ==> prefix@.len()
            + suffix@.len() <= name@.len(),
    ensures
        r == spec_day_key(name@, prefix@, suffix@),
{
    if !starts_with_exec(name, prefix) || !ends_with_exec(name, suffix) {
        return None;
    }
    let mid_len = name.len() - suffix.len() - prefix.len();
    if mid_len != 8 {
        return None;
    }
    let start = prefix.len();
    assert(start + 8 <= name@.len());
    let mut value: u32 = 0;
    let mut t: usize = 0;
    while t < 8
        invariant
            start == prefix@.len(),
            start + 8 <= name.len(),
            t <= 8,
            forall|u: int| start <= u < start + t ==> is_ascii_digit(#[trigger] name@[u]),
            value == digits_value(name@.subrange(start as int, start + t)),
            value < pow10(t as nat),
        decreases 8 - t,
    {
        let b = name[start + t];
        if b < 48 || b > 57 {
            return None;
        }
        proof {
            let d = name@.subrange(start as int, start + t + 1);
            assert(d.drop_last() =~= name@.subrange(start as int, start + t));
            assert(pow10((t + 1) as nat) == pow10(t as nat) * 10);
            assert(pow10(8) == 100_000_000) by {
                reveal_with_fuel(pow10, 9);
            }
            assert(pow10(t as nat) <= pow10(8)) by {
                lemma_pow10_mono(t as nat, 8);
            }
            assert(value * 10 + 9 < pow10((t + 1) as nat)) by (nonlinear_arith)
                requires
                    value < pow10(t as nat),
                    pow10((t + 1) as nat) == pow10(t as nat) * 10,
            ;
        }
        value = value * 10 + (b - 48) as u32;
        t = t + 1;
    }
    proof {
        assert(name@.len() == prefix@.len() + 8 + suffix@.len());
    }
    Some(value)
}

proof fn lemma_pow10_mono(a: nat, b: nat)
    requires
        a <= b,
    ensures
        pow10(a) <= pow10(b),
    decreases b,
{
    if a < b {
        lemma_pow10_mono(a, (b - 1) as nat);
        lemma_pow10_pos((b - 1) as nat);
    }
}

proof fn lemma_pow10_pos(n: nat)
    ensures
        pow10(n) >= 1,
    decreases n,
{
    if n > 0 {
        lemma_pow10_pos((n - 1) as nat);
    }
}

/// The ASCII digit of `d`, `0 <= d < 10`.
pub open spec fn digit_byte(d: int) -> u8 {
    (48 + d) as u8
}

/// The `YYYY-MM-DD` string of a date key `YYYYMMDD`.
pub open spec fn spec_date_string(key: u32) -> Seq<u8> {
    let k = key as int;
    seq![
        digit_byte(k / 10_000_000 % 10),
        digit_byte(k / 1_000_000 % 10),
        digit_byte(k / 100_000 % 10),
        digit_byte(k / 10_000 % 10),
        45u8,
        digit_byte(k / 1000 % 10),
        digit_byte(k / 100 % 10),
        45u8,
        digit_byte(k / 10 % 10),
        digit_byte(k % 10),
    ]
}

/// The `YYYY-MM-DD` string of a date key `YYYYMMDD`.
pub fn date_string(key: u32) -> (r: Vec<u8>)
    ensures
        r@ == spec_date_string(key),
{
    let d = |k: u32| -> (b: u8)
        ensures
            b == digit_byte((k % 10) as int),
        { (48 + k % 10) as u8 };
    let mut v: Vec<u8> = Vec::new();
    v.push(d(key / 10_000_000));
    v.push(d(key / 1_000_000));
    v.push(d(key / 100_000));
    v.push(d(key / 10_000));
    v.push(45u8);
    v.push(d(key / 1000));
    v.push(d(key / 100));
    v.push(45u8);
    v.push(d(key / 10));
    v.push(d(key));
    proof {
        assert(v@ =~= spec_date_string(key));
    }
    v
}

/// Whether `a` sorts strictly before `b` in byte-lexicographic order.
pub fn bytes_lt(a: &[u8], b: &[u8]) -> (r: bool)
    ensures
        r == lex_lt(a@, b@),
{
    let mut k: usize = 0;
    while k < a.len() && k < b.len()
        invariant
            k <= a.len(),
            k <= b.len(),
            a@.subrange(0, k as int) == b@.subrange(0, k as int),
        decreases a.len() - k,
    {
        if a[k] != b[k] {
            let r = a[k] < b[k];
            proof {
                if r {
                    assert(a@.subrange(0, k as int) == b@.subrange(0, k as int));
                } else {
                    assert forall|j: int|
                        0 <= j <= a@.len() && j <= b@.len() && a@.subrange(0, j) == b@.subrange(0, j)
                            implies !((j < a@.len() && j < b@.len() && a@[j] < b@[j]) || (j
                        == a@.len() && j < b@.len())) by {
                        if j > k {
                            assert(a@.subrange(0, j)[k as int] == b@.subrange(0, j)[k as int]);
                        } else if j < k {
                            assert(a@.subrange(0, k as int)[j] == b@.subrange(0, k as int)[j]);
                        }
                    }
                }
            }
            return r;
        }
        k = k + 1;
        proof {
            assert(a@.subrange(0, k as int) =~= b@.subrange(0, k as int)) by {
                assert forall|j: int| 0 <= j < k implies a@.subrange(0, k as int)[j] == b@.subrange(
                    0,
                    k as int,
                )[j] by {
                    if j < k - 1 {
                        assert(a@.subrange(0, k - 1)[j] == b@.subrange(0, k - 1)[j]);
                    }
                }
            }
        }
    }
    let r = k == a.len() && k < b.len();
    proof {
        if !r {
            assert forall|j: int|
                0 <= j <= a@.len() && j <= b@.len() && a@.subrange(0, j) == b@.subrange(0, j)
                    implies !((j < a@.len() && j < b@.len() && a@[j] < b@[j]) || (j == a@.len()
                && j < b@.len())) by {
                if j < k {
                    assert(a@.subrange(0, k as int)[j] == b@.subrange(0, k as int)[j]);
                }
            }
        }
    }
    r
}

/// A date lies in the inclusive range `[start, end]` (each bound optional),
/// compared as strings.
pub open spec fn spec_in_range(date: Seq<u8>, start: Option<Seq<u8>>, end: Option<Seq<u8>>) -> bool {
    &&& !(start is Some && lex_lt(date, start->0))
    &&& !(end is Some && lex_lt(end->0, date))
}

/// A date lies in the inclusive range `[start, end]` (each bound optional),
/// compared as strings.
pub fn in_date_range(date: &[u8], start: Option<&[u8]>, end: Option<&[u8]>) -> (r: bool)
    ensures
        r == spec_in_range(
            date@,
            match start {
                Some(s) => Some(s@),
                None => None,
            },
            match end {
                Some(e) => Some(e@),
                None => None,
            },
        ),
{
    if let Some(s) = start {
        if bytes_lt(date, s) {
            return false;
        }
    }
    if let Some(e) = end {
        if bytes_lt(e, date) {
            return false;
        }
    }
    true
}

/// Whether a sequence of `(date key, index)` pairs is ordered by date key.
pub open spec fn sorted_by_key(s: Seq<(u32, usize)>) -> bool {
    forall|i: int, j: int| 0 <= i <= j < s.len() ==> s[i].0 <= s[j].0
}

/// Order day files by date key, keeping files of equal dates in their
/// listing order.
pub fn sort_day_files(files: Vec<(u32, usize)>) -> (r: Vec<(u32, usize)>)
    ensures
        sorted_by_key(r@),
        r@.to_multiset() == files@.to_multiset(),
{
    let mut out: Vec<(u32, usize)> = Vec::new();
    let mut i: usize = 0;
    proof {
        broadcast use vstd::seq_lib::group_to_multiset_ensures;

        assert(files@.subrange(0, 0) =~= Seq::<(u32, usize)>::empty());
        assert(out@ =~= Seq::<(u32, usize)>::empty());
        assert(Seq::<(u32, usize)>::empty().to_multiset() =~= vstd::multiset::Multiset::<(u32, usize)>::empty());
    }
    while i < files.len()
        invariant
            i <= files.len(),
            sorted_by_key(out@),
            out@.to_multiset() == files@.subrange(0, i as int).to_multiset(),
        decreases files.len() - i,
    {
        let x = files[i];
        let mut p: usize = out.len();
        while p > 0 && out[p - 1].0 > x.0
            invariant
                p <= out.len(),
                sorted_by_key(out@),
                forall|q: int| p <= q < out.len() ==> out@[q].0 > x.0,
            decreases p,
        {
            p = p - 1;
        }
        let ghost before = out@;
        out.insert(p, x);
        proof {
            broadcast use vstd::seq_lib::group_to_multiset_ensures;

            assert(out@ == before.insert(p as int, x));
            assert(files@.subrange(0, i as int + 1) =~= files@.subrange(0, i as int).push(x));
            assert forall|a: int, b: int| 0 <= a <= b < out@.len() implies out@[a].0 <= out@[b].0 by {
                if a < p as int && b > p as int {
                    assert(out@[a] == before[a]);
                    assert(out@[b] == before[b - 1]);
                } else if a == p as int && b > p as int {
                    assert(out@[b] == before[b - 1]);
                } else if a < p as int && b == p as int {
                    assert(out@[a] == before[a]);
                    assert(p > 0 ==> before[p - 1].0 <= x.0);
                } else if b < p as int {
                    assert(out@[a] == before[a]);
                    assert(out@[b] == before[b]);
                } else if a > p as int {
                    assert(out@[a] == before[a - 1]);
                    assert(out@[b] == before[b - 1]);
                }
            }
        }
        i = i + 1;
    }
    proof {
        assert(files@.subrange(0, files.len() as int) =~= files@);
    }
    out
}

/// Whether a name both starts with the prefix and ends with the suffix
/// while too short to hold both apart (the date slot would have negative
/// length).
pub open spec fn spec_slot_overlaps(name: Seq<u8>, prefix: Seq<u8>, suffix: Seq<u8>) -> bool {
    starts_with(name, prefix) && ends_with(name, suffix) && name.len() < prefix.len()
        + suffix.len()
}

/// Whether a name both starts with the prefix and ends with the suffix
/// while too short to hold both apart.
pub fn slot_overlaps(name: &[u8], prefix: &[u8], suffix: &[u8]) -> (r: bool)
    ensures
        r == spec_slot_overlaps(name@, prefix@, suffix@),
{
    starts_with_exec(name, prefix) && ends_with_exec(name, suffix) && (name.len() as u128)
        < prefix.len() as u128 + suffix.len() as u128
}

/// The day files among the first `n` names: `(date key, index)` of each
/// name holding a day file whose date string lies in the range, in listing order.
pub open spec fn selected(
    names: Seq<Seq<u8>>,
    prefix: Seq<u8>,
    suffix: Seq<u8>,
    start: Option<Seq<u8>>,
    end: Option<Seq<u8>>,
    n: int,
) -> Seq<(u32, usize)>
    decreases n,
{
    if n <= 0 {
        Seq::empty()
    } else {
        let before = selected(names, prefix, suffix, start, end, n - 1);
        match spec_day_key(names[n - 1], prefix, suffix) {
            Some(key) => if spec_in_range(spec_date_string(key), start, end) {
                before.push((key, (n - 1) as usize))
            } else {
                before
            },
            None => before,
        }
    }
}

/// The view of an optional byte string.
pub open spec fn opt_view(o: Option<&[u8]>) -> Option<Seq<u8>> {
    match o {
        Some(s) => Some(s@),
        None => None,
    }
}

/// The day files of a directory listing: every name holding a day file
/// under the pattern's prefix and suffix, with its date in the inclusive
/// range, as `(date key, index in the listing)`, ordered by date.
pub fn select_day_files(
    prefix: &[u8],
    suffix: &[u8],
    names: &Vec<Vec<u8>>,
    date_start: Option<&[u8]>,
    date_end: Option<&[u8]>,
) -> (r: Vec<(u32, usize)>)
    requires
        forall|i: int| 0 <= i < names.len() ==> !spec_slot_overlaps(#[trigger] names@[i]@, prefix@, suffix@),
    ensures
        sorted_by_key(r@),
        r@.to_multiset() == selected(
            names@.map_values(|n: Vec<u8>| n@),
            prefix@,
            suffix@,
            opt_view(date_start),
            opt_view(date_end),
            names.len() as int,
        ).to_multiset(),
{
    let ghost views = names@.map_values(|n: Vec<u8>| n@);
    let mut found: Vec<(u32, usize)> = Vec::new();
    let mut i: usize = 0;
    while i < names.len()
        invariant
            i <= names.len(),
            views == names@.map_values(|n: Vec<u8>| n@),
            forall|j: int| 0 <= j < names.len() ==> !spec_slot_overlaps(#[trigger] names@[j]@, prefix@, suffix@),
            found@ == selected(views, prefix@, suffix@, opt_view(date_start), opt_view(date_end), i as int),
        decreases names.len() - i,
    {
        let name = names[i].as_slice();
        assert(views[i as int] == names@[i as int]@);
        match day_key(name, prefix, suffix) {
            Some(key) => {
                let date = date_string(key);
                if in_date_range(date.as_slice(), date_start, date_end) {
                    found.push((key, i));
                }
            },
            None => {},
        }
        i = i + 1;
    }
    sort_day_files(found)
}

/// The year, month and day of a date key `YYYYMMDD`.
pub fn date_parts(key: u32) -> (r: (i32, u32, u32))
    ensures
        r.0 == key / 10_000,
        r.1 == key / 100 % 100,
        r.2 == key % 100,
{
    ((key / 10_000) as i32, key / 100 % 100, key % 100)
}

} // verus!
