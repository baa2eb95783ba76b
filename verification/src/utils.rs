//! Helpers on byte slices shared by the parsers.

use vstd::prelude::*;
use vstd::slice::{slice_subrange, slice_to_vec};

verus! {

/// Lower-case form of an ASCII letter; every other byte is itself.
pub open spec fn spec_ascii_lower(b: u8) -> u8 {
    if 65 <= b <= 90 {
        (b + 32) as u8
    } else {
        b
    }
}

/// `a` and `b` are the same bytes up to the case of ASCII letters.
pub open spec fn spec_eq_ignore_ascii_case(a: Seq<u8>, b: Seq<u8>) -> bool {
    a.map_values(|x: u8| spec_ascii_lower(x)) == b.map_values(|x: u8| spec_ascii_lower(x))
}

/// Index of the first `needle` in `s` at or after `from`, or `s.len()` when
/// there is none.
pub open spec fn spec_find(s: Seq<u8>, from: int, needle: u8) -> int
    decreases s.len() - from,
{
    if from < 0 || from >= s.len() {
        s.len() as int
    } else if s[from] == needle {
        from
    } else {
        spec_find(s, from + 1, needle)
    }
}

/// What `spec_find` returns, said without recursion: a position in range,
/// with no `needle` before it, that holds `needle` unless it is the end.
pub proof fn lemma_find(s: Seq<u8>, from: int, needle: u8)
    requires
        0 <= from <= s.len(),
    ensures
        from <= spec_find(s, from, needle) <= s.len(),
        spec_find(s, from, needle) < s.len() ==> s[spec_find(s, from, needle)] == needle,
        forall|i: int| from <= i < spec_find(s, from, needle) ==> s[i] != needle,
    decreases s.len() - from,
{
    if from < s.len() && s[from] != needle {
        lemma_find(s, from + 1, needle);
    }
}

/// A position with the three properties of `lemma_find` is the one that
/// `spec_find` returns.
pub proof fn lemma_find_unique(s: Seq<u8>, from: int, needle: u8, at: int)
    requires
        0 <= from <= at <= s.len(),
        at < s.len() ==> s[at] == needle,
        forall|i: int| from <= i < at ==> s[i] != needle,
    ensures
        spec_find(s, from, needle) == at,
    decreases s.len() - from,
{
    if from < at {
        lemma_find_unique(s, from + 1, needle, at);
    }
}

/// The search sees nothing beyond `end`: within a prefix that holds the
/// first `needle`, it finds the same position.
pub proof fn lemma_find_prefix(s: Seq<u8>, t: Seq<u8>, from: int, needle: u8)
    requires
        0 <= from <= s.len() <= t.len(),
        t.subrange(0, s.len() as int) == s,
        spec_find(s, from, needle) < s.len(),
    ensures
        spec_find(t, from, needle) == spec_find(s, from, needle),
{
    lemma_find(s, from, needle);
    let at = spec_find(s, from, needle);
    assert forall|i: int| from <= i <= at implies t[i] == s[i] by {
        assert(t.subrange(0, s.len() as int)[i] == t[i]);
    }
    lemma_find_unique(t, from, needle, at);
}

/// How often `needle` occurs in `bytes`.
pub open spec fn spec_count(bytes: Seq<u8>, needle: u8) -> nat
    decreases bytes.len(),
{
    if bytes.len() == 0 {
        0
    } else {
        spec_count(bytes.drop_last(), needle) + if bytes.last() == needle {
            1nat
        } else {
            0nat
        }
    }
}

/// How often `needle` occurs in `bytes`.
pub fn count_byte(bytes: &[u8], needle: u8) -> (r: usize)
    ensures
        r == spec_count(bytes@, needle),
{
    let mut count: usize = 0;
    let mut i: usize = 0;
    assert(bytes@.subrange(0, 0) =~= Seq::<u8>::empty());
    while i < bytes.len()
        invariant
            count <= i <= bytes@.len(),
            count == spec_count(bytes@.subrange(0, i as int), needle),
        decreases bytes@.len() - i,
    {
        assert(bytes@.subrange(0, i + 1).drop_last() =~= bytes@.subrange(0, i as int));
        if bytes[i] == needle {
            count += 1;
        }
        i += 1;
    }
    assert(bytes@.subrange(0, i as int) =~= bytes@);
    count
}

/// Whether two byte slices hold the same bytes.
pub fn bytes_eq(a: &[u8], b: &[u8]) -> (r: bool)
    ensures
        r == (a@ == b@),
{
    if a.len() != b.len() {
        return false;
    }
    let mut i: usize = 0;
    while i < a.len()
        invariant
            a@.len() == b@.len(),
            i <= a@.len(),
            forall|k: int| 0 <= k < i ==> a@[k] == b@[k],
        decreases a@.len() - i,
    {
        if a[i] != b[i] {
            return false;
        }
        i += 1;
    }
    assert(a@ =~= b@);
    true
}

/// Lower-case form of an ASCII letter; every other byte is itself.
pub fn ascii_lower(b: u8) -> (r: u8)
    ensures
        r == spec_ascii_lower(b),
{
    if 65 <= b && b <= 90 {
        b + 32
    } else {
        b
    }
}

/// Whether two byte slices hold the same bytes up to the case of ASCII
/// letters.
pub fn eq_ignore_ascii_case(a: &[u8], b: &[u8]) -> (r: bool)
    ensures
        r == spec_eq_ignore_ascii_case(a@, b@),
{
    let ghost la = a@.map_values(|x: u8| spec_ascii_lower(x));
    let ghost lb = b@.map_values(|x: u8| spec_ascii_lower(x));
    if a.len() != b.len() {
        assert(la.len() != lb.len());
        return false;
    }
    let mut i: usize = 0;
    while i < a.len()
        invariant
            a@.len() == b@.len(),
            i <= a@.len(),
            la == a@.map_values(|x: u8| spec_ascii_lower(x)),
            lb == b@.map_values(|x: u8| spec_ascii_lower(x)),
            forall|k: int| 0 <= k < i ==> la[k] == lb[k],
        decreases a@.len() - i,
    {
        if ascii_lower(a[i]) != ascii_lower(b[i]) {
            assert(la[i as int] != lb[i as int]);
            return false;
        }
        i += 1;
    }
    assert(la =~= lb);
    true
}

/// Position of the first `needle` in `buf[from..end]`, or `end` when that
/// part holds none.
pub fn find_byte(buf: &[u8], from: usize, end: usize, needle: u8) -> (r: usize)
    requires
        from <= end <= buf@.len(),
    ensures
        r == spec_find(buf@.subrange(0, end as int), from as int, needle),
        from <= r <= end,
{
    let ghost s = buf@.subrange(0, end as int);
    let mut i: usize = from;
    while i < end
        invariant
            from <= i <= end <= buf@.len(),
            s == buf@.subrange(0, end as int),
            forall|k: int| from <= k < i ==> s[k] != needle,
        decreases end - i,
    {
        if buf[i] == needle {
            proof {
                lemma_find_unique(s, from as int, needle, i as int);
            }
            return i;
        }
        i += 1;
    }
    proof {
        lemma_find_unique(s, from as int, needle, end as int);
    }
    end
}

/// The range that a subslice occupies in the slice it was cut from.
///
/// A slice carries no address here, so the place where `slice` starts is
/// given as `offset`; the caller owes that `source` really holds `slice`
/// there.
pub fn range_from_subslice<T>(source: &[T], offset: usize, slice: &[T]) -> (r: (usize, usize))
    requires
        offset + slice@.len() <= source@.len(),
        source@.subrange(offset as int, offset + slice@.len()) == slice@,
    ensures
        r.0 == offset,
        r.1 == offset + slice@.len(),
        r.0 <= r.1 <= source@.len(),
        source@.subrange(r.0 as int, r.1 as int) == slice@,
{
    let total: usize = source.len();
    assert(offset + slice@.len() <= total);
    (offset, offset + slice.len())
}

/// A vector of the bytes of `bytes`.
pub fn to_vec(bytes: &[u8]) -> (r: Vec<u8>)
    ensures
        r@ == bytes@,
{
    slice_to_vec(bytes)
}

/// The part of `buf` that a range names.
pub fn slice_of(buf: &[u8], range: (usize, usize)) -> (r: &[u8])
    requires
        range.0 <= range.1 <= buf@.len(),
    ensures
        r@ == buf@.subrange(range.0 as int, range.1 as int),
{
    slice_subrange(buf, range.0, range.1)
}

} // verus!
