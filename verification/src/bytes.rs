//! Searching in byte strings.

use vstd::prelude::*;

verus! {

/// `s` begins with `p`.
pub open spec fn starts_with(s: Seq<u8>, p: Seq<u8>) -> bool {
    p.len() <= s.len() && s.subrange(0, p.len() as int) == p
}

/// `s` ends with `p`.
pub open spec fn ends_with(s: Seq<u8>, p: Seq<u8>) -> bool {
    p.len() <= s.len() && s.subrange(s.len() - p.len(), s.len() as int) == p
}

/// `p` stands in `s` at index `i`.
pub open spec fn occurs_at(s: Seq<u8>, p: Seq<u8>, i: int) -> bool {
    0 <= i && i + p.len() <= s.len() && s.subrange(i, i + p.len()) == p
}

/// `p` stands somewhere in `s`.
pub open spec fn contains(s: Seq<u8>, p: Seq<u8>) -> bool {
    exists|i: int| occurs_at(s, p, i)
}

/// `p` stands in `s` at index `i` and nowhere before it.
pub open spec fn is_first_occurrence(s: Seq<u8>, p: Seq<u8>, i: int) -> bool {
    occurs_at(s, p, i) && forall|j: int| 0 <= j < i ==> !occurs_at(s, p, j)
}

/// The least index at which `p` stands in `s`, if it stands there at all.
pub open spec fn first_occurrence(s: Seq<u8>, p: Seq<u8>) -> Option<int> {
    if exists|i: int| is_first_occurrence(s, p, i) {
        Some(choose|i: int| is_first_occurrence(s, p, i))
    } else {
        None
    }
}

/// The number of bytes of `s` that come before its first `b`; the length of
/// `s` where it holds no `b`.
pub open spec fn offset_of(s: Seq<u8>, b: u8) -> nat
    decreases s.len(),
{
    if s.len() == 0 || s[0] == b {
        0
    } else {
        1 + offset_of(s.drop_first(), b)
    }
}

/// `offset_of` is the least index that holds `b`, or the length.
pub proof fn lemma_offset_of(s: Seq<u8>, b: u8)
    ensures
        offset_of(s, b) <= s.len(),
        offset_of(s, b) < s.len() ==> s[offset_of(s, b) as int] == b,
        forall|j: int| 0 <= j < offset_of(s, b) ==> s[j] != b,
    decreases s.len(),
{
    if s.len() > 0 && s[0] != b {
        let t = s.drop_first();
        lemma_offset_of(t, b);
        assert forall|j: int| 0 <= j < offset_of(s, b) implies s[j] != b by {
            if j > 0 {
                assert(s[j] == t[j - 1]);
            }
        }
    }
}

/// Any index before which no `b` stands, and which holds `b` or is the
/// length, is `offset_of`.
pub proof fn lemma_offset_of_unique(s: Seq<u8>, b: u8, k: int)
    requires
        0 <= k <= s.len(),
        k < s.len() ==> s[k] == b,
        forall|j: int| 0 <= j < k ==> s[j] != b,
    ensures
        offset_of(s, b) == k,
{
    lemma_offset_of(s, b);
}

/// Is `s` equal to `p`?
pub fn equal(s: &[u8], p: &[u8]) -> (r: bool)
    ensures
        r == (s@ == p@),
{
    if s.len() != p.len() {
        return false;
    }
    let mut i: usize = 0;
    while i < s.len()
        invariant
            i <= s.len(),
            s.len() == p.len(),
            forall|j: int| 0 <= j < i ==> s@[j] == p@[j],
        decreases s.len() - i,
    {
        if s[i] != p[i] {
            return false;
        }
        i += 1;
    }
    assert(s@ =~= p@);
    true
}

/// Does `p` stand in `s` at index `i`?
pub fn matches_at(s: &[u8], p: &[u8], i: usize) -> (r: bool)
    ensures
        r == occurs_at(s@, p@, i as int),
{
    if p.len() > s.len() || i > s.len() - p.len() {
        return false;
    }
    equal(&s[i..i + p.len()], p)
}

/// Does `s` begin with `p`?
pub fn has_prefix(s: &[u8], p: &[u8]) -> (r: bool)
    ensures
        r == starts_with(s@, p@),
{
    matches_at(s, p, 0)
}

/// Does `s` end with `p`?
pub fn has_suffix(s: &[u8], p: &[u8]) -> (r: bool)
    ensures
        r == ends_with(s@, p@),
{
    if p.len() > s.len() {
        return false;
    }
    matches_at(s, p, s.len() - p.len())
}

/// The index of the first occurrence of `p` in `s`.
pub fn find(s: &[u8], p: &[u8]) -> (r: Option<usize>)
    ensures
        match r {
            Some(i) => first_occurrence(s@, p@) == Some(i as int) && occurs_at(s@, p@, i as int),
            None => first_occurrence(s@, p@) is None,
        },
        r is Some <==> contains(s@, p@),
{
    if p.len() > s.len() {
        return None;
    }
    let last: usize = s.len() - p.len();
    let mut i: usize = 0;
    loop
        invariant
            i <= last,
            last == s.len() - p.len(),
            forall|j: int| 0 <= j < i ==> !occurs_at(s@, p@, j),
        decreases last - i,
    {
        if matches_at(s, p, i) {
            assert(is_first_occurrence(s@, p@, i as int));
            return Some(i);
        }
        if i == last {
            return None;
        }
        i += 1;
    }
}

/// Does `p` stand somewhere in `s`?
pub fn includes(s: &[u8], p: &[u8]) -> (r: bool)
    ensures
        r == contains(s@, p@),
{
    find(s, p).is_some()
}

/// The index of the first `b` in `s`, or the length of `s`.
pub fn find_byte(s: &[u8], b: u8) -> (r: usize)
    ensures
        r == offset_of(s@, b),
        r <= s@.len(),
        r < s@.len() <==> s@.contains(b),
{
    let mut i: usize = 0;
    while i < s.len() && s[i] != b
        invariant
            i <= s.len(),
            forall|j: int| 0 <= j < i ==> s@[j] != b,
        decreases s.len() - i,
    {
        i += 1;
    }
    proof {
        lemma_offset_of_unique(s@, b, i as int);
    }
    i
}

} // verus!
