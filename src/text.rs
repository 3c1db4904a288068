//! Text helpers: substring search over bytes, suffixes and equality over
//! characters.
use vstd::prelude::*;

verus! {

/// `needle` occurs in `hay` starting at index `i`.
pub open spec fn occurs_at(hay: Seq<u8>, needle: Seq<u8>, i: int) -> bool {
    0 <= i && i + needle.len() <= hay.len() && hay.subrange(i, i + needle.len()) == needle
}

/// `needle` occurs somewhere in `hay` (case-sensitive substring containment).
pub open spec fn contains_bytes(hay: Seq<u8>, needle: Seq<u8>) -> bool {
    exists|i: int| occurs_at(hay, needle, i)
}

fn matches_at(hay: &[u8], i: usize, needle: &[u8]) -> (r: bool)
    requires
        i + needle@.len() <= hay@.len(),
    ensures
        r == (hay@.subrange(i as int, i + needle@.len()) == needle@),
{
    let n: usize = hay.len();
    let mut j: usize = 0;
    while j < needle.len()
        invariant
            n == hay@.len(),
            j <= needle@.len(),
            i + needle@.len() <= hay@.len(),
            forall|k: int| 0 <= k < j ==> hay@[i + k] == needle@[k],
        decreases needle@.len() - j,
    {
        if hay[i + j] != needle[j] {
            assert(hay@.subrange(i as int, i + needle@.len())[j as int] != needle@[j as int]);
            return false;
        }
        j = j + 1;
    }
    assert(hay@.subrange(i as int, i + needle@.len()) =~= needle@);
    true
}

/// Whether `needle` occurs in `hay[start..end]`.
pub fn contains_in(hay: &[u8], start: usize, end: usize, needle: &[u8]) -> (r: bool)
    requires
        start <= end <= hay@.len(),
    ensures
        r == contains_bytes(hay@.subrange(start as int, end as int), needle@),
{
    let ghost sub = hay@.subrange(start as int, end as int);
    if needle.len() > end - start {
        assert forall|k: int| !occurs_at(sub, needle@, k) by {}
        return false;
    }
    let last: usize = (end - start) - needle.len();
    let mut k: usize = 0;
    loop
        invariant
            start <= end <= hay@.len(),
            k <= last,
            last + needle@.len() == end - start,
            sub == hay@.subrange(start as int, end as int),
            forall|q: int| 0 <= q < k ==> !occurs_at(sub, needle@, q),
        decreases last - k,
    {
        assert(sub.subrange(k as int, k + needle@.len()) =~= hay@.subrange(
            start + k,
            start + k + needle@.len(),
        ));
        if matches_at(hay, start + k, needle) {
            assert(occurs_at(sub, needle@, k as int));
            return true;
        }
        if k == last {
            assert forall|q: int| !occurs_at(sub, needle@, q) by {
                if 0 <= q < k {
                }
            }
            return false;
        }
        k = k + 1;
    }
}

/// `s` ends with `suffix`.
pub open spec fn has_suffix(s: Seq<char>, suffix: Seq<char>) -> bool {
    suffix.len() <= s.len() && s.subrange(s.len() - suffix.len(), s.len() as int) == suffix
}

pub fn ends_with(s: &str, suffix: &str) -> (r: bool)
    ensures
        r == has_suffix(s@, suffix@),
{
    let n = s.unicode_len();
    let m = suffix.unicode_len();
    if m > n {
        return false;
    }
    let mut k: usize = 0;
    while k < m
        invariant
            n == s@.len(),
            m == suffix@.len(),
            m <= n,
            k <= m,
            forall|q: int| 0 <= q < k ==> s@[n - m + q] == suffix@[q],
        decreases m - k,
    {
        if s.get_char(n - m + k) != suffix.get_char(k) {
            assert(s@.subrange(n - m, n as int)[k as int] != suffix@[k as int]);
            return false;
        }
        k = k + 1;
    }
    assert(s@.subrange(n - m, n as int) =~= suffix@);
    true
}

/// Whether two strings hold the same characters.
pub fn text_eq(a: &str, b: &str) -> (r: bool)
    ensures
        r == (a@ == b@),
{
    let n = a.unicode_len();
    if n != b.unicode_len() {
        return false;
    }
    let mut k: usize = 0;
    while k < n
        invariant
            n == a@.len(),
            n == b@.len(),
            k <= n,
            forall|q: int| 0 <= q < k ==> a@[q] == b@[q],
        decreases n - k,
    {
        if a.get_char(k) != b.get_char(k) {
            return false;
        }
        k = k + 1;
    }
    assert(a@ =~= b@);
    true
}

} // verus!

verus! {

/// `s` starts with `prefix`.
pub open spec fn has_prefix(s: Seq<char>, prefix: Seq<char>) -> bool {
    prefix.len() <= s.len() && s.subrange(0, prefix.len() as int) == prefix
}

pub fn starts_with(s: &str, prefix: &str) -> (r: bool)
    ensures
        r == has_prefix(s@, prefix@),
{
    let n = s.unicode_len();
    let m = prefix.unicode_len();
    if m > n {
        return false;
    }
    let mut k: usize = 0;
    while k < m
        invariant
            n == s@.len(),
            m == prefix@.len(),
            m <= n,
            k <= m,
            forall|q: int| 0 <= q < k ==> s@[q] == prefix@[q],
        decreases m - k,
    {
        if s.get_char(k) != prefix.get_char(k) {
            assert(s@.subrange(0, m as int)[k as int] != prefix@[k as int]);
            return false;
        }
        k = k + 1;
    }
    assert(s@.subrange(0, m as int) =~= prefix@);
    true
}

} // verus!
