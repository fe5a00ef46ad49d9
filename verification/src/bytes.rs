//! Byte-string helpers shared by the path and message builders.

use vstd::prelude::*;

verus! {

/// `s` ends with `suffix`.
pub open spec fn ends_with(s: Seq<u8>, suffix: Seq<u8>) -> bool {
    suffix.len() <= s.len() && s.subrange(s.len() - suffix.len(), s.len() as int) == suffix
}

/// `s` without `suffix` at its end, or `s` itself where it does not end with it.
pub open spec fn without_suffix(s: Seq<u8>, suffix: Seq<u8>) -> Seq<u8> {
    if ends_with(s, suffix) {
        s.subrange(0, s.len() - suffix.len())
    } else {
        s
    }
}

/// Whether two byte strings hold the same bytes.
pub fn equal(a: &[u8], b: &[u8]) -> (same: bool)
    ensures
        same == (a@ == b@),
{
    if a.len() != b.len() {
        return false;
    }
    let mut i: usize = 0;
    while i < a.len()
        invariant
            a.len() == b.len(),
            i <= a.len(),
            forall|k: int| 0 <= k < i ==> a@[k] == b@[k],
        decreases a.len() - i,
    {
        if a[i] != b[i] {
            return false;
        }
        i = i + 1;
    }
    assert(a@ =~= b@);
    true
}

/// The first `n` bytes of `s` as an owned string.
pub fn take(s: &[u8], n: usize) -> (head: Vec<u8>)
    requires
        n <= s.len(),
    ensures
        head@ == s@.subrange(0, n as int),
{
    let mut head: Vec<u8> = Vec::new();
    let mut i: usize = 0;
    while i < n
        invariant
            n <= s.len(),
            i <= n,
            head@ == s@.subrange(0, i as int),
        decreases n - i,
    {
        head.push(s[i]);
        assert(head@ =~= s@.subrange(0, i + 1));
        i = i + 1;
    }
    head
}

/// Appends the bytes of `tail` to `buf`.
pub fn append(buf: &mut Vec<u8>, tail: &[u8])
    ensures
        final(buf)@ == old(buf)@ + tail@,
{
    let mut i: usize = 0;
    while i < tail.len()
        invariant
            i <= tail.len(),
            buf@ == old(buf)@ + tail@.subrange(0, i as int),
        decreases tail.len() - i,
    {
        buf.push(tail[i]);
        assert(buf@ =~= old(buf)@ + tail@.subrange(0, i + 1));
        i = i + 1;
    }
    assert(tail@.subrange(0, tail.len() as int) =~= tail@);
}

/// The bytes of `a` followed by those of `b`.
pub fn concat(a: &[u8], b: &[u8]) -> (joined: Vec<u8>)
    ensures
        joined@ == a@ + b@,
{
    let mut joined: Vec<u8> = Vec::new();
    append(&mut joined, a);
    append(&mut joined, b);
    assert(joined@ =~= a@ + b@);
    joined
}

/// Whether `s` ends with `suffix`.
pub fn has_suffix(s: &[u8], suffix: &[u8]) -> (found: bool)
    ensures
        found == ends_with(s@, suffix@),
{
    if suffix.len() > s.len() {
        return false;
    }
    let start: usize = s.len() - suffix.len();
    let mut i: usize = 0;
    while i < suffix.len()
        invariant
            start + suffix.len() == s.len(),
            i <= suffix.len(),
            forall|k: int| 0 <= k < i ==> s@[start + k] == suffix@[k],
        decreases suffix.len() - i,
    {
        if s[start + i] != suffix[i] {
            assert(s@.subrange(s.len() - suffix.len(), s.len() as int)[i as int] != suffix@[i as int]);
            return false;
        }
        i = i + 1;
    }
    assert(s@.subrange(s.len() - suffix.len(), s.len() as int) =~= suffix@);
    true
}

/// `s` with `suffix` removed from its end, where it ends with it.
pub fn strip_suffix(s: &[u8], suffix: &[u8]) -> (rest: Vec<u8>)
    ensures
        rest@ == without_suffix(s@, suffix@),
{
    if has_suffix(s, suffix) {
        take(s, s.len() - suffix.len())
    } else {
        let whole = take(s, s.len());
        assert(s@.subrange(0, s.len() as int) =~= s@);
        whole
    }
}

} // verus!
