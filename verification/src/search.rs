//! Literal substring containment over byte strings.
//!
//! Marker matching is deliberately plain substring search: the markers are
//! small, stable fragments embedded in a much larger page, so no structural
//! parsing of the page is wanted.

use vstd::prelude::*;

verus! {

/// The pattern occurs in `hay` starting exactly at position `i`.
pub open spec fn is_match_at(hay: Seq<u8>, pat: Seq<u8>, i: int) -> bool {
    0 <= i && i + pat.len() <= hay.len() && hay.subrange(i, i + pat.len() as int) == pat
}

/// The pattern occurs somewhere in `hay`.
pub open spec fn contains_seq(hay: Seq<u8>, pat: Seq<u8>) -> bool {
    exists|i: int| is_match_at(hay, pat, i)
}

/// Whether `pat` occurs in `hay` starting exactly at position `i`.
pub fn matches_at(hay: &[u8], pat: &[u8], i: usize) -> (r: bool)
    requires
        i + pat@.len() <= hay@.len(),
    ensures
        r == is_match_at(hay@, pat@, i as int),
{
    let n = hay.len();
    let mut j: usize = 0;
    while j < pat.len()
        invariant
            0 <= j <= pat@.len(),
            i + pat@.len() <= hay@.len(),
            n == hay@.len(),
            forall|k: int| 0 <= k < j ==> hay@[i + k] == pat@[k],
        decreases pat@.len() - j,
    {
        if hay[i + j] != pat[j] {
            assert(!is_match_at(hay@, pat@, i as int)) by {
                if is_match_at(hay@, pat@, i as int) {
                    assert(hay@.subrange(i as int, i + pat@.len() as int)[j as int] == pat@[j as int]);
                }
            }
            return false;
        }
        j += 1;
    }
    assert(hay@.subrange(i as int, i + pat@.len() as int) =~= pat@);
    true
}

/// Whether `pat` occurs anywhere in `hay`.
pub fn contains_bytes(hay: &[u8], pat: &[u8]) -> (r: bool)
    ensures
        r == contains_seq(hay@, pat@),
{
    if pat.len() > hay.len() {
        assert(forall|i: int| !is_match_at(hay@, pat@, i));
        return false;
    }
    let end = hay.len() - pat.len();
    let mut i: usize = 0;
    loop
        invariant
            0 <= i <= end,
            end == hay@.len() - pat@.len(),
            forall|k: int| 0 <= k < i ==> !is_match_at(hay@, pat@, k),
        decreases end - i,
    {
        if matches_at(hay, pat, i) {
            return true;
        }
        if i == end {
            assert(forall|k: int| !is_match_at(hay@, pat@, k));
            return false;
        }
        i += 1;
    }
}

} // verus!
