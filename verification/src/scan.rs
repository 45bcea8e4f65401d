//! Byte-sequence searching: the specification of "first occurrence of a
//! subsequence" and the search routine the codecs share.

use vstd::prelude::*;

verus! {

/// `needle` occurs in `haystack` starting at index `i`.
pub open spec fn match_at(haystack: Seq<u8>, needle: Seq<u8>, i: int) -> bool {
    0 <= i && i + needle.len() <= haystack.len() && haystack.subrange(i, i + needle.len())
        == needle
}

/// Index of the first occurrence of `needle` in `haystack`, scanning from
/// position `from`.
pub open spec fn first_match_from(haystack: Seq<u8>, needle: Seq<u8>, from: int) -> Option<int>
    decreases haystack.len() - from + 1,
{
    if from < 0 || from + needle.len() > haystack.len() {
        None
    } else if haystack.subrange(from, from + needle.len()) == needle {
        Some(from)
    } else {
        first_match_from(haystack, needle, from + 1)
    }
}

/// Index of the first occurrence of `needle` in `haystack`.
pub open spec fn first_match(haystack: Seq<u8>, needle: Seq<u8>) -> Option<int> {
    first_match_from(haystack, needle, 0)
}

/// `first_match_from` returns exactly the least match index at or after
/// `from`, and `None` exactly when there is no match at or after `from`.
pub proof fn lemma_first_match_from(haystack: Seq<u8>, needle: Seq<u8>, from: int)
    requires
        from >= 0,
    ensures
        match first_match_from(haystack, needle, from) {
            Some(i) => match_at(haystack, needle, i) && from <= i && forall|j: int|
                from <= j < i ==> !match_at(haystack, needle, j),
            None => forall|j: int| j >= from ==> !match_at(haystack, needle, j),
        },
    decreases haystack.len() - from + 1,
{
    if from + needle.len() > haystack.len() {
        assert forall|j: int| j >= from implies !match_at(haystack, needle, j) by {}
    } else if haystack.subrange(from, from + needle.len()) == needle {
    } else {
        lemma_first_match_from(haystack, needle, from + 1);
    }
}

/// The converse: a least match index determines `first_match_from`.
pub proof fn lemma_first_match_from_unique(
    haystack: Seq<u8>,
    needle: Seq<u8>,
    from: int,
    i: int,
)
    requires
        from >= 0,
        match_at(haystack, needle, i),
        from <= i,
        forall|j: int| from <= j < i ==> !match_at(haystack, needle, j),
    ensures
        first_match_from(haystack, needle, from) == Some(i),
    decreases i - from,
{
    if from == i {
        assert(haystack.subrange(i, i + needle.len()) == needle);
    } else {
        assert(!match_at(haystack, needle, from));
        lemma_first_match_from_unique(haystack, needle, from + 1, i);
    }
}

/// No match anywhere at or after `from` determines `first_match_from`.
pub proof fn lemma_first_match_from_none(haystack: Seq<u8>, needle: Seq<u8>, from: int)
    requires
        from >= 0,
        forall|j: int| j >= from ==> !match_at(haystack, needle, j),
    ensures
        first_match_from(haystack, needle, from) is None,
{
    lemma_first_match_from(haystack, needle, from);
    if first_match_from(haystack, needle, from) is Some {
        let i = first_match_from(haystack, needle, from)->Some_0;
        assert(!match_at(haystack, needle, i));
    }
}

/// Relies on `memchr::memmem::find`: returns the index of the first
/// occurrence of `needle` in `haystack`, or `None` when `needle` does not
/// occur in `haystack`.
#[verifier::external_body]
pub fn find_subsequence(haystack: &[u8], needle: &[u8]) -> (r: Option<usize>)
    ensures
        match r {
            Some(i) => match_at(haystack@, needle@, i as int) && forall|j: int|
                0 <= j < i ==> !match_at(haystack@, needle@, j),
            None => forall|j: int| !match_at(haystack@, needle@, j),
        },
{
    memchr::memmem::find(haystack, needle)
}

/// `find_subsequence`, with its result tied to the `first_match` function
/// that the codec specifications use.
pub fn find_first_match(haystack: &[u8], needle: &[u8]) -> (r: Option<usize>)
    ensures
        match r {
            Some(i) => first_match(haystack@, needle@) == Some(i as int),
            None => first_match(haystack@, needle@) is None,
        },
{
    let r = find_subsequence(haystack, needle);
    proof {
        match r {
            Some(i) => lemma_first_match_from_unique(haystack@, needle@, 0, i as int),
            None => lemma_first_match_from_none(haystack@, needle@, 0),
        }
    }
    r
}

} // verus!
