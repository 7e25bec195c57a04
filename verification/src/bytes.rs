//! Byte-sequence searching: the position of the first occurrence of a byte,
//! as a specification, and an executable search that relies on the `memchr`
//! crate.

use vstd::prelude::*;

verus! {

/// The index of the first occurrence of `b` in `s`, or `s.len()` if `s` does
/// not contain `b`.
pub open spec fn first_index_of_byte(s: Seq<u8>, b: u8) -> int
    decreases s.len(),
{
    if s.len() == 0 {
        0
    } else if s[0] == b {
        0
    } else {
        1 + first_index_of_byte(s.drop_first(), b)
    }
}

/// Whether `s` contains the byte `b` anywhere.
pub open spec fn contains_byte(s: Seq<u8>, b: u8) -> bool {
    exists|j: int| 0 <= j < s.len() && s[j] == b
}

/// `first_index_of_byte` names the first occurrence: it is in range exactly
/// when `s` contains `b`, the byte there is `b`, and no earlier byte is.
pub proof fn lemma_first_index_of_byte(s: Seq<u8>, b: u8)
    ensures
        0 <= first_index_of_byte(s, b) <= s.len(),
        first_index_of_byte(s, b) < s.len() ==> s[first_index_of_byte(s, b)] == b,
        forall|j: int| 0 <= j < first_index_of_byte(s, b) ==> s[j] != b,
        contains_byte(s, b) <==> first_index_of_byte(s, b) < s.len(),
    decreases s.len(),
{
    if s.len() == 0 {
    } else if s[0] == b {
    } else {
        lemma_first_index_of_byte(s.drop_first(), b);
        assert forall|j: int| 0 <= j < first_index_of_byte(s, b) implies s[j] != b by {
            if j > 0 {
                assert(s.drop_first()[j - 1] == s[j]);
            }
        }
        if contains_byte(s, b) {
            let j = choose|j: int| 0 <= j < s.len() && s[j] == b;
            assert(s.drop_first()[j - 1] == b);
        }
        if first_index_of_byte(s.drop_first(), b) < s.drop_first().len() {
            let i = first_index_of_byte(s.drop_first(), b);
            assert(s[i + 1] == s.drop_first()[i]);
        }
    }
}

/// Relies on `memchr::memchr`: it returns the index of the first occurrence
/// of `needle` in `haystack`, or `None` if there is no occurrence.
pub assume_specification [ memchr::memchr ](needle: u8, haystack: &[u8]) -> (r: Option<usize>)
    ensures
        match r {
            Some(i) => i < haystack@.len() && haystack@[i as int] == needle && forall|j: int|
                0 <= j < i ==> haystack@[j] != needle,
            None => forall|j: int| 0 <= j < haystack@.len() ==> haystack@[j] != needle,
        },
;

/// The first occurrence of `needle` in `haystack`, as `memchr` reports it,
/// tied back to `first_index_of_byte`.
pub fn find_byte(haystack: &[u8], needle: u8) -> (r: Option<usize>)
    ensures
        match r {
            Some(i) => first_index_of_byte(haystack@, needle) == i as int,
            None => !contains_byte(haystack@, needle),
        },
        r is Some <==> contains_byte(haystack@, needle),
{
    let r = memchr::memchr(needle, haystack);
    proof {
        lemma_first_index_of_byte(haystack@, needle);
    }
    r
}

/// Byte-exact equality of two byte sequences.
pub fn bytes_equal(a: &[u8], b: &[u8]) -> (r: bool)
    ensures
        r <==> a@ == b@,
{
    if a.len() != b.len() {
        return false;
    }
    let mut i: usize = 0;
    while i < a.len()
        invariant
            0 <= i <= a@.len(),
            a@.len() == b@.len(),
            forall|j: int| 0 <= j < i ==> a@[j] == b@[j],
        decreases a@.len() - i,
    {
        if a[i] != b[i] {
            return false;
        }
        i = i + 1;
    }
    proof {
        assert(a@ =~= b@);
    }
    true
}

} // verus!
