//! Small executable helpers over strings, proved against the character-level
//! views that the rest of the crate's contracts use.

use vstd::prelude::*;

verus! {

/// Character-wise equality of two string slices: returns `true` exactly when
/// the two views are the same character sequence.
pub(crate) fn str_eq(a: &str, b: &str) -> (r: bool)
    ensures
        r <==> a@ == b@,
{
    let alen = a.unicode_len();
    let blen = b.unicode_len();
    if alen != blen {
        return false;
    }
    let mut i: usize = 0;
    while i < alen
        invariant
            alen == a@.len(),
            alen == b@.len(),
            i <= alen,
            forall|j: int| 0 <= j < i ==> a@[j] == b@[j],
        decreases alen - i,
    {
        if a.get_char(i) != b.get_char(i) {
            return false;
        }
        i += 1;
    }
    proof {
        assert(a@ =~= b@);
    }
    true
}

/// Character-wise equality of a character vector and a string slice.
pub(crate) fn chars_eq(cs: &Vec<char>, s: &str) -> (r: bool)
    ensures
        r <==> cs@ == s@,
{
    let len = s.unicode_len();
    if cs.len() != len {
        return false;
    }
    let mut i: usize = 0;
    while i < len
        invariant
            len == s@.len(),
            len == cs@.len(),
            i <= len,
            forall|j: int| 0 <= j < i ==> cs@[j] == s@[j],
        decreases len - i,
    {
        if cs[i] != s.get_char(i) {
            return false;
        }
        i += 1;
    }
    proof {
        assert(cs@ =~= s@);
    }
    true
}

/// Relies on `String`'s `FromIterator<char>` impl: collecting characters
/// yields the string of exactly those characters, in order.
#[verifier::external_body]
pub(crate) fn chars_to_string(cs: &Vec<char>) -> (r: String)
    ensures
        r@ == cs@,
{
    cs.iter().collect()
}

} // verus!
