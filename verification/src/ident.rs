//! The identifier grammar for challenge slugs: lowercase alphanumeric
//! characters and `-`.  The two Unicode character classes involved are
//! taken from the standard library and named; the grammar itself is
//! verified over those names.

use vstd::prelude::*;

verus! {

/// Whether the standard library classifies a character as alphanumeric.
pub uninterp spec fn char_alphanumeric(c: char) -> bool;

/// Whether the standard library classifies a character as uppercase.
pub uninterp spec fn char_uppercase(c: char) -> bool;

/// Relies on char::is_alphanumeric: a pure classification of the character.
pub assume_specification[ char::is_alphanumeric ](c: char) -> (r: bool)
    ensures
        r == char_alphanumeric(c),
;

/// Relies on char::is_uppercase: a pure classification of the character.
pub assume_specification[ char::is_uppercase ](c: char) -> (r: bool)
    ensures
        r == char_uppercase(c),
;

/// A character admitted by the slug grammar: a non-uppercase alphanumeric
/// character, or a dash.
pub open spec fn spec_valid_id_char(c: char) -> bool {
    (!char_uppercase(c) && char_alphanumeric(c)) || c == '-'
}

/// The slug grammar: every character is lowercase alphanumeric or `-`.
pub open spec fn spec_valid_id(s: Seq<char>) -> bool {
    forall|i: int| 0 <= i < s.len() ==> spec_valid_id_char(#[trigger] s[i])
}

/// Compares two string slices by their characters.
pub fn str_eq(a: &str, b: &str) -> (r: bool)
    ensures
        r == (a@ == b@),
{
    let ao = a.to_owned();
    let bo = b.to_owned();
    ao == bo
}

/// Checks a slug against the identifier grammar.
pub fn is_valid_id(id: &str) -> (r: bool)
    ensures
        r == spec_valid_id(id@),
{
    let len = id.unicode_len();
    let mut i: usize = 0;
    while i < len
        invariant
            i <= len,
            len == id@.len(),
            forall|j: int| 0 <= j < i ==> spec_valid_id_char(#[trigger] id@[j]),
        decreases len - i,
    {
        let c = id.get_char(i);
        if !((!c.is_uppercase() && c.is_alphanumeric()) || c == '-') {
            return false;
        }
        i = i + 1;
    }
    true
}

} // verus!
