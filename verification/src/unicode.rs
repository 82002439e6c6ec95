//! Unicode case folding and character classes, taken from the standard
//! library behind named results: what `to_lowercase` or `is_alphanumeric`
//! decides is a function of the characters alone, but stating the Unicode
//! tables is not this crate's business, so the contracts name the results
//! and the logic built on them is verified for every value of the names.

use vstd::prelude::*;

verus! {

/// What `str::to_lowercase` returns for these characters.
pub uninterp spec fn lower_of(s: Seq<char>) -> Seq<char>;

/// Relies on `str::to_lowercase`: the Unicode lowercase form, a function
/// of the characters alone; an empty string stays empty.
#[verifier::external_body]
pub(crate) fn lowercase(s: &str) -> (r: String)
    ensures
        r@ == lower_of(s@),
        s@.len() == 0 ==> r@.len() == 0,
{
    s.to_lowercase()
}

/// Whether `char::is_alphanumeric` accepts this character.
pub uninterp spec fn alphanumeric_char(c: char) -> bool;

/// Relies on `char::is_alphanumeric`: whether the character is in one of
/// the Unicode letter or number categories.
#[verifier::external_body]
pub(crate) fn is_alphanumeric_char(c: char) -> (r: bool)
    ensures
        r == alphanumeric_char(c),
{
    c.is_alphanumeric()
}

/// Whether `char::is_uppercase` accepts this character.
pub uninterp spec fn uppercase_char(c: char) -> bool;

/// Relies on `char::is_uppercase`: whether the character is in the
/// Unicode uppercase-letter category.
#[verifier::external_body]
pub(crate) fn is_uppercase_char(c: char) -> (r: bool)
    ensures
        r == uppercase_char(c),
{
    c.is_uppercase()
}

} // verus!
