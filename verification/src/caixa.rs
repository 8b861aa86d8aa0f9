//! Lower and upper case of a text, as std computes them.

use vstd::prelude::*;

verus! {

/// The characters that `str::to_lowercase` gives for the characters `s`.
pub uninterp spec fn minusculas(s: Seq<char>) -> Seq<char>;

/// The characters that `str::to_uppercase` gives for the characters `s`.
pub uninterp spec fn maiusculas(s: Seq<char>) -> Seq<char>;

/// Calls `str::to_lowercase`. Its contract claims only that the result
/// depends on the characters of `s` alone (the Unicode mapping is not
/// written out here).
#[verifier::external_body]
pub(crate) fn para_minusculas(s: &str) -> (r: String)
    ensures
        r@ == minusculas(s@),
{
    s.to_lowercase()
}

/// Calls `str::to_uppercase`. Its contract claims only that the result
/// depends on the characters of `s` alone (the Unicode mapping is not
/// written out here).
#[verifier::external_body]
pub(crate) fn para_maiusculas(s: &str) -> (r: String)
    ensures
        r@ == maiusculas(s@),
{
    s.to_uppercase()
}

} // verus!
