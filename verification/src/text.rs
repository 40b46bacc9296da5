//! Case folding and text conversion, taken from the standard library.
//!
//! Unicode case mapping is not restated here. The two mappings get a name
//! each, and every contract that depends on one of them speaks of that name.

use vstd::prelude::*;

verus! {

/// The upper-case form of `s` as `str::to_uppercase` computes it.
pub uninterp spec fn uppercase_of(s: Seq<char>) -> Seq<char>;

/// The lower-case form of `s` as `str::to_lowercase` computes it.
pub uninterp spec fn lowercase_of(s: Seq<char>) -> Seq<char>;

/// `str::to_uppercase` maps each character by the Unicode upper-case tables.
/// Trusted: the result is a function of the text alone, named `uppercase_of`.
pub assume_specification[ str::to_uppercase ](s: &str) -> (r: String)
    ensures
        r@ == uppercase_of(s@),
;

/// `str::to_lowercase` maps each character by the Unicode lower-case tables.
/// Trusted: the result is a function of the text alone, named `lowercase_of`.
pub assume_specification[ str::to_lowercase ](s: &str) -> (r: String)
    ensures
        r@ == lowercase_of(s@),
;

/// `String::from_iter` over the characters of a vector. Trusted: the string
/// holds exactly those characters, in order.
#[verifier::external_body]
pub(crate) fn string_of_chars(chars: &Vec<char>) -> (r: String)
    ensures
        r@ == chars@,
{
    String::from_iter(chars.iter())
}

} // verus!
