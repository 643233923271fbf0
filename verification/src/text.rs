//! Specifications for the operations of the standard library on strings
//! that the library relies on.

use vstd::prelude::*;

verus! {

/// Comparison of two string slices with `==`: true exactly when both hold
/// the same characters in the same order. Assumed of the standard
/// library, not proved.
pub assume_specification[ <str as PartialEq>::eq ](a: &str, b: &str) -> (same: bool)
    ensures
        same == (a@ == b@),
;

/// `String::push` appends the given character to the end of the string and
/// leaves what was there before it unchanged. Assumed of the standard
/// library, not proved.
pub assume_specification[ String::push ](text: &mut String, ch: char)
    ensures
        final(text)@ == old(text)@.push(ch),
;

} // verus!
