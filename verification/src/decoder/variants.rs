//! Telling the two Base64 alphabets apart.

use crate::decoder::Base64Variant;
use crate::text::chars_of;
use vstd::prelude::*;

verus! {

/// The variant that a text calls for: URL-safe where it holds `-` or `_`,
/// standard otherwise.
pub open spec fn variant_of(s: Seq<char>) -> Base64Variant {
    if s.contains('-') || s.contains('_') {
        Base64Variant::UrlSafe
    } else {
        Base64Variant::Standard
    }
}

/// Finds the Base64 variant of `input`.
pub fn detect_variant(input: &str) -> (variant: Base64Variant)
    ensures
        variant == variant_of(input@),
{
    let chars = chars_of(input);
    variant_of_chars(&chars)
}

/// Finds the Base64 variant of a text given by its characters.
pub fn variant_of_chars(chars: &Vec<char>) -> (variant: Base64Variant)
    ensures
        variant == variant_of(chars@),
{
    let mut i: usize = 0;
    while i < chars.len()
        invariant
            i <= chars.len(),
            forall|j: int| 0 <= j < i ==> chars@[j] != '-' && chars@[j] != '_',
        decreases chars.len() - i,
    {
        if chars[i] == '-' || chars[i] == '_' {
            assert(chars@.contains(chars@[i as int]));
            return Base64Variant::UrlSafe;
        }
        i += 1;
    }
    Base64Variant::Standard
}

} // verus!
