//! Detection of the encoding that a text most likely uses.
//!
//! The rules form a cascade: they are tried in a fixed order and the first
//! that applies decides. The order is part of what the engine promises.

use crate::encoding::{DetectionConfidence, EncodingInfo, EncodingType};
use crate::text::{
    chars_of, has_hex_prefix, has_percent_escape, is_ascii85_framed, is_ascii_decimal,
    is_ascii_letter, is_hex_digit, is_hexdigit, is_percent_escape_at, strip_whitespace, trim,
    trimmed, uppercase_of, uppercased, without_whitespace,
};
use vstd::prelude::*;

verus! {

/// Whether every character of `s` is a hexadecimal digit.
pub open spec fn all_hex_digits(s: Seq<char>) -> bool {
    forall|i: int| 0 <= i < s.len() ==> is_hex_digit(#[trigger] s[i])
}

/// Whether `s` holds an ASCII letter.
pub open spec fn has_ascii_letter(s: Seq<char>) -> bool {
    exists|i: int| 0 <= i < s.len() && is_ascii_letter(#[trigger] s[i])
}

/// Whether `s` holds an ASCII decimal digit.
pub open spec fn has_ascii_decimal(s: Seq<char>) -> bool {
    exists|i: int| 0 <= i < s.len() && is_ascii_decimal(#[trigger] s[i])
}

/// The hexadecimal rule, on a text free of whitespace: a non-empty run of
/// hexadecimal digits of even length. From eight characters on it must hold
/// a letter or a digit, which it always does; a shorter one must hold a
/// letter, so that short decimal numbers are not taken for hexadecimal.
///
/// A text made of hexadecimal digits has as many bytes as characters, so the
/// lengths here are the same in either measure.
pub open spec fn likely_hex(s: Seq<char>) -> bool {
    &&& s.len() > 0
    &&& s.len() % 2 == 0
    &&& all_hex_digits(s)
    &&& if s.len() >= 8 {
        has_ascii_letter(s) || has_ascii_decimal(s)
    } else {
        has_ascii_letter(s)
    }
}

/// `A`-`Z`, `2`-`7` or `=`.
pub open spec fn is_base32_char(c: char) -> bool {
    ('A' <= c <= 'Z') || ('2' <= c <= '7') || c == '='
}

/// `0`, `1`, `8` or `9`: the digits that Base32 leaves out.
pub open spec fn is_base32_excluded_digit(c: char) -> bool {
    c == '0' || c == '1' || c == '8' || c == '9'
}

/// Whether every character of `s` is in the Base32 alphabet or the padding sign.
pub open spec fn all_base32_chars(s: Seq<char>) -> bool {
    forall|i: int| 0 <= i < s.len() ==> is_base32_char(#[trigger] s[i])
}

/// Whether `s` holds one of the digits that Base32 leaves out.
pub open spec fn has_base32_excluded_digit(s: Seq<char>) -> bool {
    exists|i: int| 0 <= i < s.len() && is_base32_excluded_digit(#[trigger] s[i])
}

/// The Base32 rule, on a text free of whitespace: it is not empty and, once
/// uppercased, holds only `A`-`Z`, `2`-`7` and `=`, and none of `0`, `1`, `8`, `9`.
pub open spec fn likely_base32(s: Seq<char>) -> bool {
    &&& s.len() > 0
    &&& all_base32_chars(uppercased(s))
    &&& !has_base32_excluded_digit(uppercased(s))
}

/// The cascade. With `t` the input without leading and trailing whitespace and
/// `c` the input without any whitespace, the first of these that applies decides:
///
/// 1. `t` begins with `0x` or `0X`: hexadecimal, high confidence;
/// 2. `t` begins with `<~` and ends with `~>`: Ascii85, high confidence;
/// 3. `t` holds a `%` followed by two hexadecimal digits: URL, high confidence;
/// 4. `c` meets the hexadecimal rule: hexadecimal, medium confidence;
/// 5. `c` meets the Base32 rule: Base32, medium confidence;
/// 6. otherwise: Base64, low confidence.
pub open spec fn detection(input: Seq<char>) -> EncodingInfo {
    let t = trimmed(input);
    let c = without_whitespace(t);
    if has_hex_prefix(t) {
        detected_as(EncodingType::Hex, DetectionConfidence::High)
    } else if is_ascii85_framed(t) {
        detected_as(EncodingType::Base85, DetectionConfidence::High)
    } else if has_percent_escape(t) {
        detected_as(EncodingType::Url, DetectionConfidence::High)
    } else if likely_hex(c) {
        detected_as(EncodingType::Hex, DetectionConfidence::Medium)
    } else if likely_base32(c) {
        detected_as(EncodingType::Base32, DetectionConfidence::Medium)
    } else {
        detected_as(EncodingType::Base64, DetectionConfidence::Low)
    }
}

/// A detected encoding with its confidence.
pub open spec fn detected_as(encoding_type: EncodingType, confidence: DetectionConfidence) -> EncodingInfo {
    EncodingInfo { encoding_type, detected: true, confidence }
}

/// Detection never names an encoding as specified by the caller.
pub proof fn lemma_detection_is_consistent(input: Seq<char>)
    ensures
        detection(input).is_consistent(),
        detection(input).detected,
        detection(input).confidence != DetectionConfidence::Explicit,
{
}

/// Guesses the encoding of `input`. Never fails: where nothing speaks for
/// another encoding, the answer is Base64 with low confidence.
pub fn detect_encoding(input: &str) -> (info: EncodingInfo)
    ensures
        info == detection(input@),
        info.detected,
        info.confidence != DetectionConfidence::Explicit,
        info.is_consistent(),
{
    let all = chars_of(input);
    detect_chars(&all)
}

/// The cascade on the characters of the input.
pub fn detect_chars(input: &Vec<char>) -> (info: EncodingInfo)
    ensures
        info == detection(input@),
{
    let t = trim(input);
    if starts_with_hex_prefix(&t) {
        return EncodingInfo::detected(EncodingType::Hex, DetectionConfidence::High);
    }
    if is_framed_ascii85(&t) {
        return EncodingInfo::detected(EncodingType::Base85, DetectionConfidence::High);
    }
    if contains_percent_encoding(&t) {
        return EncodingInfo::detected(EncodingType::Url, DetectionConfidence::High);
    }
    let cleaned = strip_whitespace(&t);
    if is_likely_hex(&cleaned) {
        return EncodingInfo::detected(EncodingType::Hex, DetectionConfidence::Medium);
    }
    if is_likely_base32(&cleaned) {
        return EncodingInfo::detected(EncodingType::Base32, DetectionConfidence::Medium);
    }
    EncodingInfo::detected(EncodingType::Base64, DetectionConfidence::Low)
}

/// Tells whether `s` begins with `0x` or `0X`.
pub fn starts_with_hex_prefix(s: &Vec<char>) -> (b: bool)
    ensures
        b == has_hex_prefix(s@),
{
    s.len() >= 2 && s[0] == '0' && (s[1] == 'x' || s[1] == 'X')
}

/// Tells whether `s` begins with `<~` and ends with `~>`.
pub fn is_framed_ascii85(s: &Vec<char>) -> (b: bool)
    ensures
        b == is_ascii85_framed(s@),
{
    let n: usize = s.len();
    n >= 2 && s[0] == '<' && s[1] == '~' && s[n - 2] == '~' && s[n - 1] == '>'
}

/// Tells whether `s` holds a `%` followed by two hexadecimal digits.
pub fn contains_percent_encoding(s: &Vec<char>) -> (b: bool)
    ensures
        b == has_percent_escape(s@),
{
    let mut i: usize = 0;
    while i < s.len()
        invariant
            i <= s.len(),
            forall|j: int| 0 <= j < i ==> !is_percent_escape_at(s@, j),
        decreases s.len() - i,
    {
        if s[i] == '%' && s.len() - i > 2 && is_hexdigit(s[i + 1]) && is_hexdigit(s[i + 2]) {
            assert(is_percent_escape_at(s@, i as int));
            return true;
        }
        i += 1;
    }
    false
}

/// Tells whether the whitespace-free text `s` meets the hexadecimal rule.
pub fn is_likely_hex(s: &Vec<char>) -> (b: bool)
    ensures
        b == likely_hex(s@),
{
    if s.len() == 0 || s.len() % 2 != 0 {
        return false;
    }
    let mut letters: bool = false;
    let mut digits: bool = false;
    let mut i: usize = 0;
    while i < s.len()
        invariant
            i <= s.len(),
            all_hex_digits(s@.take(i as int)),
            letters == has_ascii_letter(s@.take(i as int)),
            digits == has_ascii_decimal(s@.take(i as int)),
        decreases s.len() - i,
    {
        let c = s[i];
        if !is_hexdigit(c) {
            return false;
        }
        proof {
            let before = s@.take(i as int);
            let after = s@.take(i + 1);
            assert(after =~= before.push(c));
            assert forall|j: int| 0 <= j < after.len() implies is_hex_digit(#[trigger] after[j]) by {
                if j < i {
                    assert(after[j] == before[j]);
                }
            }
            if has_ascii_letter(before) {
                let w = choose|j: int| 0 <= j < before.len() && is_ascii_letter(#[trigger] before[j]);
                assert(after[w] == before[w]);
            }
            if has_ascii_decimal(before) {
                let w = choose|j: int| 0 <= j < before.len() && is_ascii_decimal(#[trigger] before[j]);
                assert(after[w] == before[w]);
            }
            if is_ascii_letter(c) {
                assert(is_ascii_letter(after[i as int]));
            }
            if is_ascii_decimal(c) {
                assert(is_ascii_decimal(after[i as int]));
            }
            if has_ascii_letter(after) && !is_ascii_letter(c) {
                let w = choose|j: int| 0 <= j < after.len() && is_ascii_letter(#[trigger] after[j]);
                assert(before[w] == after[w]);
            }
            if has_ascii_decimal(after) && !is_ascii_decimal(c) {
                let w = choose|j: int| 0 <= j < after.len() && is_ascii_decimal(#[trigger] after[j]);
                assert(before[w] == after[w]);
            }
        }
        if ('a' <= c && c <= 'z') || ('A' <= c && c <= 'Z') {
            letters = true;
        }
        if '0' <= c && c <= '9' {
            digits = true;
        }
        i += 1;
    }
    proof {
        assert(s@.take(s.len() as int) =~= s@);
    }
    if s.len() >= 8 {
        letters || digits
    } else {
        letters
    }
}

/// Tells whether the whitespace-free text `s` meets the Base32 rule.
pub fn is_likely_base32(s: &Vec<char>) -> (b: bool)
    ensures
        b == likely_base32(s@),
{
    if s.len() == 0 {
        return false;
    }
    let upper = uppercase_of(s);
    let mut i: usize = 0;
    while i < upper.len()
        invariant
            i <= upper.len(),
            s@.len() > 0,
            upper@ == uppercased(s@),
            forall|j: int| 0 <= j < i ==> is_base32_char(#[trigger] upper@[j]),
        decreases upper.len() - i,
    {
        let c = upper[i];
        if !(('A' <= c && c <= 'Z') || ('2' <= c && c <= '7') || c == '=') {
            assert(!is_base32_char(upper@[i as int]));
            return false;
        }
        i += 1;
    }
    true
}

} // verus!
