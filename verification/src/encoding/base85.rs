//! The Ascii85 codec.
//!
//! The engine adds the digits of a group in 32-bit arithmetic and does not
//! expect a group to exceed that range. The decoder therefore measures the
//! groups first and rejects a text whose groups do not fit.

use crate::encoding::detect::is_framed_ascii85;
use crate::encoding::{Decoder, EncodingType};
use crate::error::{decode_failure, decoded_or_failed, engine_outcome, DecodeckError, Failure};
use crate::text::{
    chars_of, is_ascii85_framed, skip_chars, take_chars, text_of, trim, trim_end, trim_start,
    trimmed, trimmed_end, trimmed_start,
};
use vstd::prelude::*;

verus! {

/// What the `ascii85` crate's decoder makes of `text`: the decoded bytes, or
/// the engine's description of the first fault.
pub uninterp spec fn ascii85_decoding(text: Seq<char>) -> Result<Seq<u8>, Seq<char>>;

/// Space, tab, line feed, form feed or carriage return.
pub open spec fn is_ascii_blank(c: char) -> bool {
    c == ' ' || c == '\t' || c == '\n' || c == '\x0C' || c == '\r'
}

/// `!` to `u`: the digits of Ascii85.
pub open spec fn is_ascii85_digit(c: char) -> bool {
    '!' <= c <= 'u'
}

/// `s` without any `<~` marks at its start.
pub open spec fn without_leading_marks(s: Seq<char>) -> Seq<char>
    decreases s.len(),
{
    if s.len() >= 2 && s[0] == '<' && s[1] == '~' {
        without_leading_marks(s.skip(2))
    } else {
        s
    }
}

/// `s` without any `~>` marks at its end.
pub open spec fn without_trailing_marks(s: Seq<char>) -> Seq<char>
    decreases s.len(),
{
    if s.len() >= 2 && s[s.len() - 2] == '~' && s[s.len() - 1] == '>' {
        without_trailing_marks(s.take(s.len() - 2))
    } else {
        s
    }
}

/// The part of `text` that the engine reads digits from: it drops leading
/// whitespace, then leading `<~` marks, then trailing whitespace, then
/// trailing `~>` marks.
pub open spec fn engine_payload(text: Seq<char>) -> Seq<char> {
    without_trailing_marks(trimmed_end(without_leading_marks(trimmed_start(text))))
}

/// The weight of the digit at place `place` of a group of five.
pub open spec fn digit_weight(place: nat) -> nat {
    if place == 0 {
        52200625
    } else if place == 1 {
        614125
    } else if place == 2 {
        7225
    } else if place == 3 {
        85
    } else {
        1
    }
}

/// What the engine adds to a group that ends after `count` digits: the
/// largest digit at every place that is left.
pub open spec fn group_filler(count: nat) -> nat {
    if count == 1 {
        52200624
    } else if count == 2 {
        614124
    } else if count == 3 {
        7224
    } else {
        84
    }
}

/// Whether the engine can read `digits` in 32-bit arithmetic, `count` digits
/// into a group whose value so far is `value`. Blanks are skipped. The first
/// character that is no digit ends the reading with a fault, so that what
/// follows it does not matter. A group left unfinished at the end is filled up.
pub open spec fn groups_fit(digits: Seq<char>, count: nat, value: nat) -> bool
    decreases digits.len(),
{
    if digits.len() == 0 {
        count == 0 || value + group_filler(count) <= u32::MAX
    } else if is_ascii_blank(digits.first()) {
        groups_fit(digits.drop_first(), count, value)
    } else if !is_ascii85_digit(digits.first()) {
        true
    } else {
        let sum = (value + (digits.first() as u32 - 33) * digit_weight(count)) as nat;
        &&& sum <= u32::MAX
        &&& if count >= 4 {
            groups_fit(digits.drop_first(), 0, 0)
        } else {
            groups_fit(digits.drop_first(), count + 1, sum)
        }
    }
}

/// Whether every group of `text` that the engine would add up fits in 32 bits.
pub open spec fn ascii85_in_range(text: Seq<char>) -> bool {
    groups_fit(engine_payload(text), 0, 0)
}

/// `ascii85::decode`. It reads the text between the optional `<~` and `~>`
/// marks, five digits to four bytes, and fails on a character that is no
/// digit. The result depends on the text alone; a fault is handed on in
/// the crate's debug form. The crate adds up each group in a `u32` and does
/// not guard the sum against leaving that range, hence the demand on the text.
#[verifier::external_body]
pub(crate) fn ascii85_decode(text: &str) -> (r: Result<Vec<u8>, String>)
    requires
        ascii85_in_range(text@),
    ensures
        engine_outcome(r) == ascii85_decoding(text@),
{
    ascii85::decode(text).map_err(|e| format!("{:?}", e))
}

/// The text between the marks of a framed input; an input that is not framed,
/// or whose two marks overlap, is taken whole.
pub open spec fn unframed(t: Seq<char>) -> Seq<char> {
    if is_ascii85_framed(t) && t.len() >= 4 {
        t.subrange(2, t.len() - 2)
    } else {
        t
    }
}

/// The message for a text with a group beyond 32 bits.
pub open spec fn out_of_range_message() -> Seq<char> {
    "Invalid Ascii85: \"Group value is out of range for Ascii85\""@
}

/// What decoding `input` as Ascii85 gives: surrounding whitespace is dropped;
/// an input with nothing left is `NoInput`; the `<~` and `~>` marks are
/// dropped where both are there; a text with a group beyond 32 bits is
/// `DecodeFailed`; the rest is what the engine makes of it.
pub open spec fn decoded(input: Seq<char>) -> Result<Seq<u8>, Failure> {
    let t = trimmed(input);
    let data = unframed(t);
    if t.len() == 0 {
        Err(Failure::NoInput)
    } else if !ascii85_in_range(data) {
        Err(Failure::DecodeFailed { message: out_of_range_message() })
    } else {
        decode_failure("Invalid Ascii85: "@, ascii85_decoding(data))
    }
}

/// Whether `input` could be Ascii85: without surrounding whitespace it
/// begins with `<~` and ends with `~>`.
pub open spec fn accepted(input: Seq<char>) -> bool {
    is_ascii85_framed(trimmed(input))
}

/// Copies `s` without any `<~` marks at its start.
pub fn drop_leading_marks(s: &Vec<char>) -> (out: Vec<char>)
    ensures
        out@ == without_leading_marks(s@),
{
    let mut k: usize = 0;
    assert(s@.skip(0) =~= s@);
    while s.len() - k >= 2 && s[k] == '<' && s[k + 1] == '~'
        invariant
            k <= s.len(),
            without_leading_marks(s@) == without_leading_marks(s@.skip(k as int)),
        decreases s.len() - k,
    {
        assert(s@.skip(k as int).skip(2) =~= s@.skip(k + 2));
        k += 2;
    }
    skip_chars(s, k)
}

/// Copies `s` without any `~>` marks at its end.
pub fn drop_trailing_marks(s: &Vec<char>) -> (out: Vec<char>)
    ensures
        out@ == without_trailing_marks(s@),
{
    let mut k: usize = s.len();
    assert(s@.take(s.len() as int) =~= s@);
    while k >= 2 && s[k - 2] == '~' && s[k - 1] == '>'
        invariant
            k <= s.len(),
            without_trailing_marks(s@) == without_trailing_marks(s@.take(k as int)),
        decreases k,
    {
        assert(s@.take(k as int).take(k - 2) =~= s@.take(k - 2));
        k -= 2;
    }
    take_chars(s, k)
}

/// Tells whether the engine can read `text` in 32-bit arithmetic.
#[verifier::loop_isolation(false)]
pub fn fits_engine(text: &Vec<char>) -> (b: bool)
    ensures
        b == ascii85_in_range(text@),
{
    let a = trim_start(text);
    let b = drop_leading_marks(&a);
    let c = trim_end(&b);
    let payload = drop_trailing_marks(&c);
    let mut count: usize = 0;
    let mut value: u64 = 0;
    let mut i: usize = 0;
    assert(payload@.skip(0) =~= payload@);
    while i < payload.len()
        invariant
            i <= payload.len(),
            count <= 4,
            value <= u32::MAX,
            count == 0 ==> value == 0,
            groups_fit(payload@, 0, 0) == groups_fit(payload@.skip(i as int), count as nat, value as nat),
        decreases payload.len() - i,
    {
        let c = payload[i];
        proof {
            assert(payload@.skip(i as int).first() == c);
            assert(payload@.skip(i as int).drop_first() =~= payload@.skip(i + 1));
        }
        if c == ' ' || c == '\t' || c == '\n' || c == '\x0C' || c == '\r' {
        } else if !('!' <= c && c <= 'u') {
            return true;
        } else {
            let digit: u64 = (c as u32 - 33) as u64;
            let weight: u64 = if count == 0 {
                52200625
            } else if count == 1 {
                614125
            } else if count == 2 {
                7225
            } else if count == 3 {
                85
            } else {
                1
            };
            let sum: u64 = value + digit * weight;
            if sum > 0xFFFF_FFFF {
                return false;
            }
            if count == 4 {
                count = 0;
                value = 0;
            } else {
                count += 1;
                value = sum;
            }
        }
        i += 1;
    }
    let filler: u64 = if count == 1 {
        52200624
    } else if count == 2 {
        614124
    } else if count == 3 {
        7224
    } else {
        84
    };
    count == 0 || value + filler <= 0xFFFF_FFFF
}

/// Decoder for Ascii85 text, with or without the `<~` and `~>` marks.
pub struct Base85Decoder;

impl Decoder for Base85Decoder {
    open spec fn encoding(&self) -> EncodingType {
        EncodingType::Base85
    }

    fn decode(&self, input: &str) -> (r: Result<Vec<u8>, DecodeckError>) {
        let chars = chars_of(input);
        let t = trim(&chars);
        if t.len() == 0 {
            return Err(DecodeckError::NoInput);
        }
        let data = if is_framed_ascii85(&t) && t.len() >= 4 {
            let inner = take_chars(&t, t.len() - 2);
            let inner = skip_chars(&inner, 2);
            assert(inner@ =~= t@.subrange(2, t@.len() - 2));
            inner
        } else {
            t
        };
        if !fits_engine(&data) {
            let message = String::from_str(
                "Invalid Ascii85: \"Group value is out of range for Ascii85\"",
            );
            return Err(DecodeckError::DecodeFailed { message });
        }
        let text = text_of(&data);
        decoded_or_failed("Invalid Ascii85: ", ascii85_decode(text.as_str()))
    }

    fn name(&self) -> (r: &'static str) {
        "base85"
    }

    fn can_decode(&self, input: &str) -> (b: bool) {
        let chars = chars_of(input);
        let t = trim(&chars);
        is_framed_ascii85(&t)
    }
}

} // verus!
