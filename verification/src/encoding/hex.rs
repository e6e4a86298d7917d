//! The hexadecimal codec.

use crate::encoding::detect::{all_hex_digits, starts_with_hex_prefix};
use crate::encoding::{Decoder, EncodingType};
use crate::error::{decode_failure, decoded_or_failed, DecodeckError, Failure};
use crate::text::{
    chars_of, has_hex_prefix, is_hex_digit, is_hexdigit, strip_whitespace, text_of, trim,
    trimmed, without_whitespace,
};
use vstd::prelude::*;

verus! {

/// The value of a hexadecimal digit of either case.
pub open spec fn hex_value(c: char) -> nat {
    if '0' <= c <= '9' {
        (c as u32 - '0' as u32) as nat
    } else if 'a' <= c <= 'f' {
        (c as u32 - 'a' as u32 + 10) as nat
    } else {
        (c as u32 - 'A' as u32 + 10) as nat
    }
}

/// Whether `text` is an even number of hexadecimal digits.
pub open spec fn is_hex_text(text: Seq<char>) -> bool {
    text.len() % 2 == 0 && all_hex_digits(text)
}

/// The bytes that pairs of hexadecimal digits stand for.
pub open spec fn hex_bytes(text: Seq<char>) -> Seq<u8> {
    Seq::new(
        text.len() / 2,
        |i: int| (hex_value(text[2 * i]) * 16 + hex_value(text[2 * i + 1])) as u8,
    )
}

/// How the `data-encoding` crate describes what is wrong with `text` as
/// hexadecimal: the kind of fault and its position.
pub uninterp spec fn hex_fault(text: Seq<char>) -> Seq<char>;

/// What the hexadecimal engine makes of `text`: the bytes of an even run of
/// hexadecimal digits, or the description of the fault.
pub open spec fn hex_decoding(text: Seq<char>) -> Result<Seq<u8>, Seq<char>> {
    if is_hex_text(text) {
        Ok(hex_bytes(text))
    } else {
        Err(hex_fault(text))
    }
}

/// `Encoding::decode` of `data_encoding::HEXLOWER_PERMISSIVE`: it decodes an
/// even number of hexadecimal digits of either case, two to a byte, and
/// rejects every other text. A fault is handed on as the text that the
/// crate's error displays.
#[verifier::external_body]
pub(crate) fn hex_decode(text: &str) -> (r: Result<Vec<u8>, String>)
    ensures
        match r {
            Ok(bytes) => is_hex_text(text@) && bytes@ == hex_bytes(text@),
            Err(reason) => !is_hex_text(text@) && reason@ == hex_fault(text@),
        },
{
    data_encoding::HEXLOWER_PERMISSIVE.decode(text.as_bytes()).map_err(|e| e.to_string())
}

/// `t` without one leading `0x` or `0X`.
pub open spec fn without_hex_prefix(t: Seq<char>) -> Seq<char> {
    if has_hex_prefix(t) {
        t.skip(2)
    } else {
        t
    }
}

/// The digits of a hexadecimal input: the input without surrounding
/// whitespace, without one `0x` or `0X` prefix, and without inner whitespace.
pub open spec fn hex_payload(input: Seq<char>) -> Seq<char> {
    without_whitespace(without_hex_prefix(trimmed(input)))
}

/// What decoding `input` as hexadecimal gives: `NoInput` where no digit is
/// left, else what the engine makes of the digits.
pub open spec fn decoded(input: Seq<char>) -> Result<Seq<u8>, Failure> {
    let payload = hex_payload(input);
    if payload.len() == 0 {
        Err(Failure::NoInput)
    } else {
        decode_failure("Invalid hex: "@, hex_decoding(payload))
    }
}

/// Whether `input` could be hexadecimal: its digits are not empty, even in
/// number and all hexadecimal.
pub open spec fn accepted(input: Seq<char>) -> bool {
    let payload = hex_payload(input);
    payload.len() > 0 && is_hex_text(payload)
}

/// The digits of a hexadecimal input.
pub fn payload_of(input: &str) -> (payload: Vec<char>)
    ensures
        payload@ == hex_payload(input@),
{
    let chars = chars_of(input);
    let t = trim(&chars);
    if starts_with_hex_prefix(&t) {
        let mut rest: Vec<char> = Vec::new();
        let mut i: usize = 2;
        while i < t.len()
            invariant
                2 <= i <= t.len(),
                rest@ == t@.subrange(2, i as int),
            decreases t.len() - i,
        {
            rest.push(t[i]);
            assert(rest@ =~= t@.subrange(2, i + 1));
            i += 1;
        }
        assert(rest@ =~= t@.skip(2));
        strip_whitespace(&rest)
    } else {
        strip_whitespace(&t)
    }
}

/// Decoder for hexadecimal text, with or without a `0x` prefix.
pub struct HexDecoder;

impl Decoder for HexDecoder {
    open spec fn encoding(&self) -> EncodingType {
        EncodingType::Hex
    }

    fn decode(&self, input: &str) -> (r: Result<Vec<u8>, DecodeckError>) {
        let payload = payload_of(input);
        if payload.len() == 0 {
            return Err(DecodeckError::NoInput);
        }
        let text = text_of(&payload);
        decoded_or_failed("Invalid hex: ", hex_decode(text.as_str()))
    }

    fn name(&self) -> (r: &'static str) {
        "hex"
    }

    #[verifier::loop_isolation(false)]
    fn can_decode(&self, input: &str) -> (b: bool) {
        let payload = payload_of(input);
        if payload.len() == 0 || payload.len() % 2 != 0 {
            return false;
        }
        let mut i: usize = 0;
        while i < payload.len()
            invariant
                i <= payload.len(),
                forall|j: int| 0 <= j < i ==> is_hex_digit(#[trigger] payload@[j]),
            decreases payload.len() - i,
        {
            if !is_hexdigit(payload[i]) {
                assert(!is_hex_digit(payload@[i as int]));
                return false;
            }
            i += 1;
        }
        true
    }
}

} // verus!
