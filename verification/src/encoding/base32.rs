//! The Base32 codec.

use crate::encoding::detect::{all_base32_chars, is_base32_char};
use crate::encoding::{Decoder, EncodingType};
use crate::error::{decode_failure, decoded_or_failed, engine_outcome, DecodeckError, Failure};
use crate::text::{
    chars_of, pad, padded, strip_whitespace, text_of, uppercase_of, uppercased,
    without_whitespace,
};
use vstd::prelude::*;

verus! {

/// What the padded Base32 engine of the `data-encoding` crate makes of
/// `text`: the decoded bytes, or the engine's description of the first fault.
pub uninterp spec fn base32_decoding(text: Seq<char>) -> Result<Seq<u8>, Seq<char>>;

/// `Encoding::decode` of `data_encoding::BASE32`: the alphabet `A`-`Z`,
/// `2`-`7` of RFC 4648 with `=` padding. The result depends on the text
/// alone; a fault is handed on as the text that the crate's error displays.
#[verifier::external_body]
pub(crate) fn base32_decode(text: &str) -> (r: Result<Vec<u8>, String>)
    ensures
        engine_outcome(r) == base32_decoding(text@),
{
    data_encoding::BASE32.decode(text.as_bytes()).map_err(|e| e.to_string())
}

/// The letters of a Base32 input: the input without whitespace, uppercased.
pub open spec fn base32_payload(input: Seq<char>) -> Seq<char> {
    uppercased(without_whitespace(input))
}

/// What decoding `input` as Base32 gives: `NoInput` where nothing is left of
/// it, else what the engine makes of the letters padded with `=` to a
/// multiple of eight.
pub open spec fn decoded(input: Seq<char>) -> Result<Seq<u8>, Failure> {
    let payload = base32_payload(input);
    if payload.len() == 0 {
        Err(Failure::NoInput)
    } else {
        decode_failure("Invalid Base32: "@, base32_decoding(padded(payload, 8)))
    }
}

/// Whether `input` could be Base32: its letters are not empty and all in
/// `A`-`Z`, `2`-`7` or `=`.
pub open spec fn accepted(input: Seq<char>) -> bool {
    let payload = base32_payload(input);
    payload.len() > 0 && all_base32_chars(payload)
}

/// The letters of a Base32 input.
pub fn payload_of(input: &str) -> (payload: Vec<char>)
    ensures
        payload@ == base32_payload(input@),
{
    let chars = chars_of(input);
    let cleaned = strip_whitespace(&chars);
    uppercase_of(&cleaned)
}

/// Decoder for Base32 text of either case, padded or not.
pub struct Base32Decoder;

impl Decoder for Base32Decoder {
    open spec fn encoding(&self) -> EncodingType {
        EncodingType::Base32
    }

    fn decode(&self, input: &str) -> (r: Result<Vec<u8>, DecodeckError>) {
        let payload = payload_of(input);
        if payload.len() == 0 {
            return Err(DecodeckError::NoInput);
        }
        let data = pad(payload, 8);
        let text = text_of(&data);
        decoded_or_failed("Invalid Base32: ", base32_decode(text.as_str()))
    }

    fn name(&self) -> (r: &'static str) {
        "base32"
    }

    #[verifier::loop_isolation(false)]
    fn can_decode(&self, input: &str) -> (b: bool) {
        let payload = payload_of(input);
        if payload.len() == 0 {
            return false;
        }
        let mut i: usize = 0;
        while i < payload.len()
            invariant
                i <= payload.len(),
                forall|j: int| 0 <= j < i ==> is_base32_char(#[trigger] payload@[j]),
            decreases payload.len() - i,
        {
            let c = payload[i];
            if !(('A' <= c && c <= 'Z') || ('2' <= c && c <= '7') || c == '=') {
                assert(!is_base32_char(payload@[i as int]));
                return false;
            }
            i += 1;
        }
        true
    }
}

} // verus!
