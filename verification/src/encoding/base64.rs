//! The Base64 codec.

use crate::decoder::variants::{variant_of, variant_of_chars};
use crate::decoder::{all_in_alphabet, lemma_valid_prefix_len, normalization, Base64Variant};
use crate::encoding::{Decoder, EncodingType};
use crate::error::{decode_failure, decoded_or_failed, engine_outcome, DecodeckError, Failure};
use crate::text::{
    chars_of, is_ascii_decimal, is_ascii_letter, pad, padded, strip_whitespace, text_of,
    without_whitespace,
};
use base64::Engine;
use vstd::prelude::*;

verus! {

/// What the standard Base64 engine of the `base64` crate makes of `text`:
/// the decoded bytes, or the engine's description of the first fault.
pub uninterp spec fn standard_base64_decoding(text: Seq<char>) -> Result<Seq<u8>, Seq<char>>;

/// What the URL-safe Base64 engine of the `base64` crate makes of `text`:
/// the decoded bytes, or the engine's description of the first fault.
pub uninterp spec fn url_safe_base64_decoding(text: Seq<char>) -> Result<Seq<u8>, Seq<char>>;

/// What the engine for `variant` makes of `text`.
pub open spec fn engine_decoding(variant: Base64Variant, text: Seq<char>) -> Result<
    Seq<u8>,
    Seq<char>,
> {
    match variant {
        Base64Variant::Standard => standard_base64_decoding(text),
        Base64Variant::UrlSafe => url_safe_base64_decoding(text),
    }
}

/// `Engine::decode` of `base64::engine::general_purpose::STANDARD`: the
/// alphabet `A`-`Z`, `a`-`z`, `0`-`9`, `+`, `/`, with canonical `=` padding
/// required. The result depends on the text alone; a fault is handed on as
/// the text that the crate's error displays. The engine decodes no text
/// that holds a character outside its alphabet and the padding sign.
#[verifier::external_body]
pub(crate) fn standard_decode(text: &str) -> (r: Result<Vec<u8>, String>)
    ensures
        engine_outcome(r) == standard_base64_decoding(text@),
        r is Ok ==> all_in_alphabet(text@, Base64Variant::Standard),
{
    base64::engine::general_purpose::STANDARD.decode(text).map_err(|e| e.to_string())
}

/// `Engine::decode` of `base64::engine::general_purpose::URL_SAFE`: the
/// alphabet `A`-`Z`, `a`-`z`, `0`-`9`, `-`, `_`, with canonical `=` padding
/// required. The result depends on the text alone; a fault is handed on as
/// the text that the crate's error displays. The engine decodes no text
/// that holds a character outside its alphabet and the padding sign.
#[verifier::external_body]
pub(crate) fn url_safe_decode(text: &str) -> (r: Result<Vec<u8>, String>)
    ensures
        engine_outcome(r) == url_safe_base64_decoding(text@),
        r is Ok ==> all_in_alphabet(text@, Base64Variant::UrlSafe),
{
    base64::engine::general_purpose::URL_SAFE.decode(text).map_err(|e| e.to_string())
}

/// Runs the engine for `variant` on `text`.
pub fn engine_decode(variant: Base64Variant, text: &str) -> (r: Result<Vec<u8>, String>)
    ensures
        engine_outcome(r) == engine_decoding(variant, text@),
        r is Ok ==> all_in_alphabet(text@, variant),
{
    match variant {
        Base64Variant::Standard => standard_decode(text),
        Base64Variant::UrlSafe => url_safe_decode(text),
    }
}

/// What decoding `input` as Base64 gives: whitespace is dropped; an input with
/// nothing left is `NoInput`; the rest is padded with `=` to a multiple of
/// four and handed to the engine of its variant.
pub open spec fn decoded(input: Seq<char>) -> Result<Seq<u8>, Failure> {
    let cleaned = without_whitespace(input);
    if cleaned.len() == 0 {
        Err(Failure::NoInput)
    } else {
        decode_failure(
            "Invalid Base64: "@,
            engine_decoding(variant_of(cleaned), padded(cleaned, 4)),
        )
    }
}

/// A character that either Base64 alphabet uses, or the padding sign.
pub open spec fn is_base64_like(c: char) -> bool {
    is_ascii_letter(c) || is_ascii_decimal(c) || c == '+' || c == '/' || c == '-' || c == '_' || c
        == '='
}

/// Whether `input` could be Base64: without its whitespace it is not empty
/// and holds only characters of the two alphabets and `=`.
pub open spec fn accepted(input: Seq<char>) -> bool {
    let cleaned = without_whitespace(input);
    cleaned.len() > 0 && forall|i: int| 0 <= i < cleaned.len() ==> is_base64_like(#[trigger] cleaned[i])
}

/// Decoder for standard and URL-safe Base64.
pub struct Base64Decoder;

impl Decoder for Base64Decoder {
    open spec fn encoding(&self) -> EncodingType {
        EncodingType::Base64
    }

    /// What this decoder decodes, the normalizer accepts: where
    /// normalizing the input reports a character outside the alphabet,
    /// decoding it fails.
    fn decode(&self, input: &str) -> (r: Result<Vec<u8>, DecodeckError>)
        ensures
            r is Ok ==> normalization(input@) is Ok,
    {
        let chars = chars_of(input);
        let cleaned = strip_whitespace(&chars);
        if cleaned.len() == 0 {
            return Err(DecodeckError::NoInput);
        }
        let variant = variant_of_chars(&cleaned);
        let data = pad(cleaned, 4);
        let text = text_of(&data);
        let engine = engine_decode(variant, text.as_str());
        proof {
            if engine is Ok {
                lemma_valid_prefix_len(data@, variant, data@.len() as int);
            }
        }
        decoded_or_failed("Invalid Base64: ", engine)
    }

    fn name(&self) -> (r: &'static str) {
        "base64"
    }

    #[verifier::loop_isolation(false)]
    fn can_decode(&self, input: &str) -> (b: bool) {
        let chars = chars_of(input);
        let cleaned = strip_whitespace(&chars);
        if cleaned.len() == 0 {
            return false;
        }
        let mut i: usize = 0;
        while i < cleaned.len()
            invariant
                i <= cleaned.len(),
                forall|j: int| 0 <= j < i ==> is_base64_like(#[trigger] cleaned@[j]),
            decreases cleaned.len() - i,
        {
            let c = cleaned[i];
            let fits = ('a' <= c && c <= 'z') || ('A' <= c && c <= 'Z') || ('0' <= c && c <= '9')
                || c == '+' || c == '/' || c == '-' || c == '_' || c == '=';
            if !fits {
                assert(!is_base64_like(cleaned@[i as int]));
                return false;
            }
            i += 1;
        }
        true
    }
}

} // verus!
