//! The URL percent-encoding codec.

use crate::encoding::{Decoder, EncodingType};
use crate::error::{DecodeckError, Failure};
use crate::text::{chars_of, is_hex_digit, is_hexdigit, text_of, utf8_fault, utf8_text};
use vstd::prelude::*;
use vstd::utf8::{encode_utf8, valid_utf8};

verus! {

/// Whether `b` is the ASCII code of a hexadecimal digit of either case.
pub open spec fn is_hex_byte(b: u8) -> bool {
    (0x30 <= b <= 0x39) || (0x61 <= b <= 0x66) || (0x41 <= b <= 0x46)
}

/// The value of the hexadecimal digit with ASCII code `b`.
pub open spec fn hex_byte_value(b: u8) -> nat {
    if 0x30 <= b <= 0x39 {
        (b - 0x30) as nat
    } else if 0x61 <= b <= 0x66 {
        (b - 0x61 + 10) as nat
    } else {
        (b - 0x41 + 10) as nat
    }
}

/// Percent-decoding: each `%` that two hexadecimal digits follow stands for
/// the byte that the digits give; every other byte stands for itself.
pub open spec fn percent_decoded(bytes: Seq<u8>) -> Seq<u8>
    decreases bytes.len(),
{
    if bytes.len() == 0 {
        Seq::empty()
    } else if bytes[0] == 0x25 && bytes.len() >= 3 && is_hex_byte(bytes[1]) && is_hex_byte(
        bytes[2],
    ) {
        seq![(hex_byte_value(bytes[1]) * 16 + hex_byte_value(bytes[2])) as u8] + percent_decoded(
            bytes.skip(3),
        )
    } else {
        seq![bytes[0]] + percent_decoded(bytes.skip(1))
    }
}

/// `percent_encoding::percent_decode_str`, collected into bytes: any `%`
/// followed by two hexadecimal digits is decoded, and nothing else changes.
#[verifier::external_body]
pub(crate) fn percent_decode(text: &str) -> (bytes: Vec<u8>)
    ensures
        bytes@ == percent_decoded(encode_utf8(text@)),
{
    percent_encoding::percent_decode_str(text).collect()
}

/// `s` with each `+` replaced by a space, as form encoding has it.
pub open spec fn plus_as_space(s: Seq<char>) -> Seq<char> {
    Seq::new(s.len(), |i: int| if s[i] == '+' { ' ' } else { s[i] })
}

/// What decoding `input` as URL encoding gives: `NoInput` for an empty
/// input; else each `+` becomes a space and the escapes are decoded. The
/// result must be well-formed UTF-8; where it is not, the call fails with
/// the description of the fault.
pub open spec fn decoded(input: Seq<char>) -> Result<Seq<u8>, Failure> {
    let bytes = percent_decoded(encode_utf8(plus_as_space(input)));
    if input.len() == 0 {
        Err(Failure::NoInput)
    } else if valid_utf8(bytes) {
        Ok(bytes)
    } else {
        Err(Failure::DecodeFailed { message: "Invalid URL encoding: "@ + utf8_fault(bytes) })
    }
}

/// Whether the character after `i`, and the one after that, are hexadecimal
/// digits as far as they exist.
pub open spec fn hex_digits_follow(s: Seq<char>, i: int) -> bool {
    &&& i + 1 < s.len() ==> is_hex_digit(s[i + 1])
    &&& i + 2 < s.len() ==> is_hex_digit(s[i + 2])
}

/// Whether `input` could be URL encoding: it holds a `%`, and after every
/// `%` the next two characters, as far as the input goes, are hexadecimal digits.
pub open spec fn accepted(input: Seq<char>) -> bool {
    &&& input.contains('%')
    &&& forall|i: int| 0 <= i < input.len() && input[i] == '%' ==> #[trigger] hex_digits_follow(input, i)
}

/// Copies `chars` with each `+` replaced by a space.
pub fn plus_to_space(chars: &Vec<char>) -> (out: Vec<char>)
    ensures
        out@ == plus_as_space(chars@),
{
    let mut out: Vec<char> = Vec::new();
    let mut i: usize = 0;
    while i < chars.len()
        invariant
            i <= chars.len(),
            out@.len() == i,
            forall|j: int| 0 <= j < i ==> out@[j] == (if chars@[j] == '+' { ' ' } else { chars@[j] }),
        decreases chars.len() - i,
    {
        let c = chars[i];
        if c == '+' {
            out.push(' ');
        } else {
            out.push(c);
        }
        i += 1;
    }
    assert(out@ =~= plus_as_space(chars@));
    out
}

/// Decoder for URL percent-encoding.
pub struct UrlDecoder;

impl Decoder for UrlDecoder {
    open spec fn encoding(&self) -> EncodingType {
        EncodingType::Url
    }

    fn decode(&self, input: &str) -> (r: Result<Vec<u8>, DecodeckError>) {
        let chars = chars_of(input);
        if chars.len() == 0 {
            return Err(DecodeckError::NoInput);
        }
        let spaced = plus_to_space(&chars);
        let text = text_of(&spaced);
        let bytes = percent_decode(text.as_str());
        match utf8_text(bytes.as_slice()) {
            Ok(_) => Ok(bytes),
            Err(reason) => {
                let message = String::from_str("Invalid URL encoding: ").concat(reason.as_str());
                Err(DecodeckError::DecodeFailed { message })
            },
        }
    }

    fn name(&self) -> (r: &'static str) {
        "url"
    }

    #[verifier::loop_isolation(false)]
    fn can_decode(&self, input: &str) -> (b: bool) {
        let s = chars_of(input);
        let mut found: bool = false;
        let mut i: usize = 0;
        while i < s.len()
            invariant
                i <= s.len(),
                found <==> exists|j: int| 0 <= j < i && s@[j] == '%',
                forall|j: int| 0 <= j < i && s@[j] == '%' ==> #[trigger] hex_digits_follow(s@, j),
            decreases s.len() - i,
        {
            if s[i] == '%' {
                found = true;
                let first = s.len() - i <= 1 || is_hexdigit(s[i + 1]);
                let second = s.len() - i <= 2 || is_hexdigit(s[i + 2]);
                if !(first && second) {
                    assert(!hex_digits_follow(s@, i as int));
                    return false;
                }
            }
            i += 1;
        }
        proof {
            if found {
                let j = choose|j: int| 0 <= j < s.len() && s@[j] == '%';
                assert(s@.contains(s@[j]));
            }
        }
        found
    }
}

} // verus!
