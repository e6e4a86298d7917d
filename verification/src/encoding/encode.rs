//! Encoding of bytes in each of the five encodings.
//!
//! What an encoder returns, the decoder of the same encoding reads back:
//! [`encode`] promises so in its contract.

use crate::decoder::{all_in_alphabet, in_alphabet, lemma_alphabet_is_ascii, Base64Variant};
use crate::encoding::base32::base32_decoding;
use crate::encoding::base64::standard_base64_decoding;
use crate::encoding::base85::{ascii85_decoding, ascii85_in_range};
use crate::encoding::detect::{all_base32_chars, is_base32_char};
use crate::encoding::hex::{hex_bytes, hex_payload, hex_value, is_hex_text};
use crate::encoding::url::{hex_byte_value, is_hex_byte, percent_decoded, plus_as_space};
use crate::encoding::{decoding, EncodingType};
use crate::error::{DecodeckError, Failure};
use crate::text::{
    hex_lower, hex_lower_digit, is_ascii85_framed, is_hex_digit, is_white_space,
    lemma_ascii_utf8_len, lemma_trimmed_end, lemma_trimmed_start,
    lemma_without_whitespace_clean, padded, trimmed, upper, uppercased, utf8_fault, utf8_len,
    utf8_text,
};
use base64::Engine;
use vstd::prelude::*;
use vstd::utf8::{encode_utf8, is_ascii_chars, valid_utf8};

verus! {

/// The text that the standard Base64 engine of the `base64` crate writes
/// for `data`.
pub uninterp spec fn standard_base64_text(data: Seq<u8>) -> Seq<char>;

/// The text that the padded Base32 engine of the `data-encoding` crate
/// writes for `data`.
pub uninterp spec fn base32_text(data: Seq<u8>) -> Seq<char>;

/// The text that the `ascii85` crate writes for `data`, marks included.
pub uninterp spec fn ascii85_text(data: Seq<u8>) -> Seq<char>;

/// Whether `b` is the ASCII code of a letter or a digit.
pub open spec fn is_alphanumeric_byte(b: u8) -> bool {
    (0x30 <= b <= 0x39) || (0x41 <= b <= 0x5A) || (0x61 <= b <= 0x7A)
}

/// The uppercase hexadecimal digit for a value below sixteen.
pub open spec fn hex_upper_digit(d: nat) -> char {
    if d % 16 < 10 {
        ('0' as u8 + d % 16) as char
    } else {
        ('A' as u8 + (d % 16 - 10)) as char
    }
}

/// How one byte is written in URL encoding: an ASCII letter or digit as
/// itself, any other byte as `%` and two uppercase hexadecimal digits.
pub open spec fn escaped(b: u8) -> Seq<char> {
    if is_alphanumeric_byte(b) {
        seq![b as char]
    } else {
        seq!['%', hex_upper_digit(b as nat / 16), hex_upper_digit(b as nat % 16)]
    }
}

/// URL encoding of `bytes`, byte by byte.
pub open spec fn percent_encoded(bytes: Seq<u8>) -> Seq<char>
    decreases bytes.len(),
{
    if bytes.len() == 0 {
        Seq::empty()
    } else {
        escaped(bytes.first()) + percent_encoded(bytes.drop_first())
    }
}

/// What an engine returns when it reads `data` from a text.
pub open spec fn read_back(data: Seq<u8>) -> Result<Seq<u8>, Seq<char>> {
    Ok(data)
}

/// What encoding `data` gives. URL encoding takes UTF-8 text only and fails
/// on other bytes; the other four encodings take any bytes.
pub open spec fn encoded(data: Seq<u8>, encoding: EncodingType) -> Result<Seq<char>, Failure> {
    match encoding {
        EncodingType::Base64 => Ok(standard_base64_text(data)),
        EncodingType::Hex => Ok(hex_lower(data)),
        EncodingType::Base32 => Ok(base32_text(data)),
        EncodingType::Url => if valid_utf8(data) {
            Ok(percent_encoded(data))
        } else {
            Err(
                Failure::DecodeFailed {
                    message: "URL encoding requires valid UTF-8: "@ + utf8_fault(data),
                },
            )
        },
        EncodingType::Base85 => Ok(ascii85_text(data)),
    }
}

/// `Engine::encode` of `base64::engine::general_purpose::STANDARD`. The text
/// is made of the standard alphabet and `=`, in groups of four characters,
/// and is empty only for no data; the standard engine decodes it to the
/// data it was made from.
#[verifier::external_body]
fn encode_base64(data: &[u8]) -> (text: String)
    ensures
        text@ == standard_base64_text(data@),
        standard_base64_decoding(text@) == read_back(data@),
        text@.len() % 4 == 0,
        data@.len() > 0 ==> text@.len() > 0,
        all_in_alphabet(text@, Base64Variant::Standard),
{
    base64::engine::general_purpose::STANDARD.encode(data)
}

/// `Encoding::encode` of `data_encoding::HEXLOWER`: two lowercase
/// hexadecimal digits for each byte.
#[verifier::external_body]
fn encode_hex(data: &[u8]) -> (text: String)
    ensures
        text@ == hex_lower(data@),
{
    data_encoding::HEXLOWER.encode(data)
}

/// `Encoding::encode` of `data_encoding::BASE32`. The text is made of
/// `A`-`Z`, `2`-`7` and `=`, in groups of eight characters, and is empty
/// only for no data; the same engine decodes it to the data it was made from.
#[verifier::external_body]
fn encode_base32(data: &[u8]) -> (text: String)
    ensures
        text@ == base32_text(data@),
        base32_decoding(text@) == read_back(data@),
        text@.len() % 8 == 0,
        data@.len() > 0 ==> text@.len() > 0,
        all_base32_chars(text@),
{
    data_encoding::BASE32.encode(data)
}

/// `percent_encoding::utf8_percent_encode` with the set `NON_ALPHANUMERIC`:
/// every byte that is no ASCII letter or digit is written as `%` and two
/// uppercase hexadecimal digits.
#[verifier::external_body]
fn percent_encode(text: &str) -> (out: String)
    ensures
        out@ == percent_encoded(encode_utf8(text@)),
{
    percent_encoding::utf8_percent_encode(text, percent_encoding::NON_ALPHANUMERIC).to_string()
}

/// `ascii85::encode`. The text is `<~`, digits, and `~>`. The crate's
/// decoder reads the digits back to the data they were made from, and no
/// group of them exceeds 32 bits.
#[verifier::external_body]
fn encode_base85(data: &[u8]) -> (text: String)
    ensures
        text@ == ascii85_text(data@),
        text@.len() >= 4,
        is_ascii85_framed(text@),
        ascii85_in_range(text@.subrange(2, text@.len() - 2)),
        ascii85_decoding(text@.subrange(2, text@.len() - 2)) == read_back(data@),
{
    ascii85::encode(data)
}

/// Encodes text in URL encoding; bytes that are no UTF-8 are refused.
fn encode_url(data: &[u8]) -> (r: Result<String, DecodeckError>)
    ensures
        match r {
            Ok(text) => encoded(data@, EncodingType::Url) == Ok::<Seq<char>, Failure>(text@),
            Err(e) => encoded(data@, EncodingType::Url) == Err::<Seq<char>, Failure>(e@),
        },
{
    match utf8_text(data) {
        Ok(text) => {
            proof {
                vstd::utf8::decode_utf8_encode_utf8(data@);
            }
            Ok(percent_encode(text.as_str()))
        },
        Err(reason) => {
            let message = String::from_str("URL encoding requires valid UTF-8: ").concat(
                reason.as_str(),
            );
            Err(DecodeckError::DecodeFailed { message })
        },
    }
}

/// Text without whitespace at either end is its own trimmed form.
pub proof fn lemma_trimmed_is_identity(s: Seq<char>)
    requires
        s.len() == 0 || (!is_white_space(s.first()) && !is_white_space(s.last())),
    ensures
        trimmed(s) == s,
{
    lemma_trimmed_start(s, 0);
    assert(s.skip(0) =~= s);
    lemma_trimmed_end(s, s.len() as int);
    assert(s.take(s.len() as int) =~= s);
}

/// Text whose UTF-8 length is a multiple of the block takes no padding.
pub proof fn lemma_padded_is_identity(s: Seq<char>, block: nat)
    requires
        block > 0,
        utf8_len(s) % block == 0,
    ensures
        padded(s, block) == s,
{
    assert(padded(s, block) =~= s);
}

/// Base64 text in the standard alphabet, in groups of four, reaches the
/// standard engine as it is.
pub proof fn lemma_base64_reaches_engine(text: Seq<char>)
    requires
        text.len() > 0,
        text.len() % 4 == 0,
        forall|i: int| 0 <= i < text.len() ==> in_alphabet(#[trigger] text[i], Base64Variant::Standard),
    ensures
        crate::encoding::base64::decoded(text) == crate::error::decode_failure(
            "Invalid Base64: "@,
            standard_base64_decoding(text),
        ),
{
    lemma_without_whitespace_clean(text);
    lemma_alphabet_is_ascii(text, Base64Variant::Standard);
    lemma_padded_is_identity(text, 4);
    if text.contains('-') {
        let i = choose|i: int| 0 <= i < text.len() && text[i] == '-';
        assert(in_alphabet(text[i], Base64Variant::Standard));
    }
    if text.contains('_') {
        let i = choose|i: int| 0 <= i < text.len() && text[i] == '_';
        assert(in_alphabet(text[i], Base64Variant::Standard));
    }
}

/// Uppercase Base32 text is its own uppercase form.
pub proof fn lemma_base32_is_uppercase(text: Seq<char>)
    requires
        forall|i: int| 0 <= i < text.len() ==> is_base32_char(#[trigger] text[i]),
    ensures
        uppercased(text) == text,
    decreases text.len(),
{
    if text.len() > 0 {
        let front = text.drop_last();
        assert forall|i: int| 0 <= i < front.len() implies is_base32_char(#[trigger] front[i]) by {
            assert(front[i] == text[i]);
        }
        lemma_base32_is_uppercase(front);
        assert(is_base32_char(text[text.len() - 1]));
        assert(upper(text.last()) =~= seq![text.last()]);
        assert(front + seq![text.last()] =~= text);
    } else {
        assert(uppercased(text) =~= text);
    }
}

/// Base32 text in the uppercase alphabet, in groups of eight, reaches the
/// engine as it is.
pub proof fn lemma_base32_reaches_engine(text: Seq<char>)
    requires
        text.len() > 0,
        text.len() % 8 == 0,
        forall|i: int| 0 <= i < text.len() ==> is_base32_char(#[trigger] text[i]),
    ensures
        crate::encoding::base32::decoded(text) == crate::error::decode_failure(
            "Invalid Base32: "@,
            base32_decoding(text),
        ),
{
    lemma_without_whitespace_clean(text);
    lemma_base32_is_uppercase(text);
    assert(is_ascii_chars(text));
    lemma_ascii_utf8_len(text);
    lemma_padded_is_identity(text, 8);
}

/// Framed Ascii85 text reaches the engine without its marks.
pub proof fn lemma_base85_reaches_engine(text: Seq<char>)
    requires
        text.len() >= 4,
        is_ascii85_framed(text),
        ascii85_in_range(text.subrange(2, text.len() - 2)),
    ensures
        crate::encoding::base85::decoded(text) == crate::error::decode_failure(
            "Invalid Ascii85: "@,
            ascii85_decoding(text.subrange(2, text.len() - 2)),
        ),
{
    lemma_trimmed_is_identity(text);
}

/// Encodes `data` in `encoding`. Only URL encoding can fail, on bytes that
/// are no UTF-8 text.
///
/// The decoder of the same encoding reads the result back to `data`. The
/// one exception is empty data in an encoding other than Ascii85: its
/// encoding is the empty text, which the decoders refuse as no input.
pub fn encode(data: &[u8], encoding: EncodingType) -> (r: Result<String, DecodeckError>)
    ensures
        match r {
            Ok(text) => encoded(data@, encoding) == Ok::<Seq<char>, Failure>(text@),
            Err(e) => encoded(data@, encoding) == Err::<Seq<char>, Failure>(e@),
        },
        r is Err <==> encoding == EncodingType::Url && !valid_utf8(data@),
        r matches Ok(text) ==> (data@.len() > 0 || encoding == EncodingType::Base85) ==> decoding(
            encoding,
            text@,
        ) == Ok::<Seq<u8>, Failure>(data@),
{
    match encoding {
        EncodingType::Base64 => {
            let text = encode_base64(data);
            proof {
                if data@.len() > 0 {
                    lemma_base64_reaches_engine(text@);
                }
            }
            Ok(text)
        },
        EncodingType::Hex => {
            let text = encode_hex(data);
            proof {
                if data@.len() > 0 {
                    lemma_hex_round_trip(data@);
                }
            }
            Ok(text)
        },
        EncodingType::Base32 => {
            let text = encode_base32(data);
            proof {
                if data@.len() > 0 {
                    lemma_base32_reaches_engine(text@);
                }
            }
            Ok(text)
        },
        EncodingType::Url => {
            let r = encode_url(data);
            proof {
                if valid_utf8(data@) && data@.len() > 0 {
                    lemma_url_round_trip(data@);
                }
            }
            r
        },
        EncodingType::Base85 => {
            let text = encode_base85(data);
            proof {
                lemma_base85_reaches_engine(text@);
            }
            Ok(text)
        },
    }
}

/// The digits of hexadecimal text: two for each byte, the high half first.
pub proof fn lemma_hex_lower_digits(data: Seq<u8>)
    ensures
        hex_lower(data).len() == 2 * data.len(),
        forall|i: int|
            0 <= i < data.len() ==> (#[trigger] hex_lower(data)[2 * i]) == hex_lower_digit(
                data[i] as nat / 16,
            ),
        forall|i: int|
            0 <= i < data.len() ==> (#[trigger] hex_lower(data)[2 * i + 1]) == hex_lower_digit(
                data[i] as nat % 16,
            ),
    decreases data.len(),
{
    if data.len() > 0 {
        let front = data.drop_last();
        lemma_hex_lower_digits(front);
        let text = hex_lower(data);
        assert forall|i: int| 0 <= i < data.len() implies (#[trigger] text[2 * i])
            == hex_lower_digit(data[i] as nat / 16) by {
            if i < front.len() {
                assert(text[2 * i] == hex_lower(front)[2 * i]);
                assert(front[i] == data[i]);
            }
        }
        assert forall|i: int| 0 <= i < data.len() implies (#[trigger] text[2 * i + 1])
            == hex_lower_digit(data[i] as nat % 16) by {
            if i < front.len() {
                assert(text[2 * i + 1] == hex_lower(front)[2 * i + 1]);
                assert(front[i] == data[i]);
            }
        }
    }
}

/// A lowercase hexadecimal digit is a hexadecimal digit with its own value,
/// and is neither whitespace nor the letter of the `0x` prefix.
pub proof fn lemma_hex_lower_digit(d: nat)
    requires
        d < 16,
    ensures
        is_hex_digit(hex_lower_digit(d)),
        hex_value(hex_lower_digit(d)) == d,
        !is_white_space(hex_lower_digit(d)),
        hex_lower_digit(d) != 'x',
        hex_lower_digit(d) != 'X',
{
}

/// The hexadecimal decoder reads what the hexadecimal encoder writes.
pub proof fn lemma_hex_round_trip(data: Seq<u8>)
    requires
        data.len() > 0,
    ensures
        crate::encoding::hex::decoded(hex_lower(data)) == Ok::<Seq<u8>, Failure>(data),
{
    let text = hex_lower(data);
    lemma_hex_lower_digits(data);
    assert forall|k: int| 0 <= k < text.len() implies is_hex_digit(#[trigger] text[k])
        && !is_white_space(text[k]) && text[k] != 'x' && text[k] != 'X' && hex_value(text[k]) == (
    if k % 2 == 0 {
        data[k / 2] as nat / 16
    } else {
        data[k / 2] as nat % 16
    }) by {
        let i = k / 2;
        lemma_hex_lower_digit(data[i] as nat / 16);
        lemma_hex_lower_digit(data[i] as nat % 16);
        if k % 2 == 0 {
            assert(text[2 * i] == hex_lower_digit(data[i] as nat / 16));
        } else {
            assert(text[2 * i + 1] == hex_lower_digit(data[i] as nat % 16));
        }
    }
    lemma_trimmed_is_identity(text);
    lemma_without_whitespace_clean(text);
    assert(hex_payload(text) == text);
    assert(is_hex_text(text));
    assert(hex_bytes(text) =~= data) by {
        assert forall|i: int| 0 <= i < data.len() implies hex_bytes(text)[i] == data[i] by {
            assert(hex_value(text[2 * i]) == data[i] as nat / 16);
            assert(hex_value(text[2 * i + 1]) == data[i] as nat % 16);
        }
    }
}

/// The ASCII codes of a text.
pub open spec fn ascii_codes(s: Seq<char>) -> Seq<u8> {
    Seq::new(s.len(), |i: int| s[i] as u8)
}

/// What URL encoding writes is ASCII without `+`, and its escapes decode to
/// the bytes they were made from.
pub proof fn lemma_percent_round_trip(data: Seq<u8>)
    ensures
        is_ascii_chars(percent_encoded(data)),
        percent_encoded(data).len() >= data.len(),
        forall|i: int| 0 <= i < percent_encoded(data).len() ==> (#[trigger] percent_encoded(data)[i]) != '+',
        percent_decoded(ascii_codes(percent_encoded(data))) == data,
    decreases data.len(),
{
    if data.len() > 0 {
        let b = data.first();
        let rest = data.drop_first();
        lemma_percent_round_trip(rest);
        let head = escaped(b);
        let tail = percent_encoded(rest);
        let text = percent_encoded(data);
        assert(text == head + tail);
        lemma_escaped(b);
        assert forall|i: int| 0 <= i < text.len() implies '\0' <= (#[trigger] text[i]) <= '\u{7f}'
            && text[i] != '+' by {
            if i >= head.len() {
                assert(text[i] == tail[i - head.len()]);
            } else {
                assert(text[i] == head[i]);
            }
        }
        let codes = ascii_codes(text);
        if is_alphanumeric_byte(b) {
            assert(codes[0] == b);
            assert(codes.skip(1) =~= ascii_codes(tail));
            assert(percent_decoded(codes) =~= seq![b] + percent_decoded(ascii_codes(tail)));
        } else {
            assert(codes[0] == 0x25);
            assert(codes[1] == head[1] as u8);
            assert(codes[2] == head[2] as u8);
            assert(codes.skip(3) =~= ascii_codes(tail));
            assert(percent_decoded(codes) =~= seq![b] + percent_decoded(ascii_codes(tail)));
        }
        assert(seq![b] + rest =~= data);
    } else {
        assert(ascii_codes(percent_encoded(data)) =~= Seq::<u8>::empty());
    }
}

/// How a byte is escaped: in ASCII, without `+`, and so that the escape
/// gives the byte back.
pub proof fn lemma_escaped(b: u8)
    ensures
        forall|i: int| 0 <= i < escaped(b).len() ==> '\0' <= (#[trigger] escaped(b)[i]) <= '\u{7f}' && escaped(b)[i] != '+',
        is_alphanumeric_byte(b) ==> escaped(b).len() == 1 && escaped(b)[0] as u8 == b && b != 0x25,
        !is_alphanumeric_byte(b) ==> escaped(b).len() == 3 && escaped(b)[0] as u8 == 0x25
            && is_hex_byte(escaped(b)[1] as u8) && is_hex_byte(escaped(b)[2] as u8)
            && hex_byte_value(escaped(b)[1] as u8) * 16 + hex_byte_value(escaped(b)[2] as u8) == b,
{
}

/// The URL decoder reads what the URL encoder writes.
pub proof fn lemma_url_round_trip(data: Seq<u8>)
    requires
        data.len() > 0,
        valid_utf8(data),
    ensures
        crate::encoding::url::decoded(percent_encoded(data)) == Ok::<Seq<u8>, Failure>(data),
{
    let text = percent_encoded(data);
    lemma_percent_round_trip(data);
    assert(plus_as_space(text) =~= text);
    vstd::utf8::is_ascii_chars_encode_utf8(text);
    assert(encode_utf8(text) =~= ascii_codes(text));
}

} // verus!
