//! Normalization and validation of Base64 text.
//!
//! Base64 text carries more than its bytes: the alphabet it uses and whether
//! it came with padding. [`EncodedData`] keeps both beside the cleaned text.

pub mod variants;

use crate::decoder::variants::{variant_of, variant_of_chars};
use crate::encoding::base64::{engine_decode, engine_decoding};
use crate::error::{decode_failure, decoded_or_failed, outcome, DecodeckError, Failure};
use crate::text::{
    chars_of, is_ascii_decimal, is_ascii_letter, is_white_space, lemma_ascii_utf8_len,
    lemma_without_whitespace_clean, pad, padded, strip_whitespace, text_of, utf8_len,
    without_whitespace,
};
use vstd::prelude::*;
use vstd::utf8::is_ascii_chars;

verus! {

/// The two alphabets of Base64.
#[derive(Debug, Clone, Copy, PartialEq, Eq, Structural)]
pub enum Base64Variant {
    /// `A`-`Z`, `a`-`z`, `0`-`9`, `+`, `/` (RFC 4648).
    Standard,
    /// `A`-`Z`, `a`-`z`, `0`-`9`, `-`, `_` (RFC 4648, section 5).
    UrlSafe,
}

/// The token of a variant in serialized output.
pub open spec fn variant_name(variant: Base64Variant) -> Seq<char> {
    match variant {
        Base64Variant::Standard => "standard"@,
        Base64Variant::UrlSafe => "url-safe"@,
    }
}

impl Base64Variant {
    /// The token of this variant in serialized output.
    pub fn display_name(&self) -> (name: &'static str)
        ensures
            name@ == variant_name(*self),
    {
        match self {
            Base64Variant::Standard => "standard",
            Base64Variant::UrlSafe => "url-safe",
        }
    }
}

/// Base64 text that was cleaned, padded and checked against its alphabet.
#[derive(Debug, Clone)]
pub struct EncodedData {
    /// The text without whitespace, padded to a multiple of four.
    pub data: String,
    /// The alphabet that the text uses.
    pub variant: Base64Variant,
    /// Whether the text ended in `=` before it was padded.
    pub has_padding: bool,
    /// Length of the input in bytes, before cleaning.
    pub original_length: usize,
}

/// Mathematical value of an [`EncodedData`].
pub ghost struct EncodedText {
    pub data: Seq<char>,
    pub variant: Base64Variant,
    pub has_padding: bool,
    pub original_length: nat,
}

impl View for EncodedData {
    type V = EncodedText;

    open spec fn view(&self) -> EncodedText {
        EncodedText {
            data: self.data@,
            variant: self.variant,
            has_padding: self.has_padding,
            original_length: self.original_length as nat,
        }
    }
}

/// Whether `c` belongs to the alphabet of `variant`, the padding sign included.
pub open spec fn in_alphabet(c: char, variant: Base64Variant) -> bool {
    ||| is_ascii_letter(c)
    ||| is_ascii_decimal(c)
    ||| c == '='
    ||| match variant {
        Base64Variant::Standard => c == '+' || c == '/',
        Base64Variant::UrlSafe => c == '-' || c == '_',
    }
}

/// Whether every character of `s` belongs to the alphabet of `variant`.
pub open spec fn all_in_alphabet(s: Seq<char>, variant: Base64Variant) -> bool {
    forall|i: int| 0 <= i < s.len() ==> in_alphabet(#[trigger] s[i], variant)
}

/// Number of characters at the start of `s` that belong to the alphabet of
/// `variant`: the index of the first that does not, or the length of `s`.
pub open spec fn valid_prefix_len(s: Seq<char>, variant: Base64Variant) -> nat
    decreases s.len(),
{
    if s.len() == 0 || !in_alphabet(s.first(), variant) {
        0
    } else {
        1 + valid_prefix_len(s.drop_first(), variant)
    }
}

/// The message for a character outside the alphabet.
pub open spec fn invalid_character_message(c: char) -> Seq<char> {
    "Invalid character '"@.push(c).push('\'')
}

/// What normalizing `input` gives. Whitespace is dropped; an input with
/// nothing left is `NoInput`. The variant is read off the cleaned text, which
/// is then padded with `=` to a multiple of four. The first character of the
/// padded text outside the variant's alphabet makes it `InvalidBase64`, with
/// that character's index in the padded text.
pub open spec fn normalization(input: Seq<char>) -> Result<EncodedText, Failure> {
    let cleaned = without_whitespace(input);
    let variant = variant_of(cleaned);
    let data = padded(cleaned, 4);
    if cleaned.len() == 0 {
        Err(Failure::NoInput)
    } else {
        match validation(data, variant) {
            Err(e) => Err(e),
            Ok(_) => Ok(
                EncodedText {
                    data,
                    variant,
                    has_padding: cleaned.last() == '=',
                    original_length: utf8_len(input),
                },
            ),
        }
    }
}

/// What decoding normalized text gives: the bytes that the engine of its
/// variant reads from it, or `DecodeFailed` with the engine's description.
pub open spec fn decoded_text(text: EncodedText) -> Result<Seq<u8>, Failure> {
    decode_failure(Seq::empty(), engine_decoding(text.variant, text.data))
}

/// The index of the first character outside the alphabet is where the valid
/// prefix ends.
pub proof fn lemma_valid_prefix_len(s: Seq<char>, variant: Base64Variant, k: int)
    requires
        0 <= k <= s.len(),
        forall|i: int| 0 <= i < k ==> in_alphabet(#[trigger] s[i], variant),
        k == s.len() || !in_alphabet(s[k], variant),
    ensures
        valid_prefix_len(s, variant) == k,
    decreases k,
{
    if k > 0 {
        let t = s.drop_first();
        assert(in_alphabet(s[0], variant));
        assert forall|i: int| 0 <= i < k - 1 implies in_alphabet(#[trigger] t[i], variant) by {
            assert(t[i] == s[i + 1]);
        }
        lemma_valid_prefix_len(t, variant, k - 1);
    }
}

/// Text made of alphabet characters and padding is ASCII, so that its length
/// is the same in characters and in bytes.
pub proof fn lemma_alphabet_is_ascii(s: Seq<char>, variant: Base64Variant)
    requires
        forall|i: int| 0 <= i < s.len() ==> in_alphabet(#[trigger] s[i], variant),
    ensures
        is_ascii_chars(s),
        utf8_len(s) == s.len(),
{
    assert(is_ascii_chars(s));
    lemma_ascii_utf8_len(s);
}

/// Normalized text has a length that is a multiple of four, in characters
/// and in bytes.
pub proof fn lemma_normalized_length(input: Seq<char>)
    ensures
        normalization(input) matches Ok(text) ==> text.data.len() % 4 == 0 && utf8_len(text.data)
            % 4 == 0,
{
    let cleaned = without_whitespace(input);
    let variant = variant_of(cleaned);
    let data = padded(cleaned, 4);
    if normalization(input) is Ok {
        lemma_valid_prefix_all(data, variant);
        lemma_alphabet_is_ascii(data, variant);
        assert forall|i: int| 0 <= i < cleaned.len() implies in_alphabet(
            #[trigger] cleaned[i],
            variant,
        ) by {
            assert(cleaned[i] == data[i]);
        }
        lemma_alphabet_is_ascii(cleaned, variant);
    }
}

/// Where the valid prefix is the whole text, every character is in the alphabet.
pub proof fn lemma_valid_prefix_all(s: Seq<char>, variant: Base64Variant)
    requires
        valid_prefix_len(s, variant) >= s.len(),
    ensures
        forall|i: int| 0 <= i < s.len() ==> in_alphabet(#[trigger] s[i], variant),
    decreases s.len(),
{
    if s.len() > 0 {
        let t = s.drop_first();
        lemma_valid_prefix_all(t, variant);
        assert forall|i: int| 0 <= i < s.len() implies in_alphabet(#[trigger] s[i], variant) by {
            if i > 0 {
                assert(s[i] == t[i - 1]);
            }
        }
    }
}

/// What normalizing and then decoding `input` gives.
pub open spec fn normalized_then_decoded(input: Seq<char>) -> Result<Seq<u8>, Failure> {
    match normalization(input) {
        Ok(text) => decoded_text(text),
        Err(e) => Err(e),
    }
}

/// Removing whitespace twice is removing it once.
pub proof fn lemma_without_whitespace_twice(s: Seq<char>)
    ensures
        without_whitespace(without_whitespace(s)) == without_whitespace(s),
{
    lemma_without_whitespace_clean(s);
    lemma_without_whitespace_clean(without_whitespace(s));
}

/// Whitespace does not count. Text with whitespace anywhere in it
/// normalizes to the same data, variant and padding as the text without
/// the whitespace, and fails where that fails; so both decode to the same
/// bytes. Only the length on record tells them apart.
pub proof fn lemma_whitespace_is_ignored(input: Seq<char>)
    ensures
        normalized_then_decoded(input) == normalized_then_decoded(without_whitespace(input)),
        match (normalization(input), normalization(without_whitespace(input))) {
            (Ok(a), Ok(b)) => a.data == b.data && a.variant == b.variant && a.has_padding
                == b.has_padding,
            (Err(a), Err(b)) => a == b,
            _ => false,
        },
{
    lemma_without_whitespace_twice(input);
}

/// `valid` with `c` put in at index `at`.
pub open spec fn with_inserted(valid: Seq<char>, c: char, at: int) -> Seq<char> {
    valid.subrange(0, at) + seq![c] + valid.subrange(at, valid.len() as int)
}

/// The characters of a text with one put in.
pub proof fn lemma_with_inserted(valid: Seq<char>, c: char, at: int)
    requires
        0 <= at <= valid.len(),
    ensures
        with_inserted(valid, c, at).len() == valid.len() + 1,
        with_inserted(valid, c, at)[at] == c,
        forall|i: int| 0 <= i < at ==> (#[trigger] with_inserted(valid, c, at)[i]) == valid[i],
        forall|i: int|
            at < i <= valid.len() ==> (#[trigger] with_inserted(valid, c, at)[i]) == valid[i - 1],
{
}

/// A character that is neither `-` nor `_` leaves the variant as it is.
pub proof fn lemma_inserted_keeps_variant(valid: Seq<char>, c: char, at: int)
    requires
        0 <= at <= valid.len(),
        c != '-',
        c != '_',
    ensures
        variant_of(with_inserted(valid, c, at)) == variant_of(valid),
{
    let text = with_inserted(valid, c, at);
    lemma_with_inserted(valid, c, at);
    assert(valid.contains('-') <==> text.contains('-')) by {
        if valid.contains('-') {
            let i = choose|i: int| 0 <= i < valid.len() && valid[i] == '-';
            let j = if i < at { i } else { i + 1 };
            assert(text[j] == '-');
        }
        if text.contains('-') {
            let j = choose|j: int| 0 <= j < text.len() && text[j] == '-';
            let i = if j < at { j } else { j - 1 };
            assert(valid[i] == '-');
        }
    }
    assert(valid.contains('_') <==> text.contains('_')) by {
        if valid.contains('_') {
            let i = choose|i: int| 0 <= i < valid.len() && valid[i] == '_';
            let j = if i < at { i } else { i + 1 };
            assert(text[j] == '_');
        }
        if text.contains('_') {
            let j = choose|j: int| 0 <= j < text.len() && text[j] == '_';
            let i = if j < at { j } else { j - 1 };
            assert(valid[i] == '_');
        }
    }
}

/// Text without whitespace fails at its first character outside the
/// alphabet of its variant.
pub proof fn lemma_fails_at_first_invalid(text: Seq<char>, at: int)
    requires
        0 <= at < text.len(),
        without_whitespace(text) == text,
        forall|i: int| 0 <= i < at ==> in_alphabet(#[trigger] text[i], variant_of(text)),
        !in_alphabet(text[at], variant_of(text)),
    ensures
        normalization(text) == Err::<EncodedText, Failure>(
            Failure::InvalidBase64 {
                message: invalid_character_message(text[at]),
                position: at as nat,
            },
        ),
{
    let variant = variant_of(text);
    let data = padded(text, 4);
    assert(data.len() >= text.len());
    assert forall|i: int| 0 <= i < at implies in_alphabet(#[trigger] data[i], variant) by {
        assert(data[i] == text[i]);
    }
    assert(data[at] == text[at]);
    lemma_valid_prefix_len(data, variant, at);
}

/// A character of one of the alphabets is no whitespace.
pub proof fn lemma_alphabet_is_no_whitespace(c: char, variant: Base64Variant)
    requires
        in_alphabet(c, variant),
    ensures
        !is_white_space(c),
{
}

/// Characters of an alphabet with one put in that is no whitespace hold
/// no whitespace.
pub proof fn lemma_inserted_is_clean(valid: Seq<char>, c: char, at: int, variant: Base64Variant)
    requires
        0 <= at <= valid.len(),
        forall|i: int| 0 <= i < valid.len() ==> in_alphabet(#[trigger] valid[i], variant),
        !is_white_space(c),
    ensures
        without_whitespace(with_inserted(valid, c, at)) == with_inserted(valid, c, at),
{
    let text = with_inserted(valid, c, at);
    assert forall|i: int| 0 <= i < text.len() implies !is_white_space(#[trigger] text[i]) by {
        if i < at {
            assert(text[i] == valid[i]);
            lemma_alphabet_is_no_whitespace(valid[i], variant);
        } else if i > at {
            assert(text[i] == valid[i - 1]);
            lemma_alphabet_is_no_whitespace(valid[i - 1], variant);
        } else {
            assert(text[i] == c);
        }
    }
    lemma_without_whitespace_clean(text);
}

/// What stands before a character that was put in is what stood there before.
pub proof fn lemma_inserted_prefix(valid: Seq<char>, c: char, at: int, variant: Base64Variant)
    requires
        0 <= at <= valid.len(),
        forall|i: int| 0 <= i < valid.len() ==> in_alphabet(#[trigger] valid[i], variant),
    ensures
        at < with_inserted(valid, c, at).len(),
        with_inserted(valid, c, at)[at] == c,
        forall|i: int| 0 <= i < at ==> in_alphabet(#[trigger] with_inserted(valid, c, at)[i], variant),
{
    let text = with_inserted(valid, c, at);
    assert forall|i: int| 0 <= i < at implies in_alphabet(#[trigger] text[i], variant) by {
        assert(text[i] == valid[i]);
    }
}

/// One wrong character is found where it stands. If every character of
/// `valid` belongs to the alphabet of its variant, and `c` is neither
/// whitespace nor a character of either alphabet, then `valid` with `c` put
/// in at `at` fails as `InvalidBase64` with position `at`, which is the
/// index of `c` in the padded text.
pub proof fn lemma_invalid_character_position(valid: Seq<char>, c: char, at: int)
    requires
        0 <= at <= valid.len(),
        forall|i: int| 0 <= i < valid.len() ==> in_alphabet(#[trigger] valid[i], variant_of(valid)),
        !is_white_space(c),
        !in_alphabet(c, Base64Variant::Standard),
        !in_alphabet(c, Base64Variant::UrlSafe),
    ensures
        normalization(with_inserted(valid, c, at)) == Err::<EncodedText, Failure>(
            Failure::InvalidBase64 { message: invalid_character_message(c), position: at as nat },
        ),
{
    let variant = variant_of(valid);
    lemma_inserted_keeps_variant(valid, c, at);
    lemma_inserted_is_clean(valid, c, at, variant);
    lemma_inserted_prefix(valid, c, at, variant);
    lemma_fails_at_first_invalid(with_inserted(valid, c, at), at);
}

/// What validating `data` against the alphabet of `variant` gives: nothing
/// to object to, or the first character outside the alphabet with its index.
pub open spec fn validation(data: Seq<char>, variant: Base64Variant) -> Result<(), Failure> {
    let position = valid_prefix_len(data, variant);
    if position < data.len() {
        Err(
            Failure::InvalidBase64 {
                message: invalid_character_message(data[position as int]),
                position,
            },
        )
    } else {
        Ok(())
    }
}

/// The mathematical value of what a validation returns.
pub open spec fn validation_outcome(r: Result<(), DecodeckError>) -> Result<(), Failure> {
    match r {
        Ok(_) => Ok(()),
        Err(e) => Err(e@),
    }
}

/// Holds every character of `data` against the alphabet of `variant`, the
/// padding sign included, and reports the first that is outside it.
pub fn validate_base64(data: &Vec<char>, variant: Base64Variant) -> (r: Result<(), DecodeckError>)
    ensures
        validation_outcome(r) == validation(data@, variant),
{
    let mut i: usize = 0;
    while i < data.len()
        invariant
            i <= data.len(),
            forall|j: int| 0 <= j < i ==> in_alphabet(#[trigger] data@[j], variant),
        decreases data.len() - i,
    {
        let c = data[i];
        if !is_alphabet_char(c, variant) {
            proof {
                lemma_valid_prefix_len(data@, variant, i as int);
            }
            let mut message = chars_of("Invalid character '");
            message.push(c);
            message.push('\'');
            assert(message@ =~= invalid_character_message(c));
            return Err(DecodeckError::InvalidBase64 { message: text_of(&message), position: i });
        }
        i += 1;
    }
    proof {
        lemma_valid_prefix_len(data@, variant, data@.len() as int);
    }
    Ok(())
}

impl EncodedData {
    /// Cleans, pads and validates Base64 text.
    pub fn parse(input: &str) -> (r: Result<Self, DecodeckError>)
        ensures
            match r {
                Ok(parsed) => normalization(input@) == Ok::<EncodedText, Failure>(parsed@),
                Err(e) => normalization(input@) == Err::<EncodedText, Failure>(e@),
            },
            r matches Ok(parsed) ==> parsed.data@.len() % 4 == 0 && utf8_len(parsed.data@) % 4
                == 0,
    {
        let original_length: usize = input.as_bytes().len();
        let chars = chars_of(input);
        let cleaned = strip_whitespace(&chars);
        if cleaned.len() == 0 {
            return Err(DecodeckError::NoInput);
        }
        let variant = variant_of_chars(&cleaned);
        let has_padding = cleaned[cleaned.len() - 1] == '=';
        let data = pad(cleaned, 4);
        match validate_base64(&data, variant) {
            Ok(_) => {},
            Err(e) => {
                return Err(e);
            },
        }
        proof {
            lemma_normalized_length(input@);
        }
        Ok(Self { data: text_of(&data), variant, has_padding, original_length })
    }

    /// Decodes the normalized text with the engine of its variant.
    pub fn decode(&self) -> (r: Result<Vec<u8>, DecodeckError>)
        ensures
            outcome(r) == decoded_text(self@),
    {
        let r = decoded_or_failed("", engine_decode(self.variant, self.data.as_str()));
        proof {
            reveal_strlit("");
            assert(""@ =~= Seq::<char>::empty());
        }
        r
    }
}

/// Tells whether `c` belongs to the alphabet of `variant`, the padding sign included.
pub fn is_alphabet_char(c: char, variant: Base64Variant) -> (b: bool)
    ensures
        b == in_alphabet(c, variant),
{
    ('a' <= c && c <= 'z') || ('A' <= c && c <= 'Z') || ('0' <= c && c <= '9') || c == '='
        || match variant {
        Base64Variant::Standard => c == '+' || c == '/',
        Base64Variant::UrlSafe => c == '-' || c == '_',
    }
}

} // verus!
