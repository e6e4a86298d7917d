//! The five encodings, their decoders, and what is known of a guess.

pub mod base32;
pub mod base64;
pub mod base85;
pub mod chain;
pub mod detect;
pub mod encode;
pub mod hex;
pub mod scan;
pub mod url;

use crate::error::{outcome, DecodeckError, Failure};
use vstd::prelude::*;

verus! {

/// The encodings that the library reads and writes.
#[derive(Debug, Clone, Copy, PartialEq, Eq, Structural)]
pub enum EncodingType {
    /// Standard or URL-safe Base64 (RFC 4648).
    Base64,
    /// Hexadecimal digits, two for each byte.
    Hex,
    /// Base32 (RFC 4648).
    Base32,
    /// URL percent-encoding (RFC 3986).
    Url,
    /// Ascii85 in Adobe's variant.
    Base85,
}

/// How sure the library is of an encoding. From most to least sure:
/// `Explicit`, `High`, `Medium`, `Low`.
#[derive(Debug, Clone, Copy, PartialEq, Eq, Structural)]
pub enum DetectionConfidence {
    /// The caller named the encoding.
    Explicit,
    /// An unmistakable mark was found, such as a `0x` prefix.
    High,
    /// The characters used fit the encoding.
    Medium,
    /// Nothing spoke for another encoding.
    Low,
}

/// An encoding together with how it was arrived at.
#[derive(Debug, Clone, Copy)]
pub struct EncodingInfo {
    /// The detected or specified encoding.
    pub encoding_type: EncodingType,
    /// Whether the encoding was detected rather than specified.
    pub detected: bool,
    /// How sure the library is of it.
    pub confidence: DetectionConfidence,
}

/// The lowercase token of an encoding, as it appears in serialized output.
pub open spec fn encoding_name(encoding: EncodingType) -> Seq<char> {
    match encoding {
        EncodingType::Base64 => "base64"@,
        EncodingType::Hex => "hex"@,
        EncodingType::Base32 => "base32"@,
        EncodingType::Url => "url"@,
        EncodingType::Base85 => "base85"@,
    }
}

/// The lowercase token of a confidence level, as it appears in serialized output.
pub open spec fn confidence_name(confidence: DetectionConfidence) -> Seq<char> {
    match confidence {
        DetectionConfidence::Explicit => "explicit"@,
        DetectionConfidence::High => "high"@,
        DetectionConfidence::Medium => "medium"@,
        DetectionConfidence::Low => "low"@,
    }
}

/// What decoding `input` as `encoding` gives.
pub open spec fn decoding(encoding: EncodingType, input: Seq<char>) -> Result<Seq<u8>, Failure> {
    match encoding {
        EncodingType::Base64 => base64::decoded(input),
        EncodingType::Hex => hex::decoded(input),
        EncodingType::Base32 => base32::decoded(input),
        EncodingType::Url => url::decoded(input),
        EncodingType::Base85 => base85::decoded(input),
    }
}

/// Whether the permissive self-test of `encoding` accepts `input`.
pub open spec fn accepts(encoding: EncodingType, input: Seq<char>) -> bool {
    match encoding {
        EncodingType::Base64 => base64::accepted(input),
        EncodingType::Hex => hex::accepted(input),
        EncodingType::Base32 => base32::accepted(input),
        EncodingType::Url => url::accepted(input),
        EncodingType::Base85 => base85::accepted(input),
    }
}

/// Every decoder refuses empty input as no input.
pub proof fn lemma_empty_input_is_no_input(encoding: EncodingType)
    ensures
        decoding(encoding, Seq::empty()) == Err::<Seq<u8>, Failure>(Failure::NoInput),
{
    let empty = Seq::<char>::empty();
    reveal(Seq::filter);
    assert(crate::text::without_whitespace(empty) =~= empty);
    assert(crate::text::trimmed(empty) =~= empty);
    assert(crate::encoding::hex::hex_payload(empty) =~= empty);
    assert(crate::text::uppercased(empty) =~= empty);
}

/// A decoder fails in one of two ways: on no input, or on content that is
/// malformed.
pub proof fn lemma_decoders_fail_in_two_ways(encoding: EncodingType, input: Seq<char>)
    ensures
        decoding(encoding, input) matches Err(e) ==> e is NoInput || e is DecodeFailed,
{
}

/// A decoder for one encoding.
pub trait Decoder {
    /// The encoding that this decoder reads.
    spec fn encoding(&self) -> EncodingType;

    /// Decodes `input`. An input that is empty once cleaned up gives
    /// `NoInput`; one whose content is malformed gives `DecodeFailed`.
    fn decode(&self, input: &str) -> (r: Result<Vec<u8>, DecodeckError>)
        ensures
            outcome(r) == decoding(self.encoding(), input@),
    ;

    /// The token of the encoding.
    fn name(&self) -> (r: &'static str)
        ensures
            r@ == encoding_name(self.encoding()),
    ;

    /// A permissive self-test: whether `input` looks like this encoding.
    fn can_decode(&self, input: &str) -> (b: bool)
        ensures
            b == accepts(self.encoding(), input@),
    ;
}

/// The decoder of one of the five encodings, picked by its tag.
pub enum Codec {
    Base64(base64::Base64Decoder),
    Hex(hex::HexDecoder),
    Base32(base32::Base32Decoder),
    Url(url::UrlDecoder),
    Base85(base85::Base85Decoder),
}

impl Decoder for Codec {
    open spec fn encoding(&self) -> EncodingType {
        match self {
            Codec::Base64(_) => EncodingType::Base64,
            Codec::Hex(_) => EncodingType::Hex,
            Codec::Base32(_) => EncodingType::Base32,
            Codec::Url(_) => EncodingType::Url,
            Codec::Base85(_) => EncodingType::Base85,
        }
    }

    fn decode(&self, input: &str) -> (r: Result<Vec<u8>, DecodeckError>) {
        match self {
            Codec::Base64(d) => d.decode(input),
            Codec::Hex(d) => d.decode(input),
            Codec::Base32(d) => d.decode(input),
            Codec::Url(d) => d.decode(input),
            Codec::Base85(d) => d.decode(input),
        }
    }

    fn name(&self) -> (r: &'static str) {
        match self {
            Codec::Base64(d) => d.name(),
            Codec::Hex(d) => d.name(),
            Codec::Base32(d) => d.name(),
            Codec::Url(d) => d.name(),
            Codec::Base85(d) => d.name(),
        }
    }

    fn can_decode(&self, input: &str) -> (b: bool) {
        match self {
            Codec::Base64(d) => d.can_decode(input),
            Codec::Hex(d) => d.can_decode(input),
            Codec::Base32(d) => d.can_decode(input),
            Codec::Url(d) => d.can_decode(input),
            Codec::Base85(d) => d.can_decode(input),
        }
    }
}

impl DetectionConfidence {
    /// Position in the order of confidence: the larger, the more sure.
    pub open spec fn rank(self) -> nat {
        match self {
            DetectionConfidence::Explicit => 3,
            DetectionConfidence::High => 2,
            DetectionConfidence::Medium => 1,
            DetectionConfidence::Low => 0,
        }
    }

    /// The token of this level in serialized output.
    pub fn display_name(&self) -> (name: &'static str)
        ensures
            name@ == confidence_name(*self),
    {
        match self {
            DetectionConfidence::Explicit => "explicit",
            DetectionConfidence::High => "high",
            DetectionConfidence::Medium => "medium",
            DetectionConfidence::Low => "low",
        }
    }
}

impl EncodingType {
    /// The decoder for this encoding.
    pub fn decoder(&self) -> (codec: Codec)
        ensures
            codec.encoding() == *self,
    {
        match self {
            EncodingType::Base64 => Codec::Base64(base64::Base64Decoder),
            EncodingType::Hex => Codec::Hex(hex::HexDecoder),
            EncodingType::Base32 => Codec::Base32(base32::Base32Decoder),
            EncodingType::Url => Codec::Url(url::UrlDecoder),
            EncodingType::Base85 => Codec::Base85(base85::Base85Decoder),
        }
    }

    /// The token of this encoding in serialized output.
    pub fn display_name(&self) -> (name: &'static str)
        ensures
            name@ == encoding_name(*self),
    {
        match self {
            EncodingType::Base64 => "base64",
            EncodingType::Hex => "hex",
            EncodingType::Base32 => "base32",
            EncodingType::Url => "url",
            EncodingType::Base85 => "base85",
        }
    }
}

impl EncodingInfo {
    /// An encoding counts as detected exactly when its confidence is not `Explicit`.
    pub open spec fn is_consistent(&self) -> bool {
        self.detected <==> self.confidence != DetectionConfidence::Explicit
    }

    /// What is known of an encoding that the caller specified.
    pub fn explicit(encoding_type: EncodingType) -> (info: Self)
        ensures
            info == (EncodingInfo {
                encoding_type,
                detected: false,
                confidence: DetectionConfidence::Explicit,
            }),
            info.is_consistent(),
    {
        Self { encoding_type, detected: false, confidence: DetectionConfidence::Explicit }
    }

    /// What is known of an encoding that detection arrived at.
    pub fn detected(encoding_type: EncodingType, confidence: DetectionConfidence) -> (info: Self)
        ensures
            info == (EncodingInfo { encoding_type, detected: true, confidence }),
            info.is_consistent() <==> confidence != DetectionConfidence::Explicit,
    {
        Self { encoding_type, detected: true, confidence }
    }
}

} // verus!
