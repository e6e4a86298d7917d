//! Resolution of nested encodings.
//!
//! A decoded value may itself be encoded text. The resolver detects and
//! decodes round after round, and keeps the encodings it took off in the
//! order in which it took them off.

use crate::encoding::detect::{
    contains_percent_encoding, detect_encoding, detection, is_framed_ascii85,
    starts_with_hex_prefix,
};
use crate::encoding::{decoding, Decoder, DetectionConfidence, EncodingInfo, EncodingType};
use crate::error::{DecodeckError, Failure};
use crate::text::{
    chars_of, has_hex_prefix, has_percent_escape, is_alphanumeric, is_ascii85_framed,
    is_letter_or_digit, trim, trimmed, utf8_len, utf8_length, utf8_text,
};
use vstd::prelude::*;

use vstd::utf8::{decode_utf8, encode_utf8, valid_utf8};

verus! {

/// Number of rounds allowed where the caller names none.
pub const MAX_CHAIN_DEPTH: usize = 10;

/// What resolving a chain gave.
#[derive(Debug, Clone)]
pub struct ChainResult {
    /// The bytes under the last encoding that was taken off.
    pub data: Vec<u8>,
    /// The encodings taken off, in the order of decoding.
    pub chain: Vec<EncodingInfo>,
    /// Whether the rounds ran out or broke off with the chain as long as
    /// the depth allowed. A result that a round itself returns is never
    /// counted as truncated.
    pub truncated: bool,
}

/// Mathematical value of a [`ChainResult`].
pub ghost struct Resolution {
    pub data: Seq<u8>,
    pub chain: Seq<EncodingInfo>,
    pub truncated: bool,
}

impl View for ChainResult {
    type V = Resolution;

    open spec fn view(&self) -> Resolution {
        Resolution { data: self.data@, chain: self.chain@, truncated: self.truncated }
    }
}

/// A character that Base64, Base32 and hexadecimal text is made of: a
/// letter, a digit, `=`, `+` or `/`.
pub open spec fn is_payload_char(c: char) -> bool {
    is_alphanumeric(c) || c == '=' || c == '+' || c == '/'
}

/// Number of characters of `s` that encoded text is made of.
pub open spec fn payload_count(s: Seq<char>) -> nat {
    s.filter(|c: char| is_payload_char(c)).len()
}

/// Whether a decoded text deserves another round. With `t` the text without
/// surrounding whitespace, it does if `t` has at least four bytes and one of
/// these holds, tried in this order:
///
/// 1. `t` begins with `0x` or `0X`;
/// 2. `t` begins with `<~` and ends with `~>`;
/// 3. `t` holds a `%` followed by two hexadecimal digits;
/// 4. more than nine tenths of `t` are letters, digits, `=`, `+` or `/`,
///    counted in characters against the length of `t` in bytes.
pub open spec fn may_be_encoded(s: Seq<char>) -> bool {
    let t = trimmed(s);
    if utf8_len(t) < 4 {
        false
    } else if has_hex_prefix(t) {
        true
    } else if is_ascii85_framed(t) {
        true
    } else if has_percent_escape(t) {
        true
    } else {
        10 * payload_count(t) > 9 * utf8_len(t)
    }
}

/// The message of the failure to decode the input at all.
pub open spec fn undecodable_message() -> Seq<char> {
    "Failed to decode input"@
}

/// `chain` with `info` added, unless its last entry already names that encoding.
pub open spec fn extended_by(chain: Seq<EncodingInfo>, info: EncodingInfo) -> Seq<EncodingInfo> {
    if chain.len() == 0 || chain.last().encoding_type != info.encoding_type {
        chain.push(info)
    } else {
        chain
    }
}

/// How the resolver ends once the rounds are over. It detects and decodes
/// `current` once more. If that works, the encoding joins the chain unless
/// the chain's last entry already names it. If not, the bytes of `current`
/// are the result. Either way the result counts as truncated where the chain
/// has reached `max` entries.
pub open spec fn conclusion(current: Seq<char>, chain: Seq<EncodingInfo>, max: nat) -> Resolution {
    let info = detection(current);
    match decoding(info.encoding_type, current) {
        Ok(bytes) => {
            let full = extended_by(chain, info);
            Resolution { data: bytes, chain: full, truncated: full.len() >= max }
        },
        Err(_) => Resolution {
            data: encode_utf8(current),
            chain,
            truncated: chain.len() >= max,
        },
    }
}

/// The resolver at the start of round `depth`, with `current` to look at and
/// `chain` taken off so far.
///
/// 1. It detects the encoding of `current`.
/// 2. From the second round on, a guess of low confidence ends the rounds.
/// 3. It decodes. On success the encoding joins the chain; if the bytes are
///    UTF-8 text that may be encoded and another round is allowed, that text
///    is next, else the bytes are the result. On failure with an empty chain
///    the call fails; with entries in the chain the rounds end.
/// 4. Once the rounds have ended, [`conclusion`] decides.
pub open spec fn resolution_from(
    current: Seq<char>,
    chain: Seq<EncodingInfo>,
    depth: nat,
    max: nat,
) -> Result<Resolution, Failure>
    decreases max - depth,
{
    let info = detection(current);
    if depth >= max {
        Ok(conclusion(current, chain, max))
    } else if info.confidence == DetectionConfidence::Low && depth > 0 {
        Ok(conclusion(current, chain, max))
    } else {
        match decoding(info.encoding_type, current) {
            Ok(bytes) => {
                if valid_utf8(bytes) && may_be_encoded(decode_utf8(bytes)) && depth + 1 < max {
                    resolution_from(decode_utf8(bytes), chain.push(info), depth + 1, max)
                } else {
                    Ok(Resolution { data: bytes, chain: chain.push(info), truncated: false })
                }
            },
            Err(_) => {
                if chain.len() == 0 {
                    Err(Failure::DecodeFailed { message: undecodable_message() })
                } else {
                    Ok(conclusion(current, chain, max))
                }
            },
        }
    }
}

/// What resolving `input` in at most `max` rounds gives.
pub open spec fn resolution(input: Seq<char>, max: nat) -> Result<Resolution, Failure> {
    resolution_from(input, Seq::empty(), 0, max)
}

/// The depth in force: the caller's, or ten.
pub open spec fn depth_allowed(max_depth: Option<usize>) -> nat {
    match max_depth {
        Some(n) => n as nat,
        None => MAX_CHAIN_DEPTH as nat,
    }
}

/// With at least one round allowed, the chain never outgrows the depth.
pub proof fn lemma_chain_within_depth(
    current: Seq<char>,
    chain: Seq<EncodingInfo>,
    depth: nat,
    max: nat,
)
    requires
        depth < max,
        chain.len() == depth,
    ensures
        resolution_from(current, chain, depth, max) matches Ok(found) ==> found.chain.len() <= max,
    decreases max - depth,
{
    let info = detection(current);
    if !(info.confidence == DetectionConfidence::Low && depth > 0) {
        match decoding(info.encoding_type, current) {
            Ok(bytes) => {
                if valid_utf8(bytes) && may_be_encoded(decode_utf8(bytes)) && depth + 1 < max {
                    lemma_chain_within_depth(decode_utf8(bytes), chain.push(info), depth + 1, max);
                }
            },
            Err(_) => {},
        }
    }
}

/// Once an encoding has been taken off, resolving succeeds.
pub proof fn lemma_later_rounds_succeed(
    current: Seq<char>,
    chain: Seq<EncodingInfo>,
    depth: nat,
    max: nat,
)
    requires
        chain.len() > 0,
    ensures
        resolution_from(current, chain, depth, max) is Ok,
    decreases max - depth,
{
    let info = detection(current);
    if depth < max && !(info.confidence == DetectionConfidence::Low && depth > 0) {
        match decoding(info.encoding_type, current) {
            Ok(bytes) => {
                if valid_utf8(bytes) && may_be_encoded(decode_utf8(bytes)) && depth + 1 < max {
                    lemma_later_rounds_succeed(decode_utf8(bytes), chain.push(info), depth + 1, max);
                }
            },
            Err(_) => {},
        }
    }
}

/// Resolving fails only if a round is allowed and the input itself cannot
/// be decoded as what it is detected to be; the failure is always the same.
pub proof fn lemma_resolution_fails_at_the_input_only(input: Seq<char>, max: nat)
    ensures
        resolution(input, max) is Err <==> max >= 1 && decoding(
            detection(input).encoding_type,
            input,
        ) is Err,
        resolution(input, max) matches Err(e) ==> e == (Failure::DecodeFailed {
            message: undecodable_message(),
        }),
{
    let info = detection(input);
    if max >= 1 {
        match decoding(info.encoding_type, input) {
            Ok(bytes) => {
                if valid_utf8(bytes) && may_be_encoded(decode_utf8(bytes)) && 1 < max {
                    lemma_later_rounds_succeed(
                        decode_utf8(bytes),
                        Seq::<EncodingInfo>::empty().push(info),
                        1,
                        max,
                    );
                }
            },
            Err(_) => {},
        }
    }
}

/// Tells whether a decoded text deserves another round.
pub fn could_be_encoded(s: &str) -> (b: bool)
    ensures
        b == may_be_encoded(s@),
{
    let chars = chars_of(s);
    let t = trim(&chars);
    let len: usize = utf8_length(&t);
    if len < 4 {
        return false;
    }
    if starts_with_hex_prefix(&t) {
        return true;
    }
    if is_framed_ascii85(&t) {
        return true;
    }
    if contains_percent_encoding(&t) {
        return true;
    }
    let count: usize = count_payload(&t);
    10 * (count as u128) > 9 * (len as u128)
}

/// Counts the characters of `s` that encoded text is made of.
pub fn count_payload(s: &Vec<char>) -> (count: usize)
    ensures
        count == payload_count(s@),
{
    let mut count: usize = 0;
    let mut i: usize = 0;
    proof {
        reveal(Seq::filter);
        assert(s@.take(0) =~= Seq::<char>::empty());
    }
    while i < s.len()
        invariant
            i <= s.len(),
            count <= i,
            count == payload_count(s@.take(i as int)),
        decreases s.len() - i,
    {
        let c = s[i];
        proof {
            reveal(Seq::filter);
            assert(s@.take(i + 1).drop_last() =~= s@.take(i as int));
        }
        if is_letter_or_digit(c) || c == '=' || c == '+' || c == '/' {
            count += 1;
        }
        i += 1;
    }
    proof {
        assert(s@.take(s.len() as int) =~= s@);
    }
    count
}

/// Ends the resolution once the rounds are over.
pub fn conclude(current: &str, chain: Vec<EncodingInfo>, max: usize) -> (found: ChainResult)
    ensures
        found@ == conclusion(current@, chain@, max as nat),
{
    let mut chain = chain;
    let info = detect_encoding(current);
    match info.encoding_type.decoder().decode(current) {
        Ok(data) => {
            if chain.len() == 0 || !same_encoding(
                chain[chain.len() - 1].encoding_type,
                info.encoding_type,
            ) {
                chain.push(info);
            }
            let truncated = chain.len() >= max;
            ChainResult { data, chain, truncated }
        },
        Err(_) => {
            let truncated = chain.len() >= max;
            ChainResult { data: current.as_bytes_vec(), chain, truncated }
        },
    }
}

/// Tells whether two encodings are the same.
pub fn same_encoding(a: EncodingType, b: EncodingType) -> (same: bool)
    ensures
        same == (a == b),
{
    a == b
}

/// Takes nested encodings off `input`, in at most `max_depth` rounds, ten
/// where none is given. Fails only if the input itself cannot be decoded.
pub fn decode_chain(input: &str, max_depth: Option<usize>) -> (r: Result<ChainResult, DecodeckError>)
    ensures
        match r {
            Ok(found) => resolution(input@, depth_allowed(max_depth)) == Ok::<Resolution, Failure>(
                found@,
            ),
            Err(e) => resolution(input@, depth_allowed(max_depth)) == Err::<Resolution, Failure>(
                e@,
            ),
        },
        depth_allowed(max_depth) >= 1 ==> (r matches Ok(found) ==> found.chain@.len()
            <= depth_allowed(max_depth)),
        r is Err <==> depth_allowed(max_depth) >= 1 && decoding(
            detection(input@).encoding_type,
            input@,
        ) is Err,
{
    let max: usize = match max_depth {
        Some(n) => n,
        None => MAX_CHAIN_DEPTH,
    };
    let mut current: String = String::from_str(input);
    let mut chain: Vec<EncodingInfo> = Vec::new();
    let mut depth: usize = 0;
    proof {
        if max >= 1 {
            lemma_chain_within_depth(input@, Seq::empty(), 0, max as nat);
        }
        lemma_resolution_fails_at_the_input_only(input@, max as nat);
    }
    while depth < max
        invariant
            depth <= max,
            max == depth_allowed(max_depth),
            max >= 1 ==> (resolution(input@, max as nat) matches Ok(found) ==> found.chain.len()
                <= max),
            resolution(input@, max as nat) is Err <==> max >= 1 && decoding(
                detection(input@).encoding_type,
                input@,
            ) is Err,
            resolution(input@, max as nat) == resolution_from(
                current@,
                chain@,
                depth as nat,
                max as nat,
            ),
        ensures
            resolution(input@, max as nat) == Ok::<Resolution, Failure>(
                conclusion(current@, chain@, max as nat),
            ),
        decreases max - depth,
    {
        let info = detect_encoding(current.as_str());
        if is_low(info.confidence) && depth > 0 {
            break ;
        }
        match info.encoding_type.decoder().decode(current.as_str()) {
            Ok(decoded) => {
                chain.push(info);
                match utf8_text(decoded.as_slice()) {
                    Ok(text) => {
                        if could_be_encoded(text.as_str()) && depth + 1 < max {
                            current = text;
                            depth += 1;
                            continue ;
                        }
                    },
                    Err(_) => {},
                }
                return Ok(ChainResult { data: decoded, chain, truncated: false });
            },
            Err(_) => {
                if chain.len() == 0 {
                    return Err(
                        DecodeckError::DecodeFailed {
                            message: String::from_str("Failed to decode input"),
                        },
                    );
                }
                break ;
            },
        }
    }
    Ok(conclude(current.as_str(), chain, max))
}

/// Tells whether a confidence is the lowest.
pub fn is_low(confidence: DetectionConfidence) -> (low: bool)
    ensures
        low == (confidence == DetectionConfidence::Low),
{
    confidence == DetectionConfidence::Low
}

} // verus!
