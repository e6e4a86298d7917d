//! The encoding as it appears in text output.

use crate::decoder::{Base64Variant, EncodedData};
use crate::encoding::{encoding_name, DetectionConfidence, EncodingInfo, EncodingType};
use crate::text::{chars_of, push_str, text_of};
use vstd::prelude::*;

verus! {

/// How an encoding was arrived at, in words: nothing for one that was
/// detected with the confidence of a specified one.
pub open spec fn detection_note(info: EncodingInfo) -> Seq<char> {
    if info.detected {
        match info.confidence {
            DetectionConfidence::High => " (auto-detected, high confidence)"@,
            DetectionConfidence::Medium => " (auto-detected, medium confidence)"@,
            DetectionConfidence::Low => " (auto-detected, low confidence)"@,
            DetectionConfidence::Explicit => ""@,
        }
    } else {
        " (specified)"@
    }
}

/// The name of a Base64 variant in text output.
pub open spec fn variant_title(variant: Base64Variant) -> Seq<char> {
    match variant {
        Base64Variant::Standard => "Standard"@,
        Base64Variant::UrlSafe => "URL-safe"@,
    }
}

/// What is said of the padding of Base64 input.
pub open spec fn padding_note(has_padding: bool) -> Seq<char> {
    if has_padding {
        "with padding"@
    } else {
        "without padding (added)"@
    }
}

/// The line of text output that names the encoding. For Base64 it names
/// the variant and the padding where the normalized text is at hand.
pub open spec fn encoding_line_of(info: EncodingInfo, encoded: Option<EncodedData>) -> Seq<char> {
    if info.encoding_type == EncodingType::Base64 {
        match encoded {
            Some(data) => "Encoding: "@ + variant_title(data.variant) + " Base64 ("@ + padding_note(
                data.has_padding,
            ) + ")"@ + detection_note(info),
            None => "Encoding: Base64"@ + detection_note(info),
        }
    } else {
        "Encoding: "@ + encoding_name(info.encoding_type) + detection_note(info)
    }
}

/// Says in words how an encoding was arrived at.
pub fn detection_words(info: &EncodingInfo) -> (words: &'static str)
    ensures
        words@ == detection_note(*info),
{
    if info.detected {
        match info.confidence {
            DetectionConfidence::High => " (auto-detected, high confidence)",
            DetectionConfidence::Medium => " (auto-detected, medium confidence)",
            DetectionConfidence::Low => " (auto-detected, low confidence)",
            DetectionConfidence::Explicit => "",
        }
    } else {
        " (specified)"
    }
}

/// Writes the line of text output that names the encoding.
pub fn encoding_line(info: &EncodingInfo, encoded: &Option<EncodedData>) -> (line: String)
    ensures
        line@ == encoding_line_of(*info, *encoded),
{
    let mut line = chars_of("Encoding: ");
    let is_base64 = match info.encoding_type {
        EncodingType::Base64 => true,
        _ => false,
    };
    if is_base64 {
        match encoded {
            Some(data) => {
                let variant = match data.variant {
                    Base64Variant::Standard => "Standard",
                    Base64Variant::UrlSafe => "URL-safe",
                };
                let padding = if data.has_padding {
                    "with padding"
                } else {
                    "without padding (added)"
                };
                push_str(&mut line, variant);
                push_str(&mut line, " Base64 (");
                push_str(&mut line, padding);
                push_str(&mut line, ")");
            },
            None => {
                push_str(&mut line, "Base64");
                proof {
                    reveal_strlit("Encoding: ");
                    reveal_strlit("Base64");
                    reveal_strlit("Encoding: Base64");
                    assert("Encoding: "@ + "Base64"@ =~= "Encoding: Base64"@);
                }
            },
        }
    } else {
        push_str(&mut line, info.encoding_type.display_name());
    }
    push_str(&mut line, detection_words(info));
    text_of(&line)
}

} // verus!
