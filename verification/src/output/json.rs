//! The encoding as it appears in JSON output.

use crate::decoder::{variant_name, EncodedData};
use crate::encoding::{DetectionConfidence, EncodingInfo, EncodingType};
use vstd::prelude::*;

verus! {

/// The encoding section of JSON output.
#[derive(Debug, Clone)]
pub struct EncodingOutput {
    /// The encoding that was taken off.
    pub encoding_type: EncodingType,
    /// Whether the encoding was detected rather than specified.
    pub detected: bool,
    /// How sure the library is of it.
    pub confidence: DetectionConfidence,
    /// For Base64: `standard` or `url-safe`.
    pub variant: Option<String>,
    /// For Base64: whether the input came with padding.
    pub had_padding: Option<bool>,
}

/// Mathematical value of an [`EncodingOutput`].
pub ghost struct EncodingSection {
    pub encoding_type: EncodingType,
    pub detected: bool,
    pub confidence: DetectionConfidence,
    pub variant: Option<Seq<char>>,
    pub had_padding: Option<bool>,
}

impl View for EncodingOutput {
    type V = EncodingSection;

    open spec fn view(&self) -> EncodingSection {
        EncodingSection {
            encoding_type: self.encoding_type,
            detected: self.detected,
            confidence: self.confidence,
            variant: match self.variant {
                Some(name) => Some(name@),
                None => None,
            },
            had_padding: self.had_padding,
        }
    }
}

/// The encoding section for `info`: with the variant and the padding of the
/// normalized Base64 text where there is one, without them otherwise.
pub open spec fn encoding_section(info: EncodingInfo, encoded: Option<EncodedData>) -> EncodingSection {
    EncodingSection {
        encoding_type: info.encoding_type,
        detected: info.detected,
        confidence: info.confidence,
        variant: match encoded {
            Some(data) => Some(variant_name(data.variant)),
            None => None,
        },
        had_padding: match encoded {
            Some(data) => Some(data.has_padding),
            None => None,
        },
    }
}

/// Builds the encoding section of JSON output.
pub fn encoding_output(info: &EncodingInfo, encoded: &Option<EncodedData>) -> (section: EncodingOutput)
    ensures
        section@ == encoding_section(*info, *encoded),
{
    let (variant, had_padding) = match encoded {
        Some(data) => (Some(String::from_str(data.variant.display_name())), Some(data.has_padding)),
        None => (None, None),
    };
    EncodingOutput {
        encoding_type: info.encoding_type,
        detected: info.detected,
        confidence: info.confidence,
        variant,
        had_padding,
    }
}

} // verus!
