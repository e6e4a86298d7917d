//! Whether and how to offer to open decoded content.

use crate::metadata::ContentMetadata;
use vstd::prelude::*;

verus! {

/// The offer to open decoded content.
#[derive(Debug, Clone, Copy)]
pub struct InteractivePrompt {
    /// Whether the offer is made at all.
    pub enabled: bool,
}

/// The words of the offer: to view what can be viewed, else to play what
/// can be played, else nothing.
pub open spec fn prompt_for(is_viewable: bool, is_playable: bool) -> Option<Seq<char>> {
    if is_viewable {
        Some("Press space to view..."@)
    } else if is_playable {
        Some("Press space to play..."@)
    } else {
        None
    }
}

impl InteractivePrompt {
    /// The offer for output that goes to a terminal or not: it is made only
    /// on a terminal, and only if neither quiet nor non-interactive
    /// operation was asked for.
    pub fn on_terminal(is_terminal: bool, quiet: bool, no_interactive: bool) -> (prompt: Self)
        ensures
            prompt.enabled == (is_terminal && !quiet && !no_interactive),
    {
        Self { enabled: is_terminal && !quiet && !no_interactive }
    }

    /// The words of the offer for content described by `metadata`.
    pub fn prompt_text(metadata: &ContentMetadata) -> (text: Option<&'static str>)
        ensures
            match text {
                Some(words) => prompt_for(metadata.is_viewable, metadata.is_playable) == Some(
                    words@,
                ),
                None => prompt_for(metadata.is_viewable, metadata.is_playable) is None,
            },
    {
        if metadata.is_viewable {
            Some("Press space to view...")
        } else if metadata.is_playable {
            Some("Press space to play...")
        } else {
            None
        }
    }
}

} // verus!
