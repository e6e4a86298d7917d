//! What is known of decoded content: its type and how it can be shown.

pub mod magic;

use vstd::prelude::*;

verus! {

/// Broad kinds of content.
#[derive(Debug, Clone, Copy, PartialEq, Eq, Structural)]
pub enum ContentCategory {
    Image,
    Document,
    Audio,
    Video,
    Archive,
    Other,
}

/// The token of a category in serialized output.
pub open spec fn category_name(category: ContentCategory) -> Seq<char> {
    match category {
        ContentCategory::Image => "image"@,
        ContentCategory::Document => "document"@,
        ContentCategory::Audio => "audio"@,
        ContentCategory::Video => "video"@,
        ContentCategory::Archive => "archive"@,
        ContentCategory::Other => "other"@,
    }
}

impl ContentCategory {
    /// The token of this category in serialized output.
    pub fn display_name(&self) -> (name: &'static str)
        ensures
            name@ == category_name(*self),
    {
        match self {
            ContentCategory::Image => "image",
            ContentCategory::Document => "document",
            ContentCategory::Audio => "audio",
            ContentCategory::Video => "video",
            ContentCategory::Archive => "archive",
            ContentCategory::Other => "other",
        }
    }
}

/// What is known of decoded content.
#[derive(Debug, Clone)]
pub struct ContentMetadata {
    /// MIME type, such as `image/png`.
    pub mime_type: String,
    /// File extension with its dot, such as `.png`.
    pub extension: String,
    /// The kind of content.
    pub category: ContentCategory,
    /// Whether the content can be looked at.
    pub is_viewable: bool,
    /// Whether the content can be played.
    pub is_playable: bool,
    /// The first eight bytes, where there are as many.
    pub magic_bytes: Option<[u8; 8]>,
}

/// Mathematical value of a [`ContentMetadata`].
pub ghost struct Description {
    pub mime_type: Seq<char>,
    pub extension: Seq<char>,
    pub category: ContentCategory,
    pub is_viewable: bool,
    pub is_playable: bool,
    pub magic_bytes: Option<Seq<u8>>,
}

impl View for ContentMetadata {
    type V = Description;

    open spec fn view(&self) -> Description {
        Description {
            mime_type: self.mime_type@,
            extension: self.extension@,
            category: self.category,
            is_viewable: self.is_viewable,
            is_playable: self.is_playable,
            magic_bytes: match self.magic_bytes {
                Some(bytes) => Some(bytes@),
                None => None,
            },
        }
    }
}

/// What is said of content of unknown type.
pub open spec fn unknown_content() -> Description {
    Description {
        mime_type: "application/octet-stream"@,
        extension: ".bin"@,
        category: ContentCategory::Other,
        is_viewable: false,
        is_playable: false,
        magic_bytes: None,
    }
}

impl ContentMetadata {
    /// The description of content of unknown type.
    pub fn unknown() -> (metadata: Self)
        ensures
            metadata@ == unknown_content(),
    {
        Self {
            mime_type: String::from_str("application/octet-stream"),
            extension: String::from_str(".bin"),
            category: ContentCategory::Other,
            is_viewable: false,
            is_playable: false,
            magic_bytes: None,
        }
    }
}

} // verus!
