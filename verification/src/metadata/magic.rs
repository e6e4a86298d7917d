//! Recognition of content by its leading bytes.

use crate::metadata::{unknown_content, ContentCategory, ContentMetadata, Description};
use crate::text::{
    begins_with, chars_of, contains_part, holds, push_str, same_text, starts_with, text_of,
};
use vstd::prelude::*;

verus! {

/// What the `infer` crate recognizes `bytes` as: a MIME type and a file
/// extension without its dot, or nothing.
pub uninterp spec fn recognized(bytes: Seq<u8>) -> Option<(Seq<char>, Seq<char>)>;

/// `infer::get`, which matches the leading bytes against the signatures it
/// knows. The result depends on the bytes alone.
#[verifier::external_body]
pub(crate) fn recognize(data: &[u8]) -> (kind: Option<(String, String)>)
    ensures
        match kind {
            Some(found) => recognized(data@) == Some((found.0@, found.1@)),
            None => recognized(data@) is None,
        },
{
    infer::get(data).map(|kind| (kind.mime_type().to_string(), kind.extension().to_string()))
}

/// The category of a MIME type, by the first of these that applies: a type
/// under `image/` is an image, under `video/` a video, under `audio/` audio;
/// `application/pdf` and the types under `text/` are documents; a type that
/// names `zip`, `tar` or `gzip` is an archive; anything else is other.
pub open spec fn category_of(mime: Seq<char>) -> ContentCategory {
    if starts_with(mime, "image/"@) {
        ContentCategory::Image
    } else if starts_with(mime, "video/"@) {
        ContentCategory::Video
    } else if starts_with(mime, "audio/"@) {
        ContentCategory::Audio
    } else if mime == "application/pdf"@ || starts_with(mime, "text/"@) {
        ContentCategory::Document
    } else if holds(mime, "zip"@) || holds(mime, "tar"@) || holds(mime, "gzip"@) {
        ContentCategory::Archive
    } else {
        ContentCategory::Other
    }
}

/// Whether content of `category` can be looked at.
pub open spec fn is_viewable(category: ContentCategory) -> bool {
    category == ContentCategory::Image || category == ContentCategory::Document
}

/// Whether content of `category` can be played.
pub open spec fn is_playable(category: ContentCategory) -> bool {
    category == ContentCategory::Video || category == ContentCategory::Audio
}

/// The first eight bytes of `data`, where there are as many.
pub open spec fn leading_bytes(data: Seq<u8>) -> Option<Seq<u8>> {
    if data.len() >= 8 {
        Some(data.take(8))
    } else {
        None
    }
}

/// The description of `data` recognized as `kind`: of the type that was
/// recognized, with the extension behind a dot, or of unknown type; with
/// the leading bytes.
pub open spec fn description_as(data: Seq<u8>, kind: Option<(Seq<char>, Seq<char>)>) -> Description {
    match kind {
        Some((mime, extension)) => Description {
            mime_type: mime,
            extension: seq!['.'] + extension,
            category: category_of(mime),
            is_viewable: is_viewable(category_of(mime)),
            is_playable: is_playable(category_of(mime)),
            magic_bytes: leading_bytes(data),
        },
        None => Description { magic_bytes: leading_bytes(data), ..unknown_content() },
    }
}

/// The description of content by what it is recognized as.
pub open spec fn description_of(data: Seq<u8>) -> Description {
    description_as(data, recognized(data))
}

/// The mathematical value of what was recognized.
pub open spec fn kind_view(kind: Option<(String, String)>) -> Option<(Seq<char>, Seq<char>)> {
    match kind {
        Some(found) => Some((found.0@, found.1@)),
        None => None,
    }
}

/// Sorts a MIME type into its category.
pub fn categorize_mime(mime: &str) -> (category: ContentCategory)
    ensures
        category == category_of(mime@),
{
    let m = chars_of(mime);
    if begins_with(&m, &chars_of("image/")) {
        ContentCategory::Image
    } else if begins_with(&m, &chars_of("video/")) {
        ContentCategory::Video
    } else if begins_with(&m, &chars_of("audio/")) {
        ContentCategory::Audio
    } else if same_text(&m, &chars_of("application/pdf")) || begins_with(&m, &chars_of("text/")) {
        ContentCategory::Document
    } else if contains_part(&m, &chars_of("zip")) || contains_part(&m, &chars_of("tar"))
        || contains_part(&m, &chars_of("gzip")) {
        ContentCategory::Archive
    } else {
        ContentCategory::Other
    }
}

/// Tells whether content of `category` can be looked at, and whether it
/// can be played.
pub fn viewable_playable(category: &ContentCategory) -> (r: (bool, bool))
    ensures
        r.0 == is_viewable(*category),
        r.1 == is_playable(*category),
{
    match category {
        ContentCategory::Image | ContentCategory::Document => (true, false),
        ContentCategory::Video | ContentCategory::Audio => (false, true),
        _ => (false, false),
    }
}

/// Describes `data` by what its leading bytes give away.
pub fn detect(data: &[u8]) -> (metadata: ContentMetadata)
    ensures
        metadata@ == description_of(data@),
{
    describe(data, recognize(data))
}

/// Describes `data` that was recognized as `kind`, a MIME type and a file
/// extension without its dot.
pub fn describe(data: &[u8], kind: Option<(String, String)>) -> (metadata: ContentMetadata)
    ensures
        metadata@ == description_as(data@, kind_view(kind)),
{
    let magic_bytes = if data.len() >= 8 {
        let arr: [u8; 8] = [
            data[0],
            data[1],
            data[2],
            data[3],
            data[4],
            data[5],
            data[6],
            data[7],
        ];
        assert(arr@ =~= data@.take(8));
        Some(arr)
    } else {
        None
    };
    match kind {
        Some(found) => {
            let (mime_type, bare) = found;
            let mut dotted: Vec<char> = Vec::new();
            dotted.push('.');
            push_str(&mut dotted, bare.as_str());
            assert(dotted@ =~= seq!['.'] + bare@);
            let category = categorize_mime(mime_type.as_str());
            let (is_viewable, is_playable) = viewable_playable(&category);
            ContentMetadata {
                mime_type,
                extension: text_of(&dotted),
                category,
                is_viewable,
                is_playable,
                magic_bytes,
            }
        },
        None => {
            let mut metadata = ContentMetadata::unknown();
            metadata.magic_bytes = magic_bytes;
            metadata
        },
    }
}

} // verus!
