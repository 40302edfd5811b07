//! The kinds of content that get a preview, told apart by the media type
//! that the remote host declares.

use vstd::prelude::*;
use vstd::string::StringExecFns;
use crate::range::ResolvedRange;
use crate::text::{chars_of, mentions, occurs};

verus! {

/// What is previewed, with what its card needs to know of it.
#[derive(Clone, Debug, PartialEq, Eq)]
pub enum ContentVariant {
    /// Text, shown as a rendered image of the lines `range`; `query` is the
    /// query of the request, which the rendering is asked with again.
    PlainText { range: ResolvedRange, query: String },
    /// An image that previews can show as it is, at `url`.
    RasterImage { mime: String, url: String },
    /// A vector image, which is rendered to pixels before it is shown.
    VectorImage,
    /// A video at `url`, shown in a player.
    Video { mime: String, url: String },
    /// Anything else: no card is made for it.
    Unsupported,
}

/// A content variant as plain values.
pub enum ContentVariantView {
    PlainText { range: ResolvedRange, query: Seq<char> },
    RasterImage { mime: Seq<char>, url: Seq<char> },
    VectorImage,
    Video { mime: Seq<char>, url: Seq<char> },
    Unsupported,
}

impl View for ContentVariant {
    type V = ContentVariantView;

    open spec fn view(&self) -> ContentVariantView {
        match self {
            ContentVariant::PlainText { range, query } => ContentVariantView::PlainText {
                range: *range,
                query: query@,
            },
            ContentVariant::RasterImage { mime, url } => ContentVariantView::RasterImage {
                mime: mime@,
                url: url@,
            },
            ContentVariant::VectorImage => ContentVariantView::VectorImage,
            ContentVariant::Video { mime, url } => ContentVariantView::Video {
                mime: mime@,
                url: url@,
            },
            ContentVariant::Unsupported => ContentVariantView::Unsupported,
        }
    }
}

/// Whether a declared media type names plain text.
pub open spec fn is_plain_text(media_type: Seq<char>) -> bool {
    occurs("text/plain"@, media_type)
}

/// Whether a declared media type names one of the pixel image formats.
pub open spec fn is_raster_image(media_type: Seq<char>) -> bool {
    ||| occurs("image/png"@, media_type)
    ||| occurs("image/jpeg"@, media_type)
    ||| occurs("image/jpg"@, media_type)
    ||| occurs("image/gif"@, media_type)
}

/// Whether a declared media type names a vector image.
pub open spec fn is_vector_image(media_type: Seq<char>) -> bool {
    occurs("image/svg+xml"@, media_type)
}

/// Whether a declared media type names a video, or bytes of no declared
/// kind, which are taken for one.
pub open spec fn is_video(media_type: Seq<char>) -> bool {
    ||| occurs("video/mp4"@, media_type)
    ||| occurs("application/octet-stream"@, media_type)
}

/// The variant that a declared media type selects. The rules are tried in
/// this order and the first that matches decides: plain text, pixel image,
/// vector image, video; a media type that matches none is unsupported.
pub open spec fn variant_of(
    media_type: Seq<char>,
    range: ResolvedRange,
    query: Seq<char>,
    url: Seq<char>,
) -> ContentVariantView {
    if is_plain_text(media_type) {
        ContentVariantView::PlainText { range, query }
    } else if is_raster_image(media_type) {
        ContentVariantView::RasterImage { mime: media_type, url }
    } else if is_vector_image(media_type) {
        ContentVariantView::VectorImage
    } else if is_video(media_type) {
        ContentVariantView::Video { mime: media_type, url }
    } else {
        ContentVariantView::Unsupported
    }
}

/// Whether `pattern` stands somewhere in the text `hay`.
fn names(hay: &Vec<char>, pattern: &str) -> (found: bool)
    ensures
        found == occurs(pattern@, hay@),
{
    let needle = chars_of(pattern);
    mentions(hay, &needle)
}

/// Selects the variant for a declared media type. A text variant carries
/// the window of lines and the query of the request; an image or a video
/// carries the media type as declared and the address of the resource.
pub fn resolve_variant(declared_media_type: &str, range: ResolvedRange, query: &str, url: &str) -> (variant:
    ContentVariant)
    ensures
        variant@ == variant_of(declared_media_type@, range, query@, url@),
{
    let media = chars_of(declared_media_type);
    if names(&media, "text/plain") {
        ContentVariant::PlainText { range, query: String::from_str(query) }
    } else if names(&media, "image/png") || names(&media, "image/jpeg") || names(
        &media,
        "image/jpg",
    ) || names(&media, "image/gif") {
        ContentVariant::RasterImage {
            mime: String::from_str(declared_media_type),
            url: String::from_str(url),
        }
    } else if names(&media, "image/svg+xml") {
        ContentVariant::VectorImage
    } else if names(&media, "video/mp4") || names(&media, "application/octet-stream") {
        ContentVariant::Video {
            mime: String::from_str(declared_media_type),
            url: String::from_str(url),
        }
    } else {
        ContentVariant::Unsupported
    }
}

} // verus!
