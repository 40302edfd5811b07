//! The metadata of a preview card.

use vstd::prelude::*;
use vstd::string::StringExecFns;
use crate::error::PreviewError;
use crate::locator::{
    blob_path, gist_path, raw_path, GistPath, GistPathView, SourceLocator, SourceLocatorView,
    SrcPath, SrcPathView,
};
use crate::range::ResolvedRange;
use crate::text::{after_last_slash, decimal_text, file_name, write_decimal};
use crate::variant::{ContentVariant, ContentVariantView};

verus! {

/// The shape in which a card is shown.
#[derive(Clone, Copy, Debug, PartialEq, Eq)]
pub enum CardKind {
    /// A summary with a large image.
    SummaryLargeImage,
    /// A player that plays a video in place.
    Player,
}

/// What a preview card says of a resource.
#[derive(Clone, Debug, PartialEq, Eq)]
pub struct CardMetadata {
    pub title: String,
    pub description: String,
    pub canonical_url: String,
    /// The image of an image card; the address of the player of a player
    /// card.
    pub image_or_video_ref: String,
    pub mime: String,
    pub card_kind: CardKind,
}

/// A card as plain values.
pub struct CardMetadataView {
    pub title: Seq<char>,
    pub description: Seq<char>,
    pub canonical_url: Seq<char>,
    pub image_or_video_ref: Seq<char>,
    pub mime: Seq<char>,
    pub card_kind: CardKind,
}

impl View for CardMetadata {
    type V = CardMetadataView;

    open spec fn view(&self) -> CardMetadataView {
        CardMetadataView {
            title: self.title@,
            description: self.description@,
            canonical_url: self.canonical_url@,
            image_or_video_ref: self.image_or_video_ref@,
            mime: self.mime@,
            card_kind: self.card_kind,
        }
    }
}

/// A card, if there is one, as plain values.
pub open spec fn shown(card: Option<CardMetadata>) -> Option<CardMetadataView> {
    match card {
        Some(c) => Some(c@),
        None => None,
    }
}

/// The title of a file: `name · repository/author@branch`.
pub open spec fn file_title(file: SrcPathView) -> Seq<char> {
    after_last_slash(file.path) + " · "@ + file.repository + "/"@ + file.author + "@"@
        + file.branch
}

/// How a file is named in a description: `name from author/repository@branch`.
pub open spec fn file_origin(file: SrcPathView) -> Seq<char> {
    after_last_slash(file.path) + " from "@ + file.author + "/"@ + file.repository + "@"@
        + file.branch
}

/// How a gist is named: `author/id`.
pub open spec fn gist_name(gist: GistPathView) -> Seq<char> {
    gist.author + "/"@ + gist.id
}

/// The words for a window of lines: `Lines from-to of `.
pub open spec fn lines_of(range: ResolvedRange) -> Seq<char> {
    "Lines "@ + decimal_text(range.from as nat) + "-"@ + decimal_text(range.to as nat) + " of "@
}

/// A query as it follows an address: nothing for an empty query, else the
/// query after a question mark.
pub open spec fn query_suffix(query: Seq<char>) -> Seq<char> {
    if query.len() == 0 {
        Seq::empty()
    } else {
        "?"@ + query
    }
}

/// The card of a file, by the variant of its content.
pub open spec fn file_card(
    variant: ContentVariantView,
    file: SrcPathView,
    origin: Seq<char>,
) -> Option<CardMetadataView> {
    match variant {
        ContentVariantView::PlainText { range, query } => Some(
            CardMetadataView {
                title: file_title(file),
                description: lines_of(range) + file_origin(file),
                canonical_url: origin + blob_path(file) + query_suffix(query),
                image_or_video_ref: origin + "/image"@ + raw_path(file) + "?"@ + query,
                mime: "image/png"@,
                card_kind: CardKind::SummaryLargeImage,
            },
        ),
        ContentVariantView::RasterImage { mime, url } => Some(
            CardMetadataView {
                title: file_title(file),
                description: file_origin(file),
                canonical_url: origin + blob_path(file),
                image_or_video_ref: url,
                mime: mime,
                card_kind: CardKind::SummaryLargeImage,
            },
        ),
        ContentVariantView::VectorImage => Some(
            CardMetadataView {
                title: file_title(file),
                description: file_origin(file),
                canonical_url: origin + blob_path(file),
                image_or_video_ref: origin + "/image"@ + raw_path(file),
                mime: "image/png"@,
                card_kind: CardKind::SummaryLargeImage,
            },
        ),
        ContentVariantView::Video { mime, url } => Some(
            CardMetadataView {
                title: file_title(file),
                description: file_origin(file),
                canonical_url: origin + blob_path(file),
                image_or_video_ref: origin + "/video-embed"@ + raw_path(file),
                mime: mime,
                card_kind: CardKind::Player,
            },
        ),
        ContentVariantView::Unsupported => None,
    }
}

/// The card of a gist. A gist is previewed as text; no other variant has a
/// card.
pub open spec fn gist_card(
    variant: ContentVariantView,
    gist: GistPathView,
    origin: Seq<char>,
) -> Option<CardMetadataView> {
    match variant {
        ContentVariantView::PlainText { range, query } => Some(
            CardMetadataView {
                title: gist_name(gist),
                description: lines_of(range) + gist_name(gist),
                canonical_url: origin + "/gist"@ + gist_path(gist) + query_suffix(query),
                image_or_video_ref: origin + "/gist-image"@ + gist_path(gist) + "?"@ + query,
                mime: "image/png"@,
                card_kind: CardKind::SummaryLargeImage,
            },
        ),
        _ => None,
    }
}

/// The card for a variant of content at a locator, as served from `origin`;
/// nothing where the variant has no card.
pub open spec fn card_of(
    variant: ContentVariantView,
    locator: SourceLocatorView,
    origin: Seq<char>,
) -> Option<CardMetadataView> {
    match locator {
        SourceLocatorView::File(file) => file_card(variant, file, origin),
        SourceLocatorView::Gist(gist) => gist_card(variant, gist, origin),
    }
}

/// The title of a file.
fn title_of(file: &SrcPath) -> (title: String)
    ensures
        title@ == file_title(file@),
{
    let mut title = file_name(file.path.as_str());
    title.append(" · ");
    title.append(file.repository.as_str());
    title.append("/");
    title.append(file.author.as_str());
    title.append("@");
    title.append(file.branch.as_str());
    title
}

/// Writes how a file is named in a description at the end of `out`.
fn write_file_origin(out: &mut String, file: &SrcPath)
    ensures
        final(out)@ == old(out)@ + file_origin(file@),
{
    let mut origin = file_name(file.path.as_str());
    origin.append(" from ");
    origin.append(file.author.as_str());
    origin.append("/");
    origin.append(file.repository.as_str());
    origin.append("@");
    origin.append(file.branch.as_str());
    out.append(origin.as_str());
}

/// How a gist is named.
fn name_of(gist: &GistPath) -> (name: String)
    ensures
        name@ == gist_name(gist@),
{
    let mut name = String::from_str(gist.author.as_str());
    name.append("/");
    name.append(gist.id.as_str());
    name
}

/// The words for a window of lines.
fn lines_text(range: ResolvedRange) -> (words: String)
    ensures
        words@ == lines_of(range),
{
    let mut words = String::from_str("Lines ");
    write_decimal(&mut words, range.from);
    words.append("-");
    write_decimal(&mut words, range.to);
    words.append(" of ");
    words
}

/// The address `origin` + `route` + `path`.
fn served_at(origin: &str, route: &str, path: &String) -> (url: String)
    ensures
        url@ == origin@ + route@ + path@,
{
    let mut url = String::from_str(origin);
    url.append(route);
    url.append(path.as_str());
    url
}

/// Writes a query as it follows an address at the end of `url`.
fn write_query_suffix(url: &mut String, query: &String)
    ensures
        final(url)@ == old(url)@ + query_suffix(query@),
{
    if query.as_str().unicode_len() > 0 {
        let mut suffix = String::from_str("?");
        suffix.append(query.as_str());
        url.append(suffix.as_str());
    } else {
        assert(url@ + Seq::<char>::empty() =~= url@);
    }
}

/// Composes the card of a file.
fn compose_file(variant: &ContentVariant, file: &SrcPath, service_origin: &str) -> (card: Option<
    CardMetadata,
>)
    ensures
        shown(card) == file_card(variant@, file@, service_origin@),
{
    let mut canonical_url = String::from_str(service_origin);
    canonical_url.append(file.blob_path().as_str());
    match variant {
        ContentVariant::PlainText { range, query } => {
            let mut description = lines_text(*range);
            write_file_origin(&mut description, file);
            write_query_suffix(&mut canonical_url, query);
            let mut image = served_at(service_origin, "/image", &file.raw_path());
            image.append("?");
            image.append(query.as_str());
            Some(
                CardMetadata {
                    title: title_of(file),
                    description,
                    canonical_url,
                    image_or_video_ref: image,
                    mime: String::from_str("image/png"),
                    card_kind: CardKind::SummaryLargeImage,
                },
            )
        },
        ContentVariant::RasterImage { mime, url } => {
            let mut description = String::new();
            write_file_origin(&mut description, file);
            assert(Seq::<char>::empty() + file_origin(file@) =~= file_origin(file@));
            Some(
                CardMetadata {
                    title: title_of(file),
                    description,
                    canonical_url,
                    image_or_video_ref: url.clone(),
                    mime: mime.clone(),
                    card_kind: CardKind::SummaryLargeImage,
                },
            )
        },
        ContentVariant::VectorImage => {
            let mut description = String::new();
            write_file_origin(&mut description, file);
            assert(Seq::<char>::empty() + file_origin(file@) =~= file_origin(file@));
            Some(
                CardMetadata {
                    title: title_of(file),
                    description,
                    canonical_url,
                    image_or_video_ref: served_at(service_origin, "/image", &file.raw_path()),
                    mime: String::from_str("image/png"),
                    card_kind: CardKind::SummaryLargeImage,
                },
            )
        },
        ContentVariant::Video { mime, url } => {
            let mut description = String::new();
            write_file_origin(&mut description, file);
            assert(Seq::<char>::empty() + file_origin(file@) =~= file_origin(file@));
            Some(
                CardMetadata {
                    title: title_of(file),
                    description,
                    canonical_url,
                    image_or_video_ref: served_at(
                        service_origin,
                        "/video-embed",
                        &file.raw_path(),
                    ),
                    mime: mime.clone(),
                    card_kind: CardKind::Player,
                },
            )
        },
        ContentVariant::Unsupported => None,
    }
}

/// Composes the card of a gist.
fn compose_gist(variant: &ContentVariant, gist: &GistPath, service_origin: &str) -> (card: Option<
    CardMetadata,
>)
    ensures
        shown(card) == gist_card(variant@, gist@, service_origin@),
{
    match variant {
        ContentVariant::PlainText { range, query } => {
            let mut description = lines_text(*range);
            description.append(name_of(gist).as_str());
            let mut canonical_url = served_at(service_origin, "/gist", &gist.gist_path());
            write_query_suffix(&mut canonical_url, query);
            let mut image = served_at(service_origin, "/gist-image", &gist.gist_path());
            image.append("?");
            image.append(query.as_str());
            Some(
                CardMetadata {
                    title: name_of(gist),
                    description,
                    canonical_url,
                    image_or_video_ref: image,
                    mime: String::from_str("image/png"),
                    card_kind: CardKind::SummaryLargeImage,
                },
            )
        },
        _ => None,
    }
}

/// What composing comes to, given the card that there is to compose: that
/// card, or `UpstreamUnsupportedType` where there is none.
pub open spec fn composed(
    card: Option<CardMetadataView>,
    result: Result<CardMetadata, PreviewError>,
) -> bool {
    match card {
        Some(c) => result matches Ok(made) && made@ == c,
        None => result == Err::<CardMetadata, PreviewError>(PreviewError::UpstreamUnsupportedType),
    }
}

/// Composes the card for a variant of content at a locator. The card names
/// the resource, points at the image or player that shows it, and gives the
/// address under which this service, at `service_origin`, serves the
/// preview. An unsupported variant has no card, nor has a gist that is not
/// text: for those the result is `UpstreamUnsupportedType`, and the caller
/// sends the request on to the forge.
pub fn compose(variant: &ContentVariant, locator: &SourceLocator, service_origin: &str) -> (result:
    Result<CardMetadata, PreviewError>)
    ensures
        composed(card_of(variant@, locator@, service_origin@), result),
{
    let card = match locator {
        SourceLocator::File(file) => compose_file(variant, file, service_origin),
        SourceLocator::Gist(gist) => compose_gist(variant, gist, service_origin),
    };
    match card {
        Some(made) => Ok(made),
        None => Err(PreviewError::UpstreamUnsupportedType),
    }
}

} // verus!
