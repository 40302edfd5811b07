use gitcard::card::{compose, CardKind, CardMetadata};
use gitcard::error::{recover, Endpoint, PreviewError, Recovery};
use gitcard::locator::{
    parse_blob_code_uri, parse_raw_code_uri, parse_raw_gist_code_uri, GistPath, LocatorError,
    SourceLocator, SrcPath,
};
use gitcard::range::ResolvedRange;
use gitcard::variant::{resolve_variant, ContentVariant};

fn file() -> SrcPath {
    SrcPath {
        author: "octo".to_string(),
        repository: "tools".to_string(),
        branch: "main".to_string(),
        path: "src/bin/run.rs".to_string(),
    }
}

fn gist() -> GistPath {
    GistPath { author: "octo".to_string(), id: "abc123".to_string() }
}

#[test]
fn text_card_describes_the_lines_and_points_at_the_rendering() {
    let variant = ContentVariant::PlainText {
        range: ResolvedRange { from: 10, to: 15 },
        query: "lines=10-15&theme=Nord".to_string(),
    };
    let card = compose(&variant, &SourceLocator::File(file()), "https://cards.example").unwrap();
    assert_eq!(
        card,
        CardMetadata {
            title: "run.rs · tools/octo@main".to_string(),
            description: "Lines 10-15 of run.rs from octo/tools@main".to_string(),
            canonical_url:
                "https://cards.example/octo/tools/blob/main/src/bin/run.rs?lines=10-15&theme=Nord"
                    .to_string(),
            image_or_video_ref:
                "https://cards.example/image/octo/tools/main/src/bin/run.rs?lines=10-15&theme=Nord"
                    .to_string(),
            mime: "image/png".to_string(),
            card_kind: CardKind::SummaryLargeImage,
        }
    );
}

#[test]
fn text_card_without_a_query() {
    let variant =
        ContentVariant::PlainText { range: ResolvedRange { from: 1, to: 25 }, query: String::new() };
    let card = compose(&variant, &SourceLocator::File(file()), "http://localhost:8080").unwrap();
    assert_eq!(card.description, "Lines 1-25 of run.rs from octo/tools@main");
    assert_eq!(card.canonical_url, "http://localhost:8080/octo/tools/blob/main/src/bin/run.rs");
    assert_eq!(
        card.image_or_video_ref,
        "http://localhost:8080/image/octo/tools/main/src/bin/run.rs?"
    );
}

#[test]
fn pixel_image_card_points_at_the_resource_itself() {
    let variant = ContentVariant::RasterImage {
        mime: "image/jpeg; q=0.9".to_string(),
        url: "https://raw.githubusercontent.com/octo/tools/main/src/bin/run.rs".to_string(),
    };
    let card = compose(&variant, &SourceLocator::File(file()), "https://cards.example").unwrap();
    assert_eq!(card.title, "run.rs · tools/octo@main");
    assert_eq!(card.description, "run.rs from octo/tools@main");
    assert_eq!(card.canonical_url, "https://cards.example/octo/tools/blob/main/src/bin/run.rs");
    assert_eq!(
        card.image_or_video_ref,
        "https://raw.githubusercontent.com/octo/tools/main/src/bin/run.rs"
    );
    assert_eq!(card.mime, "image/jpeg; q=0.9");
    assert_eq!(card.card_kind, CardKind::SummaryLargeImage);
}

#[test]
fn vector_image_card_points_at_the_rendering() {
    let card = compose(
        &ContentVariant::VectorImage,
        &SourceLocator::File(file()),
        "https://cards.example",
    )
    .unwrap();
    assert_eq!(card.description, "run.rs from octo/tools@main");
    assert_eq!(card.image_or_video_ref, "https://cards.example/image/octo/tools/main/src/bin/run.rs");
    assert_eq!(card.mime, "image/png");
    assert_eq!(card.card_kind, CardKind::SummaryLargeImage);
}

#[test]
fn video_card_is_a_player() {
    let variant = ContentVariant::Video {
        mime: "video/mp4".to_string(),
        url: "https://raw.githubusercontent.com/octo/tools/main/src/bin/run.rs".to_string(),
    };
    let card = compose(&variant, &SourceLocator::File(file()), "https://cards.example").unwrap();
    assert_eq!(card.card_kind, CardKind::Player);
    assert_eq!(
        card.image_or_video_ref,
        "https://cards.example/video-embed/octo/tools/main/src/bin/run.rs"
    );
    assert_eq!(card.mime, "video/mp4");
    assert_eq!(card.description, "run.rs from octo/tools@main");
}

#[test]
fn unsupported_content_has_no_card() {
    assert_eq!(
        compose(&ContentVariant::Unsupported, &SourceLocator::File(file()), "https://cards.example"),
        Err(PreviewError::UpstreamUnsupportedType)
    );
    assert_eq!(
        compose(&ContentVariant::Unsupported, &SourceLocator::Gist(gist()), "https://cards.example"),
        Err(PreviewError::UpstreamUnsupportedType)
    );
}

#[test]
fn json_sends_the_caller_on() {
    let window = ResolvedRange { from: 1, to: 25 };
    let variant = resolve_variant("application/json", window, "", "https://example.org/raw");
    assert_eq!(variant, ContentVariant::Unsupported);
    let refusal = compose(&variant, &SourceLocator::File(file()), "https://cards.example")
        .unwrap_err();
    assert_eq!(recover(refusal, Endpoint::Metadata), Recovery::Redirect);
}

#[test]
fn gist_card_names_the_gist() {
    let variant = ContentVariant::PlainText {
        range: ResolvedRange { from: 3, to: 27 },
        query: "lines=3-".to_string(),
    };
    let card = compose(&variant, &SourceLocator::Gist(gist()), "https://cards.example").unwrap();
    assert_eq!(
        card,
        CardMetadata {
            title: "octo/abc123".to_string(),
            description: "Lines 3-27 of octo/abc123".to_string(),
            canonical_url: "https://cards.example/gist/octo/abc123?lines=3-".to_string(),
            image_or_video_ref: "https://cards.example/gist-image/octo/abc123?lines=3-".to_string(),
            mime: "image/png".to_string(),
            card_kind: CardKind::SummaryLargeImage,
        }
    );
}

#[test]
fn gist_that_is_not_text_has_no_card() {
    assert_eq!(
        compose(&ContentVariant::VectorImage, &SourceLocator::Gist(gist()), "https://cards.example"),
        Err(PreviewError::UpstreamUnsupportedType)
    );
}

#[test]
fn addresses_are_built_from_the_locator() {
    assert_eq!(
        parse_blob_code_uri(&file()),
        Ok("https://github.com/octo/tools/blob/main/src/bin/run.rs".to_string())
    );
    assert_eq!(
        parse_raw_code_uri(&file()),
        Ok("https://raw.githubusercontent.com/octo/tools/main/src/bin/run.rs".to_string())
    );
    assert_eq!(
        parse_raw_gist_code_uri(&gist()),
        Ok("https://gist.githubusercontent.com/octo/abc123/raw".to_string())
    );
}

#[test]
fn locator_that_makes_no_address_is_refused() {
    let mut spaced = file();
    spaced.path = "my file.rs".to_string();
    assert_eq!(parse_raw_code_uri(&spaced), Err(LocatorError::InvalidUri));
    assert_eq!(parse_blob_code_uri(&spaced), Err(LocatorError::InvalidUri));
    let odd = GistPath { author: "oc to".to_string(), id: "1".to_string() };
    assert_eq!(parse_raw_gist_code_uri(&odd), Err(LocatorError::InvalidUri));
}

#[test]
fn paths_are_laid_out_by_the_locator() {
    assert_eq!(file().raw_path(), "/octo/tools/main/src/bin/run.rs");
    assert_eq!(file().blob_path(), "/octo/tools/blob/main/src/bin/run.rs");
    assert_eq!(gist().gist_path(), "/octo/abc123");
}
