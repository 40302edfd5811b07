use gitcard::config::Options;
use gitcard::error::{decode_text, recover, Endpoint, PreviewError, Recovery};

#[test]
fn malformed_range_fails_an_image_request_only() {
    assert_eq!(recover(PreviewError::InvalidRangeFormat, Endpoint::Image), Recovery::ClientError);
    assert_eq!(recover(PreviewError::InvalidRangeFormat, Endpoint::Metadata), Recovery::DefaultRange);
}

#[test]
fn upstream_failures_redirect() {
    for endpoint in [Endpoint::Image, Endpoint::Metadata] {
        assert_eq!(recover(PreviewError::UpstreamFetchError, endpoint), Recovery::Redirect);
        assert_eq!(recover(PreviewError::UpstreamUnsupportedType, endpoint), Recovery::Redirect);
        assert_eq!(recover(PreviewError::DecodeError, endpoint), Recovery::ContentUnavailable);
    }
}

#[test]
fn text_is_decoded() {
    assert_eq!(decode_text(b"fn main() {}\n".to_vec()), Ok("fn main() {}\n".to_string()));
    assert_eq!(decode_text("größe → 3".as_bytes().to_vec()), Ok("größe → 3".to_string()));
    assert_eq!(decode_text(Vec::new()), Ok(String::new()));
}

#[test]
fn bytes_that_are_not_text_are_a_decode_error() {
    assert_eq!(decode_text(vec![0xff, 0xfe]), Err(PreviewError::DecodeError));
    assert_eq!(decode_text(vec![b'a', 0xc3]), Err(PreviewError::DecodeError));
    assert_eq!(decode_text(vec![0xed, 0xa0, 0x80]), Err(PreviewError::DecodeError));
}

#[test]
fn default_settings() {
    let options = Options::default();
    assert_eq!(options.port, 8080);
    assert_eq!(options.origin, "http://localhost:8080");
    assert_eq!(options.max_download_bytes, 50 * 1024 * 1024);
    assert_eq!(options.max_code_lines, 25);
    assert_eq!(Options::configured(None, None, None, None), options);
}

#[test]
fn settings_are_read_from_text() {
    let options =
        Options::configured(Some("9000"), Some("https://cards.example"), Some("1024"), Some("40"));
    assert_eq!(
        options,
        Options {
            port: 9000,
            origin: "https://cards.example".to_string(),
            max_download_bytes: 1024,
            max_code_lines: 40,
        }
    );
}

#[test]
fn unreadable_settings_fall_back_to_the_defaults() {
    let options = Options::configured(Some("65536"), None, Some("lots"), Some("-3"));
    assert_eq!(options, Options::default());
    let edge = Options::configured(Some("65535"), None, Some("4294967296"), Some(""));
    assert_eq!(edge.port, 65535);
    assert_eq!(edge.max_download_bytes, 50 * 1024 * 1024);
    assert_eq!(edge.max_code_lines, 25);
}
