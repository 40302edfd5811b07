//! What can go wrong while a preview is made, and what is done about it.
//! No failure ends the service: each is answered at the request it belongs
//! to, and nothing is tried a second time.

use vstd::prelude::*;
use vstd::utf8::{decode_utf8, valid_utf8};

verus! {

/// A failure on the way to a preview.
#[derive(Clone, Copy, Debug, PartialEq, Eq, Structural)]
pub enum PreviewError {
    /// The range query is none of `from-to`, `from-` and `from`: it holds
    /// more than one separator, so that no part of it is the lower bound.
    InvalidRangeFormat,
    /// The resource could not be reached.
    UpstreamFetchError,
    /// The resource is of a media type that has no preview.
    UpstreamUnsupportedType,
    /// The bytes cut out of the resource are not text.
    DecodeError,
}

/// What a request asks for.
#[derive(Clone, Copy, Debug, PartialEq, Eq, Structural)]
pub enum Endpoint {
    /// The rendered image itself.
    Image,
    /// The page that carries the card.
    Metadata,
}

/// How a failure is answered.
#[derive(Clone, Copy, Debug, PartialEq, Eq, Structural)]
pub enum Recovery {
    /// The request is refused as the client's mistake.
    ClientError,
    /// The request goes on with the default range.
    DefaultRange,
    /// The client is sent on to the page on the forge.
    Redirect,
    /// The answer says that the content is not available.
    ContentUnavailable,
}

/// How each failure is answered at each endpoint. A malformed range is the
/// client's mistake where the image is asked for and is passed over where
/// the card is; a resource that cannot be reached or has no preview sends
/// the client on; bytes that are not text leave the content unavailable.
pub open spec fn recovery_of(error: PreviewError, endpoint: Endpoint) -> Recovery {
    match error {
        PreviewError::InvalidRangeFormat => match endpoint {
            Endpoint::Image => Recovery::ClientError,
            Endpoint::Metadata => Recovery::DefaultRange,
        },
        PreviewError::UpstreamFetchError => Recovery::Redirect,
        PreviewError::UpstreamUnsupportedType => Recovery::Redirect,
        PreviewError::DecodeError => Recovery::ContentUnavailable,
    }
}

/// Decides how a failure is answered at an endpoint.
pub fn recover(error: PreviewError, endpoint: Endpoint) -> (recovery: Recovery)
    ensures
        recovery == recovery_of(error, endpoint),
{
    match error {
        PreviewError::InvalidRangeFormat => match endpoint {
            Endpoint::Image => Recovery::ClientError,
            Endpoint::Metadata => Recovery::DefaultRange,
        },
        PreviewError::UpstreamFetchError => Recovery::Redirect,
        PreviewError::UpstreamUnsupportedType => Recovery::Redirect,
        PreviewError::DecodeError => Recovery::ContentUnavailable,
    }
}

/// Calls `String::from_utf8`. Its documentation says that it returns the
/// bytes as a string where they are valid UTF-8, without changing them, and
/// an error where they are not.
#[verifier::external_body]
fn string_from_utf8(bytes: Vec<u8>) -> (text: Option<String>)
    ensures
        text is Some <==> valid_utf8(bytes@),
        text matches Some(s) ==> s@ == decode_utf8(bytes@),
{
    match String::from_utf8(bytes) {
        Ok(text) => Some(text),
        Err(_) => None,
    }
}

/// Reads extracted bytes as text. Bytes that are not valid UTF-8 are a
/// `DecodeError`, never a crash.
pub fn decode_text(bytes: Vec<u8>) -> (result: Result<String, PreviewError>)
    ensures
        valid_utf8(bytes@) ==> (result matches Ok(text) && text@ == decode_utf8(bytes@)),
        !valid_utf8(bytes@) ==> result == Err::<String, PreviewError>(PreviewError::DecodeError),
{
    match string_from_utf8(bytes) {
        Some(text) => Ok(text),
        None => Err(PreviewError::DecodeError),
    }
}

} // verus!
