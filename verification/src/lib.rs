//! Preview cards for files hosted on a code forge.
//!
//! The crate holds the decisions behind a link-preview service: which lines
//! of a remote file a request asks for, how those lines are cut out of a
//! chunked byte stream under a byte budget, how a declared media type selects
//! the kind of preview, and which metadata a preview card carries.

pub mod card;
pub mod config;
pub mod error;
pub mod extract;
pub mod lines;
pub mod locator;
pub mod range;
pub mod text;
pub mod variant;
