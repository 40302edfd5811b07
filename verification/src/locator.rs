//! Where a resource lives on the forge, and the addresses derived from it.

use vstd::prelude::*;
use vstd::string::StringExecFns;

verus! {

/// A file of a repository at a branch.
#[derive(Clone, Debug, PartialEq, Eq)]
pub struct SrcPath {
    pub author: String,
    pub repository: String,
    pub branch: String,
    pub path: String,
}

/// A gist of an author.
#[derive(Clone, Debug, PartialEq, Eq)]
pub struct GistPath {
    pub author: String,
    pub id: String,
}

/// The identity of a remote resource.
#[derive(Clone, Debug, PartialEq, Eq)]
pub enum SourceLocator {
    File(SrcPath),
    Gist(GistPath),
}

/// Why no address could be made for a locator.
#[derive(Clone, Copy, Debug, PartialEq, Eq)]
pub enum LocatorError {
    /// The parts of the locator do not make up a valid address.
    InvalidUri,
}

/// A file locator as plain text.
pub struct SrcPathView {
    pub author: Seq<char>,
    pub repository: Seq<char>,
    pub branch: Seq<char>,
    pub path: Seq<char>,
}

/// A gist locator as plain text.
pub struct GistPathView {
    pub author: Seq<char>,
    pub id: Seq<char>,
}

/// A locator as plain text.
pub enum SourceLocatorView {
    File(SrcPathView),
    Gist(GistPathView),
}

impl View for SrcPath {
    type V = SrcPathView;

    open spec fn view(&self) -> SrcPathView {
        SrcPathView {
            author: self.author@,
            repository: self.repository@,
            branch: self.branch@,
            path: self.path@,
        }
    }
}

impl View for GistPath {
    type V = GistPathView;

    open spec fn view(&self) -> GistPathView {
        GistPathView { author: self.author@, id: self.id@ }
    }
}

impl View for SourceLocator {
    type V = SourceLocatorView;

    open spec fn view(&self) -> SourceLocatorView {
        match self {
            SourceLocator::File(file) => SourceLocatorView::File(file@),
            SourceLocator::Gist(gist) => SourceLocatorView::Gist(gist@),
        }
    }
}

/// The host that serves the pages of the forge.
pub open spec fn page_host() -> Seq<char> {
    "github.com"@
}

/// The host that serves the raw content of files.
pub open spec fn raw_host() -> Seq<char> {
    "raw.githubusercontent.com"@
}

/// The host that serves the raw content of gists.
pub open spec fn gist_host() -> Seq<char> {
    "gist.githubusercontent.com"@
}

/// The path of a file below its host: `/author/repository/branch/path`.
pub open spec fn raw_path(file: SrcPathView) -> Seq<char> {
    "/"@ + file.author + "/"@ + file.repository + "/"@ + file.branch + "/"@ + file.path
}

/// The path of the page that shows a file:
/// `/author/repository/blob/branch/path`.
pub open spec fn blob_path(file: SrcPathView) -> Seq<char> {
    "/"@ + file.author + "/"@ + file.repository + "/blob/"@ + file.branch + "/"@ + file.path
}

/// The path of the raw content of a gist: `/author/id/raw`.
pub open spec fn raw_gist_path(gist: GistPathView) -> Seq<char> {
    "/"@ + gist.author + "/"@ + gist.id + "/raw"@
}

/// The path under which a gist is named: `/author/id`.
pub open spec fn gist_path(gist: GistPathView) -> Seq<char> {
    "/"@ + gist.author + "/"@ + gist.id
}

/// The text of the address that the address builder makes of a scheme, a
/// host and a path with its query, or nothing where it refuses them.
pub uninterp spec fn uri_text(scheme: Seq<char>, authority: Seq<char>, path_and_query: Seq<char>) -> Option<Seq<char>>;

/// The error of the address builder of `actix_web::http`. It is carried
/// through unread.
#[verifier::external_type_specification]
#[verifier::external_body]
pub struct ExHttpError(actix_web::error::HttpError);

/// Calls `Uri::builder()` of `actix_web::http` with the given scheme, host
/// and path with query, builds the address and writes it out with the
/// address's `Display`. The contract only names the outcome: the text for
/// parts that the builder accepts, an error for parts that it refuses. The
/// same parts always give the same outcome.
#[verifier::external_body]
fn build_uri(scheme: &str, authority: &str, path_and_query: &str) -> (built: Result<
    String,
    actix_web::error::HttpError,
>)
    ensures
        match built {
            Ok(text) => uri_text(scheme@, authority@, path_and_query@) == Some(text@),
            Err(_) => uri_text(scheme@, authority@, path_and_query@) is None,
        },
{
    let built = actix_web::http::Uri::builder()
        .scheme(scheme)
        .authority(authority)
        .path_and_query(path_and_query)
        .build();
    match built {
        Ok(uri) => Ok(uri.to_string()),
        Err(error) => Err(error),
    }
}

/// The `https` address that the address builder makes of a host and a path
/// with its query, or nothing where it refuses them.
pub open spec fn https_uri(authority: Seq<char>, path_and_query: Seq<char>) -> Option<Seq<char>> {
    uri_text("https"@, authority, path_and_query)
}

/// What an address request comes to, given what the builder made of it: the
/// address that it made, or `InvalidUri` where it made none.
pub open spec fn address(built: Option<Seq<char>>, result: Result<String, LocatorError>) -> bool {
    match built {
        Some(text) => result matches Ok(uri) && uri@ == text,
        None => result == Err::<String, LocatorError>(LocatorError::InvalidUri),
    }
}

/// The `https` address of a path on a host.
fn https_address(authority: &str, path_and_query: &str) -> (result: Result<String, LocatorError>)
    ensures
        address(https_uri(authority@, path_and_query@), result),
{
    match build_uri("https", authority, path_and_query) {
        Ok(text) => Ok(text),
        Err(_) => Err(LocatorError::InvalidUri),
    }
}

impl SrcPath {
    /// The path of the file below its host.
    pub fn raw_path(&self) -> (path: String)
        ensures
            path@ == raw_path(self@),
    {
        let mut path = String::from_str("/");
        path.append(self.author.as_str());
        path.append("/");
        path.append(self.repository.as_str());
        path.append("/");
        path.append(self.branch.as_str());
        path.append("/");
        path.append(self.path.as_str());
        path
    }

    /// The path of the page that shows the file.
    pub fn blob_path(&self) -> (path: String)
        ensures
            path@ == blob_path(self@),
    {
        let mut path = String::from_str("/");
        path.append(self.author.as_str());
        path.append("/");
        path.append(self.repository.as_str());
        path.append("/blob/");
        path.append(self.branch.as_str());
        path.append("/");
        path.append(self.path.as_str());
        path
    }
}

impl GistPath {
    /// The path under which the gist is named.
    pub fn gist_path(&self) -> (path: String)
        ensures
            path@ == gist_path(self@),
    {
        let mut path = String::from_str("/");
        path.append(self.author.as_str());
        path.append("/");
        path.append(self.id.as_str());
        path
    }
}

/// The address of the page that shows a file, or `InvalidUri` where the parts
/// of the locator make up no valid address.
pub fn parse_blob_code_uri(path: &SrcPath) -> (result: Result<String, LocatorError>)
    ensures
        address(https_uri(page_host(), blob_path(path@)), result),
{
    https_address("github.com", path.blob_path().as_str())
}

/// The address of the raw content of a file, or `InvalidUri` where the parts
/// of the locator make up no valid address.
pub fn parse_raw_code_uri(path: &SrcPath) -> (result: Result<String, LocatorError>)
    ensures
        address(https_uri(raw_host(), raw_path(path@)), result),
{
    https_address("raw.githubusercontent.com", path.raw_path().as_str())
}

/// The address of the raw content of a gist, or `InvalidUri` where the parts
/// of the locator make up no valid address.
pub fn parse_raw_gist_code_uri(path: &GistPath) -> (result: Result<String, LocatorError>)
    ensures
        address(https_uri(gist_host(), raw_gist_path(path@)), result),
{
    let mut raw = path.gist_path();
    raw.append("/raw");
    https_address("gist.githubusercontent.com", raw.as_str())
}

} // verus!
