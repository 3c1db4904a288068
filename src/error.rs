//! Why a source could not be opened, listed or read.
use vstd::prelude::*;

verus! {

#[derive(Debug, PartialEq, Eq)]
pub enum ConnectorError {
    /// The root directory does not exist.
    RootNotFound,
    /// The bytes do not parse as a zip archive.
    InvalidArchive,
    /// No archive entry has the requested name.
    EntryNotFound,
    /// The archive entry could not be read as UTF-8 text.
    EntryUnreadable,
    /// The URL does not have the shape `https://<host>/<owner>/<repo>`.
    InvalidUrl,
    /// The remote answered 404 and names the repository as missing.
    RepositoryNotFound,
    /// The remote answered 404 for a path inside the repository.
    PathNotFound,
    /// The remote answered 403 because its quota is spent; a token raises it.
    RateLimited,
    /// The remote answered 403 for another reason, such as a private repository.
    AccessDenied,
    /// Any other unsuccessful answer of the remote.
    Api { status: u16, body: String },
    /// A successful answer whose body is not the JSON that was expected.
    InvalidResponse,
    /// A file answer without a `content` text field.
    NoContent,
    /// The `content` field is not valid base64.
    InvalidEncoding,
    /// The decoded content is not valid UTF-8.
    InvalidUtf8,
    /// The remote tree walk found no file at all.
    NoFiles,
}

} // verus!
