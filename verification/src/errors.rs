//! Error taxonomy of the pipeline.
//!
//! A catalog-level failure is fatal: nothing can be downloaded. Everything
//! else is scoped to one descriptor or one task, is recorded in the batch
//! report, and never aborts sibling tasks.

use vstd::prelude::*;

verus! {

/// Why a single fetch failed. The fetcher performs one GET and classifies
/// its failure; no retries happen at this level.
#[derive(Clone, Copy, PartialEq, Eq, Structural, Debug)]
pub enum FetchError {
    /// Connection, DNS resolution, or timeout failure before any response.
    Network,
    /// The server answered with a non-success HTTP status code.
    HttpStatus(u16),
    /// The response body could not be read to the end.
    BodyRead,
}

/// Why a whole download task failed: either its fetch failed, or the local
/// directory could not be created or the file not written.
#[derive(Clone, Copy, PartialEq, Eq, Structural, Debug)]
pub enum DownloadErrorKind {
    Network,
    HttpStatus(u16),
    BodyRead,
    Filesystem,
}

/// Why no catalog tree is available: the batch cannot proceed without one.
#[derive(Clone, Copy, PartialEq, Eq, Structural, Debug)]
pub enum CatalogError {
    /// The catalog document could not be retrieved at all.
    FetchFailed,
    /// The retrieved document is not well-formed JSON.
    Malformed,
}

/// A resource URL from which no storage path can be derived.
#[derive(Clone, Copy, PartialEq, Eq, Structural, Debug)]
pub struct MalformedResourceUrl;

/// True exactly for the status codes that count as success: `2xx`.
pub open spec fn is_success_status(code: u16) -> bool {
    200 <= code < 300
}

/// Classifies an HTTP status code: `None` for a success status, otherwise
/// the `HttpStatus` failure carrying the code.
pub fn classify_status(code: u16) -> (r: Option<FetchError>)
    ensures
        r is None <==> is_success_status(code),
        !is_success_status(code) ==> r == Some(FetchError::HttpStatus(code)),
{
    if 200 <= code && code < 300 {
        None
    } else {
        Some(FetchError::HttpStatus(code))
    }
}

impl FetchError {
    /// The task-level error kind recording this fetch failure.
    pub fn to_download_kind(&self) -> (r: DownloadErrorKind)
        ensures
            r == match *self {
                FetchError::Network => DownloadErrorKind::Network,
                FetchError::HttpStatus(code) => DownloadErrorKind::HttpStatus(code),
                FetchError::BodyRead => DownloadErrorKind::BodyRead,
            },
    {
        match self {
            FetchError::Network => DownloadErrorKind::Network,
            FetchError::HttpStatus(code) => DownloadErrorKind::HttpStatus(*code),
            FetchError::BodyRead => DownloadErrorKind::BodyRead,
        }
    }
}

} // verus!
