//! Error kinds reported by the upload subsystem.

use vstd::prelude::*;

verus! {

/// Why a chunk request was refused.
///
/// Every failure is reported synchronously to the caller of the request
/// that triggered it; the library never retries.
#[derive(Clone, Copy, Debug, PartialEq, Eq, Structural)]
pub enum UploadError {
    /// The request's chunk metadata is bad or missing: no file part, an
    /// empty file name, a chunk index or total that is absent or not a
    /// decimal number, a zero total, or an index at or past the total.
    MalformedRequest,
    /// A chunk with index greater than zero arrived for a file that has no
    /// open session: either chunk zero was never sent or the session was
    /// already finalized.
    SessionNotFound,
    /// The destination file cannot be used: the file identifier names a
    /// path outside the upload directory.
    StorageError,
}

impl UploadError {
    /// A short plain-text description, suitable for an HTTP error body.
    pub fn message(&self) -> (r: &'static str)
        ensures
            *self is MalformedRequest ==> r@ == "malformed upload request"@,
            *self is SessionNotFound ==> r@ == "no open upload session for this file"@,
            *self is StorageError ==> r@ == "invalid destination for upload"@,
    {
        match self {
            UploadError::MalformedRequest => "malformed upload request",
            UploadError::SessionNotFound => "no open upload session for this file",
            UploadError::StorageError => "invalid destination for upload",
        }
    }
}

} // verus!
