//! Errors returned by the library's own operations.
//!
//! Transient I/O failures (network, subprocesses, the filesystem) happen
//! outside this crate and never take these shapes; every variant here is a
//! content error or an invariant violation, and both kinds abandon the post.

use vstd::prelude::*;

verus! {

/// Why an operation of the library refused its input.
#[derive(Clone, Copy, Debug, PartialEq, Eq, Structural)]
pub enum AppError {
    /// A post with the given external id is not in the store.
    NoSuchPost,
    /// The remote API answered with zero records for a known id.
    ApiReturnedNoPost,
    /// The downloaded content is empty.
    EmptyPayload,
    /// The content's header bytes match no known format.
    UnknownFileType,
    /// The content's format is neither an image nor a video.
    UnsupportedFileType,
    /// The post already has a download record; it is written once, never updated.
    DownloadExists,
    /// A search query without any include term.
    EmptyQuery,
}

/// The coarse classes of §"error handling": content errors stay failed until
/// the remote content changes, invariant violations are treated the same way.
#[derive(Clone, Copy, Debug, PartialEq, Eq, Structural)]
pub enum ErrorClass {
    Content,
    InvariantViolation,
}

impl AppError {
    /// Which class an error falls in: malformed or unsupported content on one
    /// side, a broken expectation about the store or the remote API on the other.
    pub fn class(&self) -> (c: ErrorClass)
        ensures
            c == ErrorClass::Content <==> (self is EmptyPayload || self is UnknownFileType
                || self is UnsupportedFileType),
    {
        match self {
            AppError::EmptyPayload => ErrorClass::Content,
            AppError::UnknownFileType => ErrorClass::Content,
            AppError::UnsupportedFileType => ErrorClass::Content,
            AppError::NoSuchPost => ErrorClass::InvariantViolation,
            AppError::ApiReturnedNoPost => ErrorClass::InvariantViolation,
            AppError::DownloadExists => ErrorClass::InvariantViolation,
            AppError::EmptyQuery => ErrorClass::InvariantViolation,
        }
    }

    /// A human-readable description, in place of a `Display` implementation.
    pub fn message(&self) -> (m: &'static str)
        ensures
            m@.len() > 0,
    {
        let m = match self {
            AppError::NoSuchPost => "post not found in the store",
            AppError::ApiReturnedNoPost => "API did not return a post",
            AppError::EmptyPayload => "downloaded content is empty",
            AppError::UnknownFileType => "could not infer file type",
            AppError::UnsupportedFileType => "unsupported file type",
            AppError::DownloadExists => "post already has a download record",
            AppError::EmptyQuery => "search query has no include terms",
        };
        proof {
            reveal_strlit("post not found in the store");
            reveal_strlit("API did not return a post");
            reveal_strlit("downloaded content is empty");
            reveal_strlit("could not infer file type");
            reveal_strlit("unsupported file type");
            reveal_strlit("post already has a download record");
            reveal_strlit("search query has no include terms");
        }
        m
    }
}

} // verus!
