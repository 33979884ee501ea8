//! The library's errors.

use vstd::prelude::*;

verus! {

/// What can go wrong while serving records.
#[derive(Debug, Clone, PartialEq, Eq)]
pub enum Error {
    /// No live record has this slug: it never existed, expired or was used up.
    NotFound(String),
    /// A file upload was malformed.
    FileUpload(String),
    /// A paste upload was malformed, or not UTF-8.
    PasteCreation(String),
    /// A url was malformed, or its scheme or host is not accepted.
    UrlCreation(String),
    /// The library's own logic failed: a slug could not be allocated.
    Intrinsics(String),
    /// The configuration is invalid.
    Config(String),
    /// The configured retention ages are inverted.
    Retention(crate::retention::Error),
    /// A filesystem operation failed.
    IO(String),
    /// The backing store could not be queried.
    Redis(String),
    /// A stored record could not be decoded.
    SerDe(String),
}

/// The HTTP status of a response to a request that failed with `e`: the
/// caller's mistakes are 4xx, an unreachable store is 503, the rest 500.
pub open spec fn status_of(e: Error) -> u16 {
    match e {
        Error::NotFound(_) => 404,
        Error::FileUpload(_) | Error::PasteCreation(_) | Error::UrlCreation(_) => 422,
        Error::Redis(_) => 503,
        _ => 500,
    }
}

impl Error {
    /// The HTTP status of a response to a request that failed with this error.
    pub fn status(&self) -> (r: u16)
        ensures
            r == status_of(*self),
    {
        match self {
            Error::NotFound(_) => 404,
            Error::FileUpload(_) | Error::PasteCreation(_) | Error::UrlCreation(_) => 422,
            Error::Redis(_) => 503,
            _ => 500,
        }
    }
}

} // verus!
