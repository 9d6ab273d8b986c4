//! The failure taxonomy of the service and its translation to HTTP
//! status codes and user-facing messages.

use vstd::prelude::*;

verus! {

/// Everything that can go wrong while serving a request.
#[derive(Debug)]
pub enum Error {
    /// The persistence layer failed (constraint violation, connectivity, ...).
    StorageFailure(String),
    /// The lock guarding the shared storage connection was poisoned.
    LockFailure(String),
    /// No live record exists for the requested identifier.
    NotFound,
    /// Symbol or image encoding failed.
    RenderFailure(String),
    /// The request carried malformed or out-of-range input.
    BadRequest(String),
}

impl Error {
    /// The HTTP status each failure translates to: 404 for a missing
    /// record, 400 for bad input, 500 for everything else.
    pub open spec fn spec_http_status(&self) -> u16 {
        match self {
            Error::NotFound => 404,
            Error::BadRequest(_) => 400,
            Error::StorageFailure(_) => 500,
            Error::LockFailure(_) => 500,
            Error::RenderFailure(_) => 500,
        }
    }

    /// The user-facing message carried by the failure.
    pub open spec fn spec_message(&self) -> Seq<char> {
        match self {
            Error::StorageFailure(m) => m@,
            Error::LockFailure(m) => m@,
            Error::NotFound => "not found"@,
            Error::RenderFailure(m) => m@,
            Error::BadRequest(m) => m@,
        }
    }

    pub fn http_status(&self) -> (s: u16)
        ensures
            s == self.spec_http_status(),
    {
        match self {
            Error::NotFound => 404,
            Error::BadRequest(_) => 400,
            Error::StorageFailure(_) => 500,
            Error::LockFailure(_) => 500,
            Error::RenderFailure(_) => 500,
        }
    }

    pub fn message(&self) -> (m: String)
        ensures
            m@ == self.spec_message(),
    {
        match self {
            Error::StorageFailure(m) => m.clone(),
            Error::LockFailure(m) => m.clone(),
            Error::NotFound => "not found".to_owned(),
            Error::RenderFailure(m) => m.clone(),
            Error::BadRequest(m) => m.clone(),
        }
    }
}

} // verus!
