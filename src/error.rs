//! Failures reported to the boundary handlers.
use vstd::prelude::*;

verus! {

/// Why a request was refused.
#[derive(Clone, Copy, Debug, PartialEq, Eq, Structural)]
pub enum ErrorKind {
    /// The request does not apply to what it names (a message of another
    /// kind, another author's message, empty content).
    BadRequest,
    /// Missing or invalid identity.
    Unauthorized,
    /// Identity valid, authorization denied.
    Forbidden,
    /// A referenced user, channel or role is absent.
    NotFound,
    /// The record store could not be read; the caller may retry.
    StoreUnavailable,
}

/// The HTTP status that stands for `kind`.
pub open spec fn status_of(kind: ErrorKind) -> u16 {
    match kind {
        ErrorKind::BadRequest => 400,
        ErrorKind::Unauthorized => 401,
        ErrorKind::Forbidden => 403,
        ErrorKind::NotFound => 404,
        ErrorKind::StoreUnavailable => 500,
    }
}

impl ErrorKind {
    /// The HTTP status code that reports this failure.
    pub fn status_code(&self) -> (r: u16)
        ensures
            r == status_of(*self),
    {
        match self {
            ErrorKind::BadRequest => 400,
            ErrorKind::Unauthorized => 401,
            ErrorKind::Forbidden => 403,
            ErrorKind::NotFound => 404,
            ErrorKind::StoreUnavailable => 500,
        }
    }
}

} // verus!
