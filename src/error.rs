//! The failures that the core reports to its callers.
use vstd::prelude::*;

verus! {

/// Authentication and authorization failures.
#[derive(Clone, Copy, Debug, PartialEq, Eq, Structural)]
pub enum AuthError {
    /// The token is unknown or expired; the two cases are not told apart.
    InvalidOrExpiredToken,
    /// Unknown username or wrong password; the two cases are not told apart.
    BadCredentials,
    /// The role lacks permission for the resource and operation.
    Forbidden,
}

/// Failures of the storage collaborator.
#[derive(Clone, Copy, Debug, PartialEq, Eq, Structural)]
pub enum StorageError {
    Unavailable,
    NotFound,
}

/// Any failure of a request, in the categories that callers see.
#[derive(Clone, Copy, Debug, PartialEq, Eq, Structural)]
pub enum Failure {
    Auth(AuthError),
    Storage(StorageError),
    /// An internal fault (a schema or policy mismatch, a primitive that
    /// failed, a token conflict): a defect, never a client error.
    Internal,
}

pub open spec fn status_of(f: Failure) -> u16 {
    match f {
        Failure::Auth(AuthError::InvalidOrExpiredToken) => 401,
        Failure::Auth(AuthError::BadCredentials) => 401,
        Failure::Auth(AuthError::Forbidden) => 403,
        Failure::Storage(StorageError::NotFound) => 404,
        Failure::Storage(StorageError::Unavailable) => 500,
        Failure::Internal => 500,
    }
}

impl Failure {
    /// The transport status code of this failure.
    pub fn status(&self) -> (r: u16)
        ensures
            r == status_of(*self),
    {
        match self {
            Failure::Auth(AuthError::InvalidOrExpiredToken) => 401,
            Failure::Auth(AuthError::BadCredentials) => 401,
            Failure::Auth(AuthError::Forbidden) => 403,
            Failure::Storage(StorageError::NotFound) => 404,
            Failure::Storage(StorageError::Unavailable) => 500,
            Failure::Internal => 500,
        }
    }
}

} // verus!
