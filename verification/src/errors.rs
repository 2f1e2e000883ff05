//! The error taxonomy shared by every component of the pipeline.

use vstd::prelude::*;

verus! {

/// Application-level failure classification. `BadRequest` covers malformed
/// input and illegal transition attempts, `NotFound` a missing entity, and
/// `Internal` wraps storage, network or ledger failures.
#[derive(Debug)]
pub enum AppError {
    BadRequest(String),
    UnAuthenticate,
    Forbidden,
    NotFound,
    Internal(String),
}

impl AppError {
    pub fn is_not_found(&self) -> (r: bool)
        ensures
            r == (*self is NotFound),
    {
        match self {
            AppError::NotFound => true,
            _ => false,
        }
    }
}

pub type AppResult<T> = Result<T, AppError>;

} // verus!
