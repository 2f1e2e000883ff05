//! The API-facing view of the library: the error code taxonomy the API
//! layer serializes, and the input and output shapes of its schema.

pub mod inputs;
pub mod outputs;

use crate::errors::AppError;
use vstd::prelude::*;

verus! {

/// The error code the API layer reports for a failure.
#[derive(PartialEq, Eq, Structural, Clone, Copy, Debug)]
pub enum FieldErrorCode {
    BadRequest,
    UnAuthenticate,
    NotFound,
    Forbidden,
    Internal,
}

/// An application error paired with its API error code.
pub struct FieldErrorWithCode {
    pub err: AppError,
    pub code: FieldErrorCode,
}

/// The code each error maps to.
pub open spec fn code_of(err: AppError) -> FieldErrorCode {
    match err {
        AppError::BadRequest(_) => FieldErrorCode::BadRequest,
        AppError::UnAuthenticate => FieldErrorCode::UnAuthenticate,
        AppError::Forbidden => FieldErrorCode::Forbidden,
        AppError::NotFound => FieldErrorCode::NotFound,
        AppError::Internal(_) => FieldErrorCode::Internal,
    }
}

impl FieldErrorWithCode {
    /// Pairs an error with its code.
    pub fn from(err: AppError) -> (r: Self)
        ensures
            r.err == err,
            r.code == code_of(err),
    {
        let code = match &err {
            AppError::BadRequest(_) => FieldErrorCode::BadRequest,
            AppError::UnAuthenticate => FieldErrorCode::UnAuthenticate,
            AppError::Forbidden => FieldErrorCode::Forbidden,
            AppError::NotFound => FieldErrorCode::NotFound,
            AppError::Internal(_) => FieldErrorCode::Internal,
        };
        FieldErrorWithCode { err, code }
    }
}

/// The work status as the API schema exposes it.
#[derive(PartialEq, Eq, Structural, Clone, Copy, Debug)]
pub enum WorkStatus {
    Prepare,
    PublishNFT,
    SellOrder,
}

impl WorkStatus {
    /// The domain status this schema value denotes.
    pub fn domain(&self) -> (r: crate::domain::work::WorkStatus)
        ensures
            r == self.domain_spec(),
    {
        match self {
            WorkStatus::Prepare => crate::domain::work::WorkStatus::Prepare,
            WorkStatus::PublishNFT => crate::domain::work::WorkStatus::PublishNFT,
            WorkStatus::SellOrder => crate::domain::work::WorkStatus::SellOrder,
        }
    }

    pub open spec fn domain_spec(self) -> crate::domain::work::WorkStatus {
        match self {
            WorkStatus::Prepare => crate::domain::work::WorkStatus::Prepare,
            WorkStatus::PublishNFT => crate::domain::work::WorkStatus::PublishNFT,
            WorkStatus::SellOrder => crate::domain::work::WorkStatus::SellOrder,
        }
    }

    /// The schema value for a domain status.
    pub fn from(data: crate::domain::work::WorkStatus) -> (r: Self)
        ensures
            r.domain_spec() == data,
    {
        match data {
            crate::domain::work::WorkStatus::Prepare => WorkStatus::Prepare,
            crate::domain::work::WorkStatus::PublishNFT => WorkStatus::PublishNFT,
            crate::domain::work::WorkStatus::SellOrder => WorkStatus::SellOrder,
        }
    }
}

} // verus!
