//! The portable worker role: bounded expiry and dispatch batches.

use crate::authorization::AuthorizationFailure;
use crate::mutations::DomainFailure;
use vstd::prelude::*;

verus! {

pub const CAPABILITY_ID: &'static str = "lenso.organization-invitation-worker@1";

pub const DISPATCH_DUE_OPERATION: &'static str = "dispatch_due";

pub const EXPIRE_DUE_OPERATION: &'static str = "expire_due";

/// Why a worker operation is refused.
#[derive(Clone, Copy, Debug, PartialEq, Eq, Structural)]
pub enum WorkerError {
    Unauthenticated,
    Forbidden,
    InvalidRequest,
    IdempotencyConflict,
}

impl WorkerError {
    pub open spec fn of_authorization(failure: AuthorizationFailure) -> WorkerError {
        match failure {
            AuthorizationFailure::Forbidden => WorkerError::Forbidden,
            AuthorizationFailure::Unauthenticated => WorkerError::Unauthenticated,
            AuthorizationFailure::InvalidRequest => WorkerError::InvalidRequest,
        }
    }

    /// The answer for a worker call that is not authorized.
    pub fn from_authorization(failure: AuthorizationFailure) -> (error: Self)
        ensures
            error == WorkerError::of_authorization(failure),
    {
        match failure {
            AuthorizationFailure::Forbidden => WorkerError::Forbidden,
            AuthorizationFailure::Unauthenticated => WorkerError::Unauthenticated,
            AuthorizationFailure::InvalidRequest => WorkerError::InvalidRequest,
        }
    }

    /// The answer for a batch whose start is refused: only its idempotency key can be at fault.
    pub fn from_storage(_failure: DomainFailure) -> (error: Self)
        ensures
            error == WorkerError::IdempotencyConflict,
    {
        WorkerError::IdempotencyConflict
    }
}

} // verus!
