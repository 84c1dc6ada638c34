//! The portable invitation role: its identity, its operations and their requests and errors.

use crate::authorization::AuthorizationFailure;
use crate::mutations::DomainFailure;
use vstd::prelude::*;
use vstd::string::*;

verus! {

pub const CAPABILITY_ID: &'static str = "lenso.organization-invitation@1";

pub const DESCRIPTOR_VERSION: &'static str = "1.0.0";

pub const ACCEPT_OPERATION: &'static str = "accept";

pub const GET_INVITATION_OPERATION: &'static str = "get_invitation";

pub const INVITE_OPERATION: &'static str = "invite";

pub const LIST_INVITATIONS_OPERATION: &'static str = "list_invitations";

pub const RESEND_OPERATION: &'static str = "resend";

pub const REVOKE_OPERATION: &'static str = "revoke";

/// A request to accept an invitation with its single-use token.
pub struct AcceptRequest {
    pub expected_revision: String,
    pub idempotency_key: String,
    pub invitation_id: String,
    pub token: String,
}

/// The quoted and escaped form of a text that `Debug` of `str` writes.
pub uninterp spec fn quoted_text(text: Seq<char>) -> Seq<char>;

/// `Debug` of `str`: the text in quotes, with its special characters escaped.
#[verifier::external_body]
fn quote(text: &str) -> (quoted: String)
    ensures
        quoted@ == quoted_text(text@),
{
    format!("{text:?}")
}

/// How an acceptance request is logged: every field but the token, which is never shown.
pub open spec fn redacted_accept(
    expected_revision: Seq<char>,
    idempotency_key: Seq<char>,
    invitation_id: Seq<char>,
) -> Seq<char> {
    "AcceptRequest { expected_revision: "@ + quoted_text(expected_revision)
        + ", idempotency_key: "@ + quoted_text(idempotency_key) + ", invitation_id: "@
        + quoted_text(invitation_id) + ", token: \"<redacted>\" }"@
}

impl AcceptRequest {
    /// The request for logs and diagnostics. The token has no influence on the text.
    pub fn debug_text(&self) -> (text: String)
        ensures
            text@ == redacted_accept(
                self.expected_revision@,
                self.idempotency_key@,
                self.invitation_id@,
            ),
    {
        let mut text = "AcceptRequest { expected_revision: ".to_owned();
        text.append(quote(self.expected_revision.as_str()).as_str());
        text.append(", idempotency_key: ");
        text.append(quote(self.idempotency_key.as_str()).as_str());
        text.append(", invitation_id: ");
        text.append(quote(self.invitation_id.as_str()).as_str());
        text.append(", token: \"<redacted>\" }");
        text
    }
}

/// Why a management operation is refused.
#[derive(Clone, Copy, Debug, PartialEq, Eq, Structural)]
pub enum ManagementError {
    Unauthenticated,
    Forbidden,
    InvalidRequest,
    OrganizationNotFound,
    OrganizationInactive,
    InvitationNotFound,
    InvitationExists,
    RevisionConflict,
    IdempotencyConflict,
    InvalidTransition,
}

impl ManagementError {
    pub open spec fn of_failure(failure: DomainFailure) -> ManagementError {
        match failure {
            DomainFailure::InvitationNotFound => ManagementError::InvitationNotFound,
            DomainFailure::InvitationExists => ManagementError::InvitationExists,
            DomainFailure::RevisionConflict => ManagementError::RevisionConflict,
            DomainFailure::IdempotencyConflict => ManagementError::IdempotencyConflict,
            DomainFailure::InvalidTransition
            | DomainFailure::TokenInvalid
            | DomainFailure::InvitationExpired
            | DomainFailure::AcceptanceInProgress => ManagementError::InvalidTransition,
        }
    }

    /// The answer for an operation that the lifecycle refuses.
    pub fn from_storage(failure: DomainFailure) -> (error: Self)
        ensures
            error == ManagementError::of_failure(failure),
    {
        match failure {
            DomainFailure::InvitationNotFound => ManagementError::InvitationNotFound,
            DomainFailure::InvitationExists => ManagementError::InvitationExists,
            DomainFailure::RevisionConflict => ManagementError::RevisionConflict,
            DomainFailure::IdempotencyConflict => ManagementError::IdempotencyConflict,
            DomainFailure::InvalidTransition
            | DomainFailure::TokenInvalid
            | DomainFailure::InvitationExpired
            | DomainFailure::AcceptanceInProgress => ManagementError::InvalidTransition,
        }
    }

    pub open spec fn of_authorization(failure: AuthorizationFailure) -> ManagementError {
        match failure {
            AuthorizationFailure::Forbidden => ManagementError::Forbidden,
            AuthorizationFailure::Unauthenticated => ManagementError::Unauthenticated,
            AuthorizationFailure::InvalidRequest => ManagementError::InvalidRequest,
        }
    }

    /// The answer for a call that is not authorized.
    pub fn from_authorization(failure: AuthorizationFailure) -> (error: Self)
        ensures
            error == ManagementError::of_authorization(failure),
    {
        match failure {
            AuthorizationFailure::Forbidden => ManagementError::Forbidden,
            AuthorizationFailure::Unauthenticated => ManagementError::Unauthenticated,
            AuthorizationFailure::InvalidRequest => ManagementError::InvalidRequest,
        }
    }
}

/// Why an acceptance is refused.
#[derive(Clone, Copy, Debug, PartialEq, Eq, Structural)]
pub enum AcceptError {
    Unauthenticated,
    Forbidden,
    InvalidRequest,
    InvitationNotFound,
    RevisionConflict,
    IdempotencyConflict,
    InvalidTransition,
    TokenInvalid,
    InvitationExpired,
    AcceptanceInProgress,
}

impl AcceptError {
    pub open spec fn of_failure(failure: DomainFailure) -> AcceptError {
        match failure {
            DomainFailure::InvitationNotFound => AcceptError::InvitationNotFound,
            DomainFailure::RevisionConflict => AcceptError::RevisionConflict,
            DomainFailure::IdempotencyConflict => AcceptError::IdempotencyConflict,
            DomainFailure::InvalidTransition
            | DomainFailure::InvitationExists => AcceptError::InvalidTransition,
            DomainFailure::TokenInvalid => AcceptError::TokenInvalid,
            DomainFailure::InvitationExpired => AcceptError::InvitationExpired,
            DomainFailure::AcceptanceInProgress => AcceptError::AcceptanceInProgress,
        }
    }

    /// The answer for an acceptance that the lifecycle refuses.
    pub fn from_storage(failure: DomainFailure) -> (error: Self)
        ensures
            error == AcceptError::of_failure(failure),
    {
        match failure {
            DomainFailure::InvitationNotFound => AcceptError::InvitationNotFound,
            DomainFailure::RevisionConflict => AcceptError::RevisionConflict,
            DomainFailure::IdempotencyConflict => AcceptError::IdempotencyConflict,
            DomainFailure::InvalidTransition
            | DomainFailure::InvitationExists => AcceptError::InvalidTransition,
            DomainFailure::TokenInvalid => AcceptError::TokenInvalid,
            DomainFailure::InvitationExpired => AcceptError::InvitationExpired,
            DomainFailure::AcceptanceInProgress => AcceptError::AcceptanceInProgress,
        }
    }

    pub open spec fn of_authorization(failure: AuthorizationFailure) -> AcceptError {
        match failure {
            AuthorizationFailure::Forbidden => AcceptError::Forbidden,
            AuthorizationFailure::Unauthenticated => AcceptError::Unauthenticated,
            AuthorizationFailure::InvalidRequest => AcceptError::InvalidRequest,
        }
    }

    /// The answer for an acceptance that is not authorized.
    pub fn from_authorization(failure: AuthorizationFailure) -> (error: Self)
        ensures
            error == AcceptError::of_authorization(failure),
    {
        match failure {
            AuthorizationFailure::Forbidden => AcceptError::Forbidden,
            AuthorizationFailure::Unauthenticated => AcceptError::Unauthenticated,
            AuthorizationFailure::InvalidRequest => AcceptError::InvalidRequest,
        }
    }
}

} // verus!
