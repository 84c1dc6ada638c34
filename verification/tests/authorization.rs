use organization_invitation::authorization::{
    active_organization, actor_kind_allowed, allowed_caller, authorize_acceptance,
    begin_authorization, confirm_authorization, expected_actor_kind, ActorRole,
    AuthorizationFailure, OrganizationStatus,
};
use organization_invitation::contract::{AcceptError, ManagementError};
use organization_invitation::mutations::DomainFailure;
use organization_invitation::worker_contract::WorkerError;

fn allowed() -> Vec<String> {
    vec!["admin-api".to_owned(), "other-api".to_owned()]
}

#[test]
fn callers_are_matched_exactly() {
    assert_eq!(
        allowed_caller(Some("other-api"), &allowed()).as_deref(),
        Some("other-api")
    );
    assert_eq!(allowed_caller(Some("other-api "), &allowed()), None);
    assert_eq!(allowed_caller(Some("Other-api"), &allowed()), None);
    assert_eq!(allowed_caller(None, &allowed()), None);
}

#[test]
fn roles_take_their_kinds_of_actors() {
    assert!(actor_kind_allowed(ActorRole::User, "user"));
    assert!(!actor_kind_allowed(ActorRole::User, "service_account"));
    assert!(actor_kind_allowed(ActorRole::Worker, "user"));
    assert!(actor_kind_allowed(ActorRole::Worker, "service_account"));
    assert!(!actor_kind_allowed(ActorRole::Worker, "system"));
    assert_eq!(expected_actor_kind(ActorRole::User), "user");
    assert_eq!(
        expected_actor_kind(ActorRole::Worker),
        "user or service_account"
    );
}

#[test]
fn every_condition_is_asked_for_in_order() {
    assert_eq!(
        begin_authorization(Some("nobody"), &allowed(), None, ""),
        Err(AuthorizationFailure::Forbidden)
    );
    assert_eq!(
        begin_authorization(Some("admin-api"), &allowed(), None, ""),
        Err(AuthorizationFailure::Unauthenticated)
    );
    assert_eq!(
        begin_authorization(Some("admin-api"), &allowed(), Some("not an id"), "org"),
        Err(AuthorizationFailure::Unauthenticated)
    );
    assert_eq!(
        begin_authorization(Some("admin-api"), &allowed(), Some("usr_1"), "an org"),
        Err(AuthorizationFailure::InvalidRequest)
    );
    assert_eq!(
        begin_authorization(Some("admin-api"), &allowed(), Some("usr_1"), "org_1"),
        Ok(("admin-api".to_owned(), "usr_1".to_owned()))
    );
    assert_eq!(confirm_authorization(true, true), Ok(()));
    for (active, permitted) in [(true, false), (false, true), (false, false)] {
        assert_eq!(
            confirm_authorization(active, permitted),
            Err(AuthorizationFailure::Forbidden)
        );
    }
}

#[test]
fn acceptance_asks_for_caller_and_subject_only() {
    assert_eq!(
        authorize_acceptance(Some("admin-api"), &allowed(), Some("usr_1")),
        Ok(("admin-api".to_owned(), "usr_1".to_owned()))
    );
    assert_eq!(
        authorize_acceptance(None, &allowed(), Some("usr_1")),
        Err(AuthorizationFailure::Forbidden)
    );
    assert_eq!(
        authorize_acceptance(Some("admin-api"), &allowed(), Some("")),
        Err(AuthorizationFailure::Unauthenticated)
    );
}

#[test]
fn organizations_have_to_be_active() {
    assert_eq!(active_organization(OrganizationStatus::Active), Ok(()));
    assert_eq!(
        active_organization(OrganizationStatus::Inactive),
        Err(ManagementError::OrganizationInactive)
    );
    assert_eq!(
        active_organization(OrganizationStatus::NotFound),
        Err(ManagementError::OrganizationNotFound)
    );
    assert_eq!(
        active_organization(OrganizationStatus::Rejected),
        Err(ManagementError::Forbidden)
    );
}

#[test]
fn failures_are_answered_by_the_role_that_is_called() {
    for (failure, management, accept) in [
        (
            DomainFailure::InvitationNotFound,
            ManagementError::InvitationNotFound,
            AcceptError::InvitationNotFound,
        ),
        (
            DomainFailure::InvitationExists,
            ManagementError::InvitationExists,
            AcceptError::InvalidTransition,
        ),
        (
            DomainFailure::RevisionConflict,
            ManagementError::RevisionConflict,
            AcceptError::RevisionConflict,
        ),
        (
            DomainFailure::IdempotencyConflict,
            ManagementError::IdempotencyConflict,
            AcceptError::IdempotencyConflict,
        ),
        (
            DomainFailure::InvalidTransition,
            ManagementError::InvalidTransition,
            AcceptError::InvalidTransition,
        ),
        (
            DomainFailure::TokenInvalid,
            ManagementError::InvalidTransition,
            AcceptError::TokenInvalid,
        ),
        (
            DomainFailure::InvitationExpired,
            ManagementError::InvalidTransition,
            AcceptError::InvitationExpired,
        ),
        (
            DomainFailure::AcceptanceInProgress,
            ManagementError::InvalidTransition,
            AcceptError::AcceptanceInProgress,
        ),
    ] {
        assert_eq!(ManagementError::from_storage(failure), management);
        assert_eq!(AcceptError::from_storage(failure), accept);
        assert_eq!(
            WorkerError::from_storage(failure),
            WorkerError::IdempotencyConflict
        );
    }
    assert_eq!(
        ManagementError::from_authorization(AuthorizationFailure::Unauthenticated),
        ManagementError::Unauthenticated
    );
    assert_eq!(
        AcceptError::from_authorization(AuthorizationFailure::Forbidden),
        AcceptError::Forbidden
    );
    assert_eq!(
        WorkerError::from_authorization(AuthorizationFailure::InvalidRequest),
        WorkerError::InvalidRequest
    );
}
