//! Who may call: the exact caller, the asserted subject, its membership and its permission.

use crate::contract::ManagementError;
use crate::text::same_text;
use crate::validation::{is_opaque_id, texts, valid_opaque_id, MAX_ID_BYTES};
use vstd::prelude::*;

verus! {

pub const INVITATION_READ: &'static str = "organization.invitations.read";

pub const INVITATION_MANAGE: &'static str = "organization.invitations.manage";

pub const INVITATION_EXPIRE: &'static str = "organization.invitations.expire";

pub const INVITATION_DISPATCH: &'static str = "organization.invitations.dispatch";

/// The scope in which permissions are asked for.
pub const PERMISSION_SCOPE: &'static str = "organization";

/// Why a call is not authorized.
#[derive(Clone, Copy, Debug, PartialEq, Eq, Structural)]
pub enum AuthorizationFailure {
    Forbidden,
    Unauthenticated,
    InvalidRequest,
}

/// Whom a role takes for an actor.
#[derive(Clone, Copy, Debug, PartialEq, Eq, Structural)]
pub enum ActorRole {
    /// Management and acceptance.
    User,
    /// The worker operations.
    Worker,
}

/// A role of users takes users only; the worker role takes service accounts as well.
pub open spec fn takes_actor(role: ActorRole, kind: Seq<char>) -> bool {
    kind == "user"@ || role == ActorRole::Worker && kind == "service_account"@
}

pub fn actor_kind_allowed(role: ActorRole, kind: &str) -> (allowed: bool)
    ensures
        allowed == takes_actor(role, kind@),
{
    same_text(kind, "user") || role == ActorRole::Worker && same_text(kind, "service_account")
}

/// The kind of actor that a role asks for, in words.
pub fn expected_actor_kind(role: ActorRole) -> (expected: &'static str)
    ensures
        expected@ == (match role {
            ActorRole::User => "user"@,
            ActorRole::Worker => "user or service_account"@,
        }),
{
    match role {
        ActorRole::User => "user",
        ActorRole::Worker => "user or service_account",
    }
}

pub open spec fn option_str(text: Option<&str>) -> Option<Seq<char>> {
    match text {
        Some(text) => Some(text@),
        None => None,
    }
}

/// A caller that is on the allowlist, letter for letter.
pub open spec fn is_allowed_caller(caller: Option<Seq<char>>, allowed: Seq<Seq<char>>) -> bool {
    caller matches Some(caller) && allowed.contains(caller)
}

pub fn allowed_caller(caller: Option<&str>, allowed: &Vec<String>) -> (found: Option<String>)
    ensures
        match found {
            Some(found) => {
                &&& is_allowed_caller(option_str(caller), texts(allowed@))
                &&& option_str(caller) == Some(found@)
            },
            None => !is_allowed_caller(option_str(caller), texts(allowed@)),
        },
{
    let name = match caller {
        Some(name) => name,
        None => {
            return None;
        },
    };
    let ghost names = texts(allowed@);
    for i in 0..allowed.len()
        invariant
            option_str(caller) == Some(name@),
            names == texts(allowed@),
            forall|k: int| 0 <= k < i ==> #[trigger] names[k] != name@,
    {
        assert(names[i as int] == allowed@[i as int]@);
        if same_text(allowed[i].as_str(), name) {
            assert(names.contains(names[i as int]));
            return Some(name.to_owned());
        }
    }
    None
}

/// A call that may go on to ask for membership and permission: the caller is on the allowlist,
/// and the assertion names a subject. The failure that is named is the first one, in this order.
pub open spec fn call_refusal(
    caller: Option<Seq<char>>,
    allowed: Seq<Seq<char>>,
    subject: Option<Seq<char>>,
) -> Option<AuthorizationFailure> {
    if !is_allowed_caller(caller, allowed) {
        Some(AuthorizationFailure::Forbidden)
    } else if !(subject matches Some(subject) && is_opaque_id(subject, MAX_ID_BYTES as int)) {
        Some(AuthorizationFailure::Unauthenticated)
    } else {
        None
    }
}

/// Authorizes an acceptance: the caller, and the subject of a valid user assertion, if there is
/// one. Membership and permission are not asked for.
pub fn authorize_acceptance(
    caller: Option<&str>,
    allowed: &Vec<String>,
    subject: Option<&str>,
) -> (result: Result<(String, String), AuthorizationFailure>)
    ensures
        match result {
            Ok((found, actor)) => {
                &&& call_refusal(option_str(caller), texts(allowed@), option_str(subject)) is None
                &&& option_str(caller) == Some(found@)
                &&& option_str(subject) == Some(actor@)
            },
            Err(failure) => call_refusal(
                option_str(caller),
                texts(allowed@),
                option_str(subject),
            ) == Some(failure),
        },
{
    let found = match allowed_caller(caller, allowed) {
        Some(found) => found,
        None => {
            return Err(AuthorizationFailure::Forbidden);
        },
    };
    match subject {
        Some(subject) => {
            if valid_opaque_id(subject, MAX_ID_BYTES) {
                Ok((found, subject.to_owned()))
            } else {
                Err(AuthorizationFailure::Unauthenticated)
            }
        },
        None => Err(AuthorizationFailure::Unauthenticated),
    }
}

/// A management or worker call that may go on to ask for membership and permission: one that is
/// not refused, for an organization that can exist.
pub open spec fn query_refusal(
    caller: Option<Seq<char>>,
    allowed: Seq<Seq<char>>,
    subject: Option<Seq<char>>,
    organization_id: Seq<char>,
) -> Option<AuthorizationFailure> {
    match call_refusal(caller, allowed, subject) {
        Some(failure) => Some(failure),
        None => if is_opaque_id(organization_id, MAX_ID_BYTES as int) {
            None
        } else {
            Some(AuthorizationFailure::InvalidRequest)
        },
    }
}

/// The first half of authorizing a management or worker call.
pub fn begin_authorization(
    caller: Option<&str>,
    allowed: &Vec<String>,
    subject: Option<&str>,
    organization_id: &str,
) -> (result: Result<(String, String), AuthorizationFailure>)
    ensures
        match result {
            Ok((found, actor)) => {
                &&& query_refusal(
                    option_str(caller),
                    texts(allowed@),
                    option_str(subject),
                    organization_id@,
                ) is None
                &&& option_str(caller) == Some(found@)
                &&& option_str(subject) == Some(actor@)
            },
            Err(failure) => query_refusal(
                option_str(caller),
                texts(allowed@),
                option_str(subject),
                organization_id@,
            ) == Some(failure),
        },
{
    match authorize_acceptance(caller, allowed, subject) {
        Ok(parties) => {
            if valid_opaque_id(organization_id, MAX_ID_BYTES) {
                Ok(parties)
            } else {
                Err(AuthorizationFailure::InvalidRequest)
            }
        },
        Err(failure) => Err(failure),
    }
}

/// The second half: the subject is an active member, and has the permission.
pub fn confirm_authorization(active: bool, allowed: bool) -> (result: Result<
    (),
    AuthorizationFailure,
>)
    ensures
        result == (if active && allowed {
            Ok(())
        } else {
            Err(AuthorizationFailure::Forbidden)
        }),
{
    if !active || !allowed {
        Err(AuthorizationFailure::Forbidden)
    } else {
        Ok(())
    }
}

/// A management or worker call is authorized where neither half refuses it.
pub open spec fn is_authorized(
    caller: Option<Seq<char>>,
    allowed: Seq<Seq<char>>,
    subject: Option<Seq<char>>,
    organization_id: Seq<char>,
    active: bool,
    permitted: bool,
) -> bool {
    query_refusal(caller, allowed, subject, organization_id) is None && active && permitted
}

/// Every condition has to hold: none makes up for another.
pub proof fn authorization_needs_every_condition(
    caller: Option<Seq<char>>,
    allowed: Seq<Seq<char>>,
    subject: Option<Seq<char>>,
    organization_id: Seq<char>,
    active: bool,
    permitted: bool,
)
    ensures
        is_authorized(caller, allowed, subject, organization_id, active, permitted) <==> {
            &&& caller is Some && allowed.contains(caller->0)
            &&& subject is Some && is_opaque_id(subject->0, MAX_ID_BYTES as int)
            &&& is_opaque_id(organization_id, MAX_ID_BYTES as int)
            &&& active
            &&& permitted
        },
{
}

/// What the organization directory says of an organization.
#[derive(Clone, Copy, Debug, PartialEq, Eq, Structural)]
pub enum OrganizationStatus {
    Active,
    Inactive,
    NotFound,
    Rejected,
}

/// Invitations are made and rotated for active organizations only.
pub fn active_organization(status: OrganizationStatus) -> (result: Result<(), ManagementError>)
    ensures
        result == (match status {
            OrganizationStatus::Active => Ok(()),
            OrganizationStatus::Inactive => Err(ManagementError::OrganizationInactive),
            OrganizationStatus::NotFound => Err(ManagementError::OrganizationNotFound),
            OrganizationStatus::Rejected => Err(ManagementError::Forbidden),
        }),
{
    match status {
        OrganizationStatus::Active => Ok(()),
        OrganizationStatus::Inactive => Err(ManagementError::OrganizationInactive),
        OrganizationStatus::NotFound => Err(ManagementError::OrganizationNotFound),
        OrganizationStatus::Rejected => Err(ManagementError::Forbidden),
    }
}

} // verus!
