//! What a transaction writes: rows, activity evidence and the answers kept for replays.

use crate::records::{AcceptedRecord, CommandRow, InvitationRecord, InvitationView};
use vstd::prelude::*;

verus! {

/// What an activity entry is about.
#[derive(Clone, Copy, Debug, PartialEq, Eq, Structural)]
pub enum ActivityKind {
    Created,
    Resent,
    AcceptanceStarted,
    Accepted,
    AcceptanceFailed,
    Revoked,
    Expired,
}

impl ActivityKind {
    pub fn as_str(&self) -> (text: &'static str)
        ensures
            text@ == (match self {
                ActivityKind::Created => "invitation.created"@,
                ActivityKind::Resent => "invitation.resent"@,
                ActivityKind::AcceptanceStarted => "invitation.acceptance_started"@,
                ActivityKind::Accepted => "invitation.accepted"@,
                ActivityKind::AcceptanceFailed => "invitation.acceptance_failed"@,
                ActivityKind::Revoked => "invitation.revoked"@,
                ActivityKind::Expired => "invitation.expired"@,
            }),
    {
        match self {
            ActivityKind::Created => "invitation.created",
            ActivityKind::Resent => "invitation.resent",
            ActivityKind::AcceptanceStarted => "invitation.acceptance_started",
            ActivityKind::Accepted => "invitation.accepted",
            ActivityKind::AcceptanceFailed => "invitation.acceptance_failed",
            ActivityKind::Revoked => "invitation.revoked",
            ActivityKind::Expired => "invitation.expired",
        }
    }
}

/// What an activity entry records.
#[verifier::ext_equal]
#[derive(Clone, Debug, PartialEq, Eq)]
pub enum Evidence<S> {
    Creation { email_normalized: S, token_generation: i64 },
    Rotation { token_generation: i64 },
    Revocation { reason: S },
    TokenDeadline,
    AcceptanceStart { command_id: u128 },
    Membership { membership_id: S, provider_revision: S },
    Failure { error_code: S },
}

impl View for Evidence<String> {
    type V = Evidence<Seq<char>>;

    open spec fn view(&self) -> Evidence<Seq<char>> {
        match self {
            Evidence::Creation { email_normalized, token_generation } => Evidence::Creation {
                email_normalized: email_normalized@,
                token_generation: *token_generation,
            },
            Evidence::Rotation { token_generation } => Evidence::Rotation {
                token_generation: *token_generation,
            },
            Evidence::Revocation { reason } => Evidence::Revocation { reason: reason@ },
            Evidence::TokenDeadline => Evidence::TokenDeadline,
            Evidence::AcceptanceStart { command_id } => Evidence::AcceptanceStart {
                command_id: *command_id,
            },
            Evidence::Membership { membership_id, provider_revision } => Evidence::Membership {
                membership_id: membership_id@,
                provider_revision: provider_revision@,
            },
            Evidence::Failure { error_code } => Evidence::Failure { error_code: error_code@ },
        }
    }
}

/// An entry of the append-only activity log.
#[verifier::ext_equal]
#[derive(Clone, Debug, PartialEq, Eq)]
pub struct Activity<S> {
    pub activity_id: u128,
    pub organization_id: S,
    pub invitation_id: u128,
    pub kind: ActivityKind,
    pub actor_subject: S,
    pub invitation_revision: i64,
    pub evidence: Evidence<S>,
}

impl View for Activity<String> {
    type V = Activity<Seq<char>>;

    open spec fn view(&self) -> Activity<Seq<char>> {
        Activity {
            activity_id: self.activity_id,
            organization_id: self.organization_id@,
            invitation_id: self.invitation_id,
            kind: self.kind,
            actor_subject: self.actor_subject@,
            invitation_revision: self.invitation_revision,
            evidence: self.evidence@,
        }
    }
}

/// One invitation that a batch expired.
#[verifier::ext_equal]
#[derive(Clone, Debug, PartialEq, Eq)]
pub struct ExpiredItem<S> {
    pub invitation_id: u128,
    pub identifier: S,
    pub revision: i64,
}

impl View for ExpiredItem<String> {
    type V = ExpiredItem<Seq<char>>;

    open spec fn view(&self) -> ExpiredItem<Seq<char>> {
        ExpiredItem {
            invitation_id: self.invitation_id,
            identifier: self.identifier@,
            revision: self.revision,
        }
    }
}

pub open spec fn items_view(items: Seq<ExpiredItem<String>>) -> Seq<ExpiredItem<Seq<char>>> {
    items.map_values(|item: ExpiredItem<String>| item@)
}

/// The answer of an expiry batch. `I` is a vector of items in answers and a sequence of them in
/// statements.
#[verifier::ext_equal]
#[derive(Clone, Debug, PartialEq, Eq)]
pub struct ExpireResult<I> {
    pub expired: i64,
    pub items: I,
    pub has_more: bool,
}

impl View for ExpireResult<Vec<ExpiredItem<String>>> {
    type V = ExpireResult<Seq<ExpiredItem<Seq<char>>>>;

    open spec fn view(&self) -> ExpireResult<Seq<ExpiredItem<Seq<char>>>> {
        ExpireResult {
            expired: self.expired,
            items: items_view(self.items@),
            has_more: self.has_more,
        }
    }
}

/// The answer of a dispatch batch.
#[derive(Clone, Copy, Debug, PartialEq, Eq, Structural)]
pub struct DispatchResult {
    pub processed: i64,
    pub completed: i64,
    pub retry_scheduled: i64,
    pub permanent_failed: i64,
    pub has_more: bool,
}

/// The answer that is kept under an idempotency key.
#[verifier::ext_equal]
#[derive(Clone, Debug, PartialEq, Eq)]
pub enum Response<S, I> {
    Token { invitation: InvitationView<S>, token_generation: i64 },
    Invitation { invitation: InvitationView<S> },
    Acceptance { accepted: AcceptedRecord<S> },
    Expiry { expiry: ExpireResult<I> },
    Dispatch { dispatch: DispatchResult },
}

pub type StoredResponse = Response<String, Vec<ExpiredItem<String>>>;

pub type ResponseModel = Response<Seq<char>, Seq<ExpiredItem<Seq<char>>>>;

impl View for Response<String, Vec<ExpiredItem<String>>> {
    type V = Response<Seq<char>, Seq<ExpiredItem<Seq<char>>>>;

    open spec fn view(&self) -> ResponseModel {
        match self {
            Response::Token { invitation, token_generation } => Response::Token {
                invitation: invitation@,
                token_generation: *token_generation,
            },
            Response::Invitation { invitation } => Response::Invitation {
                invitation: invitation@,
            },
            Response::Acceptance { accepted } => Response::Acceptance { accepted: accepted@ },
            Response::Expiry { expiry } => Response::Expiry { expiry: expiry@ },
            Response::Dispatch { dispatch } => Response::Dispatch { dispatch: *dispatch },
        }
    }
}

/// One write of a transaction.
#[verifier::ext_equal]
#[derive(Clone, Debug, PartialEq, Eq)]
pub enum Write<S, I> {
    /// A new invitation.
    InsertInvitation { record: InvitationRecord<S> },
    /// The new columns of an invitation that the transaction has locked.
    UpdateInvitation { record: InvitationRecord<S> },
    /// Ends every delivery of the invitation that is waiting or under way.
    SupersedeNotifications { invitation_id: u128, at: i64 },
    /// A new command, unless its key is taken.
    InsertCommand { row: CommandRow<S> },
    /// The new columns of a command that the transaction has locked.
    UpdateCommand { row: CommandRow<S> },
    InsertActivity { activity: Activity<S> },
    /// Keeps the answer under the idempotency key that the transaction has reserved, and ties the
    /// key to the given invitation, if any.
    CompleteMutation {
        caller: S,
        idempotency_key: S,
        invitation: Option<u128>,
        response: Response<S, I>,
    },
    /// Ties the reserved idempotency key to the command that will answer it.
    BindMutation {
        caller: S,
        idempotency_key: S,
        organization_id: S,
        invitation_id: u128,
        command_id: u128,
    },
    /// Gives the reserved idempotency key back.
    ReleaseMutation { caller: S, idempotency_key: S },
    /// Answers the open acceptance that waits for the command.
    CompleteAcceptance { command_id: u128, accepted: AcceptedRecord<S> },
    /// Gives back the idempotency key of the open acceptance that waits for the command.
    ReleaseAcceptance { command_id: u128 },
}

pub type StoredWrite = Write<String, Vec<ExpiredItem<String>>>;

pub type WriteModel = Write<Seq<char>, Seq<ExpiredItem<Seq<char>>>>;

impl View for Write<String, Vec<ExpiredItem<String>>> {
    type V = Write<Seq<char>, Seq<ExpiredItem<Seq<char>>>>;

    open spec fn view(&self) -> WriteModel {
        match self {
            Write::InsertInvitation { record } => Write::InsertInvitation { record: record@ },
            Write::UpdateInvitation { record } => Write::UpdateInvitation { record: record@ },
            Write::SupersedeNotifications { invitation_id, at } => Write::SupersedeNotifications {
                invitation_id: *invitation_id,
                at: *at,
            },
            Write::InsertCommand { row } => Write::InsertCommand { row: row@ },
            Write::UpdateCommand { row } => Write::UpdateCommand { row: row@ },
            Write::InsertActivity { activity } => Write::InsertActivity { activity: activity@ },
            Write::CompleteMutation {
                caller,
                idempotency_key,
                invitation,
                response,
            } => Write::CompleteMutation {
                caller: caller@,
                idempotency_key: idempotency_key@,
                invitation: *invitation,
                response: response@,
            },
            Write::BindMutation {
                caller,
                idempotency_key,
                organization_id,
                invitation_id,
                command_id,
            } => Write::BindMutation {
                caller: caller@,
                idempotency_key: idempotency_key@,
                organization_id: organization_id@,
                invitation_id: *invitation_id,
                command_id: *command_id,
            },
            Write::ReleaseMutation { caller, idempotency_key } => Write::ReleaseMutation {
                caller: caller@,
                idempotency_key: idempotency_key@,
            },
            Write::CompleteAcceptance { command_id, accepted } => Write::CompleteAcceptance {
                command_id: *command_id,
                accepted: accepted@,
            },
            Write::ReleaseAcceptance { command_id } => Write::ReleaseAcceptance {
                command_id: *command_id,
            },
        }
    }
}

/// The writes of a transaction, in order.
pub open spec fn writes_view(writes: Seq<StoredWrite>) -> Seq<WriteModel> {
    writes.map_values(|write: StoredWrite| write@)
}

/// A transaction that is ready to be written and committed, and what it then answers.
#[derive(Clone, Debug, PartialEq, Eq)]
pub struct Plan<T> {
    pub writes: Vec<StoredWrite>,
    pub outcome: T,
}

} // verus!
