//! Invitations and durable commands as they are stored, and how stored rows are read.

use crate::text::{copy_optional_text, option_text, same_text};
use vstd::prelude::*;
use vstd::string::*;

verus! {

/// Where an invitation stands in its lifecycle.
#[derive(Clone, Copy, Debug, PartialEq, Eq, Structural)]
pub enum InvitationState {
    Pending,
    Accepted,
    Revoked,
    Expired,
}

/// The stored text of a lifecycle state.
pub open spec fn state_text(state: InvitationState) -> Seq<char> {
    match state {
        InvitationState::Pending => "pending"@,
        InvitationState::Accepted => "accepted"@,
        InvitationState::Revoked => "revoked"@,
        InvitationState::Expired => "expired"@,
    }
}

impl InvitationState {
    pub fn as_str(&self) -> (text: &'static str)
        ensures
            text@ == state_text(*self),
    {
        match self {
            InvitationState::Pending => "pending",
            InvitationState::Accepted => "accepted",
            InvitationState::Revoked => "revoked",
            InvitationState::Expired => "expired",
        }
    }
}

/// How far the delivery of an invitation has come.
#[derive(Clone, Copy, Debug, PartialEq, Eq, Structural)]
pub enum DeliveryState {
    Pending,
    Queued,
    Failed,
    Superseded,
}

/// The stored text of a delivery state.
pub open spec fn delivery_text(state: DeliveryState) -> Seq<char> {
    match state {
        DeliveryState::Pending => "pending"@,
        DeliveryState::Queued => "queued"@,
        DeliveryState::Failed => "failed"@,
        DeliveryState::Superseded => "superseded"@,
    }
}

impl DeliveryState {
    pub fn as_str(&self) -> (text: &'static str)
        ensures
            text@ == delivery_text(*self),
    {
        match self {
            DeliveryState::Pending => "pending",
            DeliveryState::Queued => "queued",
            DeliveryState::Failed => "failed",
            DeliveryState::Superseded => "superseded",
        }
    }
}

/// Where a durable command stands.
#[derive(Clone, Copy, Debug, PartialEq, Eq, Structural)]
pub enum CommandState {
    Pending,
    InFlight,
    Completed,
    Failed,
    Superseded,
}

/// The stored text of a command state.
pub open spec fn command_state_text(state: CommandState) -> Seq<char> {
    match state {
        CommandState::Pending => "pending"@,
        CommandState::InFlight => "in_flight"@,
        CommandState::Completed => "completed"@,
        CommandState::Failed => "failed"@,
        CommandState::Superseded => "superseded"@,
    }
}

impl CommandState {
    pub fn as_str(&self) -> (text: &'static str)
        ensures
            text@ == command_state_text(*self),
    {
        match self {
            CommandState::Pending => "pending",
            CommandState::InFlight => "in_flight",
            CommandState::Completed => "completed",
            CommandState::Failed => "failed",
            CommandState::Superseded => "superseded",
        }
    }
}

proof fn lemma_state_texts_differ()
    ensures
        forall|left: InvitationState, right: InvitationState|
            state_text(left) == state_text(right) ==> left == right,
        forall|left: DeliveryState, right: DeliveryState|
            delivery_text(left) == delivery_text(right) ==> left == right,
        forall|left: CommandState, right: CommandState|
            command_state_text(left) == command_state_text(right) ==> left == right,
{
    reveal_strlit("pending");
    reveal_strlit("accepted");
    reveal_strlit("revoked");
    reveal_strlit("expired");
    reveal_strlit("queued");
    reveal_strlit("failed");
    reveal_strlit("superseded");
    reveal_strlit("in_flight");
    reveal_strlit("completed");
    assert("pending"@[0] == 'p' && "accepted"@[0] == 'a' && "revoked"@[0] == 'r' && "expired"@[0]
        == 'e' && "queued"@[0] == 'q' && "failed"@[0] == 'f' && "superseded"@[0] == 's'
        && "in_flight"@[0] == 'i' && "completed"@[0] == 'c');
}

/// The stored text is read back as the state that it was written for.
pub proof fn states_are_told_apart_by_their_text(left: InvitationState, right: InvitationState)
    requires
        state_text(left) == state_text(right),
    ensures
        left == right,
{
    lemma_state_texts_differ();
}

/// The lifecycle state with the given stored text.
pub fn parse_state(text: &str) -> (state: Option<InvitationState>)
    ensures
        match state {
            Some(state) => state_text(state) == text@,
            None => forall|any: InvitationState| #[trigger] state_text(any) != text@,
        },
{
    if same_text(text, "pending") {
        Some(InvitationState::Pending)
    } else if same_text(text, "accepted") {
        Some(InvitationState::Accepted)
    } else if same_text(text, "revoked") {
        Some(InvitationState::Revoked)
    } else if same_text(text, "expired") {
        Some(InvitationState::Expired)
    } else {
        None
    }
}

/// The delivery state with the given stored text.
pub fn parse_delivery_state(text: &str) -> (state: Option<DeliveryState>)
    ensures
        match state {
            Some(state) => delivery_text(state) == text@,
            None => forall|any: DeliveryState| #[trigger] delivery_text(any) != text@,
        },
{
    if same_text(text, "pending") {
        Some(DeliveryState::Pending)
    } else if same_text(text, "queued") {
        Some(DeliveryState::Queued)
    } else if same_text(text, "failed") {
        Some(DeliveryState::Failed)
    } else if same_text(text, "superseded") {
        Some(DeliveryState::Superseded)
    } else {
        None
    }
}

/// The command state with the given stored text.
pub fn parse_command_state(text: &str) -> (state: Option<CommandState>)
    ensures
        match state {
            Some(state) => command_state_text(state) == text@,
            None => forall|any: CommandState| #[trigger] command_state_text(any) != text@,
        },
{
    if same_text(text, "pending") {
        Some(CommandState::Pending)
    } else if same_text(text, "in_flight") {
        Some(CommandState::InFlight)
    } else if same_text(text, "completed") {
        Some(CommandState::Completed)
    } else if same_text(text, "failed") {
        Some(CommandState::Failed)
    } else if same_text(text, "superseded") {
        Some(CommandState::Superseded)
    } else {
        None
    }
}

/// An invitation as it is stored. Instants are microseconds since the Unix epoch. The text type
/// is `String` in stored rows and `Seq<char>` in statements about them.
#[verifier::ext_equal]
#[derive(Clone, Debug, PartialEq, Eq)]
pub struct InvitationRecord<S> {
    pub invitation_id: u128,
    pub organization_id: S,
    pub identifier: S,
    pub email: S,
    pub email_normalized: S,
    pub state: InvitationState,
    pub inviter_subject: S,
    pub acceptance_subject: Option<S>,
    pub token_hash: Option<S>,
    pub token_generation: i64,
    pub token_expires_at: i64,
    pub token_consumed_at: Option<i64>,
    pub revision: i64,
    pub delivery_state: DeliveryState,
    pub delivery_intent_id: Option<S>,
    pub delivery_id: Option<S>,
    pub membership_id: Option<S>,
    pub revoke_reason: Option<S>,
    pub created_at: i64,
    pub updated_at: i64,
    pub accepted_at: Option<i64>,
    pub revoked_at: Option<i64>,
    pub expired_at: Option<i64>,
}

impl View for InvitationRecord<String> {
    type V = InvitationRecord<Seq<char>>;

    open spec fn view(&self) -> InvitationRecord<Seq<char>> {
        InvitationRecord {
            invitation_id: self.invitation_id,
            organization_id: self.organization_id@,
            identifier: self.identifier@,
            email: self.email@,
            email_normalized: self.email_normalized@,
            state: self.state,
            inviter_subject: self.inviter_subject@,
            acceptance_subject: option_text(self.acceptance_subject),
            token_hash: option_text(self.token_hash),
            token_generation: self.token_generation,
            token_expires_at: self.token_expires_at,
            token_consumed_at: self.token_consumed_at,
            revision: self.revision,
            delivery_state: self.delivery_state,
            delivery_intent_id: option_text(self.delivery_intent_id),
            delivery_id: option_text(self.delivery_id),
            membership_id: option_text(self.membership_id),
            revoke_reason: option_text(self.revoke_reason),
            created_at: self.created_at,
            updated_at: self.updated_at,
            accepted_at: self.accepted_at,
            revoked_at: self.revoked_at,
            expired_at: self.expired_at,
        }
    }
}

impl InvitationRecord<String> {
    pub fn copy(&self) -> (copy: Self)
        ensures
            copy@ == self@,
    {
        InvitationRecord {
            invitation_id: self.invitation_id,
            organization_id: self.organization_id.clone(),
            identifier: self.identifier.clone(),
            email: self.email.clone(),
            email_normalized: self.email_normalized.clone(),
            state: self.state,
            inviter_subject: self.inviter_subject.clone(),
            acceptance_subject: copy_optional_text(&self.acceptance_subject),
            token_hash: copy_optional_text(&self.token_hash),
            token_generation: self.token_generation,
            token_expires_at: self.token_expires_at,
            token_consumed_at: self.token_consumed_at,
            revision: self.revision,
            delivery_state: self.delivery_state,
            delivery_intent_id: copy_optional_text(&self.delivery_intent_id),
            delivery_id: copy_optional_text(&self.delivery_id),
            membership_id: copy_optional_text(&self.membership_id),
            revoke_reason: copy_optional_text(&self.revoke_reason),
            created_at: self.created_at,
            updated_at: self.updated_at,
            accepted_at: self.accepted_at,
            revoked_at: self.revoked_at,
            expired_at: self.expired_at,
        }
    }
}

/// A row of the invitation table, before its states are read.
pub struct InvitationRow {
    pub invitation_id: u128,
    pub organization_id: String,
    pub identifier: String,
    pub email: String,
    pub email_normalized: String,
    pub state: String,
    pub inviter_subject: String,
    pub acceptance_subject: Option<String>,
    pub token_hash: Option<String>,
    pub token_generation: i64,
    pub token_expires_at: i64,
    pub token_consumed_at: Option<i64>,
    pub revision: i64,
    pub delivery_state: String,
    pub delivery_intent_id: Option<String>,
    pub delivery_id: Option<String>,
    pub membership_id: Option<String>,
    pub revoke_reason: Option<String>,
    pub created_at: i64,
    pub updated_at: i64,
    pub accepted_at: Option<i64>,
    pub revoked_at: Option<i64>,
    pub expired_at: Option<i64>,
}

/// What is wrong with stored data, or with a write against it.
#[derive(Clone, Debug, PartialEq, Eq)]
pub enum StorageError {
    UnknownInvitationState { state: String },
    UnknownDeliveryState { state: String },
    UnknownCommandState { state: String },
    SequenceNotPositive,
    GenerationOverflow,
    LeaseFenceCrossed,
    CommandMismatch,
    NotAccepted,
    NoMembership,
    NoLeaseToken,
    CountOverflow,
    TimestampNotFormattable { error: String },
    CursorNotFormattable { error: String },
    /// A value that its column cannot hold.
    OutOfRange,
    /// The row that a guarded update is for is missing, or its guard does not hold.
    RowNotFound,
}

impl StorageError {
    pub open spec fn detail_text(self) -> Option<Seq<char>> {
        match self {
            StorageError::UnknownInvitationState { state } => Some(
                "unknown invitation state `"@ + state@ + "`"@,
            ),
            StorageError::UnknownDeliveryState { state } => Some(
                "unknown invitation delivery state `"@ + state@ + "`"@,
            ),
            StorageError::UnknownCommandState { state } => Some(
                "unknown invitation command state `"@ + state@ + "`"@,
            ),
            StorageError::SequenceNotPositive => Some("invitation sequence is not positive"@),
            StorageError::GenerationOverflow => Some("token generation overflowed"@),
            StorageError::LeaseFenceCrossed => Some(
                "membership command completion crossed its lease fence"@,
            ),
            StorageError::CommandMismatch => Some(
                "membership command no longer matches its invitation"@,
            ),
            StorageError::NotAccepted => Some(
                "completed membership command points to a non-accepted invitation"@,
            ),
            StorageError::NoMembership => Some("accepted invitation has no membership id"@),
            StorageError::NoLeaseToken => Some("claimed invitation command has no lease token"@),
            StorageError::CountOverflow => Some("expired invitation count overflowed"@),
            StorageError::TimestampNotFormattable { error } => Some(
                "invitation timestamp cannot be formatted: "@ + error@,
            ),
            StorageError::CursorNotFormattable { error } => Some(
                "cursor timestamp cannot be formatted: "@ + error@,
            ),
            StorageError::OutOfRange | StorageError::RowNotFound => None,
        }
    }

    /// What is wrong with the stored data, in words. An operation that the database itself would
    /// refuse has none.
    pub fn detail(&self) -> (detail: Option<String>)
        ensures
            option_text(detail) == self.detail_text(),
    {
        match self {
            StorageError::UnknownInvitationState { state } => Some(
                quoted("unknown invitation state `", state.as_str()),
            ),
            StorageError::UnknownDeliveryState { state } => Some(
                quoted("unknown invitation delivery state `", state.as_str()),
            ),
            StorageError::UnknownCommandState { state } => Some(
                quoted("unknown invitation command state `", state.as_str()),
            ),
            StorageError::SequenceNotPositive => Some(
                "invitation sequence is not positive".to_owned(),
            ),
            StorageError::GenerationOverflow => Some("token generation overflowed".to_owned()),
            StorageError::LeaseFenceCrossed => Some(
                "membership command completion crossed its lease fence".to_owned(),
            ),
            StorageError::CommandMismatch => Some(
                "membership command no longer matches its invitation".to_owned(),
            ),
            StorageError::NotAccepted => Some(
                "completed membership command points to a non-accepted invitation".to_owned(),
            ),
            StorageError::NoMembership => Some(
                "accepted invitation has no membership id".to_owned(),
            ),
            StorageError::NoLeaseToken => Some(
                "claimed invitation command has no lease token".to_owned(),
            ),
            StorageError::CountOverflow => Some("expired invitation count overflowed".to_owned()),
            StorageError::TimestampNotFormattable { error } => Some(
                joined("invitation timestamp cannot be formatted: ", error.as_str()),
            ),
            StorageError::CursorNotFormattable { error } => Some(
                joined("cursor timestamp cannot be formatted: ", error.as_str()),
            ),
            StorageError::OutOfRange => None,
            StorageError::RowNotFound => None,
        }
    }
}

fn joined(before: &str, text: &str) -> (detail: String)
    ensures
        detail@ == before@ + text@,
{
    let mut detail = before.to_owned();
    detail.append(text);
    detail
}

fn quoted(before: &str, text: &str) -> (detail: String)
    ensures
        detail@ == before@ + text@ + "`"@,
{
    let mut detail = before.to_owned();
    detail.append(text);
    detail.append("`");
    detail
}

/// The invitation that a row holds.
pub open spec fn row_record(
    row: InvitationRow,
    state: InvitationState,
    delivery_state: DeliveryState,
) -> InvitationRecord<Seq<char>> {
    InvitationRecord {
        invitation_id: row.invitation_id,
        organization_id: row.organization_id@,
        identifier: row.identifier@,
        email: row.email@,
        email_normalized: row.email_normalized@,
        state,
        inviter_subject: row.inviter_subject@,
        acceptance_subject: option_text(row.acceptance_subject),
        token_hash: option_text(row.token_hash),
        token_generation: row.token_generation,
        token_expires_at: row.token_expires_at,
        token_consumed_at: row.token_consumed_at,
        revision: row.revision,
        delivery_state,
        delivery_intent_id: option_text(row.delivery_intent_id),
        delivery_id: option_text(row.delivery_id),
        membership_id: option_text(row.membership_id),
        revoke_reason: option_text(row.revoke_reason),
        created_at: row.created_at,
        updated_at: row.updated_at,
        accepted_at: row.accepted_at,
        revoked_at: row.revoked_at,
        expired_at: row.expired_at,
    }
}

/// Reads a row of the invitation table. Only rows whose two states are known are taken.
pub fn decode_invitation(row: InvitationRow) -> (record: Result<
    InvitationRecord<String>,
    StorageError,
>)
    ensures
        match record {
            Ok(record) => {
                &&& state_text(record.state) == row.state@
                &&& delivery_text(record.delivery_state) == row.delivery_state@
                &&& record@ == row_record(row, record.state, record.delivery_state)
                &&& record.invitation_id == row.invitation_id
                &&& record.organization_id@ == row.organization_id@
                &&& record.identifier@ == row.identifier@
                &&& record.email@ == row.email@
                &&& record.email_normalized@ == row.email_normalized@
                &&& record.inviter_subject@ == row.inviter_subject@
                &&& option_text(record.acceptance_subject) == option_text(row.acceptance_subject)
                &&& option_text(record.token_hash) == option_text(row.token_hash)
                &&& record.token_generation == row.token_generation
                &&& record.token_expires_at == row.token_expires_at
                &&& record.token_consumed_at == row.token_consumed_at
                &&& record.revision == row.revision
                &&& option_text(record.delivery_intent_id) == option_text(row.delivery_intent_id)
                &&& option_text(record.delivery_id) == option_text(row.delivery_id)
                &&& option_text(record.membership_id) == option_text(row.membership_id)
                &&& option_text(record.revoke_reason) == option_text(row.revoke_reason)
                &&& record.created_at == row.created_at
                &&& record.updated_at == row.updated_at
                &&& record.accepted_at == row.accepted_at
                &&& record.revoked_at == row.revoked_at
                &&& record.expired_at == row.expired_at
            },
            Err(StorageError::UnknownInvitationState { state }) => {
                &&& state@ == row.state@
                &&& forall|any: InvitationState| #[trigger] state_text(any) != row.state@
            },
            Err(StorageError::UnknownDeliveryState { state }) => {
                &&& state@ == row.delivery_state@
                &&& exists|any: InvitationState| #[trigger] state_text(any) == row.state@
                &&& forall|any: DeliveryState| #[trigger] delivery_text(any) != row.delivery_state@
            },
            Err(_) => false,
        },
{
    let state = match parse_state(row.state.as_str()) {
        Some(state) => state,
        None => {
            return Err(StorageError::UnknownInvitationState { state: row.state });
        },
    };
    let delivery_state = match parse_delivery_state(row.delivery_state.as_str()) {
        Some(delivery_state) => delivery_state,
        None => {
            assert(state_text(state) == row.state@);
            return Err(StorageError::UnknownDeliveryState { state: row.delivery_state });
        },
    };
    Ok(
        InvitationRecord {
            invitation_id: row.invitation_id,
            organization_id: row.organization_id,
            identifier: row.identifier,
            email: row.email,
            email_normalized: row.email_normalized,
            state,
            inviter_subject: row.inviter_subject,
            acceptance_subject: row.acceptance_subject,
            token_hash: row.token_hash,
            token_generation: row.token_generation,
            token_expires_at: row.token_expires_at,
            token_consumed_at: row.token_consumed_at,
            revision: row.revision,
            delivery_state,
            delivery_intent_id: row.delivery_intent_id,
            delivery_id: row.delivery_id,
            membership_id: row.membership_id,
            revoke_reason: row.revoke_reason,
            created_at: row.created_at,
            updated_at: row.updated_at,
            accepted_at: row.accepted_at,
            revoked_at: row.revoked_at,
            expired_at: row.expired_at,
        },
    )
}

/// An invitation as callers see it.
#[verifier::ext_equal]
#[derive(Clone, Debug, PartialEq, Eq)]
pub struct InvitationView<S> {
    pub invitation_id: u128,
    pub identifier: S,
    pub organization_id: S,
    pub email: S,
    pub state: InvitationState,
    pub inviter_subject: S,
    pub accepted_subject: Option<S>,
    pub revision: i64,
    pub token_expires_at: i64,
    pub acceptance_pending: bool,
    pub delivery_state: DeliveryState,
    pub created_at: i64,
    pub updated_at: i64,
    pub accepted_at: Option<i64>,
    pub revoked_at: Option<i64>,
    pub expired_at: Option<i64>,
}

impl View for InvitationView<String> {
    type V = InvitationView<Seq<char>>;

    open spec fn view(&self) -> InvitationView<Seq<char>> {
        InvitationView {
            invitation_id: self.invitation_id,
            identifier: self.identifier@,
            organization_id: self.organization_id@,
            email: self.email@,
            state: self.state,
            inviter_subject: self.inviter_subject@,
            accepted_subject: option_text(self.accepted_subject),
            revision: self.revision,
            token_expires_at: self.token_expires_at,
            acceptance_pending: self.acceptance_pending,
            delivery_state: self.delivery_state,
            created_at: self.created_at,
            updated_at: self.updated_at,
            accepted_at: self.accepted_at,
            revoked_at: self.revoked_at,
            expired_at: self.expired_at,
        }
    }
}

impl InvitationView<String> {
    pub fn copy(&self) -> (copy: Self)
        ensures
            copy@ == self@,
    {
        InvitationView {
            invitation_id: self.invitation_id,
            identifier: self.identifier.clone(),
            organization_id: self.organization_id.clone(),
            email: self.email.clone(),
            state: self.state,
            inviter_subject: self.inviter_subject.clone(),
            accepted_subject: copy_optional_text(&self.accepted_subject),
            revision: self.revision,
            token_expires_at: self.token_expires_at,
            acceptance_pending: self.acceptance_pending,
            delivery_state: self.delivery_state,
            created_at: self.created_at,
            updated_at: self.updated_at,
            accepted_at: self.accepted_at,
            revoked_at: self.revoked_at,
            expired_at: self.expired_at,
        }
    }
}

/// What callers see of an invitation: who accepted it once it is accepted, whether an acceptance
/// is under way while it is pending, and nothing of its token.
pub open spec fn seen(record: InvitationRecord<Seq<char>>) -> InvitationView<Seq<char>> {
    InvitationView {
        invitation_id: record.invitation_id,
        identifier: record.identifier,
        organization_id: record.organization_id,
        email: record.email,
        state: record.state,
        inviter_subject: record.inviter_subject,
        accepted_subject: if record.state == InvitationState::Accepted {
            record.acceptance_subject
        } else {
            None
        },
        revision: record.revision,
        token_expires_at: record.token_expires_at,
        acceptance_pending: record.acceptance_subject is Some && record.state
            == InvitationState::Pending,
        delivery_state: record.delivery_state,
        created_at: record.created_at,
        updated_at: record.updated_at,
        accepted_at: record.accepted_at,
        revoked_at: record.revoked_at,
        expired_at: record.expired_at,
    }
}

impl InvitationRecord<String> {
    /// The invitation as callers see it.
    pub fn seen(&self) -> (view: InvitationView<String>)
        ensures
            view@ == seen(self@),
            view.invitation_id == self.invitation_id,
            view.identifier@ == self.identifier@,
            view.organization_id@ == self.organization_id@,
            view.email@ == self.email@,
            view.state == self.state,
            view.inviter_subject@ == self.inviter_subject@,
            self.state == InvitationState::Accepted ==> option_text(view.accepted_subject)
                == option_text(self.acceptance_subject),
            self.state != InvitationState::Accepted ==> view.accepted_subject is None,
            view.revision == self.revision,
            view.token_expires_at == self.token_expires_at,
            view.acceptance_pending <==> self.state == InvitationState::Pending
                && self.acceptance_subject is Some,
            view.delivery_state == self.delivery_state,
            view.created_at == self.created_at,
            view.updated_at == self.updated_at,
            view.accepted_at == self.accepted_at,
            view.revoked_at == self.revoked_at,
            view.expired_at == self.expired_at,
    {
        InvitationView {
            invitation_id: self.invitation_id,
            identifier: self.identifier.clone(),
            organization_id: self.organization_id.clone(),
            email: self.email.clone(),
            state: self.state,
            inviter_subject: self.inviter_subject.clone(),
            accepted_subject: if self.state == InvitationState::Accepted {
                copy_optional_text(&self.acceptance_subject)
            } else {
                None
            },
            revision: self.revision,
            token_expires_at: self.token_expires_at,
            acceptance_pending: self.acceptance_subject.is_some() && self.state
                == InvitationState::Pending,
            delivery_state: self.delivery_state,
            created_at: self.created_at,
            updated_at: self.updated_at,
            accepted_at: self.accepted_at,
            revoked_at: self.revoked_at,
            expired_at: self.expired_at,
        }
    }
}

/// An accepted invitation, as its acceptance is answered.
#[verifier::ext_equal]
#[derive(Clone, Debug, PartialEq, Eq)]
pub struct AcceptedRecord<S> {
    pub invitation_id: u128,
    pub identifier: S,
    pub organization_id: S,
    pub state: InvitationState,
    pub membership_id: S,
    pub revision: i64,
}

impl View for AcceptedRecord<String> {
    type V = AcceptedRecord<Seq<char>>;

    open spec fn view(&self) -> AcceptedRecord<Seq<char>> {
        AcceptedRecord {
            invitation_id: self.invitation_id,
            identifier: self.identifier@,
            organization_id: self.organization_id@,
            state: self.state,
            membership_id: self.membership_id@,
            revision: self.revision,
        }
    }
}

impl AcceptedRecord<String> {
    pub fn copy(&self) -> (copy: Self)
        ensures
            copy@ == self@,
    {
        AcceptedRecord {
            invitation_id: self.invitation_id,
            identifier: self.identifier.clone(),
            organization_id: self.organization_id.clone(),
            state: self.state,
            membership_id: self.membership_id.clone(),
            revision: self.revision,
        }
    }
}

/// The answer for an accepted invitation with the given membership.
pub open spec fn acceptance_of(
    record: InvitationRecord<Seq<char>>,
    membership_id: Seq<char>,
) -> AcceptedRecord<Seq<char>> {
    AcceptedRecord {
        invitation_id: record.invitation_id,
        identifier: record.identifier,
        organization_id: record.organization_id,
        state: record.state,
        membership_id,
        revision: record.revision,
    }
}

/// The answer for an accepted invitation. Only an invitation that is accepted and has a
/// membership has one.
pub fn accepted_record(invitation: &InvitationRecord<String>) -> (accepted: Result<
    AcceptedRecord<String>,
    StorageError,
>)
    ensures
        match accepted {
            Ok(accepted) => {
                &&& invitation.state == InvitationState::Accepted
                &&& invitation@.membership_id == Some(accepted@.membership_id)
                &&& accepted@ == acceptance_of(invitation@, accepted@.membership_id)
                &&& accepted.invitation_id == invitation.invitation_id
                &&& accepted.identifier@ == invitation.identifier@
                &&& accepted.organization_id@ == invitation.organization_id@
                &&& accepted.state == InvitationState::Accepted
                &&& option_text(invitation.membership_id) == Some(accepted.membership_id@)
                &&& accepted.revision == invitation.revision
            },
            Err(StorageError::NotAccepted) => invitation.state != InvitationState::Accepted,
            Err(StorageError::NoMembership) => {
                &&& invitation.state == InvitationState::Accepted
                &&& invitation.membership_id is None
            },
            Err(_) => false,
        },
{
    if invitation.state != InvitationState::Accepted {
        return Err(StorageError::NotAccepted);
    }
    match &invitation.membership_id {
        Some(membership_id) => Ok(
            AcceptedRecord {
                invitation_id: invitation.invitation_id,
                identifier: invitation.identifier.clone(),
                organization_id: invitation.organization_id.clone(),
                state: invitation.state,
                membership_id: membership_id.clone(),
                revision: invitation.revision,
            },
        ),
        None => Err(StorageError::NoMembership),
    }
}

/// What a provider answered for a completed command.
#[verifier::ext_equal]
#[derive(Clone, Debug, PartialEq, Eq)]
pub enum Receipt<S> {
    Membership { membership_id: S, membership_revision: S },
    Notification { intent_id: S, delivery_id: S },
    Lifecycle { recorded: bool },
}

impl View for Receipt<String> {
    type V = Receipt<Seq<char>>;

    open spec fn view(&self) -> Receipt<Seq<char>> {
        match self {
            Receipt::Membership { membership_id, membership_revision } => Receipt::Membership {
                membership_id: membership_id@,
                membership_revision: membership_revision@,
            },
            Receipt::Notification { intent_id, delivery_id } => Receipt::Notification {
                intent_id: intent_id@,
                delivery_id: delivery_id@,
            },
            Receipt::Lifecycle { recorded } => Receipt::Lifecycle { recorded: *recorded },
        }
    }
}

impl Receipt<String> {
    pub fn copy(&self) -> (copy: Self)
        ensures
            copy@ == self@,
    {
        match self {
            Receipt::Membership { membership_id, membership_revision } => Receipt::Membership {
                membership_id: membership_id.clone(),
                membership_revision: membership_revision.clone(),
            },
            Receipt::Notification { intent_id, delivery_id } => Receipt::Notification {
                intent_id: intent_id.clone(),
                delivery_id: delivery_id.clone(),
            },
            Receipt::Lifecycle { recorded } => Receipt::Lifecycle { recorded: *recorded },
        }
    }
}

pub open spec fn option_receipt(receipt: Option<Receipt<String>>) -> Option<Receipt<Seq<char>>> {
    match receipt {
        Some(receipt) => Some(receipt@),
        None => None,
    }
}

/// A durable command as it is stored.
#[verifier::ext_equal]
#[derive(Clone, Debug, PartialEq, Eq)]
pub struct CommandRow<S> {
    pub command_id: u128,
    pub organization_id: S,
    pub invitation_id: u128,
    pub kind: S,
    pub command_key: S,
    pub token_generation: Option<i64>,
    pub acceptance_subject: Option<S>,
    pub lifecycle: Option<S>,
    pub state: CommandState,
    pub attempts: i32,
    pub available_at: i64,
    pub lease_token: Option<u128>,
    pub lease_until: Option<i64>,
    pub last_error: Option<S>,
    pub receipt: Option<Receipt<S>>,
    pub updated_at: i64,
    pub completed_at: Option<i64>,
}

impl View for CommandRow<String> {
    type V = CommandRow<Seq<char>>;

    open spec fn view(&self) -> CommandRow<Seq<char>> {
        CommandRow {
            command_id: self.command_id,
            organization_id: self.organization_id@,
            invitation_id: self.invitation_id,
            kind: self.kind@,
            command_key: self.command_key@,
            token_generation: self.token_generation,
            acceptance_subject: option_text(self.acceptance_subject),
            lifecycle: option_text(self.lifecycle),
            state: self.state,
            attempts: self.attempts,
            available_at: self.available_at,
            lease_token: self.lease_token,
            lease_until: self.lease_until,
            last_error: option_text(self.last_error),
            receipt: option_receipt(self.receipt),
            updated_at: self.updated_at,
            completed_at: self.completed_at,
        }
    }
}

impl CommandRow<String> {
    pub fn copy(&self) -> (copy: Self)
        ensures
            copy@ == self@,
    {
        CommandRow {
            command_id: self.command_id,
            organization_id: self.organization_id.clone(),
            invitation_id: self.invitation_id,
            kind: self.kind.clone(),
            command_key: self.command_key.clone(),
            token_generation: self.token_generation,
            acceptance_subject: copy_optional_text(&self.acceptance_subject),
            lifecycle: copy_optional_text(&self.lifecycle),
            state: self.state,
            attempts: self.attempts,
            available_at: self.available_at,
            lease_token: self.lease_token,
            lease_until: self.lease_until,
            last_error: copy_optional_text(&self.last_error),
            receipt: match &self.receipt {
                Some(receipt) => Some(receipt.copy()),
                None => None,
            },
            updated_at: self.updated_at,
            completed_at: self.completed_at,
        }
    }
}

/// A command that a worker holds under a lease.
#[verifier::ext_equal]
#[derive(Clone, Debug, PartialEq, Eq)]
pub struct CommandRecord<S> {
    pub command_id: u128,
    pub organization_id: S,
    pub invitation_id: u128,
    pub kind: S,
    pub command_key: S,
    pub token_generation: Option<i64>,
    pub acceptance_subject: Option<S>,
    pub lifecycle: Option<S>,
    pub attempts: i32,
    pub lease_token: u128,
}

impl View for CommandRecord<String> {
    type V = CommandRecord<Seq<char>>;

    open spec fn view(&self) -> CommandRecord<Seq<char>> {
        CommandRecord {
            command_id: self.command_id,
            organization_id: self.organization_id@,
            invitation_id: self.invitation_id,
            kind: self.kind@,
            command_key: self.command_key@,
            token_generation: self.token_generation,
            acceptance_subject: option_text(self.acceptance_subject),
            lifecycle: option_text(self.lifecycle),
            attempts: self.attempts,
            lease_token: self.lease_token,
        }
    }
}

/// The command that a row holds, under the given lease.
pub open spec fn held(row: CommandRow<Seq<char>>, lease_token: u128) -> CommandRecord<Seq<char>> {
    CommandRecord {
        command_id: row.command_id,
        organization_id: row.organization_id,
        invitation_id: row.invitation_id,
        kind: row.kind,
        command_key: row.command_key,
        token_generation: row.token_generation,
        acceptance_subject: row.acceptance_subject,
        lifecycle: row.lifecycle,
        attempts: row.attempts,
        lease_token,
    }
}

/// Reads a claimed command. A claimed command has a lease.
pub fn decode_command(row: &CommandRow<String>) -> (command: Result<
    CommandRecord<String>,
    StorageError,
>)
    ensures
        match command {
            Ok(command) => {
                &&& row.lease_token == Some(command.lease_token)
                &&& command@ == held(row@, command.lease_token)
                &&& command.command_id == row.command_id
                &&& command.organization_id@ == row.organization_id@
                &&& command.invitation_id == row.invitation_id
                &&& command.kind@ == row.kind@
                &&& command.command_key@ == row.command_key@
                &&& command.token_generation == row.token_generation
                &&& option_text(command.acceptance_subject) == option_text(row.acceptance_subject)
                &&& option_text(command.lifecycle) == option_text(row.lifecycle)
                &&& command.attempts == row.attempts
            },
            Err(StorageError::NoLeaseToken) => row.lease_token is None,
            Err(_) => false,
        },
{
    match row.lease_token {
        Some(lease_token) => Ok(
            CommandRecord {
                command_id: row.command_id,
                organization_id: row.organization_id.clone(),
                invitation_id: row.invitation_id,
                kind: row.kind.clone(),
                command_key: row.command_key.clone(),
                token_generation: row.token_generation,
                acceptance_subject: copy_optional_text(&row.acceptance_subject),
                lifecycle: copy_optional_text(&row.lifecycle),
                attempts: row.attempts,
                lease_token,
            },
        ),
        None => Err(StorageError::NoLeaseToken),
    }
}

} // verus!
