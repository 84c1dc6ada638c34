//! What each change makes of an invitation or a command, and what it leaves as it was.

use crate::acceptance::{accepted, accepting_command, consumed};
use crate::commands::{
    delivery_command, finished, leased, lifecycle_command, membership_command, retried, superseded,
};
use crate::lifecycle::{activity_of, created, expired, revoked, rotated, NewInvitation};
use crate::records::{
    held, row_record, state_text, CommandRow, CommandState, DeliveryState, InvitationRecord,
    InvitationRow, InvitationState, Receipt,
};
use crate::settlement::{queued, undelivered};
use crate::text::{decimal, option_text};
use crate::uuids::uuid_text;
use crate::writes::{ActivityKind, Evidence, Write};
use vstd::prelude::*;

verus! {

/// A new invitation is pending, at its first revision and with its first token.
pub proof fn new_invitations_are_pending(
    input: NewInvitation<Seq<char>>,
    inviter: Seq<char>,
    number: i64,
    expires_at: i64,
    now: i64,
)
    ensures
        ({
            let next = created(input, inviter, number, expires_at, now);
            &&& next.invitation_id == input.invitation_id
            &&& next.organization_id == input.organization_id
            &&& next.identifier == "INV-"@ + decimal(number as int)
            &&& next.email == input.email
            &&& next.email_normalized == input.email_normalized
            &&& next.state == InvitationState::Pending
            &&& next.inviter_subject == inviter
            &&& next.acceptance_subject is None
            &&& next.token_hash == Some(input.token_hash)
            &&& next.token_generation == 1
            &&& next.token_expires_at == expires_at
            &&& next.token_consumed_at is None
            &&& next.revision == 1
            &&& next.delivery_state == DeliveryState::Pending
            &&& next.delivery_intent_id is None
            &&& next.delivery_id is None
            &&& next.membership_id is None
            &&& next.revoke_reason is None
            &&& next.created_at == now
            &&& next.updated_at == now
            &&& next.accepted_at is None
            &&& next.revoked_at is None
            &&& next.expired_at is None
        }),
{
}

/// A rotation changes the token, its deadline, its delivery and the revision.
pub proof fn rotations_change_the_token(
    record: InvitationRecord<Seq<char>>,
    token_hash: Seq<char>,
    expires_at: i64,
    now: i64,
)
    requires
        record.token_generation < i64::MAX,
        record.revision < i64::MAX,
    ensures
        ({
            let next = rotated(record, token_hash, expires_at, now);
            &&& next.invitation_id == record.invitation_id
            &&& next.organization_id == record.organization_id
            &&& next.identifier == record.identifier
            &&& next.email == record.email
            &&& next.email_normalized == record.email_normalized
            &&& next.state == record.state
            &&& next.inviter_subject == record.inviter_subject
            &&& next.acceptance_subject == record.acceptance_subject
            &&& next.token_hash == Some(token_hash)
            &&& next.token_generation == record.token_generation + 1
            &&& next.token_expires_at == expires_at
            &&& next.token_consumed_at == record.token_consumed_at
            &&& next.revision == record.revision + 1
            &&& next.delivery_state == DeliveryState::Pending
            &&& next.delivery_intent_id is None
            &&& next.delivery_id is None
            &&& next.membership_id == record.membership_id
            &&& next.revoke_reason == record.revoke_reason
            &&& next.created_at == record.created_at
            &&& next.updated_at == now
            &&& next.accepted_at == record.accepted_at
            &&& next.revoked_at == record.revoked_at
            &&& next.expired_at == record.expired_at
        }),
{
}

/// A revocation changes the state, takes the token away and keeps the reason.
pub proof fn revocations_change_the_state(
    record: InvitationRecord<Seq<char>>,
    reason: Seq<char>,
    now: i64,
)
    requires
        record.revision < i64::MAX,
    ensures
        ({
            let next = revoked(record, reason, now);
            &&& next.invitation_id == record.invitation_id
            &&& next.organization_id == record.organization_id
            &&& next.identifier == record.identifier
            &&& next.email == record.email
            &&& next.email_normalized == record.email_normalized
            &&& next.state == InvitationState::Revoked
            &&& next.inviter_subject == record.inviter_subject
            &&& next.acceptance_subject == record.acceptance_subject
            &&& next.token_hash is None
            &&& next.token_generation == record.token_generation
            &&& next.token_expires_at == record.token_expires_at
            &&& next.token_consumed_at == record.token_consumed_at
            &&& next.revision == record.revision + 1
            &&& next.delivery_state == (if record.delivery_state == DeliveryState::Pending {
                DeliveryState::Superseded
            } else {
                record.delivery_state
            })
            &&& next.delivery_intent_id == record.delivery_intent_id
            &&& next.delivery_id == record.delivery_id
            &&& next.membership_id == record.membership_id
            &&& next.revoke_reason == Some(reason)
            &&& next.created_at == record.created_at
            &&& next.updated_at == now
            &&& next.accepted_at == record.accepted_at
            &&& next.revoked_at == Some(now)
            &&& next.expired_at == record.expired_at
        }),
{
}

/// An expiry changes the state and takes the token away.
pub proof fn expiries_change_the_state(
    record: InvitationRecord<Seq<char>>,
    now: i64,
)
    requires
        record.revision < i64::MAX,
    ensures
        ({
            let next = expired(record, now);
            &&& next.invitation_id == record.invitation_id
            &&& next.organization_id == record.organization_id
            &&& next.identifier == record.identifier
            &&& next.email == record.email
            &&& next.email_normalized == record.email_normalized
            &&& next.state == InvitationState::Expired
            &&& next.inviter_subject == record.inviter_subject
            &&& next.acceptance_subject == record.acceptance_subject
            &&& next.token_hash is None
            &&& next.token_generation == record.token_generation
            &&& next.token_expires_at == record.token_expires_at
            &&& next.token_consumed_at == record.token_consumed_at
            &&& next.revision == record.revision + 1
            &&& next.delivery_state == (if record.delivery_state == DeliveryState::Pending {
                DeliveryState::Superseded
            } else {
                record.delivery_state
            })
            &&& next.delivery_intent_id == record.delivery_intent_id
            &&& next.delivery_id == record.delivery_id
            &&& next.membership_id == record.membership_id
            &&& next.revoke_reason == record.revoke_reason
            &&& next.created_at == record.created_at
            &&& next.updated_at == now
            &&& next.accepted_at == record.accepted_at
            &&& next.revoked_at == record.revoked_at
            &&& next.expired_at == Some(now)
        }),
{
}

/// An acceptance that starts names the subject and takes the token away.
pub proof fn started_acceptances_name_the_subject(
    record: InvitationRecord<Seq<char>>,
    subject: Seq<char>,
    now: i64,
)
    requires
        record.revision < i64::MAX,
    ensures
        ({
            let next = consumed(record, subject, now);
            &&& next.invitation_id == record.invitation_id
            &&& next.organization_id == record.organization_id
            &&& next.identifier == record.identifier
            &&& next.email == record.email
            &&& next.email_normalized == record.email_normalized
            &&& next.state == record.state
            &&& next.inviter_subject == record.inviter_subject
            &&& next.acceptance_subject == Some(subject)
            &&& next.token_hash is None
            &&& next.token_generation == record.token_generation
            &&& next.token_expires_at == record.token_expires_at
            &&& next.token_consumed_at == Some(now)
            &&& next.revision == record.revision + 1
            &&& next.delivery_state == record.delivery_state
            &&& next.delivery_intent_id == record.delivery_intent_id
            &&& next.delivery_id == record.delivery_id
            &&& next.membership_id == record.membership_id
            &&& next.revoke_reason == record.revoke_reason
            &&& next.created_at == record.created_at
            &&& next.updated_at == now
            &&& next.accepted_at == record.accepted_at
            &&& next.revoked_at == record.revoked_at
            &&& next.expired_at == record.expired_at
        }),
{
}

/// An acceptance that ends changes the state and names the membership.
pub proof fn ended_acceptances_name_the_membership(
    record: InvitationRecord<Seq<char>>,
    membership_id: Seq<char>,
    now: i64,
)
    requires
        record.revision < i64::MAX,
    ensures
        ({
            let next = accepted(record, membership_id, now);
            &&& next.invitation_id == record.invitation_id
            &&& next.organization_id == record.organization_id
            &&& next.identifier == record.identifier
            &&& next.email == record.email
            &&& next.email_normalized == record.email_normalized
            &&& next.state == InvitationState::Accepted
            &&& next.inviter_subject == record.inviter_subject
            &&& next.acceptance_subject == record.acceptance_subject
            &&& next.token_hash == record.token_hash
            &&& next.token_generation == record.token_generation
            &&& next.token_expires_at == record.token_expires_at
            &&& next.token_consumed_at == record.token_consumed_at
            &&& next.revision == record.revision + 1
            &&& next.delivery_state == record.delivery_state
            &&& next.delivery_intent_id == record.delivery_intent_id
            &&& next.delivery_id == record.delivery_id
            &&& next.membership_id == Some(membership_id)
            &&& next.revoke_reason == record.revoke_reason
            &&& next.created_at == record.created_at
            &&& next.updated_at == now
            &&& next.accepted_at == Some(now)
            &&& next.revoked_at == record.revoked_at
            &&& next.expired_at == record.expired_at
        }),
{
}

/// A delivery that was taken over is named, and leaves the revision.
pub proof fn deliveries_are_named(
    record: InvitationRecord<Seq<char>>,
    intent_id: Seq<char>,
    delivery_id: Seq<char>,
    now: i64,
)
    ensures
        ({
            let next = queued(record, intent_id, delivery_id, now);
            &&& next.invitation_id == record.invitation_id
            &&& next.organization_id == record.organization_id
            &&& next.identifier == record.identifier
            &&& next.email == record.email
            &&& next.email_normalized == record.email_normalized
            &&& next.state == record.state
            &&& next.inviter_subject == record.inviter_subject
            &&& next.acceptance_subject == record.acceptance_subject
            &&& next.token_hash == record.token_hash
            &&& next.token_generation == record.token_generation
            &&& next.token_expires_at == record.token_expires_at
            &&& next.token_consumed_at == record.token_consumed_at
            &&& next.revision == record.revision
            &&& next.delivery_state == DeliveryState::Queued
            &&& next.delivery_intent_id == Some(intent_id)
            &&& next.delivery_id == Some(delivery_id)
            &&& next.membership_id == record.membership_id
            &&& next.revoke_reason == record.revoke_reason
            &&& next.created_at == record.created_at
            &&& next.updated_at == now
            &&& next.accepted_at == record.accepted_at
            &&& next.revoked_at == record.revoked_at
            &&& next.expired_at == record.expired_at
        }),
{
}

/// A delivery that failed is marked, and leaves the revision.
pub proof fn failed_deliveries_are_marked(
    record: InvitationRecord<Seq<char>>,
    now: i64,
)
    ensures
        ({
            let next = undelivered(record, now);
            &&& next.invitation_id == record.invitation_id
            &&& next.organization_id == record.organization_id
            &&& next.identifier == record.identifier
            &&& next.email == record.email
            &&& next.email_normalized == record.email_normalized
            &&& next.state == record.state
            &&& next.inviter_subject == record.inviter_subject
            &&& next.acceptance_subject == record.acceptance_subject
            &&& next.token_hash == record.token_hash
            &&& next.token_generation == record.token_generation
            &&& next.token_expires_at == record.token_expires_at
            &&& next.token_consumed_at == record.token_consumed_at
            &&& next.revision == record.revision
            &&& next.delivery_state == DeliveryState::Failed
            &&& next.delivery_intent_id == record.delivery_intent_id
            &&& next.delivery_id == record.delivery_id
            &&& next.membership_id == record.membership_id
            &&& next.revoke_reason == record.revoke_reason
            &&& next.created_at == record.created_at
            &&& next.updated_at == now
            &&& next.accepted_at == record.accepted_at
            &&& next.revoked_at == record.revoked_at
            &&& next.expired_at == record.expired_at
        }),
{
}

/// A command that is taken is in flight under its lease, with one attempt more.
pub proof fn taken_commands_are_in_flight(
    row: CommandRow<Seq<char>>,
    lease_token: u128,
    until: i64,
    now: i64,
)
    requires
        row.attempts < i32::MAX,
    ensures
        ({
            let next = leased(row, lease_token, until, now);
            &&& next.command_id == row.command_id
            &&& next.organization_id == row.organization_id
            &&& next.invitation_id == row.invitation_id
            &&& next.kind == row.kind
            &&& next.command_key == row.command_key
            &&& next.token_generation == row.token_generation
            &&& next.acceptance_subject == row.acceptance_subject
            &&& next.lifecycle == row.lifecycle
            &&& next.state == CommandState::InFlight
            &&& next.attempts == row.attempts + 1
            &&& next.available_at == row.available_at
            &&& next.lease_token == Some(lease_token)
            &&& next.lease_until == Some(until)
            &&& next.last_error == row.last_error
            &&& next.receipt == row.receipt
            &&& next.updated_at == now
            &&& next.completed_at == row.completed_at
        }),
{
}

/// A command that ends has its state, its receipt and its error, and no lease.
pub proof fn ended_commands_have_no_lease(
    row: CommandRow<Seq<char>>,
    state: CommandState,
    receipt: Option<Receipt<Seq<char>>>,
    error_code: Option<Seq<char>>,
    now: i64,
)
    ensures
        ({
            let next = finished(row, state, receipt, error_code, now);
            &&& next.command_id == row.command_id
            &&& next.organization_id == row.organization_id
            &&& next.invitation_id == row.invitation_id
            &&& next.kind == row.kind
            &&& next.command_key == row.command_key
            &&& next.token_generation == row.token_generation
            &&& next.acceptance_subject == row.acceptance_subject
            &&& next.lifecycle == row.lifecycle
            &&& next.state == state
            &&& next.attempts == row.attempts
            &&& next.available_at == row.available_at
            &&& next.lease_token is None
            &&& next.lease_until is None
            &&& next.last_error == error_code
            &&& next.receipt == receipt
            &&& next.updated_at == now
            &&& next.completed_at == Some(now)
        }),
{
}

/// A command that is put back waits, keeps its attempts and says why.
pub proof fn commands_put_back_wait(
    row: CommandRow<Seq<char>>,
    error_code: Seq<char>,
    available_at: i64,
    now: i64,
)
    ensures
        ({
            let next = retried(row, error_code, available_at, now);
            &&& next.command_id == row.command_id
            &&& next.organization_id == row.organization_id
            &&& next.invitation_id == row.invitation_id
            &&& next.kind == row.kind
            &&& next.command_key == row.command_key
            &&& next.token_generation == row.token_generation
            &&& next.acceptance_subject == row.acceptance_subject
            &&& next.lifecycle == row.lifecycle
            &&& next.state == CommandState::Pending
            &&& next.attempts == row.attempts
            &&& next.available_at == available_at
            &&& next.lease_token is None
            &&& next.lease_until is None
            &&& next.last_error == Some(error_code)
            &&& next.receipt == row.receipt
            &&& next.updated_at == now
            &&& next.completed_at == row.completed_at
        }),
{
}

/// A command that is dropped has ended without a receipt of its own.
pub proof fn dropped_commands_have_ended(
    row: CommandRow<Seq<char>>,
    now: i64,
)
    ensures
        ({
            let next = superseded(row, now);
            &&& next.command_id == row.command_id
            &&& next.organization_id == row.organization_id
            &&& next.invitation_id == row.invitation_id
            &&& next.kind == row.kind
            &&& next.command_key == row.command_key
            &&& next.token_generation == row.token_generation
            &&& next.acceptance_subject == row.acceptance_subject
            &&& next.lifecycle == row.lifecycle
            &&& next.state == CommandState::Superseded
            &&& next.attempts == row.attempts
            &&& next.available_at == row.available_at
            &&& next.lease_token is None
            &&& next.lease_until is None
            &&& next.last_error == row.last_error
            &&& next.receipt == row.receipt
            &&& next.updated_at == now
            &&& next.completed_at == Some(now)
        }),
{
}

/// A delivery is due at once, under the key of its invitation and generation.
pub proof fn new_deliveries_are_due(
    command_id: u128,
    organization_id: Seq<char>,
    invitation_id: u128,
    generation: i64,
    now: i64,
)
    ensures
        ({
            let next = delivery_command(
                command_id,
                organization_id,
                invitation_id,
                generation,
                now,
            );
            &&& next.command_id == command_id
            &&& next.organization_id == organization_id
            &&& next.invitation_id == invitation_id
            &&& next.kind == "notify_invitation"@
            &&& next.command_key == "notify:"@ + uuid_text(invitation_id) + ":"@ + decimal(
                generation as int,
            )
            &&& next.token_generation == Some(generation)
            &&& next.acceptance_subject is None
            &&& next.lifecycle is None
            &&& next.state == CommandState::Pending
            &&& next.attempts == 0
            &&& next.available_at == now
            &&& next.lease_token is None
            &&& next.lease_until is None
            &&& next.last_error is None
            &&& next.receipt is None
            &&& next.updated_at == now
            &&& next.completed_at is None
        }),
{
}

/// A report is due at once, under the key of its invitation and state.
pub proof fn new_reports_are_due(
    command_id: u128,
    organization_id: Seq<char>,
    invitation_id: u128,
    state: InvitationState,
    now: i64,
)
    ensures
        ({
            let next = lifecycle_command(command_id, organization_id, invitation_id, state, now);
            &&& next.command_id == command_id
            &&& next.organization_id == organization_id
            &&& next.invitation_id == invitation_id
            &&& next.kind == "notify_lifecycle"@
            &&& next.command_key
                == "lifecycle:"@ + uuid_text(invitation_id) + ":"@ + state_text(state)
            &&& next.token_generation is None
            &&& next.acceptance_subject is None
            &&& next.lifecycle == Some(state_text(state))
            &&& next.state == CommandState::Pending
            &&& next.attempts == 0
            &&& next.available_at == now
            &&& next.lease_token is None
            &&& next.lease_until is None
            &&& next.last_error is None
            &&& next.receipt is None
            &&& next.updated_at == now
            &&& next.completed_at is None
        }),
{
}

/// A membership is due at once, under the key of its invitation.
pub proof fn new_memberships_are_due(
    command_id: u128,
    organization_id: Seq<char>,
    invitation_id: u128,
    subject: Seq<char>,
    now: i64,
)
    ensures
        ({
            let next = membership_command(command_id, organization_id, invitation_id, subject, now);
            &&& next.command_id == command_id
            &&& next.organization_id == organization_id
            &&& next.invitation_id == invitation_id
            &&& next.kind == "add_member"@
            &&& next.command_key == "membership:"@ + uuid_text(invitation_id)
            &&& next.token_generation is None
            &&& next.acceptance_subject == Some(subject)
            &&& next.lifecycle is None
            &&& next.state == CommandState::Pending
            &&& next.attempts == 0
            &&& next.available_at == now
            &&& next.lease_token is None
            &&& next.lease_until is None
            &&& next.last_error is None
            &&& next.receipt is None
            &&& next.updated_at == now
            &&& next.completed_at is None
        }),
{
}

/// A held command has what the stored one says it is, and the lease under which it is held.
pub proof fn held_commands_are_the_stored_ones(
    row: CommandRow<Seq<char>>,
    lease_token: u128,
)
    ensures
        held(row, lease_token).command_id == row.command_id,
        held(row, lease_token).organization_id == row.organization_id,
        held(row, lease_token).invitation_id == row.invitation_id,
        held(row, lease_token).kind == row.kind,
        held(row, lease_token).command_key == row.command_key,
        held(row, lease_token).token_generation == row.token_generation,
        held(row, lease_token).acceptance_subject == row.acceptance_subject,
        held(row, lease_token).lifecycle == row.lifecycle,
        held(row, lease_token).attempts == row.attempts,
        held(row, lease_token).lease_token == lease_token,
{
}

/// The membership command of an acceptance is held from its start, at its first attempt.
pub proof fn accepting_commands_are_held_from_the_start(
    record: InvitationRecord<Seq<char>>,
    command_id: u128,
    subject: Seq<char>,
    lease_token: u128,
)
    ensures
        ({
            let command = accepting_command(record, command_id, subject, lease_token);
            &&& command.command_id == command_id
            &&& command.organization_id == record.organization_id
            &&& command.invitation_id == record.invitation_id
            &&& command.kind == "add_member"@
            &&& command.command_key == "membership:"@ + uuid_text(record.invitation_id)
            &&& command.token_generation is None
            &&& command.acceptance_subject == Some(subject)
            &&& command.lifecycle is None
            &&& command.attempts == 1
            &&& command.lease_token == lease_token
        }),
{
}

/// An activity is about its invitation at its revision, by its actor.
pub proof fn activities_are_about_their_invitation(
    record: InvitationRecord<Seq<char>>,
    activity_id: u128,
    kind: ActivityKind,
    actor: Seq<char>,
    evidence: Evidence<Seq<char>>,
)
    ensures
        activity_of(record, activity_id, kind, actor, evidence) matches Write::InsertActivity {
            activity,
        } && {
            &&& activity.activity_id == activity_id
            &&& activity.organization_id == record.organization_id
            &&& activity.invitation_id == record.invitation_id
            &&& activity.kind == kind
            &&& activity.actor_subject == actor
            &&& activity.invitation_revision == record.revision
            &&& activity.evidence == evidence
        },
{
}

/// A row that is read has every column in its field.
pub proof fn rows_are_read_column_by_column(
    row: InvitationRow,
    state: InvitationState,
    delivery_state: DeliveryState,
)
    ensures
        ({
            let record = row_record(row, state, delivery_state);
            &&& record.invitation_id == row.invitation_id
            &&& record.organization_id == row.organization_id@
            &&& record.identifier == row.identifier@
            &&& record.email == row.email@
            &&& record.email_normalized == row.email_normalized@
            &&& record.state == state
            &&& record.inviter_subject == row.inviter_subject@
            &&& record.acceptance_subject == option_text(row.acceptance_subject)
            &&& record.token_hash == option_text(row.token_hash)
            &&& record.token_generation == row.token_generation
            &&& record.token_expires_at == row.token_expires_at
            &&& record.token_consumed_at == row.token_consumed_at
            &&& record.revision == row.revision
            &&& record.delivery_state == delivery_state
            &&& record.delivery_intent_id == option_text(row.delivery_intent_id)
            &&& record.delivery_id == option_text(row.delivery_id)
            &&& record.membership_id == option_text(row.membership_id)
            &&& record.revoke_reason == option_text(row.revoke_reason)
            &&& record.created_at == row.created_at
            &&& record.updated_at == row.updated_at
            &&& record.accepted_at == row.accepted_at
            &&& record.revoked_at == row.revoked_at
            &&& record.expired_at == row.expired_at
        }),
{
}

} // verus!
