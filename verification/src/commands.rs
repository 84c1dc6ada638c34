//! Durable commands: their keys, their leases and how they end.

use crate::instants::{after, instant_after};
use crate::records::{
    option_receipt, state_text, states_are_told_apart_by_their_text, CommandRecord, CommandRow,
    CommandState, InvitationRecord, InvitationState, Receipt, StorageError,
};
use crate::text::{
    decimal, decimal_injective, decimal_text, option_text, same_optional_text, same_text,
};
use crate::uuids::{format_uuid, uuid_round_trip, uuid_text, uuid_text_injective};
use vstd::prelude::*;
use vstd::string::*;

verus! {

/// Adds the accepting subject to the organization.
pub const ADD_MEMBER: &'static str = "add_member";

/// Delivers the invitation with the token of one generation.
pub const NOTIFY_INVITATION: &'static str = "notify_invitation";

/// Reports how the invitation ended.
pub const NOTIFY_LIFECYCLE: &'static str = "notify_lifecycle";

/// The three kinds of commands have different names.
pub proof fn kinds_differ()
    ensures
        ADD_MEMBER@ != NOTIFY_INVITATION@,
        ADD_MEMBER@ != NOTIFY_LIFECYCLE@,
        NOTIFY_INVITATION@ != NOTIFY_LIFECYCLE@,
{
    reveal_strlit("add_member");
    reveal_strlit("notify_invitation");
    reveal_strlit("notify_lifecycle");
    assert(ADD_MEMBER@.len() == 10);
    assert(NOTIFY_INVITATION@.len() == 17);
    assert(NOTIFY_LIFECYCLE@.len() == 16);
}

/// The key of the command that delivers one token generation of an invitation.
pub open spec fn notify_key(invitation_id: u128, generation: i64) -> Seq<char> {
    "notify:"@ + uuid_text(invitation_id) + ":"@ + decimal(generation as int)
}

/// The key of the command that reports how an invitation ended.
pub open spec fn lifecycle_key(invitation_id: u128, state: InvitationState) -> Seq<char> {
    "lifecycle:"@ + uuid_text(invitation_id) + ":"@ + state_text(state)
}

/// The key of the command that makes the invitee of an invitation a member.
pub open spec fn membership_key(invitation_id: u128) -> Seq<char> {
    "membership:"@ + uuid_text(invitation_id)
}

pub fn format_notify_key(invitation_id: u128, generation: i64) -> (key: String)
    ensures
        key@ == notify_key(invitation_id, generation),
{
    let mut key = "notify:".to_owned();
    key.append(format_uuid(invitation_id).as_str());
    key.append(":");
    key.append(decimal_text(generation).as_str());
    key
}

pub fn format_lifecycle_key(invitation_id: u128, state: InvitationState) -> (key: String)
    ensures
        key@ == lifecycle_key(invitation_id, state),
{
    let mut key = "lifecycle:".to_owned();
    key.append(format_uuid(invitation_id).as_str());
    key.append(":");
    key.append(state.as_str());
    key
}

pub fn format_membership_key(invitation_id: u128) -> (key: String)
    ensures
        key@ == membership_key(invitation_id),
{
    let mut key = "membership:".to_owned();
    key.append(format_uuid(invitation_id).as_str());
    key
}

/// Every token generation of every invitation has a delivery command of its own.
pub proof fn notify_keys_differ(
    left: u128,
    left_generation: i64,
    right: u128,
    right_generation: i64,
)
    requires
        left_generation >= 0,
        right_generation >= 0,
        notify_key(left, left_generation) == notify_key(right, right_generation),
    ensures
        left == right,
        left_generation == right_generation,
{
    reveal_strlit("notify:");
    reveal_strlit(":");
    uuid_round_trip(left);
    uuid_round_trip(right);
    let l = notify_key(left, left_generation);
    let r = notify_key(right, right_generation);
    assert(l.subrange(7, 43) =~= uuid_text(left));
    assert(r.subrange(7, 43) =~= uuid_text(right));
    uuid_text_injective(left, right);
    assert(l.subrange(44, l.len() as int) =~= decimal(left_generation as int));
    assert(r.subrange(44, r.len() as int) =~= decimal(right_generation as int));
    decimal_injective(left_generation as nat, right_generation as nat);
}

/// Every way in which an invitation ends has a command of its own.
pub proof fn lifecycle_keys_differ(
    left: u128,
    left_state: InvitationState,
    right: u128,
    right_state: InvitationState,
)
    requires
        lifecycle_key(left, left_state) == lifecycle_key(right, right_state),
    ensures
        left == right,
        left_state == right_state,
{
    reveal_strlit("lifecycle:");
    reveal_strlit(":");
    uuid_round_trip(left);
    uuid_round_trip(right);
    let l = lifecycle_key(left, left_state);
    let r = lifecycle_key(right, right_state);
    assert(l.subrange(10, 46) =~= uuid_text(left));
    assert(r.subrange(10, 46) =~= uuid_text(right));
    uuid_text_injective(left, right);
    assert(l.subrange(47, l.len() as int) =~= state_text(left_state));
    assert(r.subrange(47, r.len() as int) =~= state_text(right_state));
    states_are_told_apart_by_their_text(left_state, right_state);
}

/// An invitation has one membership command, whoever accepts it and however often.
pub proof fn membership_keys_differ(left: u128, right: u128)
    requires
        membership_key(left) == membership_key(right),
    ensures
        left == right,
{
    reveal_strlit("membership:");
    uuid_round_trip(left);
    uuid_round_trip(right);
    assert(membership_key(left).subrange(11, 47) =~= uuid_text(left));
    assert(membership_key(right).subrange(11, 47) =~= uuid_text(right));
    uuid_text_injective(left, right);
}

/// Commands of different kinds never share a key.
pub proof fn kinds_are_told_apart_by_their_keys(
    notified: u128,
    generation: i64,
    ended: u128,
    state: InvitationState,
    joined: u128,
)
    ensures
        notify_key(notified, generation) != lifecycle_key(ended, state),
        notify_key(notified, generation) != membership_key(joined),
        lifecycle_key(ended, state) != membership_key(joined),
{
    reveal_strlit("notify:");
    reveal_strlit("lifecycle:");
    reveal_strlit("membership:");
    assert(notify_key(notified, generation)[0] == 'n');
    assert(lifecycle_key(ended, state)[0] == 'l');
    assert(membership_key(joined)[0] == 'm');
}

/// A command as it is first stored: due at once, and never tried.
pub open spec fn new_command(
    command_id: u128,
    organization_id: Seq<char>,
    invitation_id: u128,
    kind: Seq<char>,
    command_key: Seq<char>,
    token_generation: Option<i64>,
    acceptance_subject: Option<Seq<char>>,
    lifecycle: Option<Seq<char>>,
    now: i64,
) -> CommandRow<Seq<char>> {
    CommandRow {
        command_id,
        organization_id,
        invitation_id,
        kind,
        command_key,
        token_generation,
        acceptance_subject,
        lifecycle,
        state: CommandState::Pending,
        attempts: 0,
        available_at: now,
        lease_token: None,
        lease_until: None,
        last_error: None,
        receipt: None,
        updated_at: now,
        completed_at: None,
    }
}

/// The command that delivers one token generation.
pub open spec fn delivery_command(
    command_id: u128,
    organization_id: Seq<char>,
    invitation_id: u128,
    generation: i64,
    now: i64,
) -> CommandRow<Seq<char>> {
    new_command(
        command_id,
        organization_id,
        invitation_id,
        NOTIFY_INVITATION@,
        notify_key(invitation_id, generation),
        Some(generation),
        None,
        None,
        now,
    )
}

/// The command that reports how an invitation ended.
pub open spec fn lifecycle_command(
    command_id: u128,
    organization_id: Seq<char>,
    invitation_id: u128,
    state: InvitationState,
    now: i64,
) -> CommandRow<Seq<char>> {
    new_command(
        command_id,
        organization_id,
        invitation_id,
        NOTIFY_LIFECYCLE@,
        lifecycle_key(invitation_id, state),
        None,
        None,
        Some(state_text(state)),
        now,
    )
}

/// The command that makes the accepting subject a member.
pub open spec fn membership_command(
    command_id: u128,
    organization_id: Seq<char>,
    invitation_id: u128,
    subject: Seq<char>,
    now: i64,
) -> CommandRow<Seq<char>> {
    new_command(
        command_id,
        organization_id,
        invitation_id,
        ADD_MEMBER@,
        membership_key(invitation_id),
        None,
        Some(subject),
        None,
        now,
    )
}

fn fresh_command(
    command_id: u128,
    organization_id: &str,
    invitation_id: u128,
    kind: &str,
    command_key: String,
    now: i64,
) -> (row: CommandRow<String>)
    ensures
        row@ == new_command(
            command_id,
            organization_id@,
            invitation_id,
            kind@,
            command_key@,
            None,
            None,
            None,
            now,
        ),
{
    CommandRow {
        command_id,
        organization_id: organization_id.to_owned(),
        invitation_id,
        kind: kind.to_owned(),
        command_key,
        token_generation: None,
        acceptance_subject: None,
        lifecycle: None,
        state: CommandState::Pending,
        attempts: 0,
        available_at: now,
        lease_token: None,
        lease_until: None,
        last_error: None,
        receipt: None,
        updated_at: now,
        completed_at: None,
    }
}

pub fn make_delivery_command(
    command_id: u128,
    organization_id: &str,
    invitation_id: u128,
    generation: i64,
    now: i64,
) -> (row: CommandRow<String>)
    ensures
        row@ == delivery_command(command_id, organization_id@, invitation_id, generation, now),
{
    let key = format_notify_key(invitation_id, generation);
    let mut row = fresh_command(
        command_id,
        organization_id,
        invitation_id,
        NOTIFY_INVITATION,
        key,
        now,
    );
    row.token_generation = Some(generation);
    row
}

pub fn make_lifecycle_command(
    command_id: u128,
    organization_id: &str,
    invitation_id: u128,
    state: InvitationState,
    now: i64,
) -> (row: CommandRow<String>)
    ensures
        row@ == lifecycle_command(command_id, organization_id@, invitation_id, state, now),
{
    let key = format_lifecycle_key(invitation_id, state);
    let mut row = fresh_command(
        command_id,
        organization_id,
        invitation_id,
        NOTIFY_LIFECYCLE,
        key,
        now,
    );
    row.lifecycle = Some(state.as_str().to_owned());
    row
}

pub fn make_membership_command(
    command_id: u128,
    organization_id: &str,
    invitation_id: u128,
    subject: &str,
    now: i64,
) -> (row: CommandRow<String>)
    ensures
        row@ == membership_command(command_id, organization_id@, invitation_id, subject@, now),
{
    let key = format_membership_key(invitation_id);
    let mut row = fresh_command(command_id, organization_id, invitation_id, ADD_MEMBER, key, now);
    row.acceptance_subject = Some(subject.to_owned());
    row
}

/// A command that a worker may take: one that waits for its time, or whose lease has run out.
pub open spec fn is_due(row: CommandRow<Seq<char>>, now: i64) -> bool {
    ||| row.state == CommandState::Pending && row.available_at <= now
    ||| row.state == CommandState::InFlight && (row.lease_until matches Some(until) && until < now)
}

/// A command under a new lease.
pub open spec fn leased(
    row: CommandRow<Seq<char>>,
    lease_token: u128,
    until: i64,
    now: i64,
) -> CommandRow<Seq<char>> {
    CommandRow {
        state: CommandState::InFlight,
        attempts: (row.attempts + 1) as i32,
        lease_token: Some(lease_token),
        lease_until: Some(until),
        updated_at: now,
        ..row
    }
}

/// A lease can be taken while the count of attempts and the end of the lease can be stored.
pub open spec fn can_lease(row: CommandRow<Seq<char>>, now: i64, lease_seconds: i64) -> bool {
    row.attempts < i32::MAX && instant_after(now, lease_seconds) is Some
}

/// Takes a command under a new lease.
pub fn lease_command(
    row: CommandRow<String>,
    lease_token: u128,
    now: i64,
    lease_seconds: i64,
) -> (result: Result<CommandRow<String>, StorageError>)
    ensures
        match result {
            Ok(taken) => {
                &&& can_lease(row@, now, lease_seconds)
                &&& taken@ == leased(row@, lease_token, instant_after(now, lease_seconds)->0, now)
            },
            Err(StorageError::OutOfRange) => !can_lease(row@, now, lease_seconds),
            Err(_) => false,
        },
{
    if row.attempts == i32::MAX {
        return Err(StorageError::OutOfRange);
    }
    match after(now, lease_seconds) {
        Some(until) => {
            let mut taken = row;
            taken.state = CommandState::InFlight;
            taken.attempts = taken.attempts + 1;
            taken.lease_token = Some(lease_token);
            taken.lease_until = Some(until);
            taken.updated_at = now;
            Ok(taken)
        },
        None => Err(StorageError::OutOfRange),
    }
}

/// The lease fence: the command is in flight under exactly the given lease.
pub open spec fn is_fenced(row: Option<CommandRow<Seq<char>>>, lease_token: u128) -> bool {
    match row {
        Some(row) => row.state == CommandState::InFlight && row.lease_token == Some(lease_token),
        None => false,
    }
}

pub open spec fn option_row(row: Option<CommandRow<String>>) -> Option<CommandRow<Seq<char>>> {
    match row {
        Some(row) => Some(row@),
        None => None,
    }
}

pub fn fenced(row: &CommandRow<String>, lease_token: u128) -> (r: bool)
    ensures
        r == is_fenced(Some(row@), lease_token),
{
    row.state == CommandState::InFlight && (match row.lease_token {
        Some(held) => held == lease_token,
        None => false,
    })
}

/// A command that has ended, with its receipt or its error.
pub open spec fn finished(
    row: CommandRow<Seq<char>>,
    state: CommandState,
    receipt: Option<Receipt<Seq<char>>>,
    error_code: Option<Seq<char>>,
    now: i64,
) -> CommandRow<Seq<char>> {
    CommandRow {
        state,
        receipt,
        last_error: error_code,
        lease_token: None,
        lease_until: None,
        updated_at: now,
        completed_at: Some(now),
        ..row
    }
}

/// Ends a command that is held under the lease.
pub fn finish_command(
    row: Option<CommandRow<String>>,
    lease_token: u128,
    state: CommandState,
    receipt: Option<Receipt<String>>,
    error_code: Option<String>,
    now: i64,
) -> (result: Result<CommandRow<String>, StorageError>)
    ensures
        match result {
            Ok(ended) => {
                &&& is_fenced(option_row(row), lease_token)
                &&& ended@ == finished(
                    row->0@,
                    state,
                    option_receipt(receipt),
                    option_text(error_code),
                    now,
                )
            },
            Err(StorageError::RowNotFound) => !is_fenced(option_row(row), lease_token),
            Err(_) => false,
        },
{
    match row {
        Some(row) => {
            if !fenced(&row, lease_token) {
                return Err(StorageError::RowNotFound);
            }
            let mut ended = row;
            ended.state = state;
            ended.receipt = receipt;
            ended.last_error = error_code;
            ended.lease_token = None;
            ended.lease_until = None;
            ended.updated_at = now;
            ended.completed_at = Some(now);
            Ok(ended)
        },
        None => Err(StorageError::RowNotFound),
    }
}

/// A command that waits for its next try.
pub open spec fn retried(
    row: CommandRow<Seq<char>>,
    error_code: Seq<char>,
    available_at: i64,
    now: i64,
) -> CommandRow<Seq<char>> {
    CommandRow {
        state: CommandState::Pending,
        available_at,
        lease_token: None,
        lease_until: None,
        last_error: Some(error_code),
        updated_at: now,
        ..row
    }
}

/// Puts a command that is held under the lease back, to be tried again later.
pub fn retry_command(
    row: Option<CommandRow<String>>,
    lease_token: u128,
    error_code: &str,
    retry_after_seconds: i64,
    now: i64,
) -> (result: Result<CommandRow<String>, StorageError>)
    ensures
        match result {
            Ok(waiting) => {
                &&& is_fenced(option_row(row), lease_token)
                &&& instant_after(now, retry_after_seconds) is Some
                &&& waiting@ == retried(
                    row->0@,
                    error_code@,
                    instant_after(now, retry_after_seconds)->0,
                    now,
                )
            },
            Err(StorageError::RowNotFound) => !is_fenced(option_row(row), lease_token),
            Err(StorageError::OutOfRange) => {
                &&& is_fenced(option_row(row), lease_token)
                &&& instant_after(now, retry_after_seconds) is None
            },
            Err(_) => false,
        },
{
    match row {
        Some(row) => {
            if !fenced(&row, lease_token) {
                return Err(StorageError::RowNotFound);
            }
            match after(now, retry_after_seconds) {
                Some(available_at) => {
                    let mut waiting = row;
                    waiting.state = CommandState::Pending;
                    waiting.available_at = available_at;
                    waiting.lease_token = None;
                    waiting.lease_until = None;
                    waiting.last_error = Some(error_code.to_owned());
                    waiting.updated_at = now;
                    Ok(waiting)
                },
                None => Err(StorageError::OutOfRange),
            }
        },
        None => Err(StorageError::RowNotFound),
    }
}

/// A command that something newer has replaced.
pub open spec fn superseded(row: CommandRow<Seq<char>>, now: i64) -> CommandRow<Seq<char>> {
    CommandRow {
        state: CommandState::Superseded,
        lease_token: None,
        lease_until: None,
        updated_at: now,
        completed_at: Some(now),
        ..row
    }
}

/// Drops a command that is held under the lease and has become moot.
pub fn supersede_command(row: Option<CommandRow<String>>, lease_token: u128, now: i64) -> (result:
    Result<CommandRow<String>, StorageError>)
    ensures
        match result {
            Ok(dropped) => {
                &&& is_fenced(option_row(row), lease_token)
                &&& dropped@ == superseded(row->0@, now)
            },
            Err(StorageError::RowNotFound) => !is_fenced(option_row(row), lease_token),
            Err(_) => false,
        },
{
    match row {
        Some(row) => {
            if !fenced(&row, lease_token) {
                return Err(StorageError::RowNotFound);
            }
            let mut dropped = row;
            dropped.state = CommandState::Superseded;
            dropped.lease_token = None;
            dropped.lease_until = None;
            dropped.updated_at = now;
            dropped.completed_at = Some(now);
            Ok(dropped)
        },
        None => Err(StorageError::RowNotFound),
    }
}

/// A command still has work to do: the delivery of the current token of a pending invitation, a
/// report of the state that the invitation is in, or the membership of the subject that accepts.
pub open spec fn matches_invitation(
    command: CommandRecord<Seq<char>>,
    invitation: InvitationRecord<Seq<char>>,
) -> bool {
    if command.kind == NOTIFY_INVITATION@ {
        invitation.state == InvitationState::Pending && invitation.token_hash is Some
            && command.token_generation == Some(invitation.token_generation)
    } else if command.kind == NOTIFY_LIFECYCLE@ {
        command.lifecycle == Some(state_text(invitation.state))
    } else if command.kind == ADD_MEMBER@ {
        invitation.state == InvitationState::Pending && invitation.acceptance_subject
            == command.acceptance_subject
    } else {
        false
    }
}

pub open spec fn option_record(record: Option<InvitationRecord<String>>) -> Option<
    InvitationRecord<Seq<char>>,
> {
    match record {
        Some(record) => Some(record@),
        None => None,
    }
}

/// The invitation of a command, where the command still has work to do for it.
pub fn command_matches_invitation<'a>(
    command: &CommandRecord<String>,
    invitation: &'a Option<InvitationRecord<String>>,
) -> (matching: Option<&'a InvitationRecord<String>>)
    ensures
        matching == (match invitation {
            Some(found) => if matches_invitation(command@, found@) {
                Some(found)
            } else {
                None
            },
            None => None,
        }),
{
    match invitation {
        Some(found) => {
            let keep = if same_text(command.kind.as_str(), NOTIFY_INVITATION) {
                found.state == InvitationState::Pending && found.token_hash.is_some() && (
                match command.token_generation {
                    Some(generation) => generation == found.token_generation,
                    None => false,
                })
            } else if same_text(command.kind.as_str(), NOTIFY_LIFECYCLE) {
                match &command.lifecycle {
                    Some(lifecycle) => same_text(lifecycle.as_str(), found.state.as_str()),
                    None => false,
                }
            } else if same_text(command.kind.as_str(), ADD_MEMBER) {
                found.state == InvitationState::Pending && same_optional_text(
                    &found.acceptance_subject,
                    &command.acceptance_subject,
                )
            } else {
                false
            };
            if keep {
                Some(found)
            } else {
                None
            }
        },
        None => None,
    }
}

} // verus!
