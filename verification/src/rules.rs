//! The rules behind the operations: what is refused and why, what a repeated request gets, who may
//! call, when a command may be taken or settled, and what is answered.

use crate::acceptance::{accepting_actor, awaits, token_stands};
use crate::authorization::{
    call_refusal, is_authorized, query_refusal, takes_actor, ActorRole, AuthorizationFailure,
};
use crate::commands::{can_lease, is_due, is_fenced};
use crate::contract::{quoted_text, redacted_accept, AcceptError, ManagementError};
use crate::dispatch::{
    acceptance_answer, dispatch_write, settlement_refusal, settlement_writes, Settlement,
};
use crate::effects::shows;
use crate::instants::{instant_after, instant_text, rfc3339_text};
use crate::lifecycle::{
    can_expire, change_refusal, expired_item, expired_items, expiry_step, expiry_writes,
    pending_lock, refusal, token_made, Identifiers,
};
use crate::mutations::{
    exclusive_start, mutation_start, DomainFailure, KeptMutation, MutationReplay,
};
use crate::operations::{redacted_response, shown_token};
use crate::records::{
    acceptance_of, command_state_text, delivery_text, seen, state_text, CommandRecord, CommandRow,
    CommandState, DeliveryState, InvitationRecord, InvitationState, StorageError,
};
use crate::settlement::{claim_writes, claimed, delivers};
use crate::tables::{Step, Tables};
use crate::token::{token_check, TokenError};
use crate::tools::{
    is_tool_failure, tool_description, tool_execution, tool_name, Tool, ToolDefinition,
    ToolExecutionClass, ToolFailure,
};
use crate::uuids::uuid_text;
use crate::validation::is_opaque_id;
use crate::worker_contract::WorkerError;
use crate::writes::{DispatchResult, Response, Write, WriteModel};
use vstd::prelude::*;

verus! {

/// A change is refused for the first of these reasons that holds: the invitation is not there, it
/// has another revision, it has ended, somebody is accepting it. Otherwise it is allowed.
pub proof fn changes_are_refused_for_the_first_reason(
    invitation: Option<InvitationRecord<Seq<char>>>,
    expected_revision: i64,
)
    ensures
        invitation is None <==> refusal(invitation, expected_revision) == Some(
            DomainFailure::InvitationNotFound,
        ),
        invitation matches Some(record) ==> {
            let refused = refusal(invitation, expected_revision);
            &&& refused == change_refusal(record, expected_revision)
            &&& record.revision != expected_revision <==> refused == Some(
                DomainFailure::RevisionConflict,
            )
            &&& record.revision == expected_revision && record.state != InvitationState::Pending
                <==> refused == Some(DomainFailure::InvalidTransition)
            &&& record.revision == expected_revision && record.state == InvitationState::Pending
                && record.acceptance_subject is Some <==> refused == Some(
                DomainFailure::AcceptanceInProgress,
            )
            &&& record.revision == expected_revision && record.state == InvitationState::Pending
                && record.acceptance_subject is None <==> refused is None
        },
{
}

/// A token that was checked still stands while neither its generation nor its verifier changed.
pub proof fn tokens_stand_until_they_are_rotated(
    record: InvitationRecord<Seq<char>>,
    generation: i64,
    verifier: Seq<char>,
)
    ensures
        token_stands(record, generation, verifier) ==> record.token_generation == generation,
        token_stands(record, generation, verifier) ==> record.token_hash == Some(verifier),
        record.token_hash is None ==> !token_stands(record, generation, verifier),
        record.token_generation != generation ==> !token_stands(record, generation, verifier),
        record.token_hash is Some ==> token_stands(
            record,
            record.token_generation,
            record.token_hash->0,
        ),
{
}

/// A token may be used for a pending invitation whose verifier takes it, and then its generation
/// and its verifier are handed on.
pub proof fn shown_tokens_are_checked(
    current: Option<InvitationRecord<Seq<char>>>,
    token: Seq<char>,
    pepper: Seq<u8>,
)
    ensures
        ({
            let result = shown_token(current, token, pepper);
            match current {
                None => result == Ok::<_, TokenError>(
                    Err::<(i64, Seq<char>), AcceptError>(AcceptError::InvitationNotFound),
                ),
                Some(record) => {
                    let check = token_check(token, pepper, record.token_hash->0);
                    &&& record.state != InvitationState::Pending ==> result == Ok::<_, TokenError>(
                        Err::<(i64, Seq<char>), AcceptError>(AcceptError::InvalidTransition),
                    )
                    &&& record.state == InvitationState::Pending && record.token_hash is None
                        ==> result == Ok::<_, TokenError>(
                        Err::<(i64, Seq<char>), AcceptError>(AcceptError::TokenInvalid),
                    )
                    &&& record.state == InvitationState::Pending && record.token_hash is Some ==> {
                        &&& check == Ok::<bool, TokenError>(true) ==> result == Ok::<_, TokenError>(
                            Ok::<(i64, Seq<char>), AcceptError>(
                                (record.token_generation, record.token_hash->0),
                            ),
                        )
                        &&& check == Ok::<bool, TokenError>(false) ==> result == Ok::<
                            _,
                            TokenError,
                        >(Err::<(i64, Seq<char>), AcceptError>(AcceptError::TokenInvalid))
                        &&& check is Err ==> result is Err && result->Err_0 == check->Err_0
                    }
                },
            }
        }),
{
}

/// A key starts a request once. A request that differs in operation, actor or content conflicts;
/// the same request gets the answer that was kept, or finds that the first one is still under way.
pub proof fn keys_stand_for_one_request<R>(
    kept: Option<KeptMutation<R>>,
    operation: Seq<char>,
    actor: Seq<char>,
    request_hash: Seq<u8>,
)
    ensures
        ({
            let start = mutation_start(kept, operation, actor, request_hash);
            let alone = exclusive_start(kept, operation, actor, request_hash);
            match kept {
                None => {
                    &&& start == Ok::<MutationReplay<R>, DomainFailure>(MutationReplay::New)
                    &&& alone == Ok::<Option<R>, DomainFailure>(None)
                },
                Some(kept) => if kept.operation == operation && kept.actor_subject == actor
                    && kept.request_hash == request_hash {
                    match kept.response {
                        Some(response) => {
                            &&& start == Ok::<MutationReplay<R>, DomainFailure>(
                                MutationReplay::Replay(response),
                            )
                            &&& alone == Ok::<Option<R>, DomainFailure>(Some(response))
                        },
                        None => {
                            &&& start == Ok::<MutationReplay<R>, DomainFailure>(
                                MutationReplay::InProgress,
                            )
                            &&& alone == Err::<Option<R>, DomainFailure>(
                                DomainFailure::IdempotencyConflict,
                            )
                        },
                    }
                } else {
                    &&& start == Err::<MutationReplay<R>, DomainFailure>(
                        DomainFailure::IdempotencyConflict,
                    )
                    &&& alone == Err::<Option<R>, DomainFailure>(
                        DomainFailure::IdempotencyConflict,
                    )
                },
            }
        }),
{
}

/// A command is due from the instant on until which it waits, or as soon as its lease is over. A
/// command that has ended is never due.
pub proof fn commands_are_due_when_their_time_has_come(row: CommandRow<Seq<char>>, now: i64)
    ensures
        row.state == CommandState::Pending ==> (is_due(row, now) <==> now >= row.available_at),
        row.state == CommandState::InFlight ==> (is_due(row, now) <==> row.lease_until is Some
            && now > row.lease_until->0),
        row.state == CommandState::Completed || row.state == CommandState::Failed || row.state
            == CommandState::Superseded ==> !is_due(row, now),
{
}

/// A lease holds a command that is in flight under the same token, and no other.
pub proof fn leases_hold_what_they_took(row: Option<CommandRow<Seq<char>>>, lease_token: u128)
    ensures
        is_fenced(row, lease_token) ==> row is Some && row->0.state == CommandState::InFlight
            && row->0.lease_token == Some(lease_token),
        row is Some && row->0.state == CommandState::InFlight && row->0.lease_token == Some(
            lease_token,
        ) ==> is_fenced(row, lease_token),
{
}

/// A command can be taken while its attempts can be counted and the end of its lease is an instant;
/// an invitation can expire while it is pending and its revision can be counted.
pub proof fn counters_do_not_wrap(
    row: CommandRow<Seq<char>>,
    record: InvitationRecord<Seq<char>>,
    now: i64,
    lease_seconds: i64,
)
    ensures
        can_lease(row, now, lease_seconds) <==> row.attempts < i32::MAX && i64::MIN <= now
            + lease_seconds * 1_000_000 <= i64::MAX,
        can_expire(record) <==> record.state == InvitationState::Pending && record.revision
            < i64::MAX,
{
}

/// An instant so many seconds ahead is that many millions of microseconds ahead, where it is one.
pub proof fn seconds_are_millions_of_microseconds(now: i64, seconds: i64)
    ensures
        instant_after(now, seconds) matches Some(later) ==> later - now == seconds * 1_000_000,
        instant_after(now, seconds) is None ==> now + seconds * 1_000_000 > i64::MAX || now
            + seconds * 1_000_000 < i64::MIN,
{
}

/// The text of an instant is that of its nanoseconds.
pub proof fn instants_are_written_to_the_microsecond(microseconds: i64)
    ensures
        instant_text(microseconds) == rfc3339_text((1_000 * microseconds) as i128),
{
}

/// A membership is still waited for while the invitation is pending and the same subject accepts
/// it; a delivery is still wanted while the invitation is pending with the same token.
pub proof fn commands_serve_the_pending_invitation(
    record: InvitationRecord<Seq<char>>,
    command: CommandRecord<Seq<char>>,
)
    ensures
        awaits(record, command) <==> record.state == InvitationState::Pending
            && record.acceptance_subject == command.acceptance_subject,
        delivers(record, command) <==> record.state == InvitationState::Pending
            && command.token_generation == Some(record.token_generation),
        record.acceptance_subject matches Some(subject) ==> accepting_actor(record) == subject,
        record.acceptance_subject is None ==> accepting_actor(record) == "system:membership"@,
{
}

/// Settling a held command is refused where its lease was lost, where what it needs is gone, or
/// where a number cannot be stored; everything else is written.
pub proof fn settlements_need_the_lease(
    settlement: Settlement<Seq<char>>,
    row: Option<CommandRow<Seq<char>>>,
    invitation: Option<InvitationRecord<Seq<char>>>,
    command: CommandRecord<Seq<char>>,
    now: i64,
)
    requires
        settlement !is CompleteAccept,
    ensures
        ({
            let refused = settlement_refusal(settlement, row, invitation, command, now);
            let held = row is Some && row->0.state == CommandState::InFlight
                && row->0.lease_token == Some(command.lease_token);
            let joins = settlement is Fail && command.kind == "add_member"@;
            let full = invitation is Some && invitation->0.state == InvitationState::Pending
                && invitation->0.acceptance_subject == command.acceptance_subject
                && invitation->0.revision == i64::MAX;
            let far = settlement is Retry && !(i64::MIN <= now
                + settlement->Retry_delay_seconds * 1_000_000 <= i64::MAX);
            &&& refused == Some(StorageError::RowNotFound) <==> !held || joins && invitation is None
            &&& refused == Some(StorageError::OutOfRange) <==> held && (joins && full || far)
            &&& refused is None <==> held && !(joins && (invitation is None || full)) && !far
        }),
{
}

/// The receipt of a membership is refused where the command is gone or its lease was lost, where
/// the invitation is gone or does not wait for it, and where a number cannot be stored. A receipt
/// that comes again finds the acceptance that it made.
pub proof fn receipts_need_the_lease(
    settlement: Settlement<Seq<char>>,
    row: Option<CommandRow<Seq<char>>>,
    invitation: Option<InvitationRecord<Seq<char>>>,
    command: CommandRecord<Seq<char>>,
    now: i64,
)
    requires
        settlement is CompleteAccept,
    ensures
        ({
            let refused = settlement_refusal(settlement, row, invitation, command, now);
            let done = row is Some && row->0.state == CommandState::Completed;
            let held = row is Some && row->0.state == CommandState::InFlight
                && row->0.lease_token == Some(command.lease_token);
            let record = invitation->0;
            let found = (done || held) && invitation is Some;
            let waits = record.state == InvitationState::Pending && record.acceptance_subject
                == command.acceptance_subject;
            &&& refused == Some(StorageError::RowNotFound) <==> row is None || (done || held)
                && invitation is None
            &&& refused == Some(StorageError::LeaseFenceCrossed) <==> row is Some && !done && !held
            &&& refused == Some(StorageError::NotAccepted) <==> done && found && record.state
                != InvitationState::Accepted
            &&& refused == Some(StorageError::NoMembership) <==> done && found && record.state
                == InvitationState::Accepted && record.membership_id is None
            &&& refused == Some(StorageError::CommandMismatch) <==> held && found && !waits
            &&& refused == Some(StorageError::OutOfRange) <==> held && found && waits
                && record.revision == i64::MAX
            &&& refused is None <==> found && (done ==> record.state == InvitationState::Accepted
                && record.membership_id is Some) && (held ==> waits && record.revision < i64::MAX)
        }),
{
}

/// The answer of an acceptance is about its invitation: it has its identifiers, its organization
/// and the state accepted. A receipt that comes first gives its own membership and the next
/// revision, one that comes again the membership and the revision that are stored.
pub proof fn acceptances_are_answered_about_their_invitation(
    row: Option<CommandRow<Seq<char>>>,
    record: InvitationRecord<Seq<char>>,
    command: CommandRecord<Seq<char>>,
    membership_id: Seq<char>,
    now: i64,
)
    requires
        acceptance_answer(row, Some(record), command, membership_id, now) is Some,
    ensures
        ({
            let answer = acceptance_answer(row, Some(record), command, membership_id, now)->0;
            let again = row is Some && row->0.state == CommandState::Completed;
            &&& answer.invitation_id == record.invitation_id
            &&& answer.identifier == record.identifier
            &&& answer.organization_id == record.organization_id
            &&& answer.state == InvitationState::Accepted
            &&& again ==> record.membership_id == Some(answer.membership_id) && answer.revision
                == record.revision
            &&& !again ==> answer.membership_id == membership_id && answer.revision
                == record.revision + 1
        }),
{
}

/// What is answered about an accepted invitation is taken from it, field by field.
pub proof fn accepted_records_are_taken_from_the_invitation(
    record: InvitationRecord<Seq<char>>,
    membership_id: Seq<char>,
)
    ensures
        acceptance_of(record, membership_id).invitation_id == record.invitation_id,
        acceptance_of(record, membership_id).identifier == record.identifier,
        acceptance_of(record, membership_id).organization_id == record.organization_id,
        acceptance_of(record, membership_id).state == record.state,
        acceptance_of(record, membership_id).membership_id == membership_id,
        acceptance_of(record, membership_id).revision == record.revision,
{
}

/// What is shown of an invitation is what is stored of it: every field that is shown unchanged, the
/// subject once it has accepted, and before that only whether somebody is accepting.
pub proof fn invitations_are_shown_as_they_are_stored(record: InvitationRecord<Seq<char>>)
    ensures
        seen(record).invitation_id == record.invitation_id,
        seen(record).identifier == record.identifier,
        seen(record).organization_id == record.organization_id,
        seen(record).email == record.email,
        seen(record).state == record.state,
        seen(record).inviter_subject == record.inviter_subject,
        record.state == InvitationState::Accepted ==> seen(record).accepted_subject
            == record.acceptance_subject,
        record.state != InvitationState::Accepted ==> seen(record).accepted_subject is None,
        seen(record).revision == record.revision,
        seen(record).token_expires_at == record.token_expires_at,
        seen(record).acceptance_pending <==> record.state == InvitationState::Pending
            && record.acceptance_subject is Some,
        seen(record).delivery_state == record.delivery_state,
        seen(record).created_at == record.created_at,
        seen(record).updated_at == record.updated_at,
        seen(record).accepted_at == record.accepted_at,
        seen(record).revoked_at == record.revoked_at,
        seen(record).expired_at == record.expired_at,
{
}

/// A token that was made is disclosed with its generation and with what is shown of its invitation.
pub proof fn made_tokens_are_disclosed(record: InvitationRecord<Seq<char>>)
    ensures
        token_made(record).disclose_token,
        token_made(record).token_generation == record.token_generation,
        shows(token_made(record).invitation, record),
{
}

/// An expiry lists each invitation of its batch, in their order: its identifiers, and the revision
/// that it has once it is expired.
pub proof fn expired_items_name_their_invitations(
    rows: Seq<(InvitationRecord<Seq<char>>, Identifiers)>,
    now: i64,
)
    requires
        forall|i: int| 0 <= i < rows.len() ==> (#[trigger] rows[i]).0.revision < i64::MAX,
    ensures
        expired_items(rows, now).len() == rows.len(),
        forall|i: int|
            0 <= i < rows.len() ==> {
                let item = #[trigger] expired_items(rows, now)[i];
                let record = rows[i].0;
                &&& item.invitation_id == record.invitation_id
                &&& item.identifier == record.identifier
                &&& item.revision == record.revision + 1
            },
{
    assert forall|i: int| 0 <= i < rows.len() implies {
        let item = #[trigger] expired_items(rows, now)[i];
        let record = rows[i].0;
        &&& item.invitation_id == record.invitation_id
        &&& item.identifier == record.identifier
        &&& item.revision == record.revision + 1
    } by {
        assert(rows[i].0.revision < i64::MAX);
    }
}

/// An expired invitation is listed as it is stored afterwards: under its own identifiers, and with
/// the revision that the expiry gave it.
pub proof fn expired_items_are_what_is_stored(tables: Tables, step: Step)
    requires
        tables.is_consistent(),
        step is Expire,
        tables.enables(step),
    ensures
        match step {
            Step::Expire { invitation_id, now, .. } => {
                let item = expired_item(tables.invitations[invitation_id], now);
                let stored = tables.next(step).invitations[item.invitation_id];
                &&& item.invitation_id == invitation_id
                &&& stored.invitation_id == item.invitation_id
                &&& stored.identifier == item.identifier
                &&& stored.revision == item.revision
                &&& stored.state == InvitationState::Expired
            },
            _ => true,
        },
{
    crate::effects::expiries_end_the_invitation(tables, step);
    if let Step::Expire { invitation_id, .. } = step {
        assert(tables.invitations.contains_key(invitation_id));
    }
}

/// A receipt that comes again writes nothing: the acceptance that it made stands.
pub proof fn receipts_that_come_again_write_nothing(
    row: CommandRow<Seq<char>>,
    record: InvitationRecord<Seq<char>>,
    command: CommandRecord<Seq<char>>,
    membership_id: Seq<char>,
    provider_revision: Seq<char>,
    ids: Identifiers,
    now: i64,
)
    requires
        row.state == CommandState::Completed,
        record.state == InvitationState::Accepted,
        record.membership_id is Some,
    ensures
        settlement_writes(
            Settlement::CompleteAccept { membership_id, provider_revision },
            Some(row),
            Some(record),
            command,
            ids,
            now,
        ) == Some(Seq::<WriteModel>::empty()),
{
}

/// An expiry writes what each invitation of its batch needs, in their order, and a claim takes each
/// command of its batch, in their order.
pub proof fn batches_are_written_in_order(
    rows: Seq<(InvitationRecord<Seq<char>>, Identifiers)>,
    row: (InvitationRecord<Seq<char>>, Identifiers),
    actor: Seq<char>,
    taken: Seq<(CommandRow<Seq<char>>, u128)>,
    until: i64,
    now: i64,
)
    ensures
        expiry_writes(Seq::empty(), actor, now) == Seq::<WriteModel>::empty(),
        expiry_writes(rows.push(row), actor, now) == expiry_writes(rows, actor, now) + expiry_step(
            row,
            actor,
            now,
        ),
        claim_writes(taken, until, now).len() == taken.len(),
        claimed(taken, until, now).len() == taken.len(),
        forall|i: int|
            0 <= i < taken.len() ==> {
                let written = #[trigger] claim_writes(taken, until, now)[i];
                &&& written matches Write::UpdateCommand { row: stored } && stored.command_id
                    == taken[i].0.command_id && stored.state == CommandState::InFlight
                    && stored.lease_token == Some(taken[i].1) && stored.lease_until == Some(until)
            },
        forall|i: int|
            0 <= i < taken.len() ==> {
                let command = #[trigger] claimed(taken, until, now)[i];
                &&& command.command_id == taken[i].0.command_id
                &&& command.lease_token == taken[i].1
            },
{
    assert(rows.push(row).drop_last() =~= rows);
}

/// A call is forbidden to callers that are not listed, whoever acts. A listed caller needs a
/// subject that is an identifier of at most 512 characters.
pub proof fn calls_need_a_listed_caller_and_a_subject(
    caller: Option<Seq<char>>,
    allowed: Seq<Seq<char>>,
    subject: Option<Seq<char>>,
)
    ensures
        ({
            let refused = call_refusal(caller, allowed, subject);
            let listed = caller is Some && allowed.contains(caller->0);
            let acts = subject is Some && is_opaque_id(subject->0, 512);
            &&& refused == Some(AuthorizationFailure::Forbidden) <==> !listed
            &&& refused == Some(AuthorizationFailure::Unauthenticated) <==> listed && !acts
            &&& refused is None <==> listed && acts
        }),
{
}

/// A call about an organization needs its identifier besides, and an active member with the
/// permission.
pub proof fn organization_calls_need_its_identifier(
    caller: Option<Seq<char>>,
    allowed: Seq<Seq<char>>,
    subject: Option<Seq<char>>,
    organization_id: Seq<char>,
    active: bool,
    permitted: bool,
)
    ensures
        ({
            let refused = query_refusal(caller, allowed, subject, organization_id);
            let listed = caller is Some && allowed.contains(caller->0);
            let acts = subject is Some && is_opaque_id(subject->0, 512);
            let named = is_opaque_id(organization_id, 512);
            &&& refused == Some(AuthorizationFailure::Forbidden) <==> !listed
            &&& refused == Some(AuthorizationFailure::Unauthenticated) <==> listed && !acts
            &&& refused == Some(AuthorizationFailure::InvalidRequest) <==> listed && acts && !named
            &&& refused is None <==> listed && acts && named
            &&& is_authorized(caller, allowed, subject, organization_id, active, permitted)
                <==> listed && acts && named && active && permitted
        }),
{
}

/// Users may act in every role, service accounts only for the worker, and nobody else.
pub proof fn service_accounts_act_for_the_worker(role: ActorRole, kind: Seq<char>)
    ensures
        takes_actor(role, "user"@),
        takes_actor(ActorRole::Worker, "service_account"@),
        takes_actor(ActorRole::User, kind) ==> kind == "user"@,
        takes_actor(role, kind) ==> kind == "user"@ || kind == "service_account"@,
{
}

/// A failure is told to callers under its own name where their role has one, and otherwise as a
/// transition that is not possible.
pub proof fn failures_keep_their_names(failure: DomainFailure)
    ensures
        match failure {
            DomainFailure::InvitationNotFound => {
                &&& ManagementError::of_failure(failure) == ManagementError::InvitationNotFound
                &&& AcceptError::of_failure(failure) == AcceptError::InvitationNotFound
            },
            DomainFailure::InvitationExists => {
                &&& ManagementError::of_failure(failure) == ManagementError::InvitationExists
                &&& AcceptError::of_failure(failure) == AcceptError::InvalidTransition
            },
            DomainFailure::RevisionConflict => {
                &&& ManagementError::of_failure(failure) == ManagementError::RevisionConflict
                &&& AcceptError::of_failure(failure) == AcceptError::RevisionConflict
            },
            DomainFailure::IdempotencyConflict => {
                &&& ManagementError::of_failure(failure) == ManagementError::IdempotencyConflict
                &&& AcceptError::of_failure(failure) == AcceptError::IdempotencyConflict
            },
            DomainFailure::InvalidTransition => {
                &&& ManagementError::of_failure(failure) == ManagementError::InvalidTransition
                &&& AcceptError::of_failure(failure) == AcceptError::InvalidTransition
            },
            DomainFailure::TokenInvalid => {
                &&& ManagementError::of_failure(failure) == ManagementError::InvalidTransition
                &&& AcceptError::of_failure(failure) == AcceptError::TokenInvalid
            },
            DomainFailure::InvitationExpired => {
                &&& ManagementError::of_failure(failure) == ManagementError::InvalidTransition
                &&& AcceptError::of_failure(failure) == AcceptError::InvitationExpired
            },
            DomainFailure::AcceptanceInProgress => {
                &&& ManagementError::of_failure(failure) == ManagementError::InvalidTransition
                &&& AcceptError::of_failure(failure) == AcceptError::AcceptanceInProgress
            },
        },
{
}

/// Every role tells why a call was not authorized, under the same name.
pub proof fn authorization_failures_keep_their_names()
    ensures
        ManagementError::of_authorization(AuthorizationFailure::Forbidden)
            == ManagementError::Forbidden,
        ManagementError::of_authorization(AuthorizationFailure::Unauthenticated)
            == ManagementError::Unauthenticated,
        ManagementError::of_authorization(AuthorizationFailure::InvalidRequest)
            == ManagementError::InvalidRequest,
        AcceptError::of_authorization(AuthorizationFailure::Forbidden) == AcceptError::Forbidden,
        AcceptError::of_authorization(AuthorizationFailure::Unauthenticated)
            == AcceptError::Unauthenticated,
        AcceptError::of_authorization(AuthorizationFailure::InvalidRequest)
            == AcceptError::InvalidRequest,
        WorkerError::of_authorization(AuthorizationFailure::Forbidden) == WorkerError::Forbidden,
        WorkerError::of_authorization(AuthorizationFailure::Unauthenticated)
            == WorkerError::Unauthenticated,
        WorkerError::of_authorization(AuthorizationFailure::InvalidRequest)
            == WorkerError::InvalidRequest,
{
}

/// A tool tells what was wrong with the call where the caller can mend it, and names every other
/// refusal by its code.
pub proof fn tools_tell_what_was_wrong(error: Option<ManagementError>, failure: ToolFailure)
    requires
        is_tool_failure(error, failure),
    ensures
        failure is InvalidArguments <==> error == Some(ManagementError::InvalidRequest),
        failure is NotFound <==> error == Some(ManagementError::InvitationNotFound) || error
            == Some(ManagementError::OrganizationNotFound),
        failure is PermissionDenied <==> error == Some(ManagementError::Forbidden) || error == Some(
            ManagementError::Unauthenticated,
        ),
        error == Some(ManagementError::IdempotencyConflict) ==> failure->reason_code@
            == "idempotency_conflict"@,
        error == Some(ManagementError::InvalidTransition) ==> failure->reason_code@
            == "invalid_transition"@,
        error == Some(ManagementError::InvitationExists) ==> failure->reason_code@
            == "invitation_exists"@,
        error == Some(ManagementError::OrganizationInactive) ==> failure->reason_code@
            == "organization_inactive"@,
        error == Some(ManagementError::RevisionConflict) ==> failure->reason_code@
            == "revision_conflict"@,
        error is None ==> failure->reason_code@ == "unknown_domain_error"@,
{
}

/// The tools by their names. Reading is safe in parallel, revoking is not.
pub proof fn tools_are_named_and_classed()
    ensures
        tool_name(Tool::Get) == "organization_invitation_get"@,
        tool_name(Tool::List) == "organization_invitation_list"@,
        tool_name(Tool::Revoke) == "organization_invitation_revoke"@,
        tool_execution(Tool::Get) == ToolExecutionClass::ParallelSafe,
        tool_execution(Tool::List) == ToolExecutionClass::ParallelSafe,
        tool_execution(Tool::Revoke) == ToolExecutionClass::Exclusive,
        tool_description(Tool::Get) == "Get one invitation without exposing a token."@,
        tool_description(Tool::List)
            == "List invitations with bounded cursor pagination and no tokens."@,
        tool_description(Tool::Revoke)
            == "Revoke an invitation using its current expected revision and caller-scoped idempotency key."@,
{
}

/// A definition of a tool has its name, its description and its class.
pub proof fn tools_are_defined_as_they_are(definition: ToolDefinition, tool: Tool)
    ensures
        definition.defines(tool) <==> {
            &&& definition.tool == tool
            &&& definition.name@ == tool_name(tool)
            &&& definition.description@ == tool_description(tool)
            &&& definition.execution == tool_execution(tool)
        },
{
}

/// The words under which states are stored.
pub proof fn states_are_stored_in_words()
    ensures
        state_text(InvitationState::Pending) == "pending"@,
        state_text(InvitationState::Accepted) == "accepted"@,
        state_text(InvitationState::Revoked) == "revoked"@,
        state_text(InvitationState::Expired) == "expired"@,
        delivery_text(DeliveryState::Pending) == "pending"@,
        delivery_text(DeliveryState::Queued) == "queued"@,
        delivery_text(DeliveryState::Failed) == "failed"@,
        delivery_text(DeliveryState::Superseded) == "superseded"@,
        command_state_text(CommandState::Pending) == "pending"@,
        command_state_text(CommandState::InFlight) == "in_flight"@,
        command_state_text(CommandState::Completed) == "completed"@,
        command_state_text(CommandState::Failed) == "failed"@,
        command_state_text(CommandState::Superseded) == "superseded"@,
{
}

/// What is told of an error of the store. An error that only says that a row or a range was missing
/// has no detail.
pub proof fn storage_errors_say_what_is_wrong(problem: StorageError)
    ensures
        match problem {
            StorageError::UnknownInvitationState { state } => problem.detail_text() == Some(
                "unknown invitation state `"@ + state@ + "`"@,
            ),
            StorageError::UnknownDeliveryState { state } => problem.detail_text() == Some(
                "unknown invitation delivery state `"@ + state@ + "`"@,
            ),
            StorageError::UnknownCommandState { state } => problem.detail_text() == Some(
                "unknown invitation command state `"@ + state@ + "`"@,
            ),
            StorageError::SequenceNotPositive => problem.detail_text() == Some(
                "invitation sequence is not positive"@,
            ),
            StorageError::GenerationOverflow => problem.detail_text() == Some(
                "token generation overflowed"@,
            ),
            StorageError::LeaseFenceCrossed => problem.detail_text() == Some(
                "membership command completion crossed its lease fence"@,
            ),
            StorageError::CommandMismatch => problem.detail_text() == Some(
                "membership command no longer matches its invitation"@,
            ),
            StorageError::NotAccepted => problem.detail_text() == Some(
                "completed membership command points to a non-accepted invitation"@,
            ),
            StorageError::NoMembership => problem.detail_text() == Some(
                "accepted invitation has no membership id"@,
            ),
            StorageError::NoLeaseToken => problem.detail_text() == Some(
                "claimed invitation command has no lease token"@,
            ),
            StorageError::CountOverflow => problem.detail_text() == Some(
                "expired invitation count overflowed"@,
            ),
            StorageError::TimestampNotFormattable { error } => problem.detail_text() == Some(
                "invitation timestamp cannot be formatted: "@ + error@,
            ),
            StorageError::CursorNotFormattable { error } => problem.detail_text() == Some(
                "cursor timestamp cannot be formatted: "@ + error@,
            ),
            StorageError::OutOfRange | StorageError::RowNotFound => problem.detail_text() is None,
        },
{
}

/// The lock of a pending invitation is the organization and the address, with a separator between
/// them.
pub proof fn locks_name_the_organization_and_the_address(
    organization_id: Seq<char>,
    email: Seq<char>,
)
    ensures
        ({
            let lock = pending_lock(organization_id, email);
            let count = organization_id.len() as int;
            &&& lock.len() == organization_id.len() + 1 + email.len()
            &&& lock.take(count) == organization_id
            &&& lock[count] == '\u{1f}'
            &&& lock.skip(count + 1) == email
        }),
{
    let lock = pending_lock(organization_id, email);
    let count = organization_id.len() as int;
    assert(lock.take(count) =~= organization_id);
    assert(lock.skip(count + 1) =~= email);
}

/// The answer of a dispatch is kept under the key of its call, for no single invitation.
pub proof fn dispatches_are_kept_under_their_key(
    result: DispatchResult,
    caller: Seq<char>,
    idempotency_key: Seq<char>,
)
    ensures
        match dispatch_write(result, caller, idempotency_key) {
            Write::CompleteMutation { caller: kept, idempotency_key: key, invitation, response } => {
                &&& kept == caller
                &&& key == idempotency_key
                &&& invitation is None
                &&& response matches Response::Dispatch { dispatch } && dispatch == result
            },
            _ => false,
        },
{
}

/// What is printed of a request or a response shows every field but the token.
pub proof fn printed_texts_hide_the_token(
    expected_revision: Seq<char>,
    idempotency_key: Seq<char>,
    invitation_id: Seq<char>,
    id: u128,
)
    ensures
        redacted_accept(expected_revision, idempotency_key, invitation_id)
            == "AcceptRequest { expected_revision: "@ + quoted_text(expected_revision)
            + ", idempotency_key: "@ + quoted_text(idempotency_key) + ", invitation_id: "@
            + quoted_text(invitation_id) + ", token: \"<redacted>\" }"@,
        redacted_response(id, true) == "TokenResponse { invitation_id: "@ + uuid_text(id)
            + ", token_returned: "@ + "true"@ + ", invitation_token: \"<redacted>\" }"@,
        redacted_response(id, false) == "TokenResponse { invitation_id: "@ + uuid_text(id)
            + ", token_returned: "@ + "false"@ + ", invitation_token: \"<redacted>\" }"@,
{
}

} // verus!
