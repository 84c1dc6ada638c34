//! How an invitation is accepted: the token is consumed, the membership command is taken under a
//! lease, and its receipt ends the acceptance.

use crate::commands::{
    can_lease, fenced, finish_command, finished, format_membership_key, is_fenced, lease_command,
    leased, lifecycle_command, make_lifecycle_command, make_membership_command, membership_command,
    membership_key, option_record, option_row, ADD_MEMBER,
};
use crate::instants::instant_after;
use crate::lifecycle::{
    activity_of, can_expire, check_change, expiration_writes, expire_locked_invitation, expired,
    make_activity, refusal, Identifiers, MutationContext,
};
use crate::mutations::DomainFailure;
use crate::records::{
    acceptance_of, accepted_record, AcceptedRecord, CommandRecord, CommandRow, CommandState,
    InvitationRecord, InvitationState, Receipt, StorageError,
};
use crate::text::{option_text, same_optional_text, same_text};
use crate::uuids::uuid_text;
use crate::writes::{writes_view, ActivityKind, Evidence, Plan, StoredWrite, Write, WriteModel};
use vstd::prelude::*;

verus! {

/// Who expires an invitation whose deadline an acceptance has met.
pub const ACCEPT_ACTOR: &'static str = "system:accept";

/// Who accepts an invitation that has no accepting subject.
pub const MEMBERSHIP_ACTOR: &'static str = "system:membership";

/// What an acceptance comes to once the invitation is locked.
#[derive(Clone, Debug, PartialEq, Eq)]
pub enum AcceptDecision {
    /// Nothing is written.
    Refuse(DomainFailure),
    /// The deadline has passed: the invitation expires, and the acceptance is refused.
    Expire(Vec<StoredWrite>),
    /// The membership command is stored, unless its key is taken, and the acceptance starts.
    Proceed(CommandRow<String>),
}

/// What expiring an invitation under an acceptance writes. The key of the acceptance is free
/// again.
pub open spec fn late_writes(
    record: InvitationRecord<Seq<char>>,
    context: MutationContext<Seq<char>>,
    ids: Identifiers,
    now: i64,
) -> Seq<WriteModel> {
    seq![
        Write::ReleaseMutation {
            caller: context.caller,
            idempotency_key: context.idempotency_key,
        },
    ] + expiration_writes(record, ids.command_id, now) + seq![
        activity_of(
            expired(record, now),
            ids.activity_id,
            ActivityKind::Expired,
            ACCEPT_ACTOR@,
            Evidence::TokenDeadline,
        ),
    ]
}

/// The token that was checked is the one that the invitation still has.
pub open spec fn token_stands(
    record: InvitationRecord<Seq<char>>,
    observed_generation: i64,
    observed_token_hash: Seq<char>,
) -> bool {
    record.token_generation == observed_generation && record.token_hash == Some(observed_token_hash)
}

/// Decides an acceptance of a locked invitation by a caller that has checked the token of the
/// given generation and verifier.
pub fn decide_accept(
    current: &Option<InvitationRecord<String>>,
    context: &MutationContext<String>,
    expected_revision: i64,
    observed_generation: i64,
    observed_token_hash: &str,
    ids: Identifiers,
    now: i64,
) -> (result: Result<AcceptDecision, StorageError>)
    ensures
        match result {
            Ok(AcceptDecision::Refuse(failure)) => {
                let refused = refusal(option_record(*current), expected_revision);
                ||| refused == Some(failure)
                ||| {
                    &&& refused is None
                    &&& failure == DomainFailure::TokenInvalid
                    &&& current->0.token_expires_at > now
                    &&& !token_stands(current->0@, observed_generation, observed_token_hash@)
                }
            },
            Ok(AcceptDecision::Expire(writes)) => {
                &&& refusal(option_record(*current), expected_revision) is None
                &&& current->0.token_expires_at <= now
                &&& can_expire(current->0@)
                &&& writes_view(writes@) == late_writes(current->0@, context@, ids, now)
            },
            Ok(AcceptDecision::Proceed(command)) => {
                &&& refusal(option_record(*current), expected_revision) is None
                &&& current->0.token_expires_at > now
                &&& token_stands(current->0@, observed_generation, observed_token_hash@)
                &&& command@ == membership_command(
                    ids.command_id,
                    current->0@.organization_id,
                    current->0@.invitation_id,
                    context@.actor,
                    now,
                )
                &&& command.command_id == ids.command_id
                &&& command.organization_id@ == current->0.organization_id@
                &&& command.invitation_id == current->0.invitation_id
                &&& command.kind@ == "add_member"@
                &&& command.command_key@ == "membership:"@ + uuid_text(current->0.invitation_id)
                &&& option_text(command.acceptance_subject) == Some(context.actor@)
                &&& command.state == CommandState::Pending
                &&& command.attempts == 0
                &&& command.available_at == now
            },
            Err(StorageError::OutOfRange) => {
                &&& refusal(option_record(*current), expected_revision) is None
                &&& current->0.token_expires_at <= now
                &&& current->0.revision == i64::MAX
            },
            Err(_) => false,
        },
{
    let record = match current {
        Some(record) => record,
        None => {
            return Ok(AcceptDecision::Refuse(DomainFailure::InvitationNotFound));
        },
    };
    match check_change(record, expected_revision) {
        Some(failure) => {
            return Ok(AcceptDecision::Refuse(failure));
        },
        None => {},
    }
    if record.token_expires_at <= now {
        let mut writes: Vec<StoredWrite> = vec![
            Write::ReleaseMutation {
                caller: context.caller.clone(),
                idempotency_key: context.idempotency_key.clone(),
            },
        ];
        let ghost start = writes_view(writes@);
        let next = match expire_locked_invitation(&mut writes, record, ids.command_id, now) {
            Ok(next) => next,
            Err(error) => {
                return Err(error);
            },
        };
        let activity = make_activity(
            &next,
            ids.activity_id,
            ActivityKind::Expired,
            ACCEPT_ACTOR,
            Evidence::TokenDeadline,
        );
        let ghost middle = writes_view(writes@);
        let ghost entry = activity@;
        writes.push(activity);
        assert(writes_view(writes@) =~= middle.push(entry));
        assert(start =~= seq![
            Write::ReleaseMutation {
                caller: context@.caller,
                idempotency_key: context@.idempotency_key,
            },
        ]);
        assert(writes_view(writes@) =~= late_writes(record@, context@, ids, now));
        return Ok(AcceptDecision::Expire(writes));
    }
    let stands = record.token_generation == observed_generation && (match &record.token_hash {
        Some(token_hash) => same_text(token_hash.as_str(), observed_token_hash),
        None => false,
    });
    if !stands {
        return Ok(AcceptDecision::Refuse(DomainFailure::TokenInvalid));
    }
    Ok(
        AcceptDecision::Proceed(
            make_membership_command(
                ids.command_id,
                record.organization_id.as_str(),
                record.invitation_id,
                context.actor.as_str(),
                now,
            ),
        ),
    )
}

/// An invitation whose token has been consumed by the accepting subject.
pub open spec fn consumed(
    record: InvitationRecord<Seq<char>>,
    subject: Seq<char>,
    now: i64,
) -> InvitationRecord<Seq<char>> {
    InvitationRecord {
        acceptance_subject: Some(subject),
        token_hash: None,
        token_consumed_at: Some(now),
        revision: (record.revision + 1) as i64,
        updated_at: now,
        ..record
    }
}

/// What starting an acceptance writes. `command` is the membership command of the invitation, as
/// it is stored.
pub open spec fn start_writes(
    record: InvitationRecord<Seq<char>>,
    command: CommandRow<Seq<char>>,
    context: MutationContext<Seq<char>>,
    lease_token: u128,
    lease_until: i64,
    activity_id: u128,
    now: i64,
) -> Seq<WriteModel> {
    let next = consumed(record, context.actor, now);
    seq![
        Write::UpdateInvitation { record: next },
        Write::UpdateCommand { row: leased(command, lease_token, lease_until, now) },
        Write::BindMutation {
            caller: context.caller,
            idempotency_key: context.idempotency_key,
            organization_id: record.organization_id,
            invitation_id: record.invitation_id,
            command_id: command.command_id,
        },
        activity_of(
            next,
            activity_id,
            ActivityKind::AcceptanceStarted,
            context.actor,
            Evidence::AcceptanceStart { command_id: command.command_id },
        ),
    ]
}

/// The membership command as the accepting call executes it.
pub open spec fn accepting_command(
    record: InvitationRecord<Seq<char>>,
    command_id: u128,
    subject: Seq<char>,
    lease_token: u128,
) -> CommandRecord<Seq<char>> {
    CommandRecord {
        command_id,
        organization_id: record.organization_id,
        invitation_id: record.invitation_id,
        kind: ADD_MEMBER@,
        command_key: membership_key(record.invitation_id),
        token_generation: None,
        acceptance_subject: Some(subject),
        lifecycle: None,
        attempts: 1,
        lease_token,
    }
}

/// Starts an acceptance that is to proceed: consumes the token and takes the membership command.
pub fn start_acceptance(
    record: &InvitationRecord<String>,
    command: CommandRow<String>,
    context: &MutationContext<String>,
    lease_token: u128,
    lease_seconds: i64,
    activity_id: u128,
    now: i64,
) -> (result: Result<Plan<CommandRecord<String>>, StorageError>)
    ensures
        match result {
            Ok(plan) => {
                &&& record.revision < i64::MAX
                &&& can_lease(command@, now, lease_seconds)
                &&& writes_view(plan.writes@) == start_writes(
                    record@,
                    command@,
                    context@,
                    lease_token,
                    instant_after(now, lease_seconds)->0,
                    activity_id,
                    now,
                )
                &&& plan.outcome@ == accepting_command(
                    record@,
                    command.command_id,
                    context@.actor,
                    lease_token,
                )
                &&& plan.outcome.command_id == command.command_id
                &&& plan.outcome.organization_id@ == record.organization_id@
                &&& plan.outcome.invitation_id == record.invitation_id
                &&& plan.outcome.kind@ == "add_member"@
                &&& plan.outcome.command_key@ == "membership:"@ + uuid_text(record.invitation_id)
                &&& plan.outcome.token_generation is None
                &&& option_text(plan.outcome.acceptance_subject) == Some(context.actor@)
                &&& plan.outcome.lifecycle is None
                &&& plan.outcome.attempts == 1
                &&& plan.outcome.lease_token == lease_token
            },
            Err(StorageError::OutOfRange) => record.revision == i64::MAX || !can_lease(
                command@,
                now,
                lease_seconds,
            ),
            Err(_) => false,
        },
{
    if record.revision == i64::MAX {
        return Err(StorageError::OutOfRange);
    }
    let command_id = command.command_id;
    let ghost stored = command@;
    let taken = match lease_command(command, lease_token, now, lease_seconds) {
        Ok(taken) => taken,
        Err(error) => {
            return Err(error);
        },
    };
    let mut next = record.copy();
    next.acceptance_subject = Some(context.actor.clone());
    next.token_hash = None;
    next.token_consumed_at = Some(now);
    next.revision = next.revision + 1;
    next.updated_at = now;
    assert(next@ =~= consumed(record@, context@.actor, now));
    let activity = make_activity(
        &next,
        activity_id,
        ActivityKind::AcceptanceStarted,
        context.actor.as_str(),
        Evidence::AcceptanceStart { command_id },
    );
    let bound = Write::BindMutation {
        caller: context.caller.clone(),
        idempotency_key: context.idempotency_key.clone(),
        organization_id: record.organization_id.clone(),
        invitation_id: record.invitation_id,
        command_id,
    };
    let writes: Vec<StoredWrite> = vec![
        Write::UpdateInvitation { record: next },
        Write::UpdateCommand { row: taken },
        bound,
        activity,
    ];
    assert(writes_view(writes@) =~= start_writes(
        record@,
        stored,
        context@,
        lease_token,
        instant_after(now, lease_seconds)->0,
        activity_id,
        now,
    ));
    let outcome = CommandRecord {
        command_id,
        organization_id: record.organization_id.clone(),
        invitation_id: record.invitation_id,
        kind: ADD_MEMBER.to_owned(),
        command_key: format_membership_key(record.invitation_id),
        token_generation: None,
        acceptance_subject: Some(context.actor.clone()),
        lifecycle: None,
        attempts: 1,
        lease_token,
    };
    Ok(Plan { writes, outcome })
}

/// An accepted invitation.
pub open spec fn accepted(
    record: InvitationRecord<Seq<char>>,
    membership_id: Seq<char>,
    now: i64,
) -> InvitationRecord<Seq<char>> {
    InvitationRecord {
        state: InvitationState::Accepted,
        membership_id: Some(membership_id),
        revision: (record.revision + 1) as i64,
        accepted_at: Some(now),
        updated_at: now,
        ..record
    }
}

/// Who is named as the actor of a completed acceptance.
pub open spec fn accepting_actor(record: InvitationRecord<Seq<char>>) -> Seq<char> {
    match record.acceptance_subject {
        Some(subject) => subject,
        None => MEMBERSHIP_ACTOR@,
    }
}

/// What completing an acceptance writes.
pub open spec fn acceptance_writes(
    row: CommandRow<Seq<char>>,
    record: InvitationRecord<Seq<char>>,
    membership_id: Seq<char>,
    provider_revision: Seq<char>,
    ids: Identifiers,
    now: i64,
) -> Seq<WriteModel> {
    let next = accepted(record, membership_id, now);
    seq![
        Write::UpdateInvitation { record: next },
        Write::UpdateCommand {
            row: finished(
                row,
                CommandState::Completed,
                Some(
                    Receipt::Membership {
                        membership_id,
                        membership_revision: provider_revision,
                    },
                ),
                None,
                now,
            ),
        },
        Write::InsertCommand {
            row: lifecycle_command(
                ids.command_id,
                record.organization_id,
                record.invitation_id,
                InvitationState::Accepted,
                now,
            ),
        },
        activity_of(
            next,
            ids.activity_id,
            ActivityKind::Accepted,
            accepting_actor(record),
            Evidence::Membership { membership_id, provider_revision },
        ),
        Write::CompleteAcceptance {
            command_id: row.command_id,
            accepted: acceptance_of(next, membership_id),
        },
    ]
}

/// The invitation still waits for exactly this membership command.
pub open spec fn awaits(
    record: InvitationRecord<Seq<char>>,
    command: CommandRecord<Seq<char>>,
) -> bool {
    record.state == InvitationState::Pending && record.acceptance_subject
        == command.acceptance_subject
}

pub fn awaiting(record: &InvitationRecord<String>, command: &CommandRecord<String>) -> (r: bool)
    ensures
        r == awaits(record@, command@),
{
    record.state == InvitationState::Pending && same_optional_text(
        &record.acceptance_subject,
        &command.acceptance_subject,
    )
}

/// Completes an acceptance with the receipt of its membership. `row` is the command as it is
/// stored, and `invitation` its invitation. A command that is already completed gives the same
/// answer again and writes nothing.
pub fn complete_accept(
    row: Option<CommandRow<String>>,
    invitation: &Option<InvitationRecord<String>>,
    command: &CommandRecord<String>,
    membership_id: &str,
    provider_revision: &str,
    ids: Identifiers,
    now: i64,
) -> (result: Result<Plan<AcceptedRecord<String>>, StorageError>)
    ensures
        ({
            let stored = option_row(row);
            let completed = stored matches Some(stored) && stored.state == CommandState::Completed;
            let held = !completed && is_fenced(stored, command.lease_token);
            match result {
                Ok(plan) => {
                    let record = invitation->0@;
                    &&& invitation is Some
                    &&& completed || held
                    &&& plan.outcome.invitation_id == invitation->0.invitation_id
                    &&& plan.outcome.identifier@ == invitation->0.identifier@
                    &&& plan.outcome.organization_id@ == invitation->0.organization_id@
                    &&& plan.outcome.state == InvitationState::Accepted
                    &&& completed ==> option_text(invitation->0.membership_id) == Some(
                        plan.outcome.membership_id@,
                    ) && plan.outcome.revision == invitation->0.revision
                    &&& held ==> plan.outcome.membership_id@ == membership_id@
                        && plan.outcome.revision == invitation->0.revision + 1
                    &&& completed ==> {
                        &&& record.state == InvitationState::Accepted
                        &&& record.membership_id is Some
                        &&& plan.writes@.len() == 0
                        &&& plan.outcome@ == acceptance_of(record, record.membership_id->0)
                    }
                    &&& held ==> {
                        &&& awaits(record, command@)
                        &&& record.revision < i64::MAX
                        &&& writes_view(plan.writes@) == acceptance_writes(
                            stored->0,
                            record,
                            membership_id@,
                            provider_revision@,
                            ids,
                            now,
                        )
                        &&& plan.outcome@ == acceptance_of(
                            accepted(record, membership_id@, now),
                            membership_id@,
                        )
                    }
                },
                Err(StorageError::RowNotFound) => {
                    ||| row is None
                    ||| (completed || held) && invitation is None
                },
                Err(StorageError::NotAccepted) => {
                    &&& completed
                    &&& invitation is Some
                    &&& invitation->0.state != InvitationState::Accepted
                },
                Err(StorageError::NoMembership) => {
                    &&& completed
                    &&& invitation is Some
                    &&& invitation->0.state == InvitationState::Accepted
                    &&& invitation->0.membership_id is None
                },
                Err(StorageError::LeaseFenceCrossed) => row is Some && !completed && !held,
                Err(StorageError::CommandMismatch) => {
                    &&& held
                    &&& invitation is Some
                    &&& !awaits(invitation->0@, command@)
                },
                Err(StorageError::OutOfRange) => {
                    &&& held
                    &&& invitation is Some
                    &&& awaits(invitation->0@, command@)
                    &&& invitation->0.revision == i64::MAX
                },
                Err(_) => false,
            }
        }),
{
    let ghost stored = option_row(row);
    let row = match row {
        Some(row) => row,
        None => {
            return Err(StorageError::RowNotFound);
        },
    };
    if row.state == CommandState::Completed {
        return match invitation {
            Some(record) => match accepted_record(record) {
                Ok(outcome) => Ok(Plan { writes: Vec::new(), outcome }),
                Err(error) => Err(error),
            },
            None => Err(StorageError::RowNotFound),
        };
    }
    if !fenced(&row, command.lease_token) {
        return Err(StorageError::LeaseFenceCrossed);
    }
    let record = match invitation {
        Some(record) => record,
        None => {
            return Err(StorageError::RowNotFound);
        },
    };
    if !awaiting(record, command) {
        return Err(StorageError::CommandMismatch);
    }
    if record.revision == i64::MAX {
        return Err(StorageError::OutOfRange);
    }
    let mut next = record.copy();
    next.state = InvitationState::Accepted;
    next.membership_id = Some(membership_id.to_owned());
    next.revision = next.revision + 1;
    next.accepted_at = Some(now);
    next.updated_at = now;
    assert(next@ =~= accepted(record@, membership_id@, now));
    let outcome = match accepted_record(&next) {
        Ok(outcome) => outcome,
        Err(error) => {
            return Err(error);
        },
    };
    let command_id = row.command_id;
    let ended = match finish_command(
        Some(row),
        command.lease_token,
        CommandState::Completed,
        Some(
            Receipt::Membership {
                membership_id: membership_id.to_owned(),
                membership_revision: provider_revision.to_owned(),
            },
        ),
        None,
        now,
    ) {
        Ok(ended) => ended,
        Err(error) => {
            return Err(error);
        },
    };
    let report = make_lifecycle_command(
        ids.command_id,
        record.organization_id.as_str(),
        record.invitation_id,
        InvitationState::Accepted,
        now,
    );
    let actor = match &record.acceptance_subject {
        Some(subject) => subject.as_str(),
        None => MEMBERSHIP_ACTOR,
    };
    let activity = make_activity(
        &next,
        ids.activity_id,
        ActivityKind::Accepted,
        actor,
        Evidence::Membership {
            membership_id: membership_id.to_owned(),
            provider_revision: provider_revision.to_owned(),
        },
    );
    let writes: Vec<StoredWrite> = vec![
        Write::UpdateInvitation { record: next },
        Write::UpdateCommand { row: ended },
        Write::InsertCommand { row: report },
        activity,
        Write::CompleteAcceptance { command_id, accepted: outcome.copy() },
    ];
    assert(writes_view(writes@) =~= acceptance_writes(
        stored->0,
        record@,
        membership_id@,
        provider_revision@,
        ids,
        now,
    ));
    Ok(Plan { writes, outcome })
}

} // verus!
