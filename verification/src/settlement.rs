//! How a worker takes due commands and settles them.

use crate::acceptance::{awaiting, awaits};
use crate::commands::{
    can_lease, finish_command, finished, is_fenced, kinds_differ, lease_command, leased,
    option_record, option_row, ADD_MEMBER, NOTIFY_INVITATION,
};
use crate::instants::instant_after;
use crate::lifecycle::{
    activity_of, can_expire, expiration_writes, expire_locked_invitation, expired, make_activity,
    Identifiers,
};
use crate::records::{
    decode_command, held, CommandRecord, CommandRow, CommandState, DeliveryState,
    InvitationRecord, InvitationState, Receipt, StorageError,
};
use crate::text::{option_text, same_text};
use crate::writes::{writes_view, ActivityKind, Evidence, Plan, StoredWrite, Write, WriteModel};
use vstd::prelude::*;

verus! {

/// Who expires an invitation whose membership was refused for good.
pub const FAILURE_ACTOR: &'static str = "system:membership-failure";

/// Due commands, each with the lease that it is taken under.
pub open spec fn claims_view(rows: Seq<(CommandRow<String>, u128)>) -> Seq<
    (CommandRow<Seq<char>>, u128),
> {
    rows.map_values(|row: (CommandRow<String>, u128)| (row.0@, row.1))
}

/// What taking due commands writes.
pub open spec fn claim_writes(
    rows: Seq<(CommandRow<Seq<char>>, u128)>,
    until: i64,
    now: i64,
) -> Seq<WriteModel> {
    rows.map_values(
        |row: (CommandRow<Seq<char>>, u128)|
            Write::UpdateCommand { row: leased(row.0, row.1, until, now) },
    )
}

/// The commands that a worker then holds.
pub open spec fn claimed(
    rows: Seq<(CommandRow<Seq<char>>, u128)>,
    until: i64,
    now: i64,
) -> Seq<CommandRecord<Seq<char>>> {
    rows.map_values(
        |row: (CommandRow<Seq<char>>, u128)| held(leased(row.0, row.1, until, now), row.1),
    )
}

pub open spec fn commands_view(commands: Seq<CommandRecord<String>>) -> Seq<
    CommandRecord<Seq<char>>,
> {
    commands.map_values(|command: CommandRecord<String>| command@)
}

/// Takes due commands that the transaction has locked, each under its new lease.
pub fn claim_due_commands(rows: &Vec<(CommandRow<String>, u128)>, lease_seconds: i64, now: i64) -> (
    result: Result<Plan<Vec<CommandRecord<String>>>, StorageError>)
    ensures
        match result {
            Ok(plan) => {
                let batch = claims_view(rows@);
                let until = instant_after(now, lease_seconds)->0;
                &&& forall|i: int|
                    0 <= i < batch.len() ==> can_lease((#[trigger] batch[i]).0, now, lease_seconds)
                &&& writes_view(plan.writes@) == claim_writes(batch, until, now)
                &&& commands_view(plan.outcome@) == claimed(batch, until, now)
                &&& plan.outcome@.len() == rows@.len()
                &&& forall|i: int|
                    0 <= i < rows@.len() ==> {
                        let command = #[trigger] plan.outcome@[i];
                        let row = rows@[i].0;
                        &&& command.command_id == row.command_id
                        &&& command.organization_id@ == row.organization_id@
                        &&& command.invitation_id == row.invitation_id
                        &&& command.kind@ == row.kind@
                        &&& command.command_key@ == row.command_key@
                        &&& command.token_generation == row.token_generation
                        &&& option_text(command.acceptance_subject) == option_text(
                            row.acceptance_subject,
                        )
                        &&& option_text(command.lifecycle) == option_text(row.lifecycle)
                        &&& command.attempts == row.attempts + 1
                        &&& command.lease_token == rows@[i].1
                    }
            },
            Err(StorageError::OutOfRange) => exists|i: int|
                0 <= i < rows@.len() && !can_lease(
                    (#[trigger] claims_view(rows@)[i]).0,
                    now,
                    lease_seconds,
                ),
            Err(_) => false,
        },
{
    let ghost batch = claims_view(rows@);
    let ghost until = instant_after(now, lease_seconds)->0;
    let mut writes: Vec<StoredWrite> = Vec::new();
    let mut commands: Vec<CommandRecord<String>> = Vec::new();
    let mut i: usize = 0;
    while i < rows.len()
        invariant
            i <= rows.len(),
            batch == claims_view(rows@),
            until == instant_after(now, lease_seconds)->0,
            forall|k: int|
                0 <= k < i ==> can_lease((#[trigger] batch[k]).0, now, lease_seconds),
            writes@.len() == i,
            forall|k: int|
                0 <= k < i ==> (#[trigger] writes@[k])@ == claim_writes(batch, until, now)[k],
            commands@.len() == i,
            forall|k: int|
                0 <= k < i ==> (#[trigger] commands@[k])@ == held(
                    leased(batch[k].0, batch[k].1, until, now),
                    batch[k].1,
                ),
        decreases rows.len() - i,
    {
        let row = rows[i].0.copy();
        let lease_token = rows[i].1;
        assert(batch[i as int] == (row@, lease_token));
        let taken = match lease_command(row, lease_token, now, lease_seconds) {
            Ok(taken) => taken,
            Err(error) => {
                return Err(error);
            },
        };
        let command = match decode_command(&taken) {
            Ok(command) => command,
            Err(error) => {
                return Err(error);
            },
        };
        writes.push(Write::UpdateCommand { row: taken });
        commands.push(command);
        i = i + 1;
    }
    assert(writes_view(writes@) =~= claim_writes(batch, until, now));
    assert(commands_view(commands@) =~= claimed(batch, until, now));
    Ok(Plan { writes, outcome: commands })
}

/// The invitation is the pending one whose token of exactly this generation the command delivers.
pub open spec fn delivers(
    record: InvitationRecord<Seq<char>>,
    command: CommandRecord<Seq<char>>,
) -> bool {
    record.state == InvitationState::Pending && command.token_generation == Some(
        record.token_generation,
    )
}

fn delivering(record: &InvitationRecord<String>, command: &CommandRecord<String>) -> (r: bool)
    ensures
        r == delivers(record@, command@),
{
    record.state == InvitationState::Pending && (match command.token_generation {
        Some(generation) => generation == record.token_generation,
        None => false,
    })
}

/// An invitation whose delivery a provider has taken over.
pub open spec fn queued(
    record: InvitationRecord<Seq<char>>,
    intent_id: Seq<char>,
    delivery_id: Seq<char>,
    now: i64,
) -> InvitationRecord<Seq<char>> {
    InvitationRecord {
        delivery_state: DeliveryState::Queued,
        delivery_intent_id: Some(intent_id),
        delivery_id: Some(delivery_id),
        updated_at: now,
        ..record
    }
}

/// What completing a delivery writes. An invitation that has moved on keeps its own state.
pub open spec fn delivery_writes(
    row: CommandRow<Seq<char>>,
    invitation: Option<InvitationRecord<Seq<char>>>,
    command: CommandRecord<Seq<char>>,
    intent_id: Seq<char>,
    delivery_id: Seq<char>,
    now: i64,
) -> Seq<WriteModel> {
    let done = Write::UpdateCommand {
        row: finished(
            row,
            CommandState::Completed,
            Some(Receipt::Notification { intent_id, delivery_id }),
            None,
            now,
        ),
    };
    match invitation {
        Some(record) => if delivers(record, command) {
            seq![
                done,
                Write::UpdateInvitation { record: queued(record, intent_id, delivery_id, now) },
            ]
        } else {
            seq![done]
        },
        None => seq![done],
    }
}

/// Completes the delivery of an invitation with the receipt of its provider.
pub fn complete_notification_command(
    row: Option<CommandRow<String>>,
    invitation: &Option<InvitationRecord<String>>,
    command: &CommandRecord<String>,
    intent_id: &str,
    delivery_id: &str,
    now: i64,
) -> (result: Result<Vec<StoredWrite>, StorageError>)
    ensures
        match result {
            Ok(writes) => {
                &&& is_fenced(option_row(row), command.lease_token)
                &&& writes_view(writes@) == delivery_writes(
                    row->0@,
                    option_record(*invitation),
                    command@,
                    intent_id@,
                    delivery_id@,
                    now,
                )
            },
            Err(StorageError::RowNotFound) => !is_fenced(option_row(row), command.lease_token),
            Err(_) => false,
        },
{
    let ghost stored = option_row(row);
    let ended = match finish_command(
        row,
        command.lease_token,
        CommandState::Completed,
        Some(
            Receipt::Notification {
                intent_id: intent_id.to_owned(),
                delivery_id: delivery_id.to_owned(),
            },
        ),
        None,
        now,
    ) {
        Ok(ended) => ended,
        Err(error) => {
            return Err(error);
        },
    };
    let mut writes: Vec<StoredWrite> = vec![Write::UpdateCommand { row: ended }];
    match invitation {
        Some(record) => {
            if delivering(record, command) {
                let mut next = record.copy();
                next.delivery_state = DeliveryState::Queued;
                next.delivery_intent_id = Some(intent_id.to_owned());
                next.delivery_id = Some(delivery_id.to_owned());
                next.updated_at = now;
                assert(next@ =~= queued(record@, intent_id@, delivery_id@, now));
                writes.push(Write::UpdateInvitation { record: next });
            }
        },
        None => {},
    }
    assert(writes_view(writes@) =~= delivery_writes(
        stored->0,
        option_record(*invitation),
        command@,
        intent_id@,
        delivery_id@,
        now,
    ));
    Ok(writes)
}

/// Completes the report of how an invitation ended.
pub fn complete_lifecycle_command(
    row: Option<CommandRow<String>>,
    command: &CommandRecord<String>,
    recorded: bool,
    now: i64,
) -> (result: Result<CommandRow<String>, StorageError>)
    ensures
        match result {
            Ok(ended) => {
                &&& is_fenced(option_row(row), command.lease_token)
                &&& ended@ == finished(
                    row->0@,
                    CommandState::Completed,
                    Some(Receipt::Lifecycle { recorded }),
                    None,
                    now,
                )
            },
            Err(StorageError::RowNotFound) => !is_fenced(option_row(row), command.lease_token),
            Err(_) => false,
        },
{
    finish_command(
        row,
        command.lease_token,
        CommandState::Completed,
        Some(Receipt::Lifecycle { recorded }),
        None,
        now,
    )
}

/// An invitation whose delivery has failed.
pub open spec fn undelivered(record: InvitationRecord<Seq<char>>, now: i64) -> InvitationRecord<
    Seq<char>,
> {
    InvitationRecord { delivery_state: DeliveryState::Failed, updated_at: now, ..record }
}

/// What a permanent failure does to the invitation of the command: a failed delivery marks it,
/// and a failed membership ends it and frees the key of its acceptance.
pub open spec fn failure_consequences(
    invitation: Option<InvitationRecord<Seq<char>>>,
    command: CommandRecord<Seq<char>>,
    error_code: Seq<char>,
    ids: Identifiers,
    now: i64,
) -> Seq<WriteModel> {
    match invitation {
        Some(record) => if command.kind == NOTIFY_INVITATION@ && delivers(record, command) {
            seq![Write::UpdateInvitation { record: undelivered(record, now) }]
        } else if command.kind == ADD_MEMBER@ && awaits(record, command) {
            expiration_writes(record, ids.command_id, now) + seq![
                activity_of(
                    expired(record, now),
                    ids.activity_id,
                    ActivityKind::AcceptanceFailed,
                    FAILURE_ACTOR@,
                    Evidence::Failure { error_code },
                ),
                Write::ReleaseAcceptance { command_id: command.command_id },
            ]
        } else {
            Seq::empty()
        },
        None => Seq::empty(),
    }
}

/// What a permanent failure of a command writes.
pub open spec fn failure_writes(
    row: CommandRow<Seq<char>>,
    invitation: Option<InvitationRecord<Seq<char>>>,
    command: CommandRecord<Seq<char>>,
    error_code: Seq<char>,
    ids: Identifiers,
    now: i64,
) -> Seq<WriteModel> {
    seq![
        Write::UpdateCommand {
            row: finished(row, CommandState::Failed, None, Some(error_code), now),
        },
    ] + failure_consequences(invitation, command, error_code, ids, now)
}

/// Ends a command with a permanent failure.
pub fn fail_command(
    row: Option<CommandRow<String>>,
    invitation: &Option<InvitationRecord<String>>,
    command: &CommandRecord<String>,
    error_code: &str,
    ids: Identifiers,
    now: i64,
) -> (result: Result<Vec<StoredWrite>, StorageError>)
    ensures
        ({
            let record = option_record(*invitation);
            let fence = is_fenced(option_row(row), command.lease_token);
            let ends = command@.kind == ADD_MEMBER@;
            match result {
                Ok(writes) => {
                    &&& fence
                    &&& ends ==> record is Some
                    &&& ends && awaits(record->0, command@) ==> can_expire(record->0)
                    &&& writes_view(writes@) == failure_writes(
                        row->0@,
                        record,
                        command@,
                        error_code@,
                        ids,
                        now,
                    )
                },
                Err(StorageError::RowNotFound) => !fence || ends && record is None,
                Err(StorageError::OutOfRange) => {
                    &&& fence
                    &&& ends
                    &&& record is Some
                    &&& awaits(record->0, command@)
                    &&& record->0.revision == i64::MAX
                },
                Err(_) => false,
            }
        }),
{
    let ghost stored = option_row(row);
    let ghost model = option_record(*invitation);
    proof {
        kinds_differ();
    }
    let ended = match finish_command(
        row,
        command.lease_token,
        CommandState::Failed,
        None,
        Some(error_code.to_owned()),
        now,
    ) {
        Ok(ended) => ended,
        Err(error) => {
            return Err(error);
        },
    };
    let mut writes: Vec<StoredWrite> = vec![Write::UpdateCommand { row: ended }];
    let ghost first = writes_view(writes@);
    assert(first =~= seq![
        Write::UpdateCommand {
            row: finished(stored->0, CommandState::Failed, None, Some(error_code@), now),
        },
    ]);
    if same_text(command.kind.as_str(), NOTIFY_INVITATION) {
        match invitation {
            Some(record) => {
                if delivering(record, command) {
                    let mut next = record.copy();
                    next.delivery_state = DeliveryState::Failed;
                    next.updated_at = now;
                    assert(next@ =~= undelivered(record@, now));
                    writes.push(Write::UpdateInvitation { record: next });
                }
            },
            None => {},
        }
    } else if same_text(command.kind.as_str(), ADD_MEMBER) {
        let record = match invitation {
            Some(record) => record,
            None => {
                return Err(StorageError::RowNotFound);
            },
        };
        if awaiting(record, command) {
            let next = match expire_locked_invitation(&mut writes, record, ids.command_id, now) {
                Ok(next) => next,
                Err(error) => {
                    return Err(error);
                },
            };
            let activity = make_activity(
                &next,
                ids.activity_id,
                ActivityKind::AcceptanceFailed,
                FAILURE_ACTOR,
                Evidence::Failure { error_code: error_code.to_owned() },
            );
            let ghost middle = writes_view(writes@);
            let ghost entry = activity@;
            writes.push(activity);
            assert(writes_view(writes@) =~= middle.push(entry));
            let ghost longer = writes_view(writes@);
            writes.push(Write::ReleaseAcceptance { command_id: command.command_id });
            assert(writes_view(writes@) =~= longer.push(
                Write::ReleaseAcceptance { command_id: command.command_id },
            ));
        }
    }
    assert(writes_view(writes@) =~= first + failure_consequences(
        model,
        command@,
        error_code@,
        ids,
        now,
    ));
    Ok(writes)
}

} // verus!
