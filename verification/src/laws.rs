//! What holds of the store over time.

use crate::acceptance::{accepted, accepting_command, awaits, consumed, token_stands};
use crate::commands::{
    is_due, is_fenced, kinds_differ, leased, superseded, ADD_MEMBER, NOTIFY_INVITATION,
    NOTIFY_LIFECYCLE,
};
use crate::contract::AcceptError;
use crate::dispatch::{
    failure_text, is_completed, next_action, CommandAction, CommandEvent, DeliverySettings,
    RetryPolicy, Settlement,
};
use crate::instants::instant_after;
use crate::invariants::{
    is_joining, is_same_command, is_same_invitation, is_sound_command,
    lemma_membership_key_is_free, steps_keep_the_store_consistent,
};
use crate::lifecycle::{
    created, expiration_writes, expired, labels_differ, refusal, revoked, rotated, Identifiers,
};
use crate::mutations::{mutation_start, DomainFailure, MutationReplay};
use crate::operations::shown_token;
use crate::records::{
    acceptance_of, CommandRecord, CommandRow, CommandState, InvitationRecord, InvitationState,
};
use crate::settlement::{delivers, failure_consequences, queued, undelivered};
use crate::tables::{
    describes, fits, is_live, is_live_delivery, is_open_acceptance, lemma_apply_all_concat,
    lemma_apply_all_push, lemma_apply_five, lemma_apply_four, lemma_apply_one, lemma_apply_three,
    Call, MutationRow, Step, Tables,
};
use crate::token::{token_check, TokenError};
use crate::validation::is_invitation_label;
use crate::writes::{Response, ResponseModel, Write, WriteModel};
use vstd::prelude::*;

verus! {

/// A history: each step can be taken where the ones before it have led.
pub open spec fn is_history(start: Tables, steps: Seq<Step>) -> bool
    decreases steps.len(),
{
    steps.len() == 0 || is_history(start, steps.drop_last()) && after(
        start,
        steps.drop_last(),
    ).enables(steps.last())
}

/// The store after a history.
pub open spec fn after(start: Tables, steps: Seq<Step>) -> Tables
    decreases steps.len(),
{
    if steps.len() == 0 {
        start
    } else {
        after(start, steps.drop_last()).next(steps.last())
    }
}

/// Whatever is done to a consistent store, it stays consistent.
pub proof fn histories_stay_consistent(start: Tables, steps: Seq<Step>)
    requires
        start.is_consistent(),
        is_history(start, steps),
    ensures
        after(start, steps).is_consistent(),
    decreases steps.len(),
{
    if steps.len() > 0 {
        histories_stay_consistent(start, steps.drop_last());
        steps_keep_the_store_consistent(after(start, steps.drop_last()), steps.last());
    }
}

/// The invitation that a step changes or adds, as it is afterwards.
pub open spec fn changed_invitation(tables: Tables, step: Step) -> Option<
    InvitationRecord<Seq<char>>,
> {
    match step {
        Step::Create { input, call, number, token_ttl_seconds, ids, now } => Some(
            created(
                input,
                call.context.actor,
                number,
                instant_after(now, token_ttl_seconds)->0,
                now,
            ),
        ),
        Step::Resend { invitation_id, token_hash, token_ttl_seconds, now, .. } => Some(
            rotated(
                tables.invitations[invitation_id],
                token_hash,
                instant_after(now, token_ttl_seconds)->0,
                now,
            ),
        ),
        Step::Revoke { invitation_id, reason, now, .. } => Some(
            revoked(tables.invitations[invitation_id], reason, now),
        ),
        Step::AcceptLate { invitation_id, now, .. } => Some(
            expired(tables.invitations[invitation_id], now),
        ),
        Step::AcceptStart { invitation_id, call, now, .. } => Some(
            consumed(tables.invitations[invitation_id], call.context.actor, now),
        ),
        Step::Expire { invitation_id, now, .. } => Some(
            expired(tables.invitations[invitation_id], now),
        ),
        Step::Settle { command, settlement, now, .. } => {
            let record = tables.invitations[command.invitation_id];
            match settlement {
                Settlement::CompleteAccept { membership_id, .. } => if is_completed(
                    tables.commands.get(command.command_id),
                ) {
                    None
                } else {
                    Some(accepted(record, membership_id, now))
                },
                Settlement::CompleteNotification { intent_id, delivery_id } => if delivers(
                    record,
                    command,
                ) {
                    Some(queued(record, intent_id, delivery_id, now))
                } else {
                    None
                },
                Settlement::Fail { .. } => if command.kind == NOTIFY_INVITATION@ && delivers(
                    record,
                    command,
                ) {
                    Some(undelivered(record, now))
                } else if command.kind == ADD_MEMBER@ && awaits(record, command) {
                    Some(expired(record, now))
                } else {
                    None
                },
                _ => None,
            }
        },
        _ => None,
    }
}

proof fn lemma_expiration_invitations(
    tables: Tables,
    record: InvitationRecord<Seq<char>>,
    command_id: u128,
    now: i64,
)
    ensures
        tables.apply_all(expiration_writes(record, command_id, now)).invitations
            == tables.invitations.insert(record.invitation_id, expired(record, now)),
{
    let writes = expiration_writes(record, command_id, now);
    lemma_apply_three(tables, writes[0], writes[1], writes[2]);
    assert(writes =~= seq![writes[0], writes[1], writes[2]]);
}

proof fn lemma_settlements_change_one_invitation(tables: Tables, step: Step)
    requires
        tables.is_consistent(),
        step is Settle,
        tables.enables(step),
    ensures
        tables.next(step).invitations == match changed_invitation(tables, step) {
            Some(record) => tables.invitations.insert(record.invitation_id, record),
            None => tables.invitations,
        },
{
    let start = tables.prepared(step);
    let writes = tables.writes_of(step);
    if let Step::Settle { command, settlement, ids, now } = step {
        let record = tables.invitations[command.invitation_id];
        assert(tables.invitations.contains_key(command.invitation_id));
        match settlement {
            Settlement::CompleteAccept { .. } => {
                if is_completed(tables.commands.get(command.command_id)) {
                    assert(writes =~= Seq::empty());
                } else {
                    assert(writes =~= seq![
                        writes[0],
                        writes[1],
                        writes[2],
                        writes[3],
                        writes[4],
                    ]);
                    lemma_apply_five(start, writes[0], writes[1], writes[2], writes[3], writes[4]);
                }
            },
            Settlement::Fail { code } => {
                let head = seq![writes[0]];
                let rest = failure_consequences(
                    Some(record),
                    command,
                    failure_text(code),
                    ids,
                    now,
                );
                assert(writes =~= head + rest);
                lemma_apply_all_concat(tables, head, rest);
                lemma_apply_one(tables, writes[0]);
                let first = tables.apply(writes[0]);
                if command.kind == NOTIFY_INVITATION@ && delivers(record, command) {
                    assert(rest =~= seq![rest[0]]);
                    lemma_apply_one(first, rest[0]);
                } else if command.kind == ADD_MEMBER@ && awaits(record, command) {
                    let middle = expiration_writes(record, ids.command_id, now);
                    assert(rest =~= middle.push(rest[3]).push(rest[4]));
                    lemma_apply_all_push(first, middle.push(rest[3]), rest[4]);
                    lemma_apply_all_push(first, middle, rest[3]);
                    lemma_expiration_invitations(first, record, ids.command_id, now);
                } else {
                    assert(rest =~= Seq::empty());
                }
            },
            Settlement::CompleteNotification { .. } => {
                if delivers(record, command) {
                    assert(writes =~= seq![writes[0]].push(writes[1]));
                    lemma_apply_all_push(start, seq![writes[0]], writes[1]);
                } else {
                    assert(writes =~= seq![writes[0]]);
                }
                lemma_apply_one(start, writes[0]);
            },
            _ => {
                assert(writes =~= seq![writes[0]]);
                lemma_apply_one(start, writes[0]);
            },
        }
    }
}

/// A step changes or adds at most one invitation.
pub proof fn steps_change_one_invitation(tables: Tables, step: Step)
    requires
        tables.is_consistent(),
        tables.enables(step),
    ensures
        tables.next(step).invitations == match changed_invitation(tables, step) {
            Some(record) => tables.invitations.insert(record.invitation_id, record),
            None => tables.invitations,
        },
{
    let start = tables.prepared(step);
    let writes = tables.writes_of(step);
    match step {
        Step::Create { .. } => {
            lemma_apply_four(start, writes[0], writes[1], writes[2], writes[3]);
            assert(writes =~= seq![writes[0], writes[1], writes[2], writes[3]]);
        },
        Step::Resend { .. } => {
            lemma_apply_five(start, writes[0], writes[1], writes[2], writes[3], writes[4]);
            assert(writes =~= seq![writes[0], writes[1], writes[2], writes[3], writes[4]]);
        },
        Step::Revoke { .. } => {
            lemma_apply_five(start, writes[0], writes[1], writes[2], writes[3], writes[4]);
            assert(writes =~= seq![writes[0], writes[1], writes[2], writes[3], writes[4]]);
        },
        Step::AcceptLate { invitation_id, ids, now, .. } => {
            let record = tables.invitations[invitation_id];
            let release = seq![writes[0]];
            let middle = expiration_writes(record, ids.command_id, now);
            assert(writes =~= (release + middle).push(writes.last()));
            lemma_apply_all_push(start, release + middle, writes.last());
            lemma_apply_all_concat(start, release, middle);
            lemma_apply_one(start, writes[0]);
            lemma_expiration_invitations(start.apply(writes[0]), record, ids.command_id, now);
        },
        Step::AcceptStart { .. } => {
            assert(writes =~= seq![writes[0], writes[1], writes[2], writes[3], writes[4]]);
            lemma_apply_five(start, writes[0], writes[1], writes[2], writes[3], writes[4]);
        },
        Step::Expire { invitation_id, ids, now, .. } => {
            let record = tables.invitations[invitation_id];
            let middle = expiration_writes(record, ids.command_id, now);
            assert(writes =~= middle.push(writes.last()));
            lemma_apply_all_push(start, middle, writes.last());
            lemma_expiration_invitations(start, record, ids.command_id, now);
        },
        Step::Claim { .. } => {
            assert(writes =~= seq![writes[0]]);
            lemma_apply_one(start, writes[0]);
        },
        Step::Settle { .. } => lemma_settlements_change_one_invitation(tables, step),
        Step::Reserve { .. } => {},
        Step::Keep { .. } => {
            assert(writes =~= seq![writes[0]]);
            lemma_apply_one(start, writes[0]);
        },
    }
}

/// An invitation that has been accepted, revoked or expired never changes again.
pub proof fn ended_invitations_never_change(tables: Tables, step: Step, id: u128)
    requires
        tables.is_consistent(),
        tables.enables(step),
        tables.invitations.contains_key(id),
        tables.invitations[id].state != InvitationState::Pending,
    ensures
        tables.next(step).invitations.contains_key(id),
        tables.next(step).invitations[id] == tables.invitations[id],
{
    steps_change_one_invitation(tables, step);
}

/// What the lifecycle of an invitation is about. How its delivery goes is not part of it.
pub open spec fn is_same_lifecycle(
    left: InvitationRecord<Seq<char>>,
    right: InvitationRecord<Seq<char>>,
) -> bool {
    &&& left.state == right.state
    &&& left.acceptance_subject == right.acceptance_subject
    &&& left.token_hash == right.token_hash
    &&& left.token_generation == right.token_generation
    &&& left.token_expires_at == right.token_expires_at
    &&& left.membership_id == right.membership_id
}

/// Invitations are never lost, and stay what they are. Every change of the lifecycle counts the
/// revision up by one, and nothing else does; token generations are never given back.
pub proof fn revisions_count_changes(tables: Tables, step: Step, id: u128)
    requires
        tables.is_consistent(),
        tables.enables(step),
        tables.invitations.contains_key(id),
    ensures
        tables.next(step).invitations.contains_key(id),
        is_same_invitation(tables.invitations[id], tables.next(step).invitations[id]),
        tables.next(step).invitations[id].token_generation >= tables.invitations[id].token_generation,
        tables.next(step).invitations[id].revision == tables.invitations[id].revision
            && is_same_lifecycle(tables.invitations[id], tables.next(step).invitations[id])
            || tables.next(step).invitations[id].revision == tables.invitations[id].revision + 1,
{
    steps_change_one_invitation(tables, step);
}

/// Once an invitation has moved on, a caller that has seen only the earlier revision is refused.
pub proof fn stale_revisions_are_refused(tables: Tables, step: Step, id: u128)
    requires
        tables.is_consistent(),
        tables.enables(step),
        tables.invitations.contains_key(id),
        !is_same_lifecycle(tables.invitations[id], tables.next(step).invitations[id]),
    ensures
        refusal(tables.next(step).invitations.get(id), tables.invitations[id].revision) == Some(
            DomainFailure::RevisionConflict,
        ),
        refusal(
            tables.next(step).find(tables.invitations[id].organization_id, id),
            tables.invitations[id].revision,
        ) == Some(DomainFailure::RevisionConflict),
{
    revisions_count_changes(tables, step, id);
}

/// An invitation at its first revision is as it was made: pending, with its first token, and with
/// nobody who has started to accept it. A change at that revision is not refused.
pub proof fn first_revisions_are_untouched(tables: Tables, id: u128)
    requires
        tables.is_consistent(),
        tables.invitations.contains_key(id),
        tables.invitations[id].revision == 1,
    ensures
        tables.invitations[id].state == InvitationState::Pending,
        tables.invitations[id].token_generation == 1,
        tables.invitations[id].acceptance_subject is None,
        refusal(tables.invitations.get(id), 1) is None,
        refusal(tables.find(tables.invitations[id].organization_id, id), 1) is None,
{
}

/// The invitation and the revision that a resend or a revocation is about.
pub open spec fn management_target(step: Step) -> Option<(Seq<char>, u128, i64)> {
    match step {
        Step::Resend { organization_id, invitation_id, expected_revision, .. } => Some(
            (organization_id, invitation_id, expected_revision),
        ),
        Step::Revoke { organization_id, invitation_id, expected_revision, .. } => Some(
            (organization_id, invitation_id, expected_revision),
        ),
        _ => None,
    }
}

/// Of two resends or revocations at one revision exactly one is made: whichever comes first, the
/// other one is refused for its revision.
pub proof fn rivals_at_one_revision_exclude_each_other(tables: Tables, first: Step, second: Step)
    requires
        tables.is_consistent(),
        management_target(first) is Some,
        management_target(first) == management_target(second),
        tables.enables(first),
    ensures
        ({
            let (organization_id, id, revision) = management_target(second)->0;
            &&& refusal(tables.next(first).find(organization_id, id), revision) == Some(
                DomainFailure::RevisionConflict,
            )
            &&& !tables.next(first).enables(second)
        }),
{
    let (organization_id, id, revision) = management_target(first)->0;
    steps_change_one_invitation(tables, first);
    assert(tables.invitations.contains_key(id));
}

/// A token that has been rotated away is refused, whatever it is checked against.
pub proof fn rotated_tokens_are_refused(
    record: InvitationRecord<Seq<char>>,
    token_hash: Seq<char>,
    expires_at: i64,
    now: i64,
    generation: i64,
    observed: Seq<char>,
)
    requires
        record.token_generation < i64::MAX,
        generation <= record.token_generation,
    ensures
        !token_stands(rotated(record, token_hash, expires_at, now), generation, observed),
{
}

/// A token is used once: after an acceptance has started, no acceptance, resend or revocation of
/// the invitation can be taken, at whatever revision and with whatever token.
pub proof fn tokens_are_used_once(tables: Tables, step: Step, id: u128)
    requires
        tables.is_consistent(),
        tables.invitations.contains_key(id),
        tables.invitations[id].acceptance_subject is Some,
        tables.enables(step),
    ensures
        step matches Step::AcceptStart { invitation_id, .. } ==> invitation_id != id,
        step matches Step::AcceptLate { invitation_id, .. } ==> invitation_id != id,
        step matches Step::Resend { invitation_id, .. } ==> invitation_id != id,
        step matches Step::Revoke { invitation_id, .. } ==> invitation_id != id,
        step matches Step::Expire { invitation_id, .. } ==> invitation_id != id,
        tables.next(step).invitations[id].acceptance_subject
            == tables.invitations[id].acceptance_subject,
        tables.next(step).invitations[id].token_hash is None,
{
    steps_change_one_invitation(tables, step);
    steps_keep_the_store_consistent(tables, step);
    assert(tables.next(step).invitations.contains_key(id));
}

/// An invitation has at most one membership command.
pub proof fn memberships_are_asked_for_once(tables: Tables, left: u128, right: u128)
    requires
        tables.is_consistent(),
        tables.commands.contains_key(left),
        tables.commands.contains_key(right),
        tables.commands[left].kind == ADD_MEMBER@,
        tables.commands[right].kind == ADD_MEMBER@,
        tables.commands[left].invitation_id == tables.commands[right].invitation_id,
    ensures
        left == right,
{
    kinds_differ();
    assert(is_sound_command(tables.commands[left]));
    assert(is_sound_command(tables.commands[right]));
    assert(is_joining(tables.commands[left]) && is_joining(tables.commands[right]));
}

proof fn lemma_activity_grows(tables: Tables, writes: Seq<WriteModel>)
    ensures
        tables.activity.is_prefix_of(tables.apply_all(writes).activity),
    decreases writes.len(),
{
    if writes.len() > 0 {
        lemma_activity_grows(tables, writes.drop_last());
    }
}

/// The activity log only grows: what it holds is never changed or removed.
pub proof fn activity_is_append_only(tables: Tables, step: Step)
    ensures
        tables.activity.is_prefix_of(tables.next(step).activity),
{
    lemma_activity_grows(tables.prepared(step), tables.writes_of(step));
}

/// A write that leaves kept mutations alone, except under the given key, and except that it may
/// answer or release an acceptance that is still open.
pub open spec fn spares_answers(write: WriteModel, key: (Seq<char>, Seq<char>)) -> bool {
    match write {
        Write::CompleteMutation { caller, idempotency_key, .. } => (caller, idempotency_key) == key,
        Write::BindMutation { caller, idempotency_key, .. } => (caller, idempotency_key) == key,
        Write::ReleaseMutation { caller, idempotency_key } => (caller, idempotency_key) == key,
        _ => true,
    }
}

proof fn lemma_answers_stay(
    tables: Tables,
    writes: Seq<WriteModel>,
    own: (Seq<char>, Seq<char>),
    key: (Seq<char>, Seq<char>),
)
    requires
        forall|i: int| 0 <= i < writes.len() ==> spares_answers(#[trigger] writes[i], own),
        tables.mutations.contains_key(key),
        tables.mutations[key].kept.response is Some,
        key != own,
    ensures
        tables.apply_all(writes).mutations.contains_key(key),
        tables.apply_all(writes).mutations[key] == tables.mutations[key],
    decreases writes.len(),
{
    if writes.len() > 0 {
        assert forall|i: int| 0 <= i < writes.drop_last().len() implies spares_answers(
            #[trigger] writes.drop_last()[i],
            own,
        ) by {
            assert(writes.drop_last()[i] == writes[i]);
        }
        lemma_answers_stay(tables, writes.drop_last(), own, key);
        assert(spares_answers(writes[writes.len() - 1], own));
    }
}

/// The key that a step works under. Steps without a key of their own have none that is answered.
pub open spec fn own_key(step: Step) -> Option<(Seq<char>, Seq<char>)> {
    match step {
        Step::Create { call, .. } => Some(call.key()),
        Step::Resend { call, .. } => Some(call.key()),
        Step::Revoke { call, .. } => Some(call.key()),
        Step::AcceptLate { call, .. } => Some(call.key()),
        Step::AcceptStart { call, .. } => Some(call.key()),
        Step::Reserve { call, .. } => Some(call.key()),
        Step::Keep { caller, idempotency_key, .. } => Some((caller, idempotency_key)),
        _ => None,
    }
}

/// An answer that is kept under an idempotency key stays there unchanged, whatever is done later.
pub proof fn answers_are_kept(tables: Tables, step: Step, key: (Seq<char>, Seq<char>))
    requires
        tables.enables(step),
        tables.mutations.contains_key(key),
        tables.mutations[key].kept.response is Some,
    ensures
        tables.next(step).mutations.contains_key(key),
        tables.next(step).mutations[key] == tables.mutations[key],
{
    let writes = tables.writes_of(step);
    let start = tables.prepared(step);
    assert(own_key(step) != Some(key));
    let own = match own_key(step) {
        Some(own) => own,
        None => (key.0.push('x'), key.1),
    };
    assert(own != key) by {
        if own_key(step) is None {
            assert(key.0.push('x').len() != key.0.len());
        }
    }
    assert(start.mutations.contains_key(key) && start.mutations[key] == tables.mutations[key]);
    assert forall|i: int| 0 <= i < writes.len() implies spares_answers(
        #[trigger] writes[i],
        own,
    ) by {
        match step {
            Step::AcceptLate { invitation_id, ids, now, .. } => {
                let middle = expiration_writes(
                    tables.invitations[invitation_id],
                    ids.command_id,
                    now,
                );
                assert(writes =~= seq![writes[0]] + middle + seq![writes.last()]);
            },
            Step::Settle { command, settlement, ids, now } => {
                let record = tables.invitations[command.invitation_id];
                if let Settlement::Fail { code } = settlement {
                    let rest = failure_consequences(
                        Some(record),
                        command,
                        failure_text(code),
                        ids,
                        now,
                    );
                    assert(writes =~= seq![writes[0]] + rest);
                }
            },
            _ => {},
        }
    }
    lemma_answers_stay(start, writes, own, key);
}

/// A repeated request gets the answer that is kept, and any other request under its key is
/// refused. As answers are kept for good, that holds at any later time.
pub proof fn repeated_requests_get_the_kept_answer(
    row: MutationRow,
    operation: Seq<char>,
    actor: Seq<char>,
    request_hash: Seq<u8>,
)
    requires
        row.kept.response is Some,
    ensures
        mutation_start(Some(row.kept), operation, actor, request_hash) == if row.kept.operation
            == operation && row.kept.actor_subject == actor && row.kept.request_hash
            == request_hash {
            Ok::<MutationReplay<ResponseModel>, DomainFailure>(
                MutationReplay::Replay(row.kept.response->0),
            )
        } else {
            Err(DomainFailure::IdempotencyConflict)
        },
{
}

/// A write that leaves a command alone, except that it may end deliveries.
pub open spec fn spares_command(write: WriteModel, id: u128) -> bool {
    match write {
        Write::InsertCommand { row } => row.command_id != id,
        Write::UpdateCommand { row } => row.command_id != id,
        _ => true,
    }
}

/// A command is as it was, or is a delivery that has been superseded.
pub open spec fn stands_or_is_superseded(
    before: CommandRow<Seq<char>>,
    now: CommandRow<Seq<char>>,
) -> bool {
    before == now || is_same_command(before, now) && now.kind == NOTIFY_INVITATION@ && now.state
        == CommandState::Superseded
}

proof fn lemma_commands_stand(tables: Tables, writes: Seq<WriteModel>, id: u128)
    requires
        forall|i: int| 0 <= i < writes.len() ==> spares_command(#[trigger] writes[i], id),
        tables.commands.contains_key(id),
    ensures
        tables.apply_all(writes).commands.contains_key(id),
        stands_or_is_superseded(tables.commands[id], tables.apply_all(writes).commands[id]),
    decreases writes.len(),
{
    if writes.len() > 0 {
        assert forall|i: int| 0 <= i < writes.drop_last().len() implies spares_command(
            #[trigger] writes.drop_last()[i],
            id,
        ) by {
            assert(writes.drop_last()[i] == writes[i]);
        }
        lemma_commands_stand(tables, writes.drop_last(), id);
        assert(spares_command(writes[writes.len() - 1], id));
        let middle = tables.apply_all(writes.drop_last());
        if let Write::SupersedeNotifications { invitation_id, at } = writes.last() {
            let row = middle.commands[id];
            assert(middle.apply(writes.last()).commands[id] == if is_live_delivery(
                row,
                invitation_id,
            ) {
                superseded(row, at)
            } else {
                row
            });
        }
    }
}

proof fn lemma_settlements_spare_commands(tables: Tables, step: Step, id: u128)
    requires
        tables.is_consistent(),
        step is Settle,
        tables.enables(step),
        tables.commands.contains_key(id),
        step->command.command_id != id || !is_fenced(
            tables.commands.get(id),
            step->command.lease_token,
        ) && tables.commands[id].state != CommandState::Completed,
    ensures
        forall|i: int|
            0 <= i < tables.writes_of(step).len() ==> spares_command(
                #[trigger] tables.writes_of(step)[i],
                id,
            ),
{
    let writes = tables.writes_of(step);
    if let Step::Settle { command, settlement, ids, now } = step {
        let record = tables.invitations[command.invitation_id];
        let row = tables.commands[command.command_id];
        assert(tables.commands.contains_key(command.command_id) && row.command_id
            == command.command_id);
        assert(command.command_id != id);
        assert forall|i: int| 0 <= i < writes.len() implies spares_command(
            #[trigger] writes[i],
            id,
        ) by {
            if let Settlement::Fail { code } = settlement {
                let rest = failure_consequences(
                    Some(record),
                    command,
                    failure_text(code),
                    ids,
                    now,
                );
                assert(writes =~= seq![writes[0]] + rest);
            }
        }
    }
}

/// While a lease lasts, nobody but its holder can take, settle or put back the command. A delivery
/// can be superseded meanwhile, and the holder then finds its lease gone.
pub proof fn leases_are_exclusive(tables: Tables, step: Step, id: u128)
    requires
        tables.is_consistent(),
        tables.enables(step),
        tables.commands.contains_key(id),
        tables.commands[id].state == CommandState::InFlight,
        step matches Step::Claim { command_id, now, .. } ==> command_id != id || now
            <= tables.commands[id].lease_until->0,
        step matches Step::Settle { command, .. } ==> command.command_id != id
            || tables.commands[id].lease_token != Some(command.lease_token),
    ensures
        tables.next(step).commands.contains_key(id),
        stands_or_is_superseded(tables.commands[id], tables.next(step).commands[id]),
{
    let row = tables.commands[id];
    assert(is_sound_command(row));
    let writes = tables.writes_of(step);
    if let Step::Settle { .. } = step {
        lemma_settlements_spare_commands(tables, step, id);
    } else {
        assert forall|i: int| 0 <= i < writes.len() implies spares_command(
            #[trigger] writes[i],
            id,
        ) by {
            match step {
                Step::AcceptLate { invitation_id, ids, now, .. } => {
                    let middle = expiration_writes(
                        tables.invitations[invitation_id],
                        ids.command_id,
                        now,
                    );
                    assert(writes =~= seq![writes[0]] + middle + seq![writes.last()]);
                },
                Step::AcceptStart { invitation_id, .. } => {
                    assert(tables.invitations.contains_key(invitation_id));
                    lemma_membership_key_is_free(tables, invitation_id);
                },
                _ => {},
            }
        }
    }
    lemma_commands_stand(tables.prepared(step), writes, id);
}

/// A command that is taken anew locks out everyone who held it before.
pub proof fn new_leases_lock_out_old_ones(
    row: CommandRow<Seq<char>>,
    lease_token: u128,
    until: i64,
    now: i64,
    earlier: u128,
)
    requires
        earlier != lease_token,
    ensures
        is_fenced(Some(leased(row, lease_token, until, now)), lease_token),
        !is_fenced(Some(leased(row, lease_token, until, now)), earlier),
{
}

/// No command is stranded: one that waits or is under way becomes due, once its time has come or
/// its lease has run out.
pub proof fn live_commands_become_due(row: CommandRow<Seq<char>>, now: i64)
    requires
        is_sound_command(row),
        is_live(row),
        row.available_at <= now,
        row.lease_until matches Some(until) ==> until < now,
    ensures
        is_due(row, now),
{
}

/// An invitation that has been made is found by its identifier, and its label is that of no other
/// invitation of its organization.
pub proof fn new_invitations_are_found(tables: Tables, step: Step, other: u128)
    requires
        tables.is_consistent(),
        step is Create,
        tables.enables(step),
    ensures
        ({
            let record = changed_invitation(tables, step)->0;
            let next = tables.next(step);
            &&& next.find(record.organization_id, record.invitation_id) == Some(record)
            &&& is_invitation_label(record.identifier)
            &&& next.invitations.contains_key(other) && next.invitations[other].organization_id
                == record.organization_id && next.invitations[other].identifier == record.identifier
                ==> other == record.invitation_id
        }),
{
    steps_change_one_invitation(tables, step);
    steps_keep_the_store_consistent(tables, step);
    let record = changed_invitation(tables, step)->0;
    labels_differ(step->number, step->number);
    assert(tables.next(step).invitations.contains_key(record.invitation_id));
}

/// While an invitation is pending for an address, no other can be made for it.
pub proof fn pending_addresses_are_taken(tables: Tables, step: Step, id: u128)
    requires
        tables.invitations.contains_key(id),
        tables.invitations[id].state == InvitationState::Pending,
        tables.enables(step),
    ensures
        step matches Step::Create { input, .. } ==> input.organization_id
            != tables.invitations[id].organization_id || input.email_normalized
            != tables.invitations[id].email_normalized,
{
}

/// The token that was made for an invitation is taken for its acceptance: where it passes the check
/// against the stored verifier, it is shown with the generation and the verifier that stand.
pub proof fn issued_tokens_are_taken(
    record: InvitationRecord<Seq<char>>,
    token: Seq<char>,
    pepper: Seq<u8>,
)
    requires
        record.state == InvitationState::Pending,
        record.token_hash is Some,
        token_check(token, pepper, record.token_hash->0) == Ok::<bool, TokenError>(true),
    ensures
        shown_token(Some(record), token, pepper) == Ok::<
            Result<(i64, Seq<char>), AcceptError>,
            TokenError,
        >(Ok((record.token_generation, record.token_hash->0))),
        token_stands(record, record.token_generation, record.token_hash->0),
{
}

/// An acceptance that has started is kept open under its key, for its membership command.
pub proof fn started_acceptances_are_open(tables: Tables, step: Step)
    requires
        tables.is_consistent(),
        step is AcceptStart,
        tables.enables(step),
    ensures
        ({
            let next = tables.next(step);
            let call = step->AcceptStart_call;
            let command_id = step->AcceptStart_ids.command_id;
            &&& next.mutations.contains_key(call.key())
            &&& is_open_acceptance(next.mutations[call.key()], command_id)
            &&& next.mutations[call.key()].kept.actor_subject == call.context.actor
            &&& next.mutations[call.key()].kept.request_hash == call.request_hash
            &&& next.commands.contains_key(command_id)
            &&& next.commands[command_id].kind == ADD_MEMBER@
            &&& next.commands[command_id].acceptance_subject == Some(call.context.actor)
        }),
{
    let writes = tables.writes_of(step);
    let start = tables.prepared(step);
    assert(tables.invitations.contains_key(step->AcceptStart_invitation_id));
    lemma_membership_key_is_free(tables, step->AcceptStart_invitation_id);
    assert(writes =~= seq![writes[0], writes[1], writes[2], writes[3], writes[4]]);
    lemma_apply_five(start, writes[0], writes[1], writes[2], writes[3], writes[4]);
}

/// Whoever holds the token of a pending invitation can accept it until its deadline, at its current
/// revision and under a key that is free, as long as nobody else is accepting.
pub proof fn pending_invitations_can_be_accepted(
    tables: Tables,
    id: u128,
    call: Call,
    ids: Identifiers,
    lease_token: u128,
    lease_seconds: i64,
    now: i64,
)
    requires
        tables.is_consistent(),
        tables.invitations.contains_key(id),
        tables.invitations[id].state == InvitationState::Pending,
        tables.invitations[id].acceptance_subject is None,
        tables.invitations[id].token_expires_at > now,
        tables.invitations[id].revision < i64::MAX,
        instant_after(now, lease_seconds) is Some,
        !tables.mutations.contains_key(call.key()),
        !tables.commands.contains_key(ids.command_id),
    ensures
        tables.invitations[id].token_hash is Some,
        tables.enables(
            Step::AcceptStart {
                invitation_id: id,
                call,
                expected_revision: tables.invitations[id].revision,
                observed_generation: tables.invitations[id].token_generation,
                token_hash: tables.invitations[id].token_hash->0,
                ids,
                lease_token,
                lease_seconds,
                now,
            },
        ),
{
    lemma_membership_key_is_free(tables, id);
}

/// An acceptance that has started can be completed with the receipt of its membership, by the call
/// that started it.
pub proof fn started_acceptances_can_be_completed(
    tables: Tables,
    step: Step,
    membership_id: Seq<char>,
    provider_revision: Seq<char>,
    ids: Identifiers,
    now: i64,
)
    requires
        tables.is_consistent(),
        step is AcceptStart,
        tables.enables(step),
        tables.invitations[step->AcceptStart_invitation_id].revision < i64::MAX - 1,
        !tables.commands.contains_key(ids.command_id),
        ids.command_id != step->AcceptStart_ids.command_id,
    ensures
        tables.next(step).enables(
            Step::Settle {
                command: accepting_command(
                    tables.invitations[step->AcceptStart_invitation_id],
                    step->AcceptStart_ids.command_id,
                    step->AcceptStart_call.context.actor,
                    step->AcceptStart_lease_token,
                ),
                settlement: Settlement::CompleteAccept { membership_id, provider_revision },
                ids,
                now,
            },
        ),
{
    let writes = tables.writes_of(step);
    let start = tables.prepared(step);
    let id = step->AcceptStart_invitation_id;
    assert(tables.invitations.contains_key(id));
    lemma_membership_key_is_free(tables, id);
    assert(writes =~= seq![writes[0], writes[1], writes[2], writes[3], writes[4]]);
    lemma_apply_five(start, writes[0], writes[1], writes[2], writes[3], writes[4]);
}

/// The receipt of a membership ends its acceptance, and answers the call that started it: with the
/// accepted invitation and the membership.
pub proof fn receipts_answer_acceptances(
    tables: Tables,
    step: Step,
    key: (Seq<char>, Seq<char>),
)
    requires
        tables.is_consistent(),
        step is Settle,
        step->settlement is CompleteAccept,
        tables.enables(step),
        tables.commands[step->command.command_id].state == CommandState::InFlight,
        tables.mutations.contains_key(key),
        is_open_acceptance(tables.mutations[key], step->command.command_id),
    ensures
        ({
            let next = tables.next(step);
            let record = tables.invitations[step->command.invitation_id];
            let membership_id = step->settlement->membership_id;
            let done = accepted(record, membership_id, step->Settle_now);
            let stored = next.invitations[step->command.invitation_id];
            let answer = next.mutations[key].kept.response->0->accepted;
            &&& next.invitations[step->command.invitation_id] == done
            &&& next.mutations.contains_key(key)
            &&& next.mutations[key].kept.response == Some::<ResponseModel>(
                Response::Acceptance { accepted: acceptance_of(done, membership_id) },
            )
            &&& next.commands[step->command.command_id].state == CommandState::Completed
            &&& answer.invitation_id == step->command.invitation_id
            &&& answer.identifier == record.identifier
            &&& answer.organization_id == record.organization_id
            &&& answer.state == InvitationState::Accepted
            &&& answer.membership_id == membership_id
            &&& answer.revision == record.revision + 1
            &&& stored.identifier == answer.identifier
            &&& stored.organization_id == answer.organization_id
            &&& stored.state == InvitationState::Accepted
            &&& stored.membership_id == Some(membership_id)
            &&& stored.revision == answer.revision
            &&& stored.accepted_at == Some(step->Settle_now)
        }),
{
    let writes = tables.writes_of(step);
    let command = step->command;
    assert(tables.commands.contains_key(command.command_id));
    assert(tables.invitations.contains_key(command.invitation_id));
    assert(writes =~= seq![writes[0], writes[1], writes[2], writes[3], writes[4]]);
    lemma_apply_five(tables, writes[0], writes[1], writes[2], writes[3], writes[4]);
}

/// A membership that is refused for good ends its invitation, and frees the key of the acceptance
/// that waited for it.
pub proof fn refused_memberships_free_their_key(
    tables: Tables,
    step: Step,
    key: (Seq<char>, Seq<char>),
)
    requires
        tables.is_consistent(),
        step is Settle,
        step->settlement is Fail,
        step->command.kind == ADD_MEMBER@,
        tables.enables(step),
        tables.invitations[step->command.invitation_id].state == InvitationState::Pending,
        tables.mutations.contains_key(key),
        is_open_acceptance(tables.mutations[key], step->command.command_id),
    ensures
        tables.next(step).invitations[step->command.invitation_id].state
            == InvitationState::Expired,
        !tables.next(step).mutations.contains_key(key),
{
    kinds_differ();
    steps_change_one_invitation(tables, step);
    if let Step::Settle { command, settlement, ids, now } = step {
        let writes = tables.writes_of(step);
        let record = tables.invitations[command.invitation_id];
        assert(tables.commands.contains_key(command.command_id));
        assert(tables.invitations.contains_key(command.invitation_id));
        assert(awaits(record, command));
        let code = failure_text(settlement->Fail_code);
        let rest = failure_consequences(Some(record), command, code, ids, now);
        let middle = expiration_writes(record, ids.command_id, now);
        assert(rest =~= middle.push(rest[3]).push(rest[4]));
        let most = (seq![writes[0]] + middle).push(rest[3]);
        assert(writes =~= most.push(rest[4]));
        lemma_apply_all_push(tables, most, rest[4]);
        lemma_apply_all_push(tables, seq![writes[0]] + middle, rest[3]);
        lemma_apply_all_concat(tables, seq![writes[0]], middle);
        lemma_apply_one(tables, writes[0]);
        let first = tables.apply(writes[0]);
        lemma_apply_three(first, middle[0], middle[1], middle[2]);
        assert(middle =~= seq![middle[0], middle[1], middle[2]]);
        assert(tables.apply_all(most).mutations == tables.mutations);
    }
}

/// Why an invitation may come from one state into another: the row of the state table that the
/// step is, with its guard.
pub open spec fn is_transition(
    tables: Tables,
    step: Step,
    id: u128,
    state: InvitationState,
) -> bool {
    let record = tables.invitations[id];
    &&& record.state == InvitationState::Pending
    &&& match step {
        Step::Revoke { invitation_id, expected_revision, .. } => {
            &&& invitation_id == id
            &&& state == InvitationState::Revoked
            &&& expected_revision == record.revision
            &&& record.acceptance_subject is None
        },
        Step::AcceptLate { invitation_id, expected_revision, now, .. } => {
            &&& invitation_id == id
            &&& state == InvitationState::Expired
            &&& expected_revision == record.revision
            &&& record.acceptance_subject is None
            &&& record.token_expires_at <= now
        },
        Step::Expire { invitation_id, now, .. } => {
            &&& invitation_id == id
            &&& state == InvitationState::Expired
            &&& record.acceptance_subject is None
            &&& record.token_expires_at <= now
        },
        Step::Settle { command, settlement, .. } => {
            &&& command.invitation_id == id
            &&& command.kind == ADD_MEMBER@
            &&& record.acceptance_subject is Some
            &&& command.acceptance_subject == record.acceptance_subject
            &&& is_fenced(tables.commands.get(command.command_id), command.lease_token)
            &&& match settlement {
                Settlement::CompleteAccept { .. } => state == InvitationState::Accepted,
                Settlement::Fail { .. } => state == InvitationState::Expired,
                _ => false,
            }
        },
        _ => false,
    }
}

/// An invitation changes its state only as the state table allows: a pending one is revoked at the
/// revision that the caller saw, expires at its deadline, or ends with the membership that someone
/// has started to accept, under the lease of the membership command.
pub proof fn states_follow_their_table(tables: Tables, step: Step, id: u128)
    requires
        tables.is_consistent(),
        tables.enables(step),
        tables.invitations.contains_key(id),
        tables.next(step).invitations[id].state != tables.invitations[id].state,
    ensures
        is_transition(tables, step, id, tables.next(step).invitations[id].state),
{
    kinds_differ();
    steps_change_one_invitation(tables, step);
    if let Step::Settle { command, .. } = step {
        let row = tables.commands[command.command_id];
        assert(tables.commands.contains_key(command.command_id));
        assert(is_sound_command(row));
        assert(tables.invitations.contains_key(row.invitation_id));
    }
}

/// A token is rotated only by a resend at the revision that the caller saw, and consumed only by an
/// acceptance at the revision that the caller saw, before its deadline, with the generation and the
/// verifier that stand. Neither happens while someone else is accepting.
pub proof fn tokens_follow_their_table(tables: Tables, step: Step, id: u128)
    requires
        tables.is_consistent(),
        tables.enables(step),
        tables.invitations.contains_key(id),
    ensures
        tables.next(step).invitations[id].token_generation != tables.invitations[id].token_generation
            ==> {
            &&& step matches Step::Resend { invitation_id, expected_revision, .. }
                && invitation_id == id && expected_revision == tables.invitations[id].revision
            &&& tables.invitations[id].state == InvitationState::Pending
            &&& tables.invitations[id].acceptance_subject is None
            &&& tables.next(step).invitations[id].token_generation
                == tables.invitations[id].token_generation + 1
        },
        tables.next(step).invitations[id].acceptance_subject
            != tables.invitations[id].acceptance_subject ==> {
            &&& step matches Step::AcceptStart {
                invitation_id,
                call,
                expected_revision,
                observed_generation,
                token_hash,
                now,
                ..
            } && invitation_id == id && expected_revision == tables.invitations[id].revision
                && tables.invitations[id].token_expires_at > now && token_stands(
                tables.invitations[id],
                observed_generation,
                token_hash,
            ) && tables.next(step).invitations[id].acceptance_subject == Some(call.context.actor)
            &&& tables.invitations[id].state == InvitationState::Pending
            &&& tables.invitations[id].acceptance_subject is None
        },
{
    steps_change_one_invitation(tables, step);
}

/// A token of an earlier generation is refused for good, whatever is done later.
pub proof fn earlier_tokens_never_stand_again(
    start: Tables,
    steps: Seq<Step>,
    id: u128,
    generation: i64,
    observed: Seq<char>,
)
    requires
        start.is_consistent(),
        is_history(start, steps),
        start.invitations.contains_key(id),
        generation < start.invitations[id].token_generation,
    ensures
        after(start, steps).invitations.contains_key(id),
        generation < after(start, steps).invitations[id].token_generation,
        !token_stands(after(start, steps).invitations[id], generation, observed),
    decreases steps.len(),
{
    if steps.len() > 0 {
        let before = steps.drop_last();
        earlier_tokens_never_stand_again(start, before, id, generation, observed);
        histories_stay_consistent(start, before);
        revisions_count_changes(after(start, before), steps.last(), id);
    }
}

/// A write that leaves a command what it is, and alone once it has ended.
pub open spec fn respects_command(write: WriteModel, row: CommandRow<Seq<char>>) -> bool {
    match write {
        Write::InsertCommand { row: new } => new.command_id != row.command_id,
        Write::UpdateCommand { row: new } => new.command_id == row.command_id ==> is_same_command(
            row,
            new,
        ) && is_live(row),
        _ => true,
    }
}

proof fn lemma_commands_are_respected(tables: Tables, writes: Seq<WriteModel>, id: u128)
    requires
        tables.commands.contains_key(id),
        tables.commands[id].command_id == id,
        forall|i: int|
            0 <= i < writes.len() ==> respects_command(#[trigger] writes[i], tables.commands[id]),
    ensures
        tables.apply_all(writes).commands.contains_key(id),
        is_same_command(tables.commands[id], tables.apply_all(writes).commands[id]),
        !is_live(tables.commands[id]) ==> tables.apply_all(writes).commands[id]
            == tables.commands[id],
    decreases writes.len(),
{
    if writes.len() > 0 {
        assert forall|i: int| 0 <= i < writes.drop_last().len() implies respects_command(
            #[trigger] writes.drop_last()[i],
            tables.commands[id],
        ) by {
            assert(writes.drop_last()[i] == writes[i]);
        }
        lemma_commands_are_respected(tables, writes.drop_last(), id);
        assert(respects_command(writes[writes.len() - 1], tables.commands[id]));
        let middle = tables.apply_all(writes.drop_last());
        if let Write::SupersedeNotifications { invitation_id, at } = writes.last() {
            let row = middle.commands[id];
            assert(middle.apply(writes.last()).commands[id] == if is_live_delivery(
                row,
                invitation_id,
            ) {
                superseded(row, at)
            } else {
                row
            });
        }
    }
}

proof fn lemma_settlements_respect_commands(tables: Tables, step: Step, id: u128)
    requires
        tables.is_consistent(),
        step is Settle,
        tables.enables(step),
        tables.commands.contains_key(id),
    ensures
        forall|i: int|
            0 <= i < tables.writes_of(step).len() ==> respects_command(
                #[trigger] tables.writes_of(step)[i],
                tables.commands[id],
            ),
{
    let writes = tables.writes_of(step);
    if let Step::Settle { command, settlement, ids, now } = step {
        let record = tables.invitations[command.invitation_id];
        assert(tables.commands.contains_key(command.command_id));
        assert forall|i: int| 0 <= i < writes.len() implies respects_command(
            #[trigger] writes[i],
            tables.commands[id],
        ) by {
            if let Settlement::Fail { code } = settlement {
                let rest = failure_consequences(
                    Some(record),
                    command,
                    failure_text(code),
                    ids,
                    now,
                );
                assert(writes =~= seq![writes[0]] + rest);
            }
        }
    }
}

/// A command is never lost and stays what it is: for the same invitation, with the same key for
/// its provider. Once it is completed, failed or superseded it never changes again.
pub proof fn commands_stay_what_they_are(tables: Tables, step: Step, id: u128)
    requires
        tables.is_consistent(),
        tables.enables(step),
        tables.commands.contains_key(id),
    ensures
        tables.next(step).commands.contains_key(id),
        is_same_command(tables.commands[id], tables.next(step).commands[id]),
        !is_live(tables.commands[id]) ==> tables.next(step).commands[id] == tables.commands[id],
{
    let row = tables.commands[id];
    assert(is_sound_command(row));
    let writes = tables.writes_of(step);
    if let Step::Settle { .. } = step {
        lemma_settlements_respect_commands(tables, step, id);
    } else {
        assert forall|i: int| 0 <= i < writes.len() implies respects_command(
            #[trigger] writes[i],
            row,
        ) by {
            match step {
                Step::AcceptLate { invitation_id, ids, now, .. } => {
                    let middle = expiration_writes(
                        tables.invitations[invitation_id],
                        ids.command_id,
                        now,
                    );
                    assert(writes =~= seq![writes[0]] + middle + seq![writes.last()]);
                },
                Step::AcceptStart { invitation_id, .. } => {
                    assert(tables.invitations.contains_key(invitation_id));
                    lemma_membership_key_is_free(tables, invitation_id);
                },
                _ => {},
            }
        }
    }
    lemma_commands_are_respected(tables.prepared(step), writes, id);
}

/// What can happen to a command of the given kind: it is started, or the provider of its kind
/// answers.
pub open spec fn can_happen(event: CommandEvent<Seq<char>>, kind: Seq<char>) -> bool {
    match event {
        CommandEvent::Start => true,
        CommandEvent::Member { .. } => kind == ADD_MEMBER@,
        CommandEvent::Organization { .. } => kind == NOTIFY_INVITATION@,
        CommandEvent::Delivery { .. } => kind == NOTIFY_INVITATION@,
        CommandEvent::Observation { .. } => kind == NOTIFY_LIFECYCLE@,
    }
}

/// The answer to a question of a command.
pub open spec fn answers(event: CommandEvent<Seq<char>>, action: CommandAction<Seq<char>>) -> bool {
    match action {
        CommandAction::Settle { .. } => false,
        CommandAction::AddMember { .. } => event is Member,
        CommandAction::GetOrganization { .. } => event is Organization,
        CommandAction::CreateInvitation { .. } => event is Delivery,
        CommandAction::ObserveLifecycle { .. } => event is Observation,
    }
}

/// A stored command asks the provider of its kind only, so that only answers of its kind come back,
/// and what its execution settles it with fits it.
pub proof fn executed_commands_are_settled_by_their_kind(
    tables: Tables,
    command: CommandRecord<Seq<char>>,
    event: CommandEvent<Seq<char>>,
    settings: DeliverySettings,
    policy: RetryPolicy,
    answer: CommandEvent<Seq<char>>,
)
    requires
        tables.is_consistent(),
        tables.commands.contains_key(command.command_id),
        describes(command, tables.commands[command.command_id]),
        can_happen(event, command.kind),
    ensures
        ({
            let invitation = tables.invitations.get(command.invitation_id);
            match next_action(command, invitation, event, settings, policy) {
                Ok(CommandAction::Settle { settlement }) => fits(
                    settlement,
                    command.kind,
                    invitation->0,
                ),
                Ok(action) => answers(answer, action) ==> can_happen(answer, command.kind),
                Err(_) => true,
            }
        }),
{
    kinds_differ();
    let row = tables.commands[command.command_id];
    assert(is_sound_command(row));
    assert(tables.invitations.contains_key(row.invitation_id));
}

} // verus!
