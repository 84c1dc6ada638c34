//! Batches of the worker that expire overdue invitations.

use crate::commands::{
    kinds_are_told_apart_by_their_keys, kinds_differ, lifecycle_command, lifecycle_key,
    lifecycle_keys_differ, NOTIFY_INVITATION,
};
use crate::invariants::{
    is_delivery, is_joining, is_report, is_sound_command, steps_keep_the_store_consistent,
};
use crate::laws::{after, is_history, steps_change_one_invitation};
use crate::lifecycle::{
    can_expire, expiration_writes, expired, expiry_step, expiry_writes, Identifiers,
};
use crate::records::{
    state_text, states_are_told_apart_by_their_text, CommandRow, InvitationRecord,
    InvitationState,
};
use crate::tables::{
    batches_expire_one_by_one, is_live_delivery, key_is_taken, lemma_apply_all_push,
    lemma_apply_three, Step, Tables,
};
use crate::writes::{Activity, ActivityKind, Evidence};
use vstd::prelude::*;

verus! {

/// An invitation whose token has passed its deadline with nobody having started to accept it.
pub open spec fn is_overdue(record: InvitationRecord<Seq<char>>, now: i64) -> bool {
    &&& record.state == InvitationState::Pending
    &&& record.acceptance_subject is None
    &&& record.token_expires_at <= now
}

/// The order in which overdue invitations are taken: the earliest deadline first, and among those
/// of one instant the lowest identifier.
pub open spec fn expires_before(
    left: InvitationRecord<Seq<char>>,
    right: InvitationRecord<Seq<char>>,
) -> bool {
    left.token_expires_at < right.token_expires_at || left.token_expires_at
        == right.token_expires_at && left.invitation_id < right.invitation_id
}

/// An overdue invitation of an organization.
pub open spec fn is_overdue_in(
    tables: Tables,
    organization_id: Seq<char>,
    now: i64,
    id: u128,
) -> bool {
    &&& tables.invitations.contains_key(id)
    &&& tables.invitations[id].organization_id == organization_id
    &&& is_overdue(tables.invitations[id], now)
}

/// Whether an invitation of an organization is overdue.
pub open spec fn has_overdue(tables: Tables, organization_id: Seq<char>, now: i64) -> bool {
    exists|id: u128| #[trigger] is_overdue_in(tables, organization_id, now, id)
}

/// A batch: overdue invitations of an organization as they are stored, each once and in order, with
/// identifiers that are not in use. What other transactions have locked is skipped. Only what comes
/// behind a full batch is left out.
pub open spec fn is_expiry_batch(
    tables: Tables,
    organization_id: Seq<char>,
    limit: nat,
    now: i64,
    skipped: Set<u128>,
    rows: Seq<(InvitationRecord<Seq<char>>, Identifiers)>,
) -> bool {
    &&& are_overdue(tables, now, rows)
    &&& forall|i: int|
        0 <= i < rows.len() ==> (#[trigger] rows[i]).0.organization_id == organization_id
            && !skipped.contains(rows[i].0.invitation_id)
    &&& forall|i: int, j: int|
        0 <= i < j < rows.len() ==> expires_before((#[trigger] rows[i]).0, (#[trigger] rows[j]).0)
    &&& rows.len() <= limit
    &&& forall|id: u128| #[trigger]
        is_overdue_in(tables, organization_id, now, id) && !skipped.contains(id) && !holds(rows, id)
            ==> {
            &&& rows.len() == limit
            &&& forall|i: int|
                0 <= i < rows.len() ==> expires_before(
                    (#[trigger] rows[i]).0,
                    tables.invitations[id],
                )
        }
}

/// The rows hold the invitation with the given identifier.
pub open spec fn holds(rows: Seq<(InvitationRecord<Seq<char>>, Identifiers)>, id: u128) -> bool {
    exists|i: int| 0 <= i < rows.len() && (#[trigger] rows[i]).0.invitation_id == id
}

/// Overdue invitations as they are stored, each once, with identifiers that are not in use.
pub open spec fn are_overdue(
    tables: Tables,
    now: i64,
    rows: Seq<(InvitationRecord<Seq<char>>, Identifiers)>,
) -> bool {
    &&& forall|i: int|
        0 <= i < rows.len() ==> {
            let record = (#[trigger] rows[i]).0;
            &&& tables.invitations.contains_key(record.invitation_id)
            &&& tables.invitations[record.invitation_id] == record
            &&& is_overdue(record, now)
            &&& can_expire(record)
            &&& !tables.commands.contains_key(rows[i].1.command_id)
        }
    &&& forall|i: int, j: int|
        0 <= i < j < rows.len() ==> (#[trigger] rows[i]).0.invitation_id != (
        #[trigger] rows[j]).0.invitation_id && rows[i].1.command_id != rows[j].1.command_id
}

/// The activity entry of an expired invitation.
pub open spec fn expiry_entry(
    row: (InvitationRecord<Seq<char>>, Identifiers),
    actor: Seq<char>,
) -> Activity<Seq<char>> {
    Activity {
        activity_id: row.1.activity_id,
        organization_id: row.0.organization_id,
        invitation_id: row.0.invitation_id,
        kind: ActivityKind::Expired,
        actor_subject: actor,
        invitation_revision: (row.0.revision + 1) as i64,
        evidence: Evidence::TokenDeadline,
    }
}

pub open spec fn expiry_entries(
    rows: Seq<(InvitationRecord<Seq<char>>, Identifiers)>,
    actor: Seq<char>,
) -> Seq<Activity<Seq<char>>> {
    rows.map_values(|row: (InvitationRecord<Seq<char>>, Identifiers)| expiry_entry(row, actor))
}

/// The report of an expired invitation.
pub open spec fn expiry_report(
    row: (InvitationRecord<Seq<char>>, Identifiers),
    now: i64,
) -> CommandRow<Seq<char>> {
    lifecycle_command(
        row.1.command_id,
        row.0.organization_id,
        row.0.invitation_id,
        InvitationState::Expired,
        now,
    )
}

/// The steps of a batch.
pub open spec fn expiry_steps(
    rows: Seq<(InvitationRecord<Seq<char>>, Identifiers)>,
    actor: Seq<char>,
    now: i64,
) -> Seq<Step> {
    rows.map_values(
        |row: (InvitationRecord<Seq<char>>, Identifiers)|
            Step::Expire { invitation_id: row.0.invitation_id, actor, ids: row.1, now },
    )
}

/// While an invitation is pending, the keys of its reports are free.
pub proof fn lemma_report_keys_are_free(tables: Tables, id: u128, state: InvitationState)
    requires
        tables.is_consistent(),
        tables.invitations.contains_key(id),
        tables.invitations[id].state == InvitationState::Pending,
    ensures
        !key_is_taken(tables.commands, lifecycle_key(id, state)),
{
    kinds_differ();
    if key_is_taken(tables.commands, lifecycle_key(id, state)) {
        let command = choose|command: u128| #[trigger]
            tables.commands.contains_key(command) && tables.commands[command].command_key
                == lifecycle_key(id, state);
        let row = tables.commands[command];
        assert(is_sound_command(row));
        if is_delivery(row) {
            kinds_are_told_apart_by_their_keys(
                row.invitation_id,
                row.token_generation->0,
                id,
                state,
                id,
            );
        } else if is_joining(row) {
            kinds_are_told_apart_by_their_keys(id, 1, id, state, row.invitation_id);
        } else {
            assert(is_report(row));
            let ended = choose|ended: InvitationState|
                {
                    &&& ended != InvitationState::Pending
                    &&& row.lifecycle == Some(#[trigger] state_text(ended))
                    &&& row.command_key == lifecycle_key(row.invitation_id, ended)
                };
            lifecycle_keys_differ(row.invitation_id, ended, id, state);
            states_are_told_apart_by_their_text(ended, InvitationState::Pending);
        }
    }
}

/// What expiring one overdue invitation does to the store.
#[verifier::rlimit(30)]
proof fn lemma_expire_one(
    tables: Tables,
    row: (InvitationRecord<Seq<char>>, Identifiers),
    actor: Seq<char>,
    now: i64,
)
    requires
        tables.is_consistent(),
        tables.invitations.contains_key(row.0.invitation_id),
        tables.invitations[row.0.invitation_id] == row.0,
        is_overdue(row.0, now),
        can_expire(row.0),
        !tables.commands.contains_key(row.1.command_id),
    ensures
        ({
            let step = Step::Expire {
                invitation_id: row.0.invitation_id,
                actor,
                ids: row.1,
                now,
            };
            let next = tables.apply_all(expiry_step(row, actor, now));
            &&& tables.enables(step)
            &&& next == tables.next(step)
            &&& next.is_consistent()
            &&& next.invitations == tables.invitations.insert(
                row.0.invitation_id,
                expired(row.0, now),
            )
            &&& next.activity == tables.activity.push(expiry_entry(row, actor))
            &&& next.commands.dom() == tables.commands.dom().insert(row.1.command_id)
            &&& next.commands[row.1.command_id] == expiry_report(row, now)
            &&& forall|id: u128| #[trigger]
                tables.commands.contains_key(id) && tables.commands[id].kind != NOTIFY_INVITATION@
                    ==> next.commands[id] == tables.commands[id]
            &&& next.mutations == tables.mutations
        }),
{
    let step = Step::Expire { invitation_id: row.0.invitation_id, actor, ids: row.1, now };
    steps_keep_the_store_consistent(tables, step);
    steps_change_one_invitation(tables, step);
    let middle = expiration_writes(row.0, row.1.command_id, now);
    let entry = expiry_step(row, actor, now).last();
    assert(expiry_step(row, actor, now) =~= middle.push(entry));
    lemma_apply_all_push(tables, middle, entry);
    lemma_apply_three(tables, middle[0], middle[1], middle[2]);
    assert(middle =~= seq![middle[0], middle[1], middle[2]]);
    let first = tables.apply(middle[0]);
    lemma_report_keys_are_free(tables, row.0.invitation_id, InvitationState::Expired);
    let report = expiry_report(row, now);
    assert(!key_is_taken(first.commands, report.command_key)) by {
        if key_is_taken(first.commands, report.command_key) {
            let id = choose|id: u128| #[trigger]
                first.commands.contains_key(id) && first.commands[id].command_key
                    == report.command_key;
            assert(tables.commands.contains_key(id));
            assert(first.commands[id].command_key == tables.commands[id].command_key);
        }
    }
    let next = tables.apply_all(expiry_step(row, actor, now));
    assert(next.commands == first.commands.insert(row.1.command_id, report));
    assert(first.commands.dom() =~= tables.commands.dom());
    assert(next.commands.dom() =~= tables.commands.dom().insert(row.1.command_id));
    assert forall|id: u128| #[trigger]
        tables.commands.contains_key(id) && tables.commands[id].kind
            != NOTIFY_INVITATION@ implies next.commands[id] == tables.commands[id] by {
        assert(id != row.1.command_id);
        assert(!is_live_delivery(tables.commands[id], row.0.invitation_id));
        assert(first.commands[id] == tables.commands[id]);
    }
}

/// What a batch does: exactly its invitations are expired, each with one entry in the activity log,
/// in the order of the batch, and with one report. Nothing else is changed but deliveries, which it
/// may end. It is a history of expiries.
#[verifier::rlimit(30)]
pub proof fn batches_expire_their_invitations(
    tables: Tables,
    rows: Seq<(InvitationRecord<Seq<char>>, Identifiers)>,
    actor: Seq<char>,
    now: i64,
)
    requires
        tables.is_consistent(),
        are_overdue(tables, now, rows),
    ensures
        ({
            let next = tables.apply_all(expiry_writes(rows, actor, now));
            &&& is_history(tables, expiry_steps(rows, actor, now))
            &&& after(tables, expiry_steps(rows, actor, now)) == next
            &&& next.is_consistent()
            &&& next.invitations.dom() == tables.invitations.dom()
            &&& forall|i: int|
                0 <= i < rows.len() ==> next.invitations[(
                #[trigger] rows[i]).0.invitation_id] == expired(rows[i].0, now)
            &&& forall|id: u128| #[trigger]
                tables.invitations.contains_key(id) && !holds(rows, id) ==> next.invitations[id]
                    == tables.invitations[id]
            &&& next.activity == tables.activity + expiry_entries(rows, actor)
            &&& forall|i: int|
                0 <= i < rows.len() ==> next.commands.contains_key(
                    (#[trigger] rows[i]).1.command_id,
                ) && next.commands[rows[i].1.command_id] == expiry_report(rows[i], now)
            &&& forall|id: u128| #[trigger]
                next.commands.contains_key(id) ==> tables.commands.contains_key(id) || exists|
                    i: int,
                |
                    0 <= i < rows.len() && (#[trigger] rows[i]).1.command_id == id
            &&& forall|id: u128| #[trigger]
                tables.commands.contains_key(id) ==> next.commands.contains_key(id) && (
                tables.commands[id].kind != NOTIFY_INVITATION@ ==> next.commands[id]
                    == tables.commands[id])
            &&& next.mutations == tables.mutations
        }),
    decreases rows.len(),
{
    let next = tables.apply_all(expiry_writes(rows, actor, now));
    if rows.len() == 0 {
        assert(expiry_steps(rows, actor, now) =~= Seq::empty());
        assert(expiry_entries(rows, actor) =~= Seq::empty());
        assert(next == tables);
    } else {
        kinds_differ();
        let fewer = rows.drop_last();
        let last = rows.last();
        assert(last == rows[rows.len() - 1]);
        assert forall|i: int| 0 <= i < fewer.len() implies fewer[i] == rows[i] by {}
        assert(are_overdue(tables, now, fewer));
        batches_expire_their_invitations(tables, fewer, actor, now);
        batches_expire_one_by_one(tables, rows, actor, now);
        let middle = tables.apply_all(expiry_writes(fewer, actor, now));
        let id = last.0.invitation_id;
        assert(!holds(fewer, id)) by {
            if holds(fewer, id) {
                let i = choose|i: int|
                    0 <= i < fewer.len() && (#[trigger] fewer[i]).0.invitation_id == id;
                assert(rows[i].0.invitation_id == rows[rows.len() - 1].0.invitation_id);
            }
        }
        assert(tables.invitations.contains_key(id));
        assert(middle.invitations.contains_key(id));
        assert(!middle.commands.contains_key(last.1.command_id)) by {
            if middle.commands.contains_key(last.1.command_id) {
                let i = choose|i: int|
                    0 <= i < fewer.len() && (#[trigger] fewer[i]).1.command_id
                        == last.1.command_id;
                assert(rows[i].1.command_id == rows[rows.len() - 1].1.command_id);
            }
        }
        lemma_expire_one(middle, last, actor, now);
        assert(expiry_steps(rows, actor, now).drop_last() =~= expiry_steps(fewer, actor, now));
        assert(expiry_entries(rows, actor) =~= expiry_entries(fewer, actor).push(
            expiry_entry(last, actor),
        ));
        assert(next.activity =~= tables.activity + expiry_entries(rows, actor));
        assert(next.invitations.dom() =~= tables.invitations.dom());
        assert forall|i: int| 0 <= i < rows.len() implies next.invitations[(
        #[trigger] rows[i]).0.invitation_id] == expired(rows[i].0, now) by {
            if i < fewer.len() {
                assert(fewer[i] == rows[i]);
            }
        }
        assert forall|other: u128| #[trigger]
            tables.invitations.contains_key(other) && !holds(
                rows,
                other,
            ) implies next.invitations[other] == tables.invitations[other] by {
            if holds(fewer, other) {
                let i = choose|i: int|
                    0 <= i < fewer.len() && (#[trigger] fewer[i]).0.invitation_id == other;
                assert(rows[i].0.invitation_id == other);
            }
            assert(rows[rows.len() - 1].0.invitation_id != other);
        }
        assert forall|i: int| 0 <= i < rows.len() implies next.commands.contains_key(
            (#[trigger] rows[i]).1.command_id,
        ) && next.commands[rows[i].1.command_id] == expiry_report(rows[i], now) by {
            if i < fewer.len() {
                assert(fewer[i] == rows[i]);
                assert(middle.commands.contains_key(fewer[i].1.command_id));
            }
        }
        assert forall|other: u128| #[trigger]
            next.commands.contains_key(other) implies tables.commands.contains_key(other)
            || exists|i: int| 0 <= i < rows.len() && (#[trigger] rows[i]).1.command_id
            == other by {
            if other == last.1.command_id {
                assert(rows[rows.len() - 1].1.command_id == other);
            } else if !tables.commands.contains_key(other) {
                assert(middle.commands.contains_key(other));
                let i = choose|i: int|
                    0 <= i < fewer.len() && (#[trigger] fewer[i]).1.command_id == other;
                assert(rows[i].1.command_id == other);
            }
        }
        assert forall|other: u128| #[trigger]
            tables.commands.contains_key(other) implies next.commands.contains_key(other) && (
        tables.commands[other].kind != NOTIFY_INVITATION@ ==> next.commands[other]
            == tables.commands[other]) by {
            assert(middle.commands.contains_key(other));
        }
    }
}

/// Two batches, one behind the other, share no invitation. All that they hold is expired afterwards,
/// with one entry in the activity log and one report each.
#[verifier::rlimit(30)]
pub proof fn successive_batches_share_nothing(
    tables: Tables,
    first: Seq<(InvitationRecord<Seq<char>>, Identifiers)>,
    first_actor: Seq<char>,
    first_now: i64,
    second: Seq<(InvitationRecord<Seq<char>>, Identifiers)>,
    second_actor: Seq<char>,
    second_now: i64,
)
    requires
        tables.is_consistent(),
        are_overdue(tables, first_now, first),
        are_overdue(
            tables.apply_all(expiry_writes(first, first_actor, first_now)),
            second_now,
            second,
        ),
    ensures
        ({
            let middle = tables.apply_all(expiry_writes(first, first_actor, first_now));
            let next = middle.apply_all(expiry_writes(second, second_actor, second_now));
            &&& next.is_consistent()
            &&& forall|i: int, j: int|
                0 <= i < first.len() && 0 <= j < second.len() ==> (
                #[trigger] first[i]).0.invitation_id != (#[trigger] second[j]).0.invitation_id
            &&& forall|i: int|
                0 <= i < first.len() ==> next.invitations[(
                #[trigger] first[i]).0.invitation_id] == expired(first[i].0, first_now)
            &&& forall|j: int|
                0 <= j < second.len() ==> next.invitations[(
                #[trigger] second[j]).0.invitation_id] == expired(second[j].0, second_now)
            &&& next.activity == tables.activity + expiry_entries(first, first_actor)
                + expiry_entries(second, second_actor)
            &&& forall|i: int|
                0 <= i < first.len() ==> next.commands.contains_key(
                    (#[trigger] first[i]).1.command_id,
                ) && next.commands[first[i].1.command_id] == expiry_report(first[i], first_now)
            &&& forall|j: int|
                0 <= j < second.len() ==> next.commands.contains_key(
                    (#[trigger] second[j]).1.command_id,
                ) && next.commands[second[j].1.command_id] == expiry_report(second[j], second_now)
        }),
{
    kinds_differ();
    batches_expire_their_invitations(tables, first, first_actor, first_now);
    let middle = tables.apply_all(expiry_writes(first, first_actor, first_now));
    batches_expire_their_invitations(middle, second, second_actor, second_now);
    let next = middle.apply_all(expiry_writes(second, second_actor, second_now));
    assert forall|i: int, j: int| 0 <= i < first.len() && 0 <= j < second.len() implies (
    #[trigger] first[i]).0.invitation_id != (#[trigger] second[j]).0.invitation_id by {
        assert(middle.invitations[first[i].0.invitation_id].state == InvitationState::Expired);
        assert(middle.invitations[second[j].0.invitation_id] == second[j].0);
    }
    assert forall|i: int| 0 <= i < first.len() implies next.invitations[(
    #[trigger] first[i]).0.invitation_id] == expired(first[i].0, first_now) by {
        let id = first[i].0.invitation_id;
        assert(tables.invitations.contains_key(id));
        assert(middle.invitations.contains_key(id));
        assert(!holds(second, id)) by {
            if holds(second, id) {
                let j = choose|j: int|
                    0 <= j < second.len() && (#[trigger] second[j]).0.invitation_id == id;
                assert(first[i].0.invitation_id != second[j].0.invitation_id);
            }
        }
    }
}

/// The identifiers of the invitations of a batch.
pub open spec fn batch_ids(rows: Seq<(InvitationRecord<Seq<char>>, Identifiers)>) -> Seq<u128> {
    rows.map_values(|row: (InvitationRecord<Seq<char>>, Identifiers)| row.0.invitation_id)
}

/// The identifiers of the overdue invitations of an organization, each once.
pub open spec fn lists_overdue(
    tables: Tables,
    organization_id: Seq<char>,
    now: i64,
    due: Seq<u128>,
) -> bool {
    &&& due.no_duplicates()
    &&& forall|id: u128| #[trigger]
        due.contains(id) <==> is_overdue_in(tables, organization_id, now, id)
}

proof fn lemma_batch_ids(rows: Seq<(InvitationRecord<Seq<char>>, Identifiers)>)
    requires
        forall|i: int, j: int|
            0 <= i < j < rows.len() ==> (#[trigger] rows[i]).0.invitation_id != (
            #[trigger] rows[j]).0.invitation_id,
    ensures
        batch_ids(rows).no_duplicates(),
        forall|id: u128| #[trigger] batch_ids(rows).contains(id) <==> holds(rows, id),
{
    let ids = batch_ids(rows);
    assert forall|i: int, j: int| 0 <= i < j < ids.len() implies ids[i] != ids[j] by {
        assert(rows[i].0.invitation_id != rows[j].0.invitation_id);
    }
    assert forall|id: u128| #[trigger] ids.contains(id) <==> holds(rows, id) by {
        if ids.contains(id) {
            let i = choose|i: int| 0 <= i < ids.len() && ids[i] == id;
            assert(rows[i].0.invitation_id == id);
        }
        if holds(rows, id) {
            let i = choose|i: int| 0 <= i < rows.len() && (#[trigger] rows[i]).0.invitation_id == id;
            assert(ids[i] == id);
        }
    }
}

/// Two rows of numbers that share none, and that are full or leave none out, are all there are.
proof fn lemma_count(
    due: Seq<u128>,
    left: Seq<u128>,
    left_limit: nat,
    right: Seq<u128>,
    right_limit: nat,
)
    requires
        due.no_duplicates(),
        left.no_duplicates(),
        right.no_duplicates(),
        forall|id: u128| #[trigger] left.contains(id) ==> due.contains(id) && !right.contains(id),
        forall|id: u128| #[trigger] right.contains(id) ==> due.contains(id),
        due.len() <= left_limit + right_limit,
        left.len() == left_limit && right.len() == right_limit || forall|id: u128| #[trigger]
            due.contains(id) ==> left.contains(id) || right.contains(id),
    ensures
        left.len() + right.len() == due.len(),
        (left + right).to_set() == due.to_set(),
        forall|id: u128| #[trigger] due.contains(id) ==> left.contains(id) || right.contains(id),
{
    let both = left + right;
    assert forall|i: int, j: int| 0 <= i < left.len() && 0 <= j < right.len() implies left[i]
        != right[j] by {
        assert(left.contains(left[i]));
        assert(right.contains(right[j]));
    }
    vstd::seq_lib::lemma_no_dup_in_concat(left, right);
    both.unique_seq_to_set();
    due.unique_seq_to_set();
    vstd::seq_lib::seq_to_set_is_finite(both);
    vstd::seq_lib::seq_to_set_is_finite(due);
    assert forall|id: u128| #[trigger] both.contains(id) <==> left.contains(id) || right.contains(
        id,
    ) by {
        if both.contains(id) {
            let i = choose|i: int| 0 <= i < both.len() && both[i] == id;
            if i < left.len() {
                assert(left[i] == id);
            } else {
                assert(right[i - left.len()] == id);
            }
        }
        if left.contains(id) {
            let i = choose|i: int| 0 <= i < left.len() && left[i] == id;
            assert(both[i] == id);
        }
        if right.contains(id) {
            let i = choose|i: int| 0 <= i < right.len() && right[i] == id;
            assert(both[left.len() + i] == id);
        }
    }
    assert(both.to_set().subset_of(due.to_set())) by {
        assert forall|id: u128| #[trigger] both.to_set().contains(id) implies due.to_set().contains(
            id,
        ) by {
            assert(both.contains(id));
        }
    }
    vstd::set_lib::lemma_len_subset(both.to_set(), due.to_set());
    if left.len() == left_limit && right.len() == right_limit {
        vstd::set_lib::lemma_subset_equality(both.to_set(), due.to_set());
    } else {
        assert forall|id: u128| #[trigger] due.to_set().contains(id) implies both.to_set().contains(
            id,
        ) by {
            assert(due.contains(id));
            assert(both.contains(id));
        }
        assert(both.to_set() =~= due.to_set());
    }
    assert forall|id: u128| #[trigger] due.contains(id) implies left.contains(id)
        || right.contains(id) by {
        assert(due.to_set().contains(id));
        assert(both.to_set().contains(id));
        assert(both.contains(id));
    }
}

/// What is overdue after a batch is what was overdue before and is not in the batch.
proof fn lemma_rest_is_overdue(
    tables: Tables,
    organization_id: Seq<char>,
    now: i64,
    rows: Seq<(InvitationRecord<Seq<char>>, Identifiers)>,
    actor: Seq<char>,
    id: u128,
)
    requires
        tables.is_consistent(),
        are_overdue(tables, now, rows),
    ensures
        is_overdue_in(
            tables.apply_all(expiry_writes(rows, actor, now)),
            organization_id,
            now,
            id,
        ) <==> is_overdue_in(tables, organization_id, now, id) && !holds(rows, id),
        !holds(rows, id) && tables.invitations.contains_key(id) ==> tables.apply_all(
            expiry_writes(rows, actor, now),
        ).invitations[id] == tables.invitations[id],
{
    batches_expire_their_invitations(tables, rows, actor, now);
    let next = tables.apply_all(expiry_writes(rows, actor, now));
    assert(next.invitations.contains_key(id) == tables.invitations.contains_key(id));
    if holds(rows, id) {
        let i = choose|i: int| 0 <= i < rows.len() && (#[trigger] rows[i]).0.invitation_id == id;
        assert(next.invitations[rows[i].0.invitation_id].state == InvitationState::Expired);
    }
}

/// A batch holds as many invitations as the limit allows, or all that are overdue. After it an
/// invitation is overdue exactly where there were more than it holds: that is when there is more to
/// expire, and then the batch is full.
pub proof fn batches_tell_whether_more_is_overdue(
    tables: Tables,
    organization_id: Seq<char>,
    limit: nat,
    now: i64,
    due: Seq<u128>,
    rows: Seq<(InvitationRecord<Seq<char>>, Identifiers)>,
    actor: Seq<char>,
)
    requires
        tables.is_consistent(),
        lists_overdue(tables, organization_id, now, due),
        is_expiry_batch(tables, organization_id, limit, now, Set::empty(), rows),
    ensures
        rows.len() == if due.len() <= limit {
            due.len()
        } else {
            limit
        },
        has_overdue(
            tables.apply_all(expiry_writes(rows, actor, now)),
            organization_id,
            now,
        ) <==> due.len() > limit,
        has_overdue(
            tables.apply_all(expiry_writes(rows, actor, now)),
            organization_id,
            now,
        ) ==> rows.len() == limit,
{
    let next = tables.apply_all(expiry_writes(rows, actor, now));
    lemma_batch_ids(rows);
    let taken = batch_ids(rows);
    assert forall|id: u128| #[trigger] taken.contains(id) implies due.contains(id) by {
        let i = choose|i: int| 0 <= i < rows.len() && (#[trigger] rows[i]).0.invitation_id == id;
        assert(is_overdue_in(tables, organization_id, now, id));
    }
    lemma_at_most(taken, due);
    if has_overdue(next, organization_id, now) {
        let id = choose|id: u128| #[trigger] is_overdue_in(next, organization_id, now, id);
        lemma_rest_is_overdue(tables, organization_id, now, rows, actor, id);
        assert(due.contains(id));
        assert(!taken.contains(id));
        assert(rows.len() == limit);
        lemma_fewer(taken, due, id);
    } else {
        assert forall|id: u128| #[trigger] due.contains(id) implies taken.contains(id) by {
            lemma_rest_is_overdue(tables, organization_id, now, rows, actor, id);
            assert(is_overdue_in(tables, organization_id, now, id));
            assert(!is_overdue_in(next, organization_id, now, id));
        }
        lemma_at_most(due, taken);
    }
}

proof fn lemma_at_most(part: Seq<u128>, whole: Seq<u128>)
    requires
        part.no_duplicates(),
        whole.no_duplicates(),
        forall|id: u128| #[trigger] part.contains(id) ==> whole.contains(id),
    ensures
        part.len() <= whole.len(),
{
    part.unique_seq_to_set();
    whole.unique_seq_to_set();
    vstd::seq_lib::seq_to_set_is_finite(whole);
    assert forall|id: u128| #[trigger] part.to_set().contains(id) implies whole.to_set().contains(
        id,
    ) by {
        assert(part.contains(id));
    }
    vstd::set_lib::lemma_len_subset(part.to_set(), whole.to_set());
}

proof fn lemma_fewer(part: Seq<u128>, whole: Seq<u128>, id: u128)
    requires
        part.no_duplicates(),
        whole.no_duplicates(),
        forall|other: u128| #[trigger] part.contains(other) ==> whole.contains(other),
        whole.contains(id),
        !part.contains(id),
    ensures
        part.len() < whole.len(),
{
    let longer = part.push(id);
    assert forall|other: u128| #[trigger] longer.contains(other) implies whole.contains(other) by {
        let i = choose|i: int| 0 <= i < longer.len() && longer[i] == other;
        if i < part.len() {
            assert(part[i] == other);
            assert(part.contains(other));
        }
    }
    assert(longer.no_duplicates()) by {
        assert forall|i: int, j: int| 0 <= i < j < longer.len() implies longer[i] != longer[j] by {
            if j == part.len() {
                assert(part.contains(part[i]));
            }
        }
    }
    lemma_at_most(longer, whole);
}

/// Batches that run at once, of which the second skips what the first has locked, are batches one
/// behind the other.
#[verifier::rlimit(30)]
pub proof fn concurrent_batches_are_successive(
    tables: Tables,
    organization_id: Seq<char>,
    now: i64,
    skipped: Set<u128>,
    first: Seq<(InvitationRecord<Seq<char>>, Identifiers)>,
    first_limit: nat,
    first_actor: Seq<char>,
    second: Seq<(InvitationRecord<Seq<char>>, Identifiers)>,
    second_limit: nat,
)
    requires
        tables.is_consistent(),
        is_expiry_batch(tables, organization_id, first_limit, now, skipped, first),
        is_expiry_batch(
            tables,
            organization_id,
            second_limit,
            now,
            skipped.union(batch_ids(first).to_set()),
            second,
        ),
        forall|i: int, j: int|
            0 <= i < first.len() && 0 <= j < second.len() ==> (#[trigger] first[i]).1.command_id
                != (#[trigger] second[j]).1.command_id,
    ensures
        is_expiry_batch(
            tables.apply_all(expiry_writes(first, first_actor, now)),
            organization_id,
            second_limit,
            now,
            skipped,
            second,
        ),
{
    let middle = tables.apply_all(expiry_writes(first, first_actor, now));
    batches_expire_their_invitations(tables, first, first_actor, now);
    lemma_batch_ids(first);
    assert forall|j: int| 0 <= j < second.len() implies {
        let record = (#[trigger] second[j]).0;
        &&& !holds(first, record.invitation_id)
        &&& middle.invitations.contains_key(record.invitation_id)
        &&& middle.invitations[record.invitation_id] == record
        &&& !middle.commands.contains_key(second[j].1.command_id)
    } by {
        let id = second[j].0.invitation_id;
        assert(!batch_ids(first).to_set().contains(id));
        assert(!batch_ids(first).contains(id));
        assert(tables.invitations.contains_key(id));
        lemma_rest_is_overdue(tables, organization_id, now, first, first_actor, id);
        if middle.commands.contains_key(second[j].1.command_id) {
            let i = choose|i: int|
                0 <= i < first.len() && (#[trigger] first[i]).1.command_id
                    == second[j].1.command_id;
            assert(first[i].1.command_id != second[j].1.command_id);
        }
    }
    assert(are_overdue(middle, now, second));
    assert forall|id: u128| #[trigger]
        is_overdue_in(middle, organization_id, now, id) && !skipped.contains(id) && !holds(
            second,
            id,
        ) implies {
        &&& second.len() == second_limit
        &&& forall|j: int|
            0 <= j < second.len() ==> expires_before(
                (#[trigger] second[j]).0,
                middle.invitations[id],
            )
    } by {
        lemma_rest_is_overdue(tables, organization_id, now, first, first_actor, id);
        assert(is_overdue_in(tables, organization_id, now, id));
        assert(!batch_ids(first).contains(id));
        assert(!batch_ids(first).to_set().contains(id));
    }
}

/// Two batches whose limits together reach the number of overdue invitations expire all of them,
/// each once, and leave none that is overdue.
#[verifier::rlimit(30)]
pub proof fn batches_leave_nothing_overdue(
    tables: Tables,
    organization_id: Seq<char>,
    now: i64,
    due: Seq<u128>,
    first: Seq<(InvitationRecord<Seq<char>>, Identifiers)>,
    first_limit: nat,
    first_actor: Seq<char>,
    second: Seq<(InvitationRecord<Seq<char>>, Identifiers)>,
    second_limit: nat,
    second_actor: Seq<char>,
)
    requires
        tables.is_consistent(),
        lists_overdue(tables, organization_id, now, due),
        due.len() <= first_limit + second_limit,
        is_expiry_batch(tables, organization_id, first_limit, now, Set::empty(), first),
        is_expiry_batch(
            tables.apply_all(expiry_writes(first, first_actor, now)),
            organization_id,
            second_limit,
            now,
            Set::empty(),
            second,
        ),
    ensures
        first.len() + second.len() == due.len(),
        (batch_ids(first) + batch_ids(second)).to_set() == due.to_set(),
        !has_overdue(
            tables.apply_all(expiry_writes(first, first_actor, now)).apply_all(
                expiry_writes(second, second_actor, now),
            ),
            organization_id,
            now,
        ),
{
    let middle = tables.apply_all(expiry_writes(first, first_actor, now));
    let next = middle.apply_all(expiry_writes(second, second_actor, now));
    batches_expire_their_invitations(tables, first, first_actor, now);
    lemma_batch_ids(first);
    lemma_batch_ids(second);
    let left = batch_ids(first);
    let right = batch_ids(second);
    assert forall|id: u128| #[trigger] left.contains(id) implies due.contains(id)
        && !right.contains(id) by {
        let i = choose|i: int| 0 <= i < first.len() && (#[trigger] first[i]).0.invitation_id == id;
        assert(is_overdue_in(tables, organization_id, now, id));
        lemma_rest_is_overdue(tables, organization_id, now, first, first_actor, id);
        if holds(second, id) {
            let j = choose|j: int|
                0 <= j < second.len() && (#[trigger] second[j]).0.invitation_id == id;
            assert(is_overdue_in(middle, organization_id, now, id));
        }
    }
    assert forall|id: u128| #[trigger] right.contains(id) implies due.contains(id) by {
        let j = choose|j: int| 0 <= j < second.len() && (#[trigger] second[j]).0.invitation_id == id;
        assert(is_overdue_in(middle, organization_id, now, id));
        lemma_rest_is_overdue(tables, organization_id, now, first, first_actor, id);
    }
    if first.len() < first_limit || second.len() < second_limit {
        assert forall|id: u128| #[trigger] due.contains(id) implies left.contains(id)
            || right.contains(id) by {
            assert(is_overdue_in(tables, organization_id, now, id));
            if !holds(first, id) {
                lemma_rest_is_overdue(tables, organization_id, now, first, first_actor, id);
                assert(is_overdue_in(middle, organization_id, now, id));
                assert(holds(second, id));
            }
        }
    }
    lemma_count(due, left, first_limit, right, second_limit);
    if has_overdue(next, organization_id, now) {
        let id = choose|id: u128| #[trigger] is_overdue_in(next, organization_id, now, id);
        lemma_rest_is_overdue(middle, organization_id, now, second, second_actor, id);
        lemma_rest_is_overdue(tables, organization_id, now, first, first_actor, id);
        assert(due.contains(id));
    }
}

} // verus!
