//! Batches of the worker that take due commands.

use crate::commands::{can_lease, is_due, is_fenced, leased};
use crate::instants::instant_after;
use crate::invariants::{is_same_command, is_sound_command, steps_keep_the_store_consistent};
use crate::laws::{after, is_history};
use crate::records::{held, CommandRow, CommandState};
use crate::settlement::{claim_writes, claimed};
use crate::tables::{describes, is_live, lemma_apply_all_push, lemma_apply_one, Step, Tables};
use crate::writes::Write;
use vstd::prelude::*;

verus! {

/// A command that is taken stays the same command, with one more attempt, and is held under the new
/// lease only. It is due again exactly when that lease has run out.
pub proof fn taken_commands_are_due_after_their_lease(tables: Tables, step: Step, when: i64)
    requires
        tables.is_consistent(),
        step is Claim,
        tables.enables(step),
    ensures
        ({
            let id = step->Claim_command_id;
            let before = tables.commands[id];
            let taken = tables.next(step).commands[id];
            &&& tables.next(step).commands.contains_key(id)
            &&& is_same_command(before, taken)
            &&& taken.attempts == before.attempts + 1
            &&& forall|lease: u128| #[trigger]
                is_fenced(Some(taken), lease) <==> lease == step->Claim_lease_token
            &&& is_due(taken, when) <==> instant_after(
                step->Claim_now,
                step->Claim_lease_seconds,
            )->0 < when
        }),
{
    let writes = tables.writes_of(step);
    assert(writes =~= seq![writes[0]]);
    lemma_apply_one(tables, writes[0]);
    assert(tables.commands.contains_key(step->Claim_command_id));
}

/// A command whose lease has run out is taken again as the same command under the same key, with a
/// further attempt, and its earlier holder is locked out, unless both leases are the same by
/// chance.
pub proof fn lost_commands_are_taken_again(tables: Tables, first: Step, second: Step)
    requires
        tables.is_consistent(),
        first is Claim,
        second is Claim,
        first->Claim_command_id == second->Claim_command_id,
        tables.enables(first),
        tables.next(first).enables(second),
    ensures
        ({
            let id = first->Claim_command_id;
            let before = tables.commands[id];
            let again = tables.next(first).next(second).commands[id];
            &&& instant_after(first->Claim_now, first->Claim_lease_seconds)->0
                < second->Claim_now
            &&& is_same_command(before, again)
            &&& again.attempts == before.attempts + 2
            &&& is_fenced(Some(again), second->Claim_lease_token)
            &&& first->Claim_lease_token != second->Claim_lease_token ==> !is_fenced(
                Some(again),
                first->Claim_lease_token,
            )
        }),
{
    steps_keep_the_store_consistent(tables, first);
    taken_commands_are_due_after_their_lease(tables, first, second->Claim_now);
    taken_commands_are_due_after_their_lease(tables.next(first), second, second->Claim_now);
}

/// The order in which due commands are taken: the one that has been due for longest first, and among
/// those of one instant the lowest identifier.
pub open spec fn is_taken_before(
    left: CommandRow<Seq<char>>,
    right: CommandRow<Seq<char>>,
) -> bool {
    left.available_at < right.available_at || left.available_at == right.available_at
        && left.command_id < right.command_id
}

/// A due command of an organization.
pub open spec fn is_due_in(
    tables: Tables,
    organization_id: Seq<char>,
    now: i64,
    id: u128,
) -> bool {
    &&& tables.commands.contains_key(id)
    &&& tables.commands[id].organization_id == organization_id
    &&& is_due(tables.commands[id], now)
}

/// Whether a command of an organization is due.
pub open spec fn has_due(tables: Tables, organization_id: Seq<char>, now: i64) -> bool {
    exists|id: u128| #[trigger] is_due_in(tables, organization_id, now, id)
}

/// The rows hold the command with the given identifier.
pub open spec fn takes(rows: Seq<(CommandRow<Seq<char>>, u128)>, id: u128) -> bool {
    exists|i: int| 0 <= i < rows.len() && (#[trigger] rows[i]).0.command_id == id
}

/// Due commands as they are stored, each once and each with a lease that can be taken.
pub open spec fn are_due(
    tables: Tables,
    lease_seconds: i64,
    now: i64,
    rows: Seq<(CommandRow<Seq<char>>, u128)>,
) -> bool {
    &&& forall|i: int|
        0 <= i < rows.len() ==> {
            let row = (#[trigger] rows[i]).0;
            &&& tables.commands.contains_key(row.command_id)
            &&& tables.commands[row.command_id] == row
            &&& is_due(row, now)
            &&& can_lease(row, now, lease_seconds)
        }
    &&& forall|i: int, j: int|
        0 <= i < j < rows.len() ==> (#[trigger] rows[i]).0.command_id != (
        #[trigger] rows[j]).0.command_id
}

/// A batch: due commands of an organization as they are stored, each once and in order, with a lease
/// each. What other transactions have locked is skipped. Only what comes behind a full batch is left
/// out.
pub open spec fn is_claim_batch(
    tables: Tables,
    organization_id: Seq<char>,
    limit: nat,
    lease_seconds: i64,
    now: i64,
    skipped: Set<u128>,
    rows: Seq<(CommandRow<Seq<char>>, u128)>,
) -> bool {
    &&& are_due(tables, lease_seconds, now, rows)
    &&& forall|i: int|
        0 <= i < rows.len() ==> (#[trigger] rows[i]).0.organization_id == organization_id
            && !skipped.contains(rows[i].0.command_id)
    &&& forall|i: int, j: int|
        0 <= i < j < rows.len() ==> is_taken_before((#[trigger] rows[i]).0, (#[trigger] rows[j]).0)
    &&& rows.len() <= limit
    &&& forall|id: u128| #[trigger]
        is_due_in(tables, organization_id, now, id) && !skipped.contains(id) && !takes(rows, id)
            ==> {
            &&& rows.len() == limit
            &&& forall|i: int|
                0 <= i < rows.len() ==> is_taken_before(
                    (#[trigger] rows[i]).0,
                    tables.commands[id],
                )
        }
}

/// The steps of a batch.
pub open spec fn claim_steps(
    rows: Seq<(CommandRow<Seq<char>>, u128)>,
    lease_seconds: i64,
    now: i64,
) -> Seq<Step> {
    rows.map_values(
        |row: (CommandRow<Seq<char>>, u128)|
            Step::Claim {
                command_id: row.0.command_id,
                lease_token: row.1,
                lease_seconds,
                now,
            },
    )
}

/// What a batch does: exactly its commands are taken, each under its own lease, and nothing else is
/// changed. It is a history of single claims. What the worker gets are the commands as they are then
/// stored, in the order of the batch, each held under its lease.
#[verifier::rlimit(30)]
pub proof fn batches_take_their_commands(
    tables: Tables,
    rows: Seq<(CommandRow<Seq<char>>, u128)>,
    lease_seconds: i64,
    now: i64,
)
    requires
        tables.is_consistent(),
        are_due(tables, lease_seconds, now, rows),
    ensures
        ({
            let until = instant_after(now, lease_seconds)->0;
            let next = tables.apply_all(claim_writes(rows, until, now));
            let got = claimed(rows, until, now);
            &&& is_history(tables, claim_steps(rows, lease_seconds, now))
            &&& after(tables, claim_steps(rows, lease_seconds, now)) == next
            &&& next.is_consistent()
            &&& next == (Tables { commands: next.commands, ..tables })
            &&& next.commands.dom() == tables.commands.dom()
            &&& forall|i: int|
                0 <= i < rows.len() ==> next.commands[(#[trigger] rows[i]).0.command_id] == leased(
                    rows[i].0,
                    rows[i].1,
                    until,
                    now,
                )
            &&& forall|id: u128| #[trigger]
                tables.commands.contains_key(id) && !takes(rows, id) ==> next.commands[id]
                    == tables.commands[id]
            &&& got.len() == rows.len()
            &&& forall|i: int|
                0 <= i < rows.len() ==> {
                    let command = #[trigger] got[i];
                    &&& command.command_id == rows[i].0.command_id
                    &&& command.lease_token == rows[i].1
                    &&& command.attempts == rows[i].0.attempts + 1
                    &&& describes(command, next.commands[command.command_id])
                    &&& is_fenced(next.commands.get(command.command_id), command.lease_token)
                }
        }),
    decreases rows.len(),
{
    let until = instant_after(now, lease_seconds)->0;
    let writes = claim_writes(rows, until, now);
    let next = tables.apply_all(writes);
    let got = claimed(rows, until, now);
    if rows.len() == 0 {
        assert(claim_steps(rows, lease_seconds, now) =~= Seq::empty());
        assert(writes =~= Seq::empty());
    } else {
        let fewer = rows.drop_last();
        let last = rows.last();
        assert(last == rows[rows.len() - 1]);
        assert forall|i: int| 0 <= i < fewer.len() implies fewer[i] == rows[i] by {}
        assert(are_due(tables, lease_seconds, now, fewer));
        batches_take_their_commands(tables, fewer, lease_seconds, now);
        let earlier = claim_writes(fewer, until, now);
        let middle = tables.apply_all(earlier);
        let id = last.0.command_id;
        assert(!takes(fewer, id)) by {
            if takes(fewer, id) {
                let i = choose|i: int|
                    0 <= i < fewer.len() && (#[trigger] fewer[i]).0.command_id == id;
                assert(rows[i].0.command_id == rows[rows.len() - 1].0.command_id);
            }
        }
        assert(tables.commands.contains_key(id));
        assert(middle.commands.contains_key(id));
        assert(middle.commands[id] == last.0);
        let write = Write::UpdateCommand { row: leased(last.0, last.1, until, now) };
        assert(writes =~= earlier.push(write));
        lemma_apply_all_push(tables, earlier, write);
        let step = Step::Claim { command_id: id, lease_token: last.1, lease_seconds, now };
        assert(middle.enables(step));
        assert(middle.writes_of(step) =~= seq![write]);
        lemma_apply_one(middle, write);
        assert(middle.next(step) == next);
        steps_keep_the_store_consistent(middle, step);
        assert(claim_steps(rows, lease_seconds, now).drop_last() =~= claim_steps(
            fewer,
            lease_seconds,
            now,
        ));
        assert(claim_steps(rows, lease_seconds, now).last() == step);
        assert(next.commands.dom() =~= tables.commands.dom());
        assert forall|i: int| 0 <= i < rows.len() implies next.commands[(
        #[trigger] rows[i]).0.command_id] == leased(rows[i].0, rows[i].1, until, now) by {
            if i < fewer.len() {
                assert(fewer[i] == rows[i]);
            }
        }
        assert forall|other: u128| #[trigger]
            tables.commands.contains_key(other) && !takes(rows, other) implies next.commands[other]
            == tables.commands[other] by {
            if takes(fewer, other) {
                let i = choose|i: int|
                    0 <= i < fewer.len() && (#[trigger] fewer[i]).0.command_id == other;
                assert(rows[i].0.command_id == other);
            }
            assert(rows[rows.len() - 1].0.command_id != other);
        }
        assert forall|i: int| 0 <= i < rows.len() implies {
            let command = #[trigger] got[i];
            &&& command.command_id == rows[i].0.command_id
            &&& command.lease_token == rows[i].1
            &&& command.attempts == rows[i].0.attempts + 1
            &&& describes(command, next.commands[command.command_id])
            &&& is_fenced(next.commands.get(command.command_id), command.lease_token)
        } by {
            assert(next.commands[rows[i].0.command_id] == leased(
                rows[i].0,
                rows[i].1,
                until,
                now,
            ));
            assert(tables.commands.contains_key(rows[i].0.command_id));
            assert(got[i] == held(leased(rows[i].0, rows[i].1, until, now), rows[i].1));
        }
    }
}

/// A batch is empty exactly where nothing is due: once there is no more, taking finds nothing, and as
/// long as there is more, it takes something.
pub proof fn batches_are_empty_when_nothing_is_due(
    tables: Tables,
    organization_id: Seq<char>,
    limit: nat,
    lease_seconds: i64,
    now: i64,
    rows: Seq<(CommandRow<Seq<char>>, u128)>,
)
    requires
        is_claim_batch(tables, organization_id, limit, lease_seconds, now, Set::empty(), rows),
        limit > 0,
    ensures
        rows.len() > 0 <==> has_due(tables, organization_id, now),
{
    if rows.len() > 0 {
        assert(is_due_in(tables, organization_id, now, rows[0].0.command_id));
    }
    if has_due(tables, organization_id, now) {
        let id = choose|id: u128| #[trigger] is_due_in(tables, organization_id, now, id);
        if takes(rows, id) {
            assert(rows.len() > 0);
        }
    }
}

/// Where nothing is due, every command of the organization has ended, waits for its time, or is under
/// a lease that has not run out.
pub proof fn commands_wait_when_nothing_is_due(
    tables: Tables,
    organization_id: Seq<char>,
    now: i64,
    id: u128,
)
    requires
        tables.is_consistent(),
        !has_due(tables, organization_id, now),
        tables.commands.contains_key(id),
        tables.commands[id].organization_id == organization_id,
    ensures
        ({
            let row = tables.commands[id];
            ||| !is_live(row)
            ||| row.state == CommandState::Pending && now < row.available_at
            ||| row.state == CommandState::InFlight && now <= row.lease_until->0
        }),
{
    assert(is_sound_command(tables.commands[id]));
    assert(!is_due_in(tables, organization_id, now, id));
}

/// After a batch under leases that do not end before they start, a command is due exactly where one
/// was due that the batch has not taken, and then the batch is full.
pub proof fn batches_leave_what_they_have_no_room_for(
    tables: Tables,
    organization_id: Seq<char>,
    limit: nat,
    lease_seconds: i64,
    now: i64,
    rows: Seq<(CommandRow<Seq<char>>, u128)>,
)
    requires
        tables.is_consistent(),
        lease_seconds >= 0,
        is_claim_batch(tables, organization_id, limit, lease_seconds, now, Set::empty(), rows),
    ensures
        ({
            let until = instant_after(now, lease_seconds)->0;
            let next = tables.apply_all(claim_writes(rows, until, now));
            &&& forall|id: u128|
                is_due_in(next, organization_id, now, id) <==> #[trigger] is_due_in(
                    tables,
                    organization_id,
                    now,
                    id,
                ) && !takes(rows, id)
            &&& has_due(next, organization_id, now) ==> rows.len() == limit
        }),
{
    let until = instant_after(now, lease_seconds)->0;
    let next = tables.apply_all(claim_writes(rows, until, now));
    batches_take_their_commands(tables, rows, lease_seconds, now);
    assert forall|id: u128|
        is_due_in(next, organization_id, now, id) <==> #[trigger] is_due_in(
            tables,
            organization_id,
            now,
            id,
        ) && !takes(rows, id) by {
        assert(next.commands.contains_key(id) == tables.commands.contains_key(id));
        if takes(rows, id) {
            let i = choose|i: int| 0 <= i < rows.len() && (#[trigger] rows[i]).0.command_id == id;
            assert(next.commands[rows[i].0.command_id].lease_until == Some(until));
            assert(until >= now);
        }
    }
    if has_due(next, organization_id, now) {
        let id = choose|id: u128| #[trigger] is_due_in(next, organization_id, now, id);
        assert(is_due_in(tables, organization_id, now, id));
    }
}

/// Batches that run at once, of which the second skips what the first has locked, are batches one
/// behind the other.
#[verifier::rlimit(30)]
pub proof fn concurrent_claims_are_successive(
    tables: Tables,
    organization_id: Seq<char>,
    lease_seconds: i64,
    now: i64,
    skipped: Set<u128>,
    locked: Set<u128>,
    first: Seq<(CommandRow<Seq<char>>, u128)>,
    first_limit: nat,
    second: Seq<(CommandRow<Seq<char>>, u128)>,
    second_limit: nat,
)
    requires
        tables.is_consistent(),
        lease_seconds >= 0,
        forall|id: u128| #[trigger] locked.contains(id) <==> skipped.contains(id) || takes(first, id),
        is_claim_batch(
            tables,
            organization_id,
            first_limit,
            lease_seconds,
            now,
            skipped,
            first,
        ),
        is_claim_batch(
            tables,
            organization_id,
            second_limit,
            lease_seconds,
            now,
            locked,
            second,
        ),
    ensures
        is_claim_batch(
            tables.apply_all(claim_writes(first, instant_after(now, lease_seconds)->0, now)),
            organization_id,
            second_limit,
            lease_seconds,
            now,
            skipped,
            second,
        ),
        forall|i: int, j: int|
            0 <= i < first.len() && 0 <= j < second.len() ==> (#[trigger] first[i]).0.command_id
                != (#[trigger] second[j]).0.command_id,
{
    let until = instant_after(now, lease_seconds)->0;
    let middle = tables.apply_all(claim_writes(first, until, now));
    batches_take_their_commands(tables, first, lease_seconds, now);
    assert forall|j: int| 0 <= j < second.len() implies {
        let row = (#[trigger] second[j]).0;
        &&& !takes(first, row.command_id)
        &&& middle.commands.contains_key(row.command_id)
        &&& middle.commands[row.command_id] == row
    } by {
        assert(!locked.contains(second[j].0.command_id));
        assert(tables.commands.contains_key(second[j].0.command_id));
    }
    assert(are_due(middle, lease_seconds, now, second));
    assert forall|id: u128| #[trigger]
        is_due_in(middle, organization_id, now, id) && !skipped.contains(id) && !takes(
            second,
            id,
        ) implies {
        &&& second.len() == second_limit
        &&& forall|j: int|
            0 <= j < second.len() ==> is_taken_before((#[trigger] second[j]).0, middle.commands[id])
    } by {
        assert(tables.commands.contains_key(id));
        if takes(first, id) {
            let i = choose|i: int| 0 <= i < first.len() && (#[trigger] first[i]).0.command_id == id;
            assert(middle.commands[first[i].0.command_id].lease_until == Some(until));
            assert(until >= now);
        }
        assert(!locked.contains(id));
        assert(is_due_in(tables, organization_id, now, id));
    }
    assert forall|i: int, j: int| 0 <= i < first.len() && 0 <= j < second.len() implies (
    #[trigger] first[i]).0.command_id != (#[trigger] second[j]).0.command_id by {
        assert(!takes(first, second[j].0.command_id));
    }
}

/// The one command of an organization is taken exactly where it is due.
pub proof fn lone_commands_are_taken_when_due(
    tables: Tables,
    organization_id: Seq<char>,
    limit: nat,
    lease_seconds: i64,
    now: i64,
    rows: Seq<(CommandRow<Seq<char>>, u128)>,
    id: u128,
)
    requires
        tables.is_consistent(),
        limit > 0,
        is_claim_batch(tables, organization_id, limit, lease_seconds, now, Set::empty(), rows),
        tables.commands.contains_key(id),
        tables.commands[id].organization_id == organization_id,
        forall|other: u128| #[trigger]
            tables.commands.contains_key(other) && tables.commands[other].organization_id
                == organization_id ==> other == id,
    ensures
        is_due(tables.commands[id], now) ==> rows.len() == 1 && rows[0].0 == tables.commands[id],
        !is_due(tables.commands[id], now) ==> rows.len() == 0,
{
    batches_are_empty_when_nothing_is_due(
        tables,
        organization_id,
        limit,
        lease_seconds,
        now,
        rows,
    );
    if rows.len() > 0 {
        assert(rows[0].0.command_id == id);
    }
    if rows.len() > 1 {
        assert(rows[1].0.command_id == id);
        assert(rows[0].0.command_id != rows[1].0.command_id);
    }
    if is_due(tables.commands[id], now) {
        assert(is_due_in(tables, organization_id, now, id));
    }
}

/// The one command of an organization, once taken, is not given to anyone while its lease lasts.
/// After that it is given out again as the same command under the same key, with a further attempt.
#[verifier::rlimit(30)]
pub proof fn lone_commands_come_back_after_their_lease(
    tables: Tables,
    organization_id: Seq<char>,
    limit: nat,
    lease_seconds: i64,
    now: i64,
    first: Seq<(CommandRow<Seq<char>>, u128)>,
    later: i64,
    second: Seq<(CommandRow<Seq<char>>, u128)>,
    id: u128,
)
    requires
        tables.is_consistent(),
        limit > 0,
        tables.commands.contains_key(id),
        tables.commands[id].organization_id == organization_id,
        forall|other: u128| #[trigger]
            tables.commands.contains_key(other) && tables.commands[other].organization_id
                == organization_id ==> other == id,
        is_due(tables.commands[id], now),
        is_claim_batch(tables, organization_id, limit, lease_seconds, now, Set::empty(), first),
        is_claim_batch(
            tables.apply_all(claim_writes(first, instant_after(now, lease_seconds)->0, now)),
            organization_id,
            limit,
            lease_seconds,
            later,
            Set::empty(),
            second,
        ),
    ensures
        ({
            let until = instant_after(now, lease_seconds)->0;
            let taken = claimed(first, until, now);
            let again = claimed(second, instant_after(later, lease_seconds)->0, later);
            &&& taken.len() == 1
            &&& taken[0].command_id == id
            &&& until >= later ==> again.len() == 0
            &&& until < later ==> {
                &&& again.len() == 1
                &&& again[0].command_id == taken[0].command_id
                &&& again[0].command_key == taken[0].command_key
                &&& again[0].attempts == taken[0].attempts + 1
            }
        }),
{
    let until = instant_after(now, lease_seconds)->0;
    lone_commands_are_taken_when_due(
        tables,
        organization_id,
        limit,
        lease_seconds,
        now,
        first,
        id,
    );
    batches_take_their_commands(tables, first, lease_seconds, now);
    let middle = tables.apply_all(claim_writes(first, until, now));
    assert(middle.commands[first[0].0.command_id] == leased(first[0].0, first[0].1, until, now));
    assert forall|other: u128| #[trigger]
        middle.commands.contains_key(other) && middle.commands[other].organization_id
            == organization_id implies other == id by {
        assert(tables.commands.contains_key(other));
        if other != id {
            assert(!takes(first, other)) by {
                if takes(first, other) {
                    let i = choose|i: int|
                        0 <= i < first.len() && (#[trigger] first[i]).0.command_id == other;
                }
            }
        }
    }
    assert(tables.commands.contains_key(id));
    assert(middle.commands.contains_key(id));
    lone_commands_are_taken_when_due(
        middle,
        organization_id,
        limit,
        lease_seconds,
        later,
        second,
        id,
    );
    let taken = claimed(first, until, now);
    let again = claimed(second, instant_after(later, lease_seconds)->0, later);
    assert(taken[0] == held(leased(first[0].0, first[0].1, until, now), first[0].1));
    if until < later {
        batches_take_their_commands(middle, second, lease_seconds, later);
        assert(again[0].command_id == second[0].0.command_id);
    }
}

} // verus!
