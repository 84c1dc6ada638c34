//! What every step keeps true of the store.

use crate::acceptance::{accepted, awaits, consumed};
use crate::commands::{
    delivery_command, finished, kinds_are_told_apart_by_their_keys, kinds_differ, leased,
    lifecycle_command, lifecycle_key, membership_command, membership_key, membership_keys_differ,
    notify_key, retried, superseded, ADD_MEMBER, NOTIFY_INVITATION, NOTIFY_LIFECYCLE,
};
use crate::dispatch::{command_write, failure_text, Settlement};
use crate::lifecycle::{
    can_expire, created, expiration_writes, expired, invitation_label, labels_differ, revoked,
    rotated,
};
use crate::records::{
    state_text, CommandRow, CommandState, InvitationRecord, InvitationState, Receipt,
};
use crate::settlement::{delivers, failure_consequences, queued, undelivered};
use crate::tables::{
    is_live, is_live_delivery, key_is_taken, lemma_apply_all_concat, lemma_apply_all_push,
    lemma_apply_five, lemma_apply_four, lemma_apply_one, lemma_apply_three, Step, Tables,
};
use crate::writes::Write;
use vstd::prelude::*;

verus! {

/// An invitation that makes sense by itself: it has a token exactly while it can be accepted, a
/// consumed token exactly when someone has started to accept it, and the facts of the state that
/// it is in. Its revision counts its tokens, the start of its acceptance, and its end.
pub open spec fn is_sound_record(record: InvitationRecord<Seq<char>>) -> bool {
    &&& record.token_generation >= 1
    &&& record.revision == record.token_generation + (if record.acceptance_subject is Some {
        1int
    } else {
        0
    }) + (if record.state != InvitationState::Pending {
        1int
    } else {
        0
    })
    &&& record.token_hash is Some <==> record.state == InvitationState::Pending
        && record.acceptance_subject is None
    &&& record.token_consumed_at is Some <==> record.acceptance_subject is Some
    &&& record.state == InvitationState::Accepted <==> record.membership_id is Some
    &&& record.state == InvitationState::Accepted <==> record.accepted_at is Some
    &&& record.state == InvitationState::Accepted ==> record.acceptance_subject is Some
    &&& record.state == InvitationState::Revoked <==> record.revoked_at is Some
    &&& record.state == InvitationState::Revoked <==> record.revoke_reason is Some
    &&& record.state == InvitationState::Revoked ==> record.acceptance_subject is None
    &&& record.state == InvitationState::Expired <==> record.expired_at is Some
}

/// A delivery command: of one token generation, under the key of that generation.
pub open spec fn is_delivery(row: CommandRow<Seq<char>>) -> bool {
    &&& row.kind == NOTIFY_INVITATION@
    &&& row.token_generation is Some
    &&& row.token_generation->0 >= 1
    &&& row.command_key == notify_key(row.invitation_id, row.token_generation->0)
    &&& row.acceptance_subject is None
    &&& row.lifecycle is None
}

/// A report: of one way in which an invitation ends, under the key of that way.
pub open spec fn is_report(row: CommandRow<Seq<char>>) -> bool {
    &&& row.kind == NOTIFY_LIFECYCLE@
    &&& row.token_generation is None
    &&& row.acceptance_subject is None
    &&& exists|state: InvitationState|
        {
            &&& state != InvitationState::Pending
            &&& row.lifecycle == Some(#[trigger] state_text(state))
            &&& row.command_key == lifecycle_key(row.invitation_id, state)
        }
}

/// A membership command: of one subject, under the one key of its invitation.
pub open spec fn is_joining(row: CommandRow<Seq<char>>) -> bool {
    &&& row.kind == ADD_MEMBER@
    &&& row.token_generation is None
    &&& row.acceptance_subject is Some
    &&& row.lifecycle is None
    &&& row.command_key == membership_key(row.invitation_id)
}

/// A command that makes sense by itself: it is of one of the three kinds, it has a lease exactly
/// while it is in flight, and it has an end exactly when it has ended.
pub open spec fn is_sound_command(row: CommandRow<Seq<char>>) -> bool {
    &&& is_delivery(row) || is_report(row) || is_joining(row)
    &&& row.attempts >= 0
    &&& row.state == CommandState::InFlight <==> row.lease_token is Some
    &&& row.state == CommandState::InFlight <==> row.lease_until is Some
    &&& is_live(row) <==> row.completed_at is None
}

impl Tables {
    /// Every invitation makes sense, and is stored under its own identifier.
    pub open spec fn has_sound_records(self) -> bool {
        forall|id: u128| #[trigger]
            self.invitations.contains_key(id) ==> self.invitations[id].invitation_id == id
                && is_sound_record(self.invitations[id])
    }

    /// No two invitations are pending for one address in one organization.
    pub open spec fn has_one_pending_each(self) -> bool {
        forall|left: u128, right: u128|
            {
                &&& #[trigger] self.invitations.contains_key(left)
                &&& #[trigger] self.invitations.contains_key(right)
                &&& self.invitations[left].state == InvitationState::Pending
                &&& self.invitations[right].state == InvitationState::Pending
                &&& self.invitations[left].organization_id
                    == self.invitations[right].organization_id
                &&& self.invitations[left].email_normalized
                    == self.invitations[right].email_normalized
            } ==> left == right
    }

    /// Every invitation has the label of a number that its organization has given away.
    pub open spec fn has_labels(self) -> bool {
        &&& forall|organization: Seq<char>| #[trigger] self.numbers.contains_key(organization)
            ==> self.numbers[organization] >= 1
        &&& forall|id: u128| #[trigger]
            self.invitations.contains_key(id) ==> exists|number: i64|
                0 < number < self.next_number(self.invitations[id].organization_id)
                    && self.invitations[id].identifier == #[trigger] invitation_label(number)
    }

    /// No two invitations of one organization have the same label.
    pub open spec fn has_distinct_labels(self) -> bool {
        forall|left: u128, right: u128|
            {
                &&& #[trigger] self.invitations.contains_key(left)
                &&& #[trigger] self.invitations.contains_key(right)
                &&& self.invitations[left].organization_id
                    == self.invitations[right].organization_id
                &&& self.invitations[left].identifier == self.invitations[right].identifier
            } ==> left == right
    }

    /// Every command makes sense, is stored under its own identifier, and is about an invitation
    /// of its organization.
    pub open spec fn has_sound_commands(self) -> bool {
        forall|id: u128| #[trigger]
            self.commands.contains_key(id) ==> {
                let row = self.commands[id];
                &&& row.command_id == id
                &&& is_sound_command(row)
                &&& self.invitations.contains_key(row.invitation_id)
                &&& self.invitations[row.invitation_id].organization_id == row.organization_id
            }
    }

    /// No two commands have the same key.
    pub open spec fn has_distinct_keys(self) -> bool {
        forall|left: u128, right: u128|
            {
                &&& #[trigger] self.commands.contains_key(left)
                &&& #[trigger] self.commands.contains_key(right)
                &&& self.commands[left].command_key == self.commands[right].command_key
            } ==> left == right
    }

    /// Only the current token of an invitation is being delivered, and no generation is ahead of
    /// the current one.
    pub open spec fn delivers_current_tokens(self) -> bool {
        forall|id: u128| #[trigger]
            self.commands.contains_key(id) && self.commands[id].kind == NOTIFY_INVITATION@ ==> {
                let row = self.commands[id];
                let current = self.invitations[row.invitation_id].token_generation;
                &&& row.token_generation->0 <= current
                &&& is_live(row) ==> row.token_generation->0 == current
            }
    }

    /// A membership command is for the subject that has started to accept its invitation.
    pub open spec fn joins_accepting_subjects(self) -> bool {
        forall|id: u128| #[trigger]
            self.commands.contains_key(id) && self.commands[id].kind == ADD_MEMBER@ ==> {
                let row = self.commands[id];
                &&& self.invitations[row.invitation_id].acceptance_subject == row.acceptance_subject
                &&& row.state == CommandState::Completed ==> self.invitations[row.invitation_id].state
                    == InvitationState::Accepted
            }
    }

    /// The membership command of an invitation waits or is under way.
    pub open spec fn is_being_joined(self, invitation_id: u128) -> bool {
        exists|id: u128|
            {
                &&& #[trigger] self.commands.contains_key(id)
                &&& self.commands[id].kind == ADD_MEMBER@
                &&& self.commands[id].invitation_id == invitation_id
                &&& is_live(self.commands[id])
            }
    }

    /// An acceptance that was started and has not ended is never forgotten: its membership command
    /// waits or is under way. One invitation may be spared.
    pub open spec fn pursues_acceptances_but(self, spared: Option<u128>) -> bool {
        forall|id: u128| #[trigger]
            self.invitations.contains_key(id) && Some(id) != spared && self.invitations[id].state
                == InvitationState::Pending && self.invitations[id].acceptance_subject is Some
                ==> self.is_being_joined(id)
    }

    /// A report says how its invitation has ended.
    pub open spec fn reports_the_truth(self) -> bool {
        forall|id: u128| #[trigger]
            self.commands.contains_key(id) && self.commands[id].kind == NOTIFY_LIFECYCLE@ ==> {
                let row = self.commands[id];
                row.lifecycle == Some(state_text(self.invitations[row.invitation_id].state))
            }
    }

    /// Everything that holds between steps. Within a step the acceptance of one invitation may be
    /// left aside.
    pub open spec fn is_consistent_but(self, spared: Option<u128>) -> bool {
        &&& self.has_sound_records()
        &&& self.has_one_pending_each()
        &&& self.has_labels()
        &&& self.has_distinct_labels()
        &&& self.has_sound_commands()
        &&& self.has_distinct_keys()
        &&& self.delivers_current_tokens()
        &&& self.joins_accepting_subjects()
        &&& self.pursues_acceptances_but(spared)
        &&& self.reports_the_truth()
    }

    /// Everything that holds between steps.
    pub open spec fn is_consistent(self) -> bool {
        self.is_consistent_but(None)
    }
}

/// The empty store is consistent.
pub proof fn empty_stores_are_consistent()
    ensures
        (Tables {
            invitations: Map::empty(),
            commands: Map::empty(),
            mutations: Map::empty(),
            activity: Seq::empty(),
            numbers: Map::empty(),
        }).is_consistent(),
{
}

/// What an invitation keeps for good.
pub open spec fn is_same_invitation(
    left: InvitationRecord<Seq<char>>,
    right: InvitationRecord<Seq<char>>,
) -> bool {
    &&& left.invitation_id == right.invitation_id
    &&& left.organization_id == right.organization_id
    &&& left.identifier == right.identifier
    &&& left.email == right.email
    &&& left.email_normalized == right.email_normalized
    &&& left.inviter_subject == right.inviter_subject
    &&& left.created_at == right.created_at
}

/// What a command keeps for good.
pub open spec fn is_same_command(
    left: CommandRow<Seq<char>>,
    right: CommandRow<Seq<char>>,
) -> bool {
    &&& left.command_id == right.command_id
    &&& left.organization_id == right.organization_id
    &&& left.invitation_id == right.invitation_id
    &&& left.kind == right.kind
    &&& left.command_key == right.command_key
    &&& left.token_generation == right.token_generation
    &&& left.acceptance_subject == right.acceptance_subject
    &&& left.lifecycle == right.lifecycle
}

proof fn lemma_no_report_while_pending(tables: Tables, id: u128, command: u128)
    requires
        tables.has_sound_commands(),
        tables.reports_the_truth(),
        tables.invitations.contains_key(id),
        tables.invitations[id].state == InvitationState::Pending,
        tables.commands.contains_key(command),
        tables.commands[command].kind == NOTIFY_LIFECYCLE@,
    ensures
        tables.commands[command].invitation_id != id,
{
    kinds_differ();
    let row = tables.commands[command];
    if row.invitation_id == id {
        assert(is_report(row));
        let state = choose|state: InvitationState|
            {
                &&& state != InvitationState::Pending
                &&& row.lifecycle == Some(#[trigger] state_text(state))
                &&& row.command_key == lifecycle_key(row.invitation_id, state)
            };
        crate::records::states_are_told_apart_by_their_text(state, InvitationState::Pending);
    }
}

/// An invitation may change as long as it stays itself, makes sense, and leaves its commands true.
proof fn lemma_update_invitation(
    tables: Tables,
    next: InvitationRecord<Seq<char>>,
    spared: Option<u128>,
)
    requires
        tables.is_consistent_but(spared),
        tables.invitations.contains_key(next.invitation_id),
        is_same_invitation(tables.invitations[next.invitation_id], next),
        is_sound_record(next),
        next.state == tables.invitations[next.invitation_id].state
            || tables.invitations[next.invitation_id].state == InvitationState::Pending,
        next.acceptance_subject == tables.invitations[next.invitation_id].acceptance_subject,
        next.token_generation == tables.invitations[next.invitation_id].token_generation || (
        next.token_generation > tables.invitations[next.invitation_id].token_generation
            && forall|id: u128| #[trigger]
            tables.commands.contains_key(id) ==> !is_live_delivery(
                tables.commands[id],
                next.invitation_id,
            )),
    ensures
        (Tables {
            invitations: tables.invitations.insert(next.invitation_id, next),
            ..tables
        }).is_consistent_but(spared),
        next.state != InvitationState::Pending && spared == Some(next.invitation_id) ==> (Tables {
            invitations: tables.invitations.insert(next.invitation_id, next),
            ..tables
        }).is_consistent(),
{
    kinds_differ();
    let id = next.invitation_id;
    let current = tables.invitations[id];
    let after = Tables { invitations: tables.invitations.insert(id, next), ..tables };
    assert forall|other: u128| #[trigger] after.invitations.contains_key(other) implies
        tables.invitations.contains_key(other) by {}
    assert(after.has_sound_records());
    assert(after.has_one_pending_each()) by {
        assert forall|left: u128, right: u128|
            {
                &&& #[trigger] after.invitations.contains_key(left)
                &&& #[trigger] after.invitations.contains_key(right)
                &&& after.invitations[left].state == InvitationState::Pending
                &&& after.invitations[right].state == InvitationState::Pending
                &&& after.invitations[left].organization_id
                    == after.invitations[right].organization_id
                &&& after.invitations[left].email_normalized
                    == after.invitations[right].email_normalized
            } implies left == right by {
            assert(tables.invitations.contains_key(left));
            assert(tables.invitations.contains_key(right));
        }
    }
    assert(after.has_labels()) by {
        assert forall|other: u128| #[trigger] after.invitations.contains_key(other) implies exists|
            number: i64,
        |
            0 < number < after.next_number(after.invitations[other].organization_id)
                && after.invitations[other].identifier == #[trigger] invitation_label(number) by {
            assert(tables.invitations.contains_key(other));
        }
    }
    assert(after.has_distinct_labels()) by {
        assert forall|left: u128, right: u128|
            {
                &&& #[trigger] after.invitations.contains_key(left)
                &&& #[trigger] after.invitations.contains_key(right)
                &&& after.invitations[left].organization_id
                    == after.invitations[right].organization_id
                &&& after.invitations[left].identifier == after.invitations[right].identifier
            } implies left == right by {
            assert(tables.invitations.contains_key(left));
            assert(tables.invitations.contains_key(right));
        }
    }
    assert(after.has_sound_commands());
    assert(after.delivers_current_tokens());
    assert(after.joins_accepting_subjects());
    assert(after.pursues_acceptances_but(spared)) by {
        assert forall|other: u128| #[trigger]
            after.invitations.contains_key(other) && Some(other) != spared
                && after.invitations[other].state == InvitationState::Pending
                && after.invitations[other].acceptance_subject
                is Some implies after.is_being_joined(other) by {
            assert(tables.invitations.contains_key(other));
            assert(tables.is_being_joined(other));
            let command = choose|command: u128|
                {
                    &&& #[trigger] tables.commands.contains_key(command)
                    &&& tables.commands[command].kind == ADD_MEMBER@
                    &&& tables.commands[command].invitation_id == other
                    &&& is_live(tables.commands[command])
                };
            assert(after.commands.contains_key(command));
        }
    }
    assert(after.reports_the_truth()) by {
        assert forall|command: u128| #[trigger]
            after.commands.contains_key(command) && after.commands[command].kind
                == NOTIFY_LIFECYCLE@ implies after.commands[command].lifecycle == Some(
            state_text(after.invitations[after.commands[command].invitation_id].state),
        ) by {
            if next.state != current.state {
                lemma_no_report_while_pending(tables, id, command);
            }
        }
    }
    if next.state != InvitationState::Pending && spared == Some(id) {
        assert(after.pursues_acceptances_but(None)) by {
            assert forall|other: u128| #[trigger]
                after.invitations.contains_key(other) && after.invitations[other].state
                    == InvitationState::Pending && after.invitations[other].acceptance_subject
                    is Some implies after.is_being_joined(other) by {
                assert(other != id);
            }
        }
    }
}

/// A command may change as long as it stays itself, makes sense, and its invitation is still
/// pursued.
proof fn lemma_update_command(tables: Tables, next: CommandRow<Seq<char>>, spared: Option<u128>)
    requires
        tables.is_consistent_but(spared),
        tables.commands.contains_key(next.command_id),
        is_same_command(tables.commands[next.command_id], next),
        is_sound_command(next),
        is_live(next) ==> is_live(tables.commands[next.command_id]),
        next.kind == ADD_MEMBER@ && next.state == CommandState::Completed
            ==> tables.invitations[next.invitation_id].state == InvitationState::Accepted,
        next.kind == ADD_MEMBER@ && !is_live(next) ==> Some(next.invitation_id) == spared
            || tables.invitations[next.invitation_id].state != InvitationState::Pending,
    ensures
        (Tables {
            commands: tables.commands.insert(next.command_id, next),
            ..tables
        }).is_consistent_but(spared),
{
    kinds_differ();
    let id = next.command_id;
    let current = tables.commands[id];
    let after = Tables { commands: tables.commands.insert(id, next), ..tables };
    assert forall|other: u128| #[trigger] after.commands.contains_key(other) implies
        tables.commands.contains_key(other) by {}
    assert(after.has_sound_records());
    assert(after.has_one_pending_each());
    assert(after.has_labels());
    assert(after.has_distinct_labels());
    assert(after.has_sound_commands());
    assert(after.has_distinct_keys()) by {
        assert forall|left: u128, right: u128|
            {
                &&& #[trigger] after.commands.contains_key(left)
                &&& #[trigger] after.commands.contains_key(right)
                &&& after.commands[left].command_key == after.commands[right].command_key
            } implies left == right by {
            assert(tables.commands.contains_key(left));
            assert(tables.commands.contains_key(right));
        }
    }
    assert(after.delivers_current_tokens());
    assert(after.joins_accepting_subjects());
    assert(after.pursues_acceptances_but(spared)) by {
        assert forall|other: u128| #[trigger]
            after.invitations.contains_key(other) && Some(other) != spared
                && after.invitations[other].state == InvitationState::Pending
                && after.invitations[other].acceptance_subject
                is Some implies after.is_being_joined(other) by {
            assert(tables.invitations.contains_key(other));
            assert(tables.is_being_joined(other));
            let command = choose|command: u128|
                {
                    &&& #[trigger] tables.commands.contains_key(command)
                    &&& tables.commands[command].kind == ADD_MEMBER@
                    &&& tables.commands[command].invitation_id == other
                    &&& is_live(tables.commands[command])
                };
            assert(after.commands.contains_key(command));
        }
    }
    assert(after.reports_the_truth());
}

/// Ending the deliveries of an invitation keeps the store consistent, and leaves none of them.
proof fn lemma_supersede(tables: Tables, invitation_id: u128, at: i64, spared: Option<u128>)
    requires
        tables.is_consistent_but(spared),
    ensures
        ({
            let after = tables.apply(Write::SupersedeNotifications { invitation_id, at });
            &&& after.is_consistent_but(spared)
            &&& after.invitations == tables.invitations
            &&& after.commands.dom() == tables.commands.dom()
            &&& forall|id: u128| #[trigger]
                after.commands.contains_key(id) ==> {
                    &&& is_same_command(tables.commands[id], after.commands[id])
                    &&& !is_live_delivery(after.commands[id], invitation_id)
                    &&& tables.commands[id].kind != NOTIFY_INVITATION@ ==> after.commands[id]
                        == tables.commands[id]
                }
        }),
{
    kinds_differ();
    let after = tables.apply(Write::SupersedeNotifications { invitation_id, at });
    assert(after.commands.dom() =~= tables.commands.dom());
    assert forall|id: u128| #[trigger] after.commands.contains_key(id) implies {
        let row = tables.commands[id];
        &&& tables.commands.contains_key(id)
        &&& is_same_command(row, after.commands[id])
        &&& !is_live_delivery(after.commands[id], invitation_id)
        &&& row.kind != NOTIFY_INVITATION@ ==> after.commands[id] == row
        &&& is_live(after.commands[id]) ==> is_live(row)
        &&& is_sound_command(after.commands[id])
    } by {
        let row = tables.commands[id];
        assert(tables.commands.contains_key(id));
        assert(is_sound_command(row));
        assert(after.commands[id] == if is_live_delivery(row, invitation_id) {
            superseded(row, at)
        } else {
            row
        });
    }
    assert(after.has_sound_records());
    assert(after.has_one_pending_each());
    assert(after.has_labels());
    assert(after.has_distinct_labels());
    assert(after.has_sound_commands());
    assert(after.has_distinct_keys()) by {
        assert forall|left: u128, right: u128|
            {
                &&& #[trigger] after.commands.contains_key(left)
                &&& #[trigger] after.commands.contains_key(right)
                &&& after.commands[left].command_key == after.commands[right].command_key
            } implies left == right by {
            assert(tables.commands.contains_key(left));
            assert(tables.commands.contains_key(right));
        }
    }
    assert(after.delivers_current_tokens());
    assert(after.joins_accepting_subjects());
    assert(after.pursues_acceptances_but(spared)) by {
        assert forall|other: u128| #[trigger]
            after.invitations.contains_key(other) && Some(other) != spared
                && after.invitations[other].state == InvitationState::Pending
                && after.invitations[other].acceptance_subject
                is Some implies after.is_being_joined(other) by {
            assert(tables.is_being_joined(other));
            let command = choose|command: u128|
                {
                    &&& #[trigger] tables.commands.contains_key(command)
                    &&& tables.commands[command].kind == ADD_MEMBER@
                    &&& tables.commands[command].invitation_id == other
                    &&& is_live(tables.commands[command])
                };
            assert(after.commands.contains_key(command));
        }
    }
    assert(after.reports_the_truth());
}

/// A new command may be added that makes sense and is true of its invitation.
proof fn lemma_insert_command(tables: Tables, row: CommandRow<Seq<char>>, spared: Option<u128>)
    requires
        tables.is_consistent_but(spared),
        !tables.commands.contains_key(row.command_id),
        is_sound_command(row),
        is_live(row),
        tables.invitations.contains_key(row.invitation_id),
        tables.invitations[row.invitation_id].organization_id == row.organization_id,
        row.kind == NOTIFY_INVITATION@ ==> row.token_generation == Some(
            tables.invitations[row.invitation_id].token_generation,
        ),
        row.kind == ADD_MEMBER@ ==> row.acceptance_subject
            == tables.invitations[row.invitation_id].acceptance_subject,
        row.kind == NOTIFY_LIFECYCLE@ ==> row.lifecycle == Some(
            state_text(tables.invitations[row.invitation_id].state),
        ),
    ensures
        tables.apply(Write::InsertCommand { row }).is_consistent_but(spared),
        tables.apply(Write::InsertCommand { row }).invitations == tables.invitations,
{
    kinds_differ();
    let after = tables.apply(Write::InsertCommand { row });
    if !key_is_taken(tables.commands, row.command_key) {
        assert(after.has_sound_records());
        assert(after.has_one_pending_each());
        assert(after.has_labels());
        assert(after.has_distinct_labels());
        assert(after.has_sound_commands());
        assert(after.has_distinct_keys()) by {
            assert forall|left: u128, right: u128|
                {
                    &&& #[trigger] after.commands.contains_key(left)
                    &&& #[trigger] after.commands.contains_key(right)
                    &&& after.commands[left].command_key == after.commands[right].command_key
                } implies left == right by {
                if left != row.command_id {
                    assert(tables.commands.contains_key(left));
                }
                if right != row.command_id {
                    assert(tables.commands.contains_key(right));
                }
            }
        }
        assert(after.delivers_current_tokens());
        assert(after.joins_accepting_subjects());
        assert(after.pursues_acceptances_but(spared)) by {
            assert forall|other: u128| #[trigger]
                after.invitations.contains_key(other) && Some(other) != spared
                    && after.invitations[other].state == InvitationState::Pending
                    && after.invitations[other].acceptance_subject
                    is Some implies after.is_being_joined(other) by {
                assert(tables.is_being_joined(other));
                let command = choose|command: u128|
                    {
                        &&& #[trigger] tables.commands.contains_key(command)
                        &&& tables.commands[command].kind == ADD_MEMBER@
                        &&& tables.commands[command].invitation_id == other
                        &&& is_live(tables.commands[command])
                    };
                assert(after.commands.contains_key(command));
            }
        }
        assert(after.reports_the_truth());
    }
}

/// Nothing but the invitations, the commands and the numbers matters for consistency.
proof fn lemma_same_rows(left: Tables, right: Tables, spared: Option<u128>)
    requires
        left.invitations == right.invitations,
        left.commands == right.commands,
        left.numbers == right.numbers,
    ensures
        left.is_consistent_but(spared) ==> right.is_consistent_but(spared),
{
    assert forall|id: u128| left.is_being_joined(id) implies #[trigger] right.is_being_joined(
        id,
    ) by {}
    assert forall|organization: Seq<char>| #[trigger] right.next_number(organization)
        == left.next_number(organization) by {}
}

/// A new invitation gets the next number of its organization.
proof fn lemma_new_invitation(
    tables: Tables,
    record: InvitationRecord<Seq<char>>,
    number: i64,
    spared: Option<u128>,
)
    requires
        tables.is_consistent_but(spared),
        !tables.invitations.contains_key(record.invitation_id),
        is_sound_record(record),
        record.acceptance_subject is None,
        number == tables.next_number(record.organization_id),
        0 < number < i64::MAX,
        record.identifier == invitation_label(number),
        !tables.has_pending(record.organization_id, record.email_normalized),
    ensures
        (Tables {
            invitations: tables.invitations.insert(record.invitation_id, record),
            numbers: tables.numbers.insert(record.organization_id, (number + 1) as i64),
            ..tables
        }).is_consistent_but(spared),
{
    kinds_differ();
    let id = record.invitation_id;
    let after = Tables {
        invitations: tables.invitations.insert(id, record),
        numbers: tables.numbers.insert(record.organization_id, (number + 1) as i64),
        ..tables
    };
    assert(after.has_sound_records());
    assert(after.has_one_pending_each()) by {
        assert forall|left: u128, right: u128|
            {
                &&& #[trigger] after.invitations.contains_key(left)
                &&& #[trigger] after.invitations.contains_key(right)
                &&& after.invitations[left].state == InvitationState::Pending
                &&& after.invitations[right].state == InvitationState::Pending
                &&& after.invitations[left].organization_id
                    == after.invitations[right].organization_id
                &&& after.invitations[left].email_normalized
                    == after.invitations[right].email_normalized
            } implies left == right by {
            if left != id {
                assert(tables.invitations.contains_key(left));
            }
            if right != id {
                assert(tables.invitations.contains_key(right));
            }
        }
    }
    assert forall|organization: Seq<char>| #[trigger] after.next_number(organization)
        >= tables.next_number(organization) by {}
    assert(after.has_labels()) by {
        assert forall|other: u128| #[trigger] after.invitations.contains_key(other) implies exists|
            given: i64,
        |
            0 < given < after.next_number(after.invitations[other].organization_id)
                && after.invitations[other].identifier == #[trigger] invitation_label(given) by {
            if other == id {
                assert(after.next_number(record.organization_id) == number + 1);
                assert(after.invitations[other].identifier == invitation_label(number));
            } else {
                assert(tables.invitations.contains_key(other));
                let given = choose|given: i64|
                    0 < given < tables.next_number(tables.invitations[other].organization_id)
                        && tables.invitations[other].identifier == #[trigger] invitation_label(
                        given,
                    );
                assert(after.next_number(tables.invitations[other].organization_id)
                    >= tables.next_number(tables.invitations[other].organization_id));
                assert(after.invitations[other].identifier == invitation_label(given));
            }
        }
    }
    assert(after.has_distinct_labels()) by {
        assert forall|left: u128, right: u128|
            {
                &&& #[trigger] after.invitations.contains_key(left)
                &&& #[trigger] after.invitations.contains_key(right)
                &&& after.invitations[left].organization_id
                    == after.invitations[right].organization_id
                &&& after.invitations[left].identifier == after.invitations[right].identifier
            } implies left == right by {
            if left != right {
                if left != id {
                    lemma_label_is_given(tables, left, number);
                }
                if right != id {
                    lemma_label_is_given(tables, right, number);
                }
                if left != id && right != id {
                    assert(tables.invitations.contains_key(left));
                    assert(tables.invitations.contains_key(right));
                }
            }
        }
    }
    assert(after.has_sound_commands());
    assert(after.has_distinct_keys());
    assert(after.delivers_current_tokens());
    assert(after.joins_accepting_subjects());
    assert(after.pursues_acceptances_but(spared)) by {
        assert forall|other: u128| #[trigger]
            after.invitations.contains_key(other) && Some(other) != spared
                && after.invitations[other].state == InvitationState::Pending
                && after.invitations[other].acceptance_subject
                is Some implies after.is_being_joined(other) by {
            assert(tables.invitations.contains_key(other));
            assert(tables.is_being_joined(other));
            let command = choose|command: u128|
                {
                    &&& #[trigger] tables.commands.contains_key(command)
                    &&& tables.commands[command].kind == ADD_MEMBER@
                    &&& tables.commands[command].invitation_id == other
                    &&& is_live(tables.commands[command])
                };
            assert(after.commands.contains_key(command));
        }
    }
    assert(after.reports_the_truth());
}

proof fn lemma_label_is_given(tables: Tables, id: u128, number: i64)
    requires
        tables.has_labels(),
        tables.invitations.contains_key(id),
        number > 0,
    ensures
        tables.next_number(tables.invitations[id].organization_id) <= number
            ==> tables.invitations[id].identifier != invitation_label(number),
{
    let given = choose|given: i64|
        0 < given < tables.next_number(tables.invitations[id].organization_id)
            && tables.invitations[id].identifier == #[trigger] invitation_label(given);
    labels_differ(given, number);
}

proof fn lemma_report_is_sound(
    command_id: u128,
    organization_id: Seq<char>,
    invitation_id: u128,
    state: InvitationState,
    now: i64,
)
    requires
        state != InvitationState::Pending,
    ensures
        is_sound_command(
            lifecycle_command(command_id, organization_id, invitation_id, state, now),
        ),
{
    let row = lifecycle_command(command_id, organization_id, invitation_id, state, now);
    assert(row.lifecycle == Some(state_text(state)));
}

/// The three writes by which an invitation ends, with its deliveries superseded first.
proof fn lemma_end(
    tables: Tables,
    next: InvitationRecord<Seq<char>>,
    command_id: u128,
    now: i64,
    spared: Option<u128>,
)
    requires
        tables.is_consistent_but(spared),
        spared is None || spared == Some(next.invitation_id),
        tables.invitations.contains_key(next.invitation_id),
        is_same_invitation(tables.invitations[next.invitation_id], next),
        is_sound_record(next),
        tables.invitations[next.invitation_id].state == InvitationState::Pending,
        next.state != InvitationState::Pending,
        next.acceptance_subject == tables.invitations[next.invitation_id].acceptance_subject,
        next.token_generation == tables.invitations[next.invitation_id].token_generation,
        !tables.commands.contains_key(command_id),
    ensures
        ({
            let row = lifecycle_command(
                command_id,
                next.organization_id,
                next.invitation_id,
                next.state,
                now,
            );
            tables.apply(
                Write::SupersedeNotifications { invitation_id: next.invitation_id, at: now },
            ).apply(Write::UpdateInvitation { record: next }).apply(
                Write::InsertCommand { row },
            ).is_consistent()
        }),
{
    let row = lifecycle_command(
        command_id,
        next.organization_id,
        next.invitation_id,
        next.state,
        now,
    );
    let first = tables.apply(
        Write::SupersedeNotifications { invitation_id: next.invitation_id, at: now },
    );
    lemma_supersede(tables, next.invitation_id, now, spared);
    let second = first.apply(Write::UpdateInvitation { record: next });
    lemma_update_invitation(first, next, spared);
    assert(second.is_consistent());
    lemma_report_is_sound(
        command_id,
        next.organization_id,
        next.invitation_id,
        next.state,
        now,
    );
    kinds_differ();
    lemma_insert_command(second, row, None);
}

/// Creating an invitation keeps the store consistent.
proof fn lemma_create(tables: Tables, step: Step)
    requires
        tables.is_consistent(),
        step is Create,
        tables.enables(step),
    ensures
        tables.next(step).is_consistent(),
{
    if let Step::Create { input, call, number, token_ttl_seconds, ids, now } = step {
        let start = tables.prepared(step);
        let writes = tables.writes_of(step);
        let expires_at = crate::instants::instant_after(now, token_ttl_seconds)->0;
        let record = created(input, call.context.actor, number, expires_at, now);
        lemma_apply_four(start, writes[0], writes[1], writes[2], writes[3]);
        assert(writes =~= seq![writes[0], writes[1], writes[2], writes[3]]);
        let first = start.apply(writes[0]);
        lemma_new_invitation(tables, record, number, None);
        lemma_same_rows(
            Tables {
                invitations: tables.invitations.insert(record.invitation_id, record),
                numbers: tables.numbers.insert(record.organization_id, (number + 1) as i64),
                ..tables
            },
            first,
            None,
        );
        let row = delivery_command(
            ids.command_id,
            record.organization_id,
            record.invitation_id,
            1,
            now,
        );
        kinds_differ();
        lemma_insert_command(first, row, None);
        lemma_same_rows(first.apply(writes[1]), tables.next(step), None);
    }
}

/// Rotating a token keeps the store consistent.
proof fn lemma_resend(tables: Tables, step: Step)
    requires
        tables.is_consistent(),
        step is Resend,
        tables.enables(step),
    ensures
        tables.next(step).is_consistent(),
{
    if let Step::Resend {
        organization_id,
        invitation_id,
        call,
        expected_revision,
        token_hash,
        token_ttl_seconds,
        ids,
        now,
    } = step {
        let start = tables.prepared(step);
        let writes = tables.writes_of(step);
        let expires_at = crate::instants::instant_after(now, token_ttl_seconds)->0;
        let record = tables.invitations[invitation_id];
        let next = rotated(record, token_hash, expires_at, now);
        lemma_apply_five(start, writes[0], writes[1], writes[2], writes[3], writes[4]);
        assert(writes =~= seq![writes[0], writes[1], writes[2], writes[3], writes[4]]);
        assert(tables.invitations.contains_key(invitation_id));
        assert(is_sound_record(record));
        lemma_same_rows(tables, start, None);
        let first = start.apply(writes[0]);
        lemma_supersede(start, invitation_id, now, None);
        let second = first.apply(writes[1]);
        lemma_update_invitation(first, next, None);
        assert(second.is_consistent());
        kinds_differ();
        lemma_insert_command(
            second,
            delivery_command(
                ids.command_id,
                record.organization_id,
                record.invitation_id,
                next.token_generation,
                now,
            ),
            None,
        );
        lemma_same_rows(second.apply(writes[2]), tables.next(step), None);
    }
}

/// Revoking an invitation keeps the store consistent.
proof fn lemma_revoke(tables: Tables, step: Step)
    requires
        tables.is_consistent(),
        step is Revoke,
        tables.enables(step),
    ensures
        tables.next(step).is_consistent(),
{
    if let Step::Revoke {
        organization_id,
        invitation_id,
        call,
        expected_revision,
        reason,
        ids,
        now,
    } = step {
        let start = tables.prepared(step);
        let writes = tables.writes_of(step);
        let record = tables.invitations[invitation_id];
        let next = revoked(record, reason, now);
        lemma_apply_five(start, writes[0], writes[1], writes[2], writes[3], writes[4]);
        assert(writes =~= seq![writes[0], writes[1], writes[2], writes[3], writes[4]]);
        assert(tables.invitations.contains_key(invitation_id));
        assert(is_sound_record(record));
        lemma_same_rows(tables, start, None);
        lemma_end(start, next, ids.command_id, now, None);
        lemma_same_rows(
            start.apply(writes[0]).apply(writes[1]).apply(writes[2]),
            tables.next(step),
            None,
        );
    }
}

/// What expiring an invitation writes keeps the store consistent, also where its acceptance was
/// left aside.
proof fn lemma_expiration(
    tables: Tables,
    record: InvitationRecord<Seq<char>>,
    command_id: u128,
    now: i64,
    spared: Option<u128>,
)
    requires
        tables.is_consistent_but(spared),
        spared is None || spared == Some(record.invitation_id),
        tables.invitations.contains_key(record.invitation_id),
        tables.invitations[record.invitation_id] == record,
        can_expire(record),
        !tables.commands.contains_key(command_id),
    ensures
        tables.apply_all(expiration_writes(record, command_id, now)).is_consistent(),
{
    let writes = expiration_writes(record, command_id, now);
    assert(is_sound_record(record));
    lemma_apply_three(tables, writes[0], writes[1], writes[2]);
    assert(writes =~= seq![writes[0], writes[1], writes[2]]);
    lemma_end(tables, expired(record, now), command_id, now, spared);
}

/// An acceptance after the deadline keeps the store consistent.
proof fn lemma_accept_late(tables: Tables, step: Step)
    requires
        tables.is_consistent(),
        step is AcceptLate,
        tables.enables(step),
    ensures
        tables.next(step).is_consistent(),
{
    if let Step::AcceptLate { invitation_id, call, expected_revision, ids, now } = step {
        let start = tables.prepared(step);
        let writes = tables.writes_of(step);
        let record = tables.invitations[invitation_id];
        let release = seq![writes[0]];
        let entry = writes.last();
        let middle = expiration_writes(record, ids.command_id, now);
        assert(writes =~= (release + middle).push(entry));
        lemma_apply_all_push(start, release + middle, entry);
        lemma_apply_all_concat(start, release, middle);
        lemma_apply_one(start, writes[0]);
        let first = start.apply(writes[0]);
        lemma_same_rows(tables, first, None);
        assert(tables.invitations.contains_key(invitation_id));
        lemma_expiration(first, record, ids.command_id, now, None);
        lemma_same_rows(first.apply_all(middle), tables.next(step), None);
    }
}

/// Expiring an invitation on its deadline keeps the store consistent.
proof fn lemma_expire(tables: Tables, step: Step)
    requires
        tables.is_consistent(),
        step is Expire,
        tables.enables(step),
    ensures
        tables.next(step).is_consistent(),
{
    if let Step::Expire { invitation_id, actor, ids, now } = step {
        let record = tables.invitations[invitation_id];
        let middle = expiration_writes(record, ids.command_id, now);
        let entry = tables.writes_of(step).last();
        assert(tables.writes_of(step) =~= middle.push(entry));
        lemma_apply_all_push(tables, middle, entry);
        assert(tables.invitations.contains_key(invitation_id));
        lemma_expiration(tables, record, ids.command_id, now, None);
        lemma_same_rows(tables.apply_all(middle), tables.next(step), None);
    }
}

/// Taking a due command keeps the store consistent.
proof fn lemma_claim(tables: Tables, step: Step)
    requires
        tables.is_consistent(),
        step is Claim,
        tables.enables(step),
    ensures
        tables.next(step).is_consistent(),
{
    if let Step::Claim { command_id, lease_token, lease_seconds, now } = step {
        let row = tables.commands[command_id];
        assert(tables.commands.contains_key(command_id));
        assert(is_sound_command(row));
        let next = leased(
            row,
            lease_token,
            crate::instants::instant_after(now, lease_seconds)->0,
            now,
        );
        lemma_apply_one(tables, Write::UpdateCommand { row: next });
        lemma_update_command(tables, next, None);
        assert(is_same_command(row, next));
    }
}

/// While no one has started to accept an invitation, the key of its membership command is free.
pub proof fn lemma_membership_key_is_free(tables: Tables, invitation_id: u128)
    requires
        tables.is_consistent(),
        tables.invitations.contains_key(invitation_id),
        tables.invitations[invitation_id].acceptance_subject is None,
    ensures
        !key_is_taken(tables.commands, membership_key(invitation_id)),
{
    kinds_differ();
    if key_is_taken(tables.commands, membership_key(invitation_id)) {
        let id = choose|id: u128| #[trigger]
            tables.commands.contains_key(id) && tables.commands[id].command_key
                == membership_key(invitation_id);
        let row = tables.commands[id];
        assert(is_sound_command(row));
        if is_joining(row) {
            membership_keys_differ(row.invitation_id, invitation_id);
        } else if is_delivery(row) {
            kinds_are_told_apart_by_their_keys(
                row.invitation_id,
                row.token_generation->0,
                invitation_id,
                InvitationState::Pending,
                invitation_id,
            );
        } else {
            let state = choose|state: InvitationState|
                {
                    &&& state != InvitationState::Pending
                    &&& row.lifecycle == Some(#[trigger] state_text(state))
                    &&& row.command_key == lifecycle_key(row.invitation_id, state)
                };
            kinds_are_told_apart_by_their_keys(
                invitation_id,
                1,
                row.invitation_id,
                state,
                invitation_id,
            );
        }
    }
}

/// Starting an acceptance keeps the store consistent.
proof fn lemma_accept_start(tables: Tables, step: Step)
    requires
        tables.is_consistent(),
        step is AcceptStart,
        tables.enables(step),
    ensures
        tables.next(step).is_consistent(),
{
    if let Step::AcceptStart {
        invitation_id,
        call,
        expected_revision,
        observed_generation,
        token_hash,
        ids,
        lease_token,
        lease_seconds,
        now,
    } = step {
        kinds_differ();
        let start = tables.prepared(step);
        let writes = tables.writes_of(step);
        let record = tables.invitations[invitation_id];
        assert(tables.invitations.contains_key(invitation_id));
        assert(is_sound_record(record));
        lemma_membership_key_is_free(tables, invitation_id);
        let row = membership_command(
            ids.command_id,
            record.organization_id,
            invitation_id,
            call.context.actor,
            now,
        );
        let until = crate::instants::instant_after(now, lease_seconds)->0;
        let taken = leased(row, lease_token, until, now);
        let next = consumed(record, call.context.actor, now);
        assert(writes =~= seq![writes[0], writes[1], writes[2], writes[3], writes[4]]);
        lemma_apply_five(start, writes[0], writes[1], writes[2], writes[3], writes[4]);
        let after = tables.next(step);
        assert(after.commands =~= tables.commands.insert(ids.command_id, taken));
        assert(after.invitations =~= tables.invitations.insert(invitation_id, next));
        assert(is_sound_command(taken));
        lemma_started(tables, next, taken);
        lemma_same_rows(
            Tables {
                invitations: tables.invitations.insert(invitation_id, next),
                commands: tables.commands.insert(ids.command_id, taken),
                ..tables
            },
            after,
            None,
        );
    }
}

#[verifier::rlimit(30)]
proof fn lemma_started(
    tables: Tables,
    next: InvitationRecord<Seq<char>>,
    row: CommandRow<Seq<char>>,
)
    requires
        tables.is_consistent(),
        tables.invitations.contains_key(next.invitation_id),
        is_same_invitation(tables.invitations[next.invitation_id], next),
        is_sound_record(next),
        tables.invitations[next.invitation_id].state == InvitationState::Pending,
        tables.invitations[next.invitation_id].acceptance_subject is None,
        next.state == InvitationState::Pending,
        next.token_generation == tables.invitations[next.invitation_id].token_generation,
        !tables.commands.contains_key(row.command_id),
        !key_is_taken(tables.commands, row.command_key),
        is_sound_command(row),
        row.kind == ADD_MEMBER@,
        is_live(row),
        row.invitation_id == next.invitation_id,
        row.organization_id == next.organization_id,
        row.acceptance_subject == next.acceptance_subject,
    ensures
        (Tables {
            invitations: tables.invitations.insert(next.invitation_id, next),
            commands: tables.commands.insert(row.command_id, row),
            ..tables
        }).is_consistent(),
{
    kinds_differ();
    let id = next.invitation_id;
    let after = Tables {
        invitations: tables.invitations.insert(id, next),
        commands: tables.commands.insert(row.command_id, row),
        ..tables
    };
    assert forall|other: u128| #[trigger] after.invitations.contains_key(other) implies
        tables.invitations.contains_key(other) by {}
    assert(after.has_sound_records());
    assert(after.has_one_pending_each()) by {
        assert forall|left: u128, right: u128|
            {
                &&& #[trigger] after.invitations.contains_key(left)
                &&& #[trigger] after.invitations.contains_key(right)
                &&& after.invitations[left].state == InvitationState::Pending
                &&& after.invitations[right].state == InvitationState::Pending
                &&& after.invitations[left].organization_id
                    == after.invitations[right].organization_id
                &&& after.invitations[left].email_normalized
                    == after.invitations[right].email_normalized
            } implies left == right by {
            assert(tables.invitations.contains_key(left));
            assert(tables.invitations.contains_key(right));
        }
    }
    assert(after.has_labels()) by {
        assert forall|other: u128| #[trigger] after.invitations.contains_key(other) implies exists|
            number: i64,
        |
            0 < number < after.next_number(after.invitations[other].organization_id)
                && after.invitations[other].identifier == #[trigger] invitation_label(number) by {
            assert(tables.invitations.contains_key(other));
        }
    }
    assert(after.has_distinct_labels()) by {
        assert forall|left: u128, right: u128|
            {
                &&& #[trigger] after.invitations.contains_key(left)
                &&& #[trigger] after.invitations.contains_key(right)
                &&& after.invitations[left].organization_id
                    == after.invitations[right].organization_id
                &&& after.invitations[left].identifier == after.invitations[right].identifier
            } implies left == right by {
            assert(tables.invitations.contains_key(left));
            assert(tables.invitations.contains_key(right));
        }
    }
    assert(after.has_sound_commands()) by {
        assert forall|command: u128| #[trigger] after.commands.contains_key(command) implies {
            let stored = after.commands[command];
            &&& stored.command_id == command
            &&& is_sound_command(stored)
            &&& after.invitations.contains_key(stored.invitation_id)
            &&& after.invitations[stored.invitation_id].organization_id == stored.organization_id
        } by {
            if command != row.command_id {
                assert(tables.commands.contains_key(command));
            }
        }
    }
    assert(after.has_distinct_keys()) by {
        assert forall|left: u128, right: u128|
            {
                &&& #[trigger] after.commands.contains_key(left)
                &&& #[trigger] after.commands.contains_key(right)
                &&& after.commands[left].command_key == after.commands[right].command_key
            } implies left == right by {
            if left != row.command_id {
                assert(tables.commands.contains_key(left));
            }
            if right != row.command_id {
                assert(tables.commands.contains_key(right));
            }
        }
    }
    assert(after.delivers_current_tokens());
    assert(after.joins_accepting_subjects()) by {
        assert forall|command: u128| #[trigger]
            after.commands.contains_key(command) && after.commands[command].kind
                == ADD_MEMBER@ implies {
            let stored = after.commands[command];
            &&& after.invitations[stored.invitation_id].acceptance_subject
                == stored.acceptance_subject
            &&& stored.state == CommandState::Completed
                ==> after.invitations[stored.invitation_id].state == InvitationState::Accepted
        } by {
            if command != row.command_id {
                assert(tables.commands.contains_key(command));
                assert(is_sound_command(tables.commands[command]));
            }
        }
    }
    assert(after.pursues_acceptances_but(None)) by {
        assert forall|other: u128| #[trigger]
            after.invitations.contains_key(other) && after.invitations[other].state
                == InvitationState::Pending && after.invitations[other].acceptance_subject
                is Some implies after.is_being_joined(other) by {
            if other == id {
                assert(after.commands.contains_key(row.command_id));
            } else {
                assert(tables.invitations.contains_key(other));
                assert(tables.is_being_joined(other));
                let command = choose|command: u128|
                    {
                        &&& #[trigger] tables.commands.contains_key(command)
                        &&& tables.commands[command].kind == ADD_MEMBER@
                        &&& tables.commands[command].invitation_id == other
                        &&& is_live(tables.commands[command])
                    };
                assert(after.commands.contains_key(command));
            }
        }
    }
    assert(after.reports_the_truth());
}

/// A settlement that changes nothing but its command.
proof fn lemma_settle_command_only(tables: Tables, next: CommandRow<Seq<char>>)
    requires
        tables.is_consistent(),
        tables.commands.contains_key(next.command_id),
        is_same_command(tables.commands[next.command_id], next),
        is_sound_command(next),
        is_live(tables.commands[next.command_id]),
        next.kind == ADD_MEMBER@ ==> next.state != CommandState::Completed,
        next.kind == ADD_MEMBER@ && !is_live(next) ==> tables.invitations[next.invitation_id].state
            != InvitationState::Pending,
    ensures
        tables.apply_all(command_write(next)).is_consistent(),
        tables.apply(Write::UpdateCommand { row: next }).is_consistent(),
{
    lemma_apply_one(tables, Write::UpdateCommand { row: next });
    lemma_update_command(tables, next, None);
}

/// Completing an acceptance keeps the store consistent.
proof fn lemma_settle_accept(tables: Tables, step: Step)
    requires
        tables.is_consistent(),
        step is Settle,
        step->settlement is CompleteAccept,
        tables.enables(step),
    ensures
        tables.next(step).is_consistent(),
{
    if let Step::Settle { command, settlement, ids, now } = step {
        kinds_differ();
        let row = tables.commands[command.command_id];
        let record = tables.invitations[command.invitation_id];
        assert(tables.commands.contains_key(command.command_id));
        assert(tables.invitations.contains_key(command.invitation_id));
        assert(is_sound_command(row));
        assert(is_sound_record(record));
        let writes = tables.writes_of(step);
        if row.state == CommandState::Completed {
            assert(writes =~= Seq::empty());
        } else {
            let membership_id = settlement->membership_id;
            let provider_revision = settlement->provider_revision;
            let next = accepted(record, membership_id, now);
            let done = finished(
                row,
                CommandState::Completed,
                Some(
                    Receipt::Membership {
                        membership_id,
                        membership_revision: provider_revision,
                    },
                ),
                None,
                now,
            );
            assert(writes =~= seq![writes[0], writes[1], writes[2], writes[3], writes[4]]);
            lemma_apply_five(tables, writes[0], writes[1], writes[2], writes[3], writes[4]);
            let first = tables.apply(writes[0]);
            lemma_update_invitation(tables, next, None);
            let second = first.apply(writes[1]);
            assert(is_sound_command(done));
            lemma_update_command(first, done, None);
            lemma_report_is_sound(
                ids.command_id,
                record.organization_id,
                record.invitation_id,
                InvitationState::Accepted,
                now,
            );
            lemma_insert_command(
                second,
                lifecycle_command(
                    ids.command_id,
                    record.organization_id,
                    record.invitation_id,
                    InvitationState::Accepted,
                    now,
                ),
                None,
            );
            lemma_same_rows(second.apply(writes[2]), tables.next(step), None);
        }
    }
}

/// Giving a command up keeps the store consistent.
#[verifier::rlimit(30)]
proof fn lemma_settle_fail(tables: Tables, step: Step)
    requires
        tables.is_consistent(),
        step is Settle,
        step->settlement is Fail,
        tables.enables(step),
    ensures
        tables.next(step).is_consistent(),
{
    if let Step::Settle { command, settlement, ids, now } = step {
        kinds_differ();
        let row = tables.commands[command.command_id];
        let record = tables.invitations[command.invitation_id];
        assert(tables.commands.contains_key(command.command_id));
        assert(tables.invitations.contains_key(command.invitation_id));
        assert(is_sound_command(row));
        assert(is_sound_record(record));
        let writes = tables.writes_of(step);
        let code = failure_text(settlement->Fail_code);
        let failed = finished(row, CommandState::Failed, None, Some(code), now);
        assert(is_sound_command(failed));
        let head = command_write(failed);
        let rest = failure_consequences(Some(record), command, code, ids, now);
        assert(writes =~= head + rest);
        lemma_apply_all_concat(tables, head, rest);
        lemma_apply_one(tables, Write::UpdateCommand { row: failed });
        let first = tables.apply(Write::UpdateCommand { row: failed });
        assert(tables.apply_all(head) == first);
        if command.kind == NOTIFY_INVITATION@ && delivers(record, command) {
            lemma_update_command(tables, failed, None);
            let next = undelivered(record, now);
            assert(rest =~= seq![Write::UpdateInvitation { record: next }]);
            lemma_apply_one(first, Write::UpdateInvitation { record: next });
            lemma_update_invitation(first, next, None);
        } else if command.kind == ADD_MEMBER@ && awaits(record, command) {
            let spared = Some(record.invitation_id);
            lemma_update_command(tables, failed, spared);
            let middle = expiration_writes(record, ids.command_id, now);
            let entry = rest[3];
            let release = rest[4];
            assert(rest =~= middle.push(entry).push(release));
            lemma_apply_all_push(first, middle.push(entry), release);
            lemma_apply_all_push(first, middle, entry);
            lemma_expiration(first, record, ids.command_id, now, spared);
            lemma_same_rows(first.apply_all(middle), tables.next(step), None);
        } else {
            assert(rest =~= Seq::empty());
            lemma_update_command(tables, failed, None);
        }
    }
}

/// Settling a command in any other way keeps the store consistent.
proof fn lemma_settle_other(tables: Tables, step: Step)
    requires
        tables.is_consistent(),
        step is Settle,
        step->settlement !is CompleteAccept,
        step->settlement !is Fail,
        tables.enables(step),
    ensures
        tables.next(step).is_consistent(),
{
    if let Step::Settle { command, settlement, ids, now } = step {
        kinds_differ();
        let row = tables.commands[command.command_id];
        let record = tables.invitations[command.invitation_id];
        assert(tables.commands.contains_key(command.command_id));
        assert(tables.invitations.contains_key(command.invitation_id));
        assert(is_sound_command(row));
        assert(is_sound_record(record));
        let writes = tables.writes_of(step);
        match settlement {
            Settlement::Supersede => {
                lemma_settle_command_only(tables, superseded(row, now));
            },
            Settlement::Retry { code, delay_seconds } => {
                lemma_settle_command_only(
                    tables,
                    retried(
                        row,
                        failure_text(code),
                        crate::instants::instant_after(now, delay_seconds)->0,
                        now,
                    ),
                );
            },
            Settlement::CompleteLifecycle { recorded } => {
                lemma_settle_command_only(
                    tables,
                    finished(
                        row,
                        CommandState::Completed,
                        Some(Receipt::Lifecycle { recorded }),
                        None,
                        now,
                    ),
                );
            },
            Settlement::CompleteNotification { intent_id, delivery_id } => {
                let done = finished(
                    row,
                    CommandState::Completed,
                    Some(Receipt::Notification { intent_id, delivery_id }),
                    None,
                    now,
                );
                lemma_settle_command_only(tables, done);
                if delivers(record, command) {
                    let next = queued(record, intent_id, delivery_id, now);
                    let head = command_write(done);
                    assert(writes =~= head.push(Write::UpdateInvitation { record: next }));
                    lemma_apply_all_push(tables, head, Write::UpdateInvitation { record: next });
                    let first = tables.apply_all(head);
                    lemma_apply_one(tables, Write::UpdateCommand { row: done });
                    lemma_update_invitation(first, next, None);
                } else {
                    assert(writes =~= command_write(done));
                }
            },
            _ => {},
        }
    }
}

/// Every step leaves a consistent store consistent: one pending invitation for each address, labels
/// that are given once, tokens that can be used once, one membership command for each invitation,
/// deliveries of the current token only, reports that are true, and acceptances that are pursued.
pub proof fn steps_keep_the_store_consistent(tables: Tables, step: Step)
    requires
        tables.is_consistent(),
        tables.enables(step),
    ensures
        tables.next(step).is_consistent(),
{
    match step {
        Step::Create { .. } => lemma_create(tables, step),
        Step::Resend { .. } => lemma_resend(tables, step),
        Step::Revoke { .. } => lemma_revoke(tables, step),
        Step::AcceptLate { .. } => lemma_accept_late(tables, step),
        Step::AcceptStart { .. } => lemma_accept_start(tables, step),
        Step::Expire { .. } => lemma_expire(tables, step),
        Step::Claim { .. } => lemma_claim(tables, step),
        Step::Settle { settlement, .. } => {
            if settlement is CompleteAccept {
                lemma_settle_accept(tables, step);
            } else if settlement is Fail {
                lemma_settle_fail(tables, step);
            } else {
                lemma_settle_other(tables, step);
            }
        },
        Step::Reserve { .. } => lemma_same_rows(tables, tables.next(step), None),
        Step::Keep { caller, idempotency_key, response } => {
            lemma_apply_one(
                tables,
                Write::CompleteMutation { caller, idempotency_key, invitation: None, response },
            );
            lemma_same_rows(tables, tables.next(step), None);
        },
    }
}

} // verus!
