//! The store as a whole: what the writes of a transaction do to it, and the steps that change it.

use crate::acceptance::{late_writes, start_writes, token_stands};
use crate::commands::{
    can_lease, is_due, leased, membership_command, superseded, ADD_MEMBER, NOTIFY_INVITATION,
    NOTIFY_LIFECYCLE,
};
use crate::dispatch::{settlement_writes, Settlement};
use crate::instants::instant_after;
use crate::lifecycle::{
    can_expire, creation_writes, expiry_step, expiry_writes, refusal, revocation_writes,
    rotation_writes, Identifiers, MutationContext, NewInvitation,
};
use crate::mutations::{KeptMutation, ACCEPT};
use crate::records::{CommandRecord, CommandRow, CommandState, InvitationRecord, InvitationState};
use crate::uuids::uuid_value;
use crate::writes::{Activity, Response, ResponseModel, Write, WriteModel};
use vstd::prelude::*;

verus! {

/// A kept mutation, with what it is tied to.
#[verifier::ext_equal]
pub struct MutationRow {
    pub kept: KeptMutation<ResponseModel>,
    pub organization_id: Seq<char>,
    pub invitation_id: Option<u128>,
    pub command_id: Option<u128>,
}

/// Everything that is stored.
#[verifier::ext_equal]
pub struct Tables {
    /// By identifier.
    pub invitations: Map<u128, InvitationRecord<Seq<char>>>,
    /// By identifier.
    pub commands: Map<u128, CommandRow<Seq<char>>>,
    /// By caller and idempotency key.
    pub mutations: Map<(Seq<char>, Seq<char>), MutationRow>,
    pub activity: Seq<Activity<Seq<char>>>,
    /// The next number of each organization that has one; the first number is 1.
    pub numbers: Map<Seq<char>, i64>,
}

/// A command that waits or is under way.
pub open spec fn is_live(row: CommandRow<Seq<char>>) -> bool {
    row.state == CommandState::Pending || row.state == CommandState::InFlight
}

/// A delivery of an invitation that waits or is under way.
pub open spec fn is_live_delivery(row: CommandRow<Seq<char>>, invitation_id: u128) -> bool {
    row.invitation_id == invitation_id && row.kind == NOTIFY_INVITATION@ && is_live(row)
}

pub open spec fn key_is_taken(
    commands: Map<u128, CommandRow<Seq<char>>>,
    command_key: Seq<char>,
) -> bool {
    exists|id: u128| #[trigger]
        commands.contains_key(id) && commands[id].command_key == command_key
}

/// An acceptance that still waits for the given command.
pub open spec fn is_open_acceptance(row: MutationRow, command_id: u128) -> bool {
    row.command_id == Some(command_id) && row.kept.operation == ACCEPT@ && row.kept.response is None
}

/// The kept mutation with its answer.
pub open spec fn answered(row: MutationRow, response: ResponseModel) -> MutationRow {
    MutationRow { kept: KeptMutation { response: Some(response), ..row.kept }, ..row }
}

impl Tables {
    /// The store after one write.
    pub open spec fn apply(self, write: WriteModel) -> Tables {
        match write {
            Write::InsertInvitation { record } => Tables {
                invitations: self.invitations.insert(record.invitation_id, record),
                ..self
            },
            Write::UpdateInvitation { record } => Tables {
                invitations: self.invitations.insert(record.invitation_id, record),
                ..self
            },
            Write::SupersedeNotifications { invitation_id, at } => Tables {
                commands: self.commands.map_values(
                    |row: CommandRow<Seq<char>>|
                        if is_live_delivery(row, invitation_id) {
                            superseded(row, at)
                        } else {
                            row
                        },
                ),
                ..self
            },
            Write::InsertCommand { row } => if key_is_taken(self.commands, row.command_key) {
                self
            } else {
                Tables { commands: self.commands.insert(row.command_id, row), ..self }
            },
            Write::UpdateCommand { row } => Tables {
                commands: self.commands.insert(row.command_id, row),
                ..self
            },
            Write::InsertActivity { activity } => Tables {
                activity: self.activity.push(activity),
                ..self
            },
            Write::CompleteMutation { caller, idempotency_key, invitation, response } => {
                let key = (caller, idempotency_key);
                let row = self.mutations[key];
                Tables {
                    mutations: self.mutations.insert(
                        key,
                        MutationRow {
                            invitation_id: if invitation is Some {
                                invitation
                            } else {
                                row.invitation_id
                            },
                            command_id: None,
                            ..answered(row, response)
                        },
                    ),
                    ..self
                }
            },
            Write::BindMutation {
                caller,
                idempotency_key,
                organization_id,
                invitation_id,
                command_id,
            } => {
                let key = (caller, idempotency_key);
                Tables {
                    mutations: self.mutations.insert(
                        key,
                        MutationRow {
                            organization_id,
                            invitation_id: Some(invitation_id),
                            command_id: Some(command_id),
                            ..self.mutations[key]
                        },
                    ),
                    ..self
                }
            },
            Write::ReleaseMutation { caller, idempotency_key } => Tables {
                mutations: self.mutations.remove((caller, idempotency_key)),
                ..self
            },
            Write::CompleteAcceptance { command_id, accepted } => Tables {
                mutations: self.mutations.map_values(
                    |row: MutationRow|
                        if is_open_acceptance(row, command_id) {
                            answered(row, Response::Acceptance { accepted })
                        } else {
                            row
                        },
                ),
                ..self
            },
            Write::ReleaseAcceptance { command_id } => Tables {
                mutations: self.mutations.restrict(
                    Set::new(
                        |key: (Seq<char>, Seq<char>)|
                            !is_open_acceptance(self.mutations[key], command_id),
                    ),
                ),
                ..self
            },
        }
    }

    /// The store after the writes of a transaction.
    pub open spec fn apply_all(self, writes: Seq<WriteModel>) -> Tables
        decreases writes.len(),
    {
        if writes.len() == 0 {
            self
        } else {
            self.apply_all(writes.drop_last()).apply(writes.last())
        }
    }

    /// The number that the next invitation of an organization gets.
    pub open spec fn next_number(self, organization_id: Seq<char>) -> i64 {
        if self.numbers.contains_key(organization_id) {
            self.numbers[organization_id]
        } else {
            1
        }
    }

    /// Whether an invitation is pending for an address.
    pub open spec fn has_pending(self, organization_id: Seq<char>, email: Seq<char>) -> bool {
        exists|id: u128| #[trigger]
            self.invitations.contains_key(id) && self.invitations[id].organization_id
                == organization_id && self.invitations[id].email_normalized == email
                && self.invitations[id].state == InvitationState::Pending
    }

    /// The invitation of an organization with the given identifier.
    pub open spec fn find(self, organization_id: Seq<char>, invitation_id: u128) -> Option<
        InvitationRecord<Seq<char>>,
    > {
        match self.invitations.get(invitation_id) {
            Some(record) => if record.organization_id == organization_id {
                Some(record)
            } else {
                None
            },
            None => None,
        }
    }

    /// The invitation with the given identifier is the one of an organization with a label.
    pub open spec fn is_labelled(
        self,
        invitation_id: u128,
        organization_id: Seq<char>,
        label: Seq<char>,
    ) -> bool {
        &&& self.invitations.contains_key(invitation_id)
        &&& self.invitations[invitation_id].organization_id == organization_id
        &&& self.invitations[invitation_id].identifier == label
    }

    /// The invitation of an organization with the given label.
    pub open spec fn find_by_label(self, organization_id: Seq<char>, label: Seq<char>) -> Option<
        InvitationRecord<Seq<char>>,
    > {
        if exists|id: u128| self.is_labelled(id, organization_id, label) {
            Some(self.invitations[choose|id: u128| self.is_labelled(id, organization_id, label)])
        } else {
            None
        }
    }

    /// The invitation of an organization that a reference names: by the text of its identifier, or
    /// by its label.
    pub open spec fn find_by_reference(
        self,
        organization_id: Seq<char>,
        reference: Seq<char>,
    ) -> Option<InvitationRecord<Seq<char>>> {
        match uuid_value(reference) {
            Some(id) => self.find(organization_id, id),
            None => self.find_by_label(organization_id, reference),
        }
    }
}

/// The call that a mutation is made by.
#[verifier::ext_equal]
pub struct Call {
    pub context: MutationContext<Seq<char>>,
    pub request_hash: Seq<u8>,
}

impl Call {
    pub open spec fn key(self) -> (Seq<char>, Seq<char>) {
        (self.context.caller, self.context.idempotency_key)
    }
}

/// A committed transaction that changes the store.
#[verifier::ext_equal]
pub enum Step {
    Create {
        input: NewInvitation<Seq<char>>,
        call: Call,
        number: i64,
        token_ttl_seconds: i64,
        ids: Identifiers,
        now: i64,
    },
    Resend {
        organization_id: Seq<char>,
        invitation_id: u128,
        call: Call,
        expected_revision: i64,
        token_hash: Seq<char>,
        token_ttl_seconds: i64,
        ids: Identifiers,
        now: i64,
    },
    Revoke {
        organization_id: Seq<char>,
        invitation_id: u128,
        call: Call,
        expected_revision: i64,
        reason: Seq<char>,
        ids: Identifiers,
        now: i64,
    },
    /// An acceptance that comes after the deadline.
    AcceptLate {
        invitation_id: u128,
        call: Call,
        expected_revision: i64,
        ids: Identifiers,
        now: i64,
    },
    /// An acceptance that consumes the token.
    AcceptStart {
        invitation_id: u128,
        call: Call,
        expected_revision: i64,
        observed_generation: i64,
        token_hash: Seq<char>,
        ids: Identifiers,
        lease_token: u128,
        lease_seconds: i64,
        now: i64,
    },
    /// One invitation of an expiry batch.
    Expire { invitation_id: u128, actor: Seq<char>, ids: Identifiers, now: i64 },
    /// One command of a dispatch batch.
    Claim { command_id: u128, lease_token: u128, lease_seconds: i64, now: i64 },
    Settle {
        command: CommandRecord<Seq<char>>,
        settlement: Settlement<Seq<char>>,
        ids: Identifiers,
        now: i64,
    },
    /// The start of a batch.
    Reserve { operation: Seq<char>, call: Call, organization_id: Seq<char> },
    /// The end of a batch.
    Keep { caller: Seq<char>, idempotency_key: Seq<char>, response: ResponseModel },
}

/// A held command is the one that is stored: what it is for does not change.
pub open spec fn describes(
    command: CommandRecord<Seq<char>>,
    row: CommandRow<Seq<char>>,
) -> bool {
    &&& command.command_id == row.command_id
    &&& command.organization_id == row.organization_id
    &&& command.invitation_id == row.invitation_id
    &&& command.kind == row.kind
    &&& command.command_key == row.command_key
    &&& command.token_generation == row.token_generation
    &&& command.acceptance_subject == row.acceptance_subject
    &&& command.lifecycle == row.lifecycle
}

/// Receipts settle the kind of command that they are for. A membership command is dropped only
/// once its invitation has ended.
pub open spec fn fits(
    settlement: Settlement<Seq<char>>,
    kind: Seq<char>,
    invitation: InvitationRecord<Seq<char>>,
) -> bool {
    match settlement {
        Settlement::CompleteAccept { .. } => kind == ADD_MEMBER@,
        Settlement::CompleteNotification { .. } => kind == NOTIFY_INVITATION@,
        Settlement::CompleteLifecycle { .. } => kind == NOTIFY_LIFECYCLE@,
        Settlement::Supersede => kind == ADD_MEMBER@ ==> invitation.state
            != InvitationState::Pending,
        _ => true,
    }
}

/// A new mutation under a key that was free.
pub open spec fn reserved(
    operation: Seq<char>,
    call: Call,
    organization_id: Seq<char>,
) -> MutationRow {
    MutationRow {
        kept: KeptMutation {
            operation,
            actor_subject: call.context.actor,
            request_hash: call.request_hash,
            response: None,
        },
        organization_id,
        invitation_id: None,
        command_id: None,
    }
}

/// The organization that an acceptance is kept under before its invitation is known.
pub const PENDING_LOOKUP: &'static str = "pending-resource-lookup";

impl Tables {
    pub open spec fn reserve(
        self,
        operation: Seq<char>,
        call: Call,
        organization_id: Seq<char>,
    ) -> Tables {
        Tables {
            mutations: self.mutations.insert(
                call.key(),
                reserved(operation, call, organization_id),
            ),
            ..self
        }
    }

    /// The command that is stored under the key of the given one, once that is inserted.
    pub open spec fn stored_command(self, row: CommandRow<Seq<char>>) -> CommandRow<Seq<char>> {
        if key_is_taken(self.commands, row.command_key) {
            self.commands[choose|id: u128| #[trigger]
                self.commands.contains_key(id) && self.commands[id].command_key
                    == row.command_key]
        } else {
            row
        }
    }

    /// Whether a step can be taken: exactly where the functions of the library give its writes.
    /// New rows get identifiers that are not in use, and a command is settled with what fits it,
    /// as its execution does.
    pub open spec fn enables(self, step: Step) -> bool {
        match step {
            Step::Create { input, call, number, token_ttl_seconds, ids, now } => {
                &&& !self.mutations.contains_key(call.key())
                &&& !self.has_pending(input.organization_id, input.email_normalized)
                &&& number == self.next_number(input.organization_id)
                &&& 0 < number < i64::MAX
                &&& instant_after(now, token_ttl_seconds) is Some
                &&& !self.invitations.contains_key(input.invitation_id)
                &&& !self.commands.contains_key(ids.command_id)
            },
            Step::Resend {
                organization_id,
                invitation_id,
                call,
                expected_revision,
                token_hash,
                token_ttl_seconds,
                ids,
                now,
            } => {
                let found = self.find(organization_id, invitation_id);
                &&& !self.mutations.contains_key(call.key())
                &&& refusal(found, expected_revision) is None
                &&& found->0.token_generation < i64::MAX
                &&& found->0.revision < i64::MAX
                &&& instant_after(now, token_ttl_seconds) is Some
                &&& !self.commands.contains_key(ids.command_id)
            },
            Step::Revoke {
                organization_id,
                invitation_id,
                call,
                expected_revision,
                reason,
                ids,
                now,
            } => {
                let found = self.find(organization_id, invitation_id);
                &&& !self.mutations.contains_key(call.key())
                &&& refusal(found, expected_revision) is None
                &&& found->0.revision < i64::MAX
                &&& !self.commands.contains_key(ids.command_id)
            },
            Step::AcceptLate { invitation_id, call, expected_revision, ids, now } => {
                let found = self.invitations.get(invitation_id);
                &&& !self.mutations.contains_key(call.key())
                &&& refusal(found, expected_revision) is None
                &&& found->0.token_expires_at <= now
                &&& can_expire(found->0)
                &&& !self.commands.contains_key(ids.command_id)
            },
            Step::AcceptStart {
                invitation_id,
                call,
                expected_revision,
                observed_generation,
                token_hash,
                ids,
                lease_token,
                lease_seconds,
                now,
            } => {
                let found = self.invitations.get(invitation_id);
                &&& !self.mutations.contains_key(call.key())
                &&& refusal(found, expected_revision) is None
                &&& found->0.token_expires_at > now
                &&& token_stands(found->0, observed_generation, token_hash)
                &&& found->0.revision < i64::MAX
                &&& can_lease(
                    self.stored_command(
                        membership_command(
                            ids.command_id,
                            found->0.organization_id,
                            invitation_id,
                            call.context.actor,
                            now,
                        ),
                    ),
                    now,
                    lease_seconds,
                )
                &&& !self.commands.contains_key(ids.command_id)
            },
            Step::Expire { invitation_id, actor, ids, now } => {
                let found = self.invitations.get(invitation_id);
                &&& found is Some
                &&& found->0.acceptance_subject is None
                &&& found->0.token_expires_at <= now
                &&& can_expire(found->0)
                &&& !self.commands.contains_key(ids.command_id)
            },
            Step::Claim { command_id, lease_token, lease_seconds, now } => {
                let found = self.commands.get(command_id);
                &&& found is Some
                &&& is_due(found->0, now)
                &&& can_lease(found->0, now, lease_seconds)
            },
            Step::Settle { command, settlement, ids, now } => {
                let row = self.commands.get(command.command_id);
                let found = self.invitations.get(command.invitation_id);
                &&& row is Some
                &&& describes(command, row->0)
                &&& found is Some
                &&& fits(settlement, command.kind, found->0)
                &&& settlement_writes(settlement, row, found, command, ids, now) is Some
                &&& !self.commands.contains_key(ids.command_id)
            },
            Step::Reserve { operation, call, organization_id } => {
                &&& !self.mutations.contains_key(call.key())
                &&& operation != ACCEPT@
            },
            Step::Keep { caller, idempotency_key, response } => {
                let key = (caller, idempotency_key);
                &&& self.mutations.contains_key(key)
                &&& self.mutations[key].kept.response is None
                &&& self.mutations[key].kept.operation != ACCEPT@
            },
        }
    }
}

impl Tables {
    /// The store when the writes of a step start: with its key reserved, and its number taken.
    pub open spec fn prepared(self, step: Step) -> Tables {
        match step {
            Step::Create { input, call, number, .. } => Tables {
                numbers: self.numbers.insert(input.organization_id, (number + 1) as i64),
                ..self.reserve("invite"@, call, input.organization_id)
            },
            Step::Resend { organization_id, call, .. } => self.reserve(
                "resend"@,
                call,
                organization_id,
            ),
            Step::Revoke { organization_id, call, .. } => self.reserve(
                "revoke"@,
                call,
                organization_id,
            ),
            Step::AcceptLate { call, .. } => self.reserve(ACCEPT@, call, PENDING_LOOKUP@),
            Step::AcceptStart { call, .. } => self.reserve(ACCEPT@, call, PENDING_LOOKUP@),
            Step::Reserve { operation, call, organization_id } => self.reserve(
                operation,
                call,
                organization_id,
            ),
            _ => self,
        }
    }

    /// What a step writes.
    pub open spec fn writes_of(self, step: Step) -> Seq<WriteModel> {
        match step {
            Step::Create { input, call, number, token_ttl_seconds, ids, now } => creation_writes(
                input,
                call.context,
                number,
                instant_after(now, token_ttl_seconds)->0,
                ids,
                now,
            ),
            Step::Resend {
                organization_id,
                invitation_id,
                call,
                expected_revision,
                token_hash,
                token_ttl_seconds,
                ids,
                now,
            } => rotation_writes(
                self.find(organization_id, invitation_id)->0,
                call.context,
                token_hash,
                instant_after(now, token_ttl_seconds)->0,
                ids,
                now,
            ),
            Step::Revoke {
                organization_id,
                invitation_id,
                call,
                expected_revision,
                reason,
                ids,
                now,
            } => revocation_writes(
                self.find(organization_id, invitation_id)->0,
                call.context,
                reason,
                ids,
                now,
            ),
            Step::AcceptLate { invitation_id, call, expected_revision, ids, now } => late_writes(
                self.invitations[invitation_id],
                call.context,
                ids,
                now,
            ),
            Step::AcceptStart {
                invitation_id,
                call,
                expected_revision,
                observed_generation,
                token_hash,
                ids,
                lease_token,
                lease_seconds,
                now,
            } => {
                let record = self.invitations[invitation_id];
                let command = membership_command(
                    ids.command_id,
                    record.organization_id,
                    invitation_id,
                    call.context.actor,
                    now,
                );
                seq![Write::InsertCommand { row: command }] + start_writes(
                    record,
                    self.stored_command(command),
                    call.context,
                    lease_token,
                    instant_after(now, lease_seconds)->0,
                    ids.activity_id,
                    now,
                )
            },
            Step::Expire { invitation_id, actor, ids, now } => expiry_step(
                (self.invitations[invitation_id], ids),
                actor,
                now,
            ),
            Step::Claim { command_id, lease_token, lease_seconds, now } => seq![
                Write::UpdateCommand {
                    row: leased(
                        self.commands[command_id],
                        lease_token,
                        instant_after(now, lease_seconds)->0,
                        now,
                    ),
                },
            ],
            Step::Settle { command, settlement, ids, now } => settlement_writes(
                settlement,
                self.commands.get(command.command_id),
                self.invitations.get(command.invitation_id),
                command,
                ids,
                now,
            )->0,
            Step::Reserve { .. } => Seq::empty(),
            Step::Keep { caller, idempotency_key, response } => seq![
                Write::CompleteMutation { caller, idempotency_key, invitation: None, response },
            ],
        }
    }

    /// The store after a step.
    pub open spec fn next(self, step: Step) -> Tables {
        self.prepared(step).apply_all(self.writes_of(step))
    }
}

/// Writes are applied one behind the other.
pub proof fn lemma_apply_all_push(tables: Tables, writes: Seq<WriteModel>, write: WriteModel)
    ensures
        tables.apply_all(writes.push(write)) == tables.apply_all(writes).apply(write),
{
    assert(writes.push(write).drop_last() =~= writes);
}

/// Two groups of writes do together what they do one behind the other.
pub proof fn lemma_apply_all_concat(tables: Tables, first: Seq<WriteModel>, second: Seq<WriteModel>)
    ensures
        tables.apply_all(first + second) == tables.apply_all(first).apply_all(second),
    decreases second.len(),
{
    if second.len() == 0 {
        assert(first + second =~= first);
    } else {
        lemma_apply_all_concat(tables, first, second.drop_last());
        assert((first + second).drop_last() =~= first + second.drop_last());
        assert((first + second).last() == second.last());
    }
}

/// One write.
pub proof fn lemma_apply_one(tables: Tables, a: WriteModel)
    ensures
        tables.apply_all(seq![a]) == tables.apply(a),
{
    lemma_apply_all_push(tables, Seq::empty(), a);
    assert(Seq::<WriteModel>::empty().push(a) =~= seq![a]);
}

/// Three writes, one behind the other.
pub proof fn lemma_apply_three(tables: Tables, a: WriteModel, b: WriteModel, c: WriteModel)
    ensures
        tables.apply_all(seq![a, b, c]) == tables.apply(a).apply(b).apply(c),
{
    lemma_apply_one(tables, a);
    lemma_apply_all_push(tables, seq![a], b);
    lemma_apply_all_push(tables, seq![a, b], c);
    assert(seq![a].push(b) =~= seq![a, b]);
    assert(seq![a, b].push(c) =~= seq![a, b, c]);
}

/// Four writes, one behind the other.
pub proof fn lemma_apply_four(
    tables: Tables,
    a: WriteModel,
    b: WriteModel,
    c: WriteModel,
    d: WriteModel,
)
    ensures
        tables.apply_all(seq![a, b, c, d]) == tables.apply(a).apply(b).apply(c).apply(d),
{
    lemma_apply_three(tables, a, b, c);
    lemma_apply_all_push(tables, seq![a, b, c], d);
    assert(seq![a, b, c].push(d) =~= seq![a, b, c, d]);
}

/// Five writes, one behind the other.
pub proof fn lemma_apply_five(
    tables: Tables,
    a: WriteModel,
    b: WriteModel,
    c: WriteModel,
    d: WriteModel,
    e: WriteModel,
)
    ensures
        tables.apply_all(seq![a, b, c, d, e]) == tables.apply(a).apply(b).apply(c).apply(d).apply(
            e,
        ),
{
    lemma_apply_four(tables, a, b, c, d);
    lemma_apply_all_push(tables, seq![a, b, c, d], e);
    assert(seq![a, b, c, d].push(e) =~= seq![a, b, c, d, e]);
}

/// An expiry batch does what its invitations do one behind the other.
pub proof fn batches_expire_one_by_one(
    tables: Tables,
    rows: Seq<(InvitationRecord<Seq<char>>, Identifiers)>,
    actor: Seq<char>,
    now: i64,
)
    requires
        rows.len() > 0,
    ensures
        tables.apply_all(expiry_writes(rows, actor, now)) == tables.apply_all(
            expiry_writes(rows.drop_last(), actor, now),
        ).apply_all(expiry_step(rows.last(), actor, now)),
{
    lemma_apply_all_concat(
        tables,
        expiry_writes(rows.drop_last(), actor, now),
        expiry_step(rows.last(), actor, now),
    );
}

} // verus!
