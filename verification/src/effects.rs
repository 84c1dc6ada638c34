//! What each operation does to the store: to its invitation, to the commands, to the activity log
//! and to the answers that are kept.

use crate::batches::lemma_report_keys_are_free;
use crate::commands::{
    kinds_are_told_apart_by_their_keys, kinds_differ, lifecycle_key, notify_key,
    notify_keys_differ, ADD_MEMBER, NOTIFY_INVITATION,
};
use crate::dispatch::failure_text;
use crate::invariants::{
    is_delivery, is_joining, is_report, is_sound_command, lemma_membership_key_is_free,
};
use crate::lifecycle::expiration_writes;
use crate::records::{
    state_text, CommandRow, CommandState, DeliveryState, InvitationRecord, InvitationState,
    InvitationView, Receipt,
};
use crate::settlement::failure_consequences;
use crate::tables::{
    key_is_taken, lemma_apply_all_concat, lemma_apply_all_push, lemma_apply_five,
    lemma_apply_four, lemma_apply_one, lemma_apply_three, Step, Tables,
};
use crate::text::decimal;
use crate::uuids::uuid_text;
use crate::writes::{ActivityKind, Evidence, Response, ResponseModel, Write};
use vstd::prelude::*;

verus! {

/// A command is as it was, or it was a delivery of the given invitation that waited or was under
/// way and has been dropped.
pub open spec fn is_left_or_dropped(
    before: CommandRow<Seq<char>>,
    row: CommandRow<Seq<char>>,
    invitation_id: u128,
    now: i64,
) -> bool {
    if before.invitation_id == invitation_id && before.kind == "notify_invitation"@ && (before.state
        == CommandState::Pending || before.state == CommandState::InFlight) {
        &&& row.command_id == before.command_id
        &&& row.organization_id == before.organization_id
        &&& row.invitation_id == before.invitation_id
        &&& row.kind == before.kind
        &&& row.command_key == before.command_key
        &&& row.token_generation == before.token_generation
        &&& row.acceptance_subject == before.acceptance_subject
        &&& row.lifecycle == before.lifecycle
        &&& row.state == CommandState::Superseded
        &&& row.attempts == before.attempts
        &&& row.available_at == before.available_at
        &&& row.lease_token is None
        &&& row.lease_until is None
        &&& row.last_error == before.last_error
        &&& row.receipt == before.receipt
        &&& row.updated_at == now
        &&& row.completed_at == Some(now)
    } else {
        row == before
    }
}

/// What a view shows of an invitation.
pub open spec fn shows(
    view: InvitationView<Seq<char>>,
    record: InvitationRecord<Seq<char>>,
) -> bool {
    &&& view.invitation_id == record.invitation_id
    &&& view.identifier == record.identifier
    &&& view.organization_id == record.organization_id
    &&& view.email == record.email
    &&& view.state == record.state
    &&& view.inviter_subject == record.inviter_subject
    &&& view.accepted_subject == (if record.state == InvitationState::Accepted {
        record.acceptance_subject
    } else {
        None
    })
    &&& view.revision == record.revision
    &&& view.token_expires_at == record.token_expires_at
    &&& view.acceptance_pending <==> record.state == InvitationState::Pending
        && record.acceptance_subject is Some
    &&& view.delivery_state == record.delivery_state
    &&& view.created_at == record.created_at
    &&& view.updated_at == record.updated_at
    &&& view.accepted_at == record.accepted_at
    &&& view.revoked_at == record.revoked_at
    &&& view.expired_at == record.expired_at
}

/// While a token generation has not been made, the key of its delivery is free.
proof fn lemma_notify_keys_are_free(tables: Tables, id: u128, generation: i64)
    requires
        tables.is_consistent(),
        generation >= 1,
        tables.invitations.contains_key(id) ==> generation
            > tables.invitations[id].token_generation,
    ensures
        !key_is_taken(tables.commands, notify_key(id, generation)),
{
    kinds_differ();
    if key_is_taken(tables.commands, notify_key(id, generation)) {
        let command = choose|command: u128| #[trigger]
            tables.commands.contains_key(command) && tables.commands[command].command_key
                == notify_key(id, generation);
        let row = tables.commands[command];
        assert(is_sound_command(row));
        if is_delivery(row) {
            notify_keys_differ(row.invitation_id, row.token_generation->0, id, generation);
        } else if is_joining(row) {
            kinds_are_told_apart_by_their_keys(
                id,
                generation,
                id,
                InvitationState::Pending,
                row.invitation_id,
            );
        } else {
            assert(is_report(row));
            let state = choose|state: InvitationState|
                {
                    &&& state != InvitationState::Pending
                    &&& row.lifecycle == Some(#[trigger] state_text(state))
                    &&& row.command_key == lifecycle_key(row.invitation_id, state)
                };
            kinds_are_told_apart_by_their_keys(id, generation, row.invitation_id, state, id);
        }
    }
}

/// Dropping deliveries leaves the keys and the identifiers of commands.
proof fn lemma_dropping_leaves_keys(
    tables: Tables,
    invitation_id: u128,
    at: i64,
    key: Seq<char>,
)
    ensures
        ({
            let dropped = tables.apply(Write::SupersedeNotifications { invitation_id, at });
            &&& dropped.commands.dom() == tables.commands.dom()
            &&& key_is_taken(dropped.commands, key) <==> key_is_taken(tables.commands, key)
            &&& forall|id: u128| #[trigger]
                tables.commands.contains_key(id) ==> is_left_or_dropped(
                    tables.commands[id],
                    dropped.commands[id],
                    invitation_id,
                    at,
                )
        }),
{
    let dropped = tables.apply(Write::SupersedeNotifications { invitation_id, at });
    assert(dropped.commands.dom() =~= tables.commands.dom());
    assert forall|id: u128| #[trigger] tables.commands.contains_key(id) implies is_left_or_dropped(
        tables.commands[id],
        dropped.commands[id],
        invitation_id,
        at,
    ) && dropped.commands[id].command_key == tables.commands[id].command_key by {
        assert(dropped.commands.contains_key(id));
    }
    if key_is_taken(tables.commands, key) {
        let id = choose|id: u128| #[trigger]
            tables.commands.contains_key(id) && tables.commands[id].command_key == key;
        assert(dropped.commands.contains_key(id));
    }
    if key_is_taken(dropped.commands, key) {
        let id = choose|id: u128| #[trigger]
            dropped.commands.contains_key(id) && dropped.commands[id].command_key == key;
        assert(tables.commands.contains_key(id));
    }
}

/// A new invitation is what the request says: for its address, by its actor, under the next label
/// of its organization, pending, with the first token and a deadline that many seconds ahead. Its
/// first token is delivered, the log says who made it, and the key keeps the answer.
#[verifier::rlimit(40)]
pub proof fn creations_store_what_was_asked(tables: Tables, step: Step)
    requires
        tables.is_consistent(),
        step is Create,
        tables.enables(step),
    ensures
        match step {
            Step::Create { input, call, number, token_ttl_seconds, ids, now } => {
                let next = tables.next(step);
                let id = input.invitation_id;
                let record = next.invitations[id];
                let command = next.commands[ids.command_id];
                let entry = next.activity.last();
                let kept = next.mutations[call.key()];
                &&& next.invitations.contains_key(id)
                &&& record.invitation_id == input.invitation_id
                &&& record.organization_id == input.organization_id
                &&& record.identifier == "INV-"@ + decimal(number as int)
                &&& record.email == input.email
                &&& record.email_normalized == input.email_normalized
                &&& record.state == InvitationState::Pending
                &&& record.inviter_subject == call.context.actor
                &&& record.acceptance_subject is None
                &&& record.token_hash == Some(input.token_hash)
                &&& record.token_generation == 1
                &&& record.token_expires_at == now + token_ttl_seconds * 1_000_000
                &&& record.token_consumed_at is None
                &&& record.revision == 1
                &&& record.delivery_state == DeliveryState::Pending
                &&& record.delivery_intent_id is None
                &&& record.delivery_id is None
                &&& record.membership_id is None
                &&& record.revoke_reason is None
                &&& record.created_at == now
                &&& record.updated_at == now
                &&& record.accepted_at is None
                &&& record.revoked_at is None
                &&& record.expired_at is None
                &&& forall|other: u128|
                    other != id ==> (#[trigger] next.invitations.contains_key(other)
                        <==> tables.invitations.contains_key(other)) && next.invitations[other]
                        == tables.invitations[other]
                &&& next.commands.contains_key(ids.command_id)
                &&& command.command_id == ids.command_id
                &&& command.organization_id == input.organization_id
                &&& command.invitation_id == id
                &&& command.kind == "notify_invitation"@
                &&& command.command_key == "notify:"@ + uuid_text(id) + ":"@ + decimal(1)
                &&& command.token_generation == Some(1i64)
                &&& command.acceptance_subject is None
                &&& command.lifecycle is None
                &&& command.state == CommandState::Pending
                &&& command.attempts == 0
                &&& command.available_at == now
                &&& command.lease_token is None
                &&& command.lease_until is None
                &&& command.last_error is None
                &&& command.receipt is None
                &&& command.updated_at == now
                &&& command.completed_at is None
                &&& forall|other: u128|
                    other != ids.command_id ==> (#[trigger] next.commands.contains_key(other)
                        <==> tables.commands.contains_key(other)) && next.commands[other]
                        == tables.commands[other]
                &&& next.activity.drop_last() == tables.activity
                &&& next.activity.len() == tables.activity.len() + 1
                &&& entry.activity_id == ids.activity_id
                &&& entry.organization_id == record.organization_id
                &&& entry.invitation_id == record.invitation_id
                &&& entry.kind == ActivityKind::Created
                &&& entry.actor_subject == call.context.actor
                &&& entry.invitation_revision == 1
                &&& entry.evidence == (Evidence::<Seq<char>>::Creation {
                    email_normalized: input.email_normalized,
                    token_generation: 1,
                })
                &&& next.mutations.contains_key(call.key())
                &&& kept.kept.operation == "invite"@
                &&& kept.kept.actor_subject == call.context.actor
                &&& kept.kept.request_hash == call.request_hash
                &&& kept.kept.response == Some::<ResponseModel>(Response::Token {
                        invitation: kept.kept.response->0->Token_invitation,
                        token_generation: 1,
                    })
                &&& kept.organization_id == input.organization_id
                &&& kept.invitation_id == Some(id)
                &&& kept.command_id is None
                &&& shows(kept.kept.response->0->Token_invitation, record)
                &&& kept.kept.response->0->Token_invitation.email == input.email
                &&& kept.kept.response->0->Token_invitation.inviter_subject == call.context.actor
                &&& forall|other: (Seq<char>, Seq<char>)|
                    other != call.key() ==> (#[trigger] next.mutations.contains_key(other)
                        <==> tables.mutations.contains_key(other)) && next.mutations[other]
                        == tables.mutations[other]
                &&& next.numbers == tables.numbers.insert(
                    input.organization_id,
                    (number + 1) as i64,
                )
            },
            _ => true,
        },
{
    let start = tables.prepared(step);
    let writes = tables.writes_of(step);
    if let Step::Create { input, call, number, token_ttl_seconds, ids, now } = step {
        lemma_apply_four(start, writes[0], writes[1], writes[2], writes[3]);
        assert(writes =~= seq![writes[0], writes[1], writes[2], writes[3]]);
        lemma_notify_keys_are_free(tables, input.invitation_id, 1);
        let next = tables.next(step);
        assert(next.activity.drop_last() =~= tables.activity);
    }
}

/// A resend gives its invitation a token of the next generation, with a deadline that many seconds
/// after the resend whatever the deadline was before, and leaves everything else of it. The new
/// token is delivered and the deliveries of the old one are dropped.
#[verifier::rlimit(40)]
pub proof fn resends_rotate_the_token(tables: Tables, step: Step)
    requires
        tables.is_consistent(),
        step is Resend,
        tables.enables(step),
    ensures
        match step {
            Step::Resend {
                organization_id,
                invitation_id,
                call,
                expected_revision,
                token_hash,
                token_ttl_seconds,
                ids,
                now,
            } => {
                let next = tables.next(step);
                let before = tables.invitations[invitation_id];
                let record = next.invitations[invitation_id];
                let command = next.commands[ids.command_id];
                let entry = next.activity.last();
                let kept = next.mutations[call.key()];
                &&& before.organization_id == organization_id
                &&& before.revision == expected_revision
                &&& before.state == InvitationState::Pending
                &&& before.acceptance_subject is None
                &&& next.invitations.contains_key(invitation_id)
                &&& record.invitation_id == before.invitation_id
                &&& record.organization_id == before.organization_id
                &&& record.identifier == before.identifier
                &&& record.email == before.email
                &&& record.email_normalized == before.email_normalized
                &&& record.state == before.state
                &&& record.inviter_subject == before.inviter_subject
                &&& record.acceptance_subject == before.acceptance_subject
                &&& record.token_hash == Some(token_hash)
                &&& record.token_generation == before.token_generation + 1
                &&& record.token_expires_at == now + token_ttl_seconds * 1_000_000
                &&& record.token_consumed_at == before.token_consumed_at
                &&& record.revision == expected_revision + 1
                &&& record.delivery_state == DeliveryState::Pending
                &&& record.delivery_intent_id is None
                &&& record.delivery_id is None
                &&& record.membership_id == before.membership_id
                &&& record.revoke_reason == before.revoke_reason
                &&& record.created_at == before.created_at
                &&& record.updated_at == now
                &&& record.accepted_at == before.accepted_at
                &&& record.revoked_at == before.revoked_at
                &&& record.expired_at == before.expired_at
                &&& forall|other: u128|
                    other != invitation_id ==> (#[trigger] next.invitations.contains_key(other)
                        <==> tables.invitations.contains_key(other)) && next.invitations[other]
                        == tables.invitations[other]
                &&& next.commands.contains_key(ids.command_id)
                &&& command.command_id == ids.command_id
                &&& command.organization_id == organization_id
                &&& command.invitation_id == invitation_id
                &&& command.kind == "notify_invitation"@
                &&& command.command_key == "notify:"@ + uuid_text(invitation_id) + ":"@ + decimal(
                    before.token_generation + 1,
                )
                &&& command.token_generation == Some((before.token_generation + 1) as i64)
                &&& command.acceptance_subject is None
                &&& command.lifecycle is None
                &&& command.state == CommandState::Pending
                &&& command.attempts == 0
                &&& command.available_at == now
                &&& command.lease_token is None
                &&& command.lease_until is None
                &&& command.last_error is None
                &&& command.receipt is None
                &&& command.updated_at == now
                &&& command.completed_at is None
                &&& forall|other: u128| #[trigger]
                    tables.commands.contains_key(other) ==> next.commands.contains_key(other)
                        && is_left_or_dropped(
                            tables.commands[other],
                            next.commands[other],
                            invitation_id,
                            now,
                        )
                &&& forall|other: u128| #[trigger]
                    next.commands.contains_key(other) ==> tables.commands.contains_key(other)
                        || other == ids.command_id
                &&& next.activity.drop_last() == tables.activity
                &&& next.activity.len() == tables.activity.len() + 1
                &&& entry.activity_id == ids.activity_id
                &&& entry.organization_id == record.organization_id
                &&& entry.invitation_id == record.invitation_id
                &&& entry.kind == ActivityKind::Resent
                &&& entry.actor_subject == call.context.actor
                &&& entry.invitation_revision == expected_revision + 1
                &&& entry.evidence == (Evidence::<Seq<char>>::Rotation {
                    token_generation: (before.token_generation + 1) as i64,
                })
                &&& next.mutations.contains_key(call.key())
                &&& kept.kept.operation == "resend"@
                &&& kept.kept.actor_subject == call.context.actor
                &&& kept.kept.request_hash == call.request_hash
                &&& kept.kept.response == Some::<ResponseModel>(Response::Token {
                        invitation: kept.kept.response->0->Token_invitation,
                        token_generation: (before.token_generation + 1) as i64,
                    })
                &&& kept.organization_id == organization_id
                &&& kept.invitation_id == Some(invitation_id)
                &&& kept.command_id is None
                &&& shows(kept.kept.response->0->Token_invitation, record)
                &&& kept.kept.response->0->Token_invitation.token_expires_at == now
                    + token_ttl_seconds * 1_000_000
                &&& forall|other: (Seq<char>, Seq<char>)|
                    other != call.key() ==> (#[trigger] next.mutations.contains_key(other)
                        <==> tables.mutations.contains_key(other)) && next.mutations[other]
                        == tables.mutations[other]
                &&& next.numbers == tables.numbers
            },
            _ => true,
        },
{
    let start = tables.prepared(step);
    let writes = tables.writes_of(step);
    if let Step::Resend { invitation_id, ids, now, .. } = step {
        let before = tables.invitations[invitation_id];
        assert(tables.invitations.contains_key(invitation_id));
        lemma_apply_five(start, writes[0], writes[1], writes[2], writes[3], writes[4]);
        assert(writes =~= seq![writes[0], writes[1], writes[2], writes[3], writes[4]]);
        let generation = (before.token_generation + 1) as i64;
        lemma_notify_keys_are_free(tables, invitation_id, generation);
        lemma_dropping_leaves_keys(
            start,
            invitation_id,
            now,
            notify_key(invitation_id, generation),
        );
        let next = tables.next(step);
        assert(next.activity.drop_last() =~= tables.activity);
    }
}

/// A revocation ends its invitation with the reason that was given, takes its token away, and
/// leaves everything else of it. Its deliveries are dropped, and its end is reported.
#[verifier::rlimit(40)]
pub proof fn revocations_end_the_invitation(tables: Tables, step: Step)
    requires
        tables.is_consistent(),
        step is Revoke,
        tables.enables(step),
    ensures
        match step {
            Step::Revoke {
                organization_id,
                invitation_id,
                call,
                expected_revision,
                reason,
                ids,
                now,
            } => {
                let next = tables.next(step);
                let before = tables.invitations[invitation_id];
                let record = next.invitations[invitation_id];
                let command = next.commands[ids.command_id];
                let entry = next.activity.last();
                let kept = next.mutations[call.key()];
                &&& before.organization_id == organization_id
                &&& before.revision == expected_revision
                &&& before.state == InvitationState::Pending
                &&& before.acceptance_subject is None
                &&& next.invitations.contains_key(invitation_id)
                &&& record.invitation_id == before.invitation_id
                &&& record.organization_id == before.organization_id
                &&& record.identifier == before.identifier
                &&& record.email == before.email
                &&& record.email_normalized == before.email_normalized
                &&& record.state == InvitationState::Revoked
                &&& record.inviter_subject == before.inviter_subject
                &&& record.acceptance_subject == before.acceptance_subject
                &&& record.token_hash is None
                &&& record.token_generation == before.token_generation
                &&& record.token_expires_at == before.token_expires_at
                &&& record.token_consumed_at == before.token_consumed_at
                &&& record.revision == expected_revision + 1
                &&& record.delivery_state == (if before.delivery_state == DeliveryState::Pending {
                    DeliveryState::Superseded
                } else {
                    before.delivery_state
                })
                &&& record.delivery_intent_id == before.delivery_intent_id
                &&& record.delivery_id == before.delivery_id
                &&& record.membership_id == before.membership_id
                &&& record.revoke_reason == Some(reason)
                &&& record.created_at == before.created_at
                &&& record.updated_at == now
                &&& record.accepted_at == before.accepted_at
                &&& record.revoked_at == Some(now)
                &&& record.expired_at == before.expired_at
                &&& forall|other: u128|
                    other != invitation_id ==> (#[trigger] next.invitations.contains_key(other)
                        <==> tables.invitations.contains_key(other)) && next.invitations[other]
                        == tables.invitations[other]
                &&& next.commands.contains_key(ids.command_id)
                &&& command.command_id == ids.command_id
                &&& command.organization_id == organization_id
                &&& command.invitation_id == invitation_id
                &&& command.kind == "notify_lifecycle"@
                &&& command.command_key
                    == "lifecycle:"@ + uuid_text(invitation_id) + ":"@ + "revoked"@
                &&& command.token_generation is None
                &&& command.acceptance_subject is None
                &&& command.lifecycle == Some("revoked"@)
                &&& command.state == CommandState::Pending
                &&& command.attempts == 0
                &&& command.available_at == now
                &&& command.lease_token is None
                &&& command.lease_until is None
                &&& command.last_error is None
                &&& command.receipt is None
                &&& command.updated_at == now
                &&& command.completed_at is None
                &&& forall|other: u128| #[trigger]
                    tables.commands.contains_key(other) ==> next.commands.contains_key(other)
                        && is_left_or_dropped(
                            tables.commands[other],
                            next.commands[other],
                            invitation_id,
                            now,
                        )
                &&& forall|other: u128| #[trigger]
                    next.commands.contains_key(other) ==> tables.commands.contains_key(other)
                        || other == ids.command_id
                &&& next.activity.drop_last() == tables.activity
                &&& next.activity.len() == tables.activity.len() + 1
                &&& entry.activity_id == ids.activity_id
                &&& entry.organization_id == record.organization_id
                &&& entry.invitation_id == record.invitation_id
                &&& entry.kind == ActivityKind::Revoked
                &&& entry.actor_subject == call.context.actor
                &&& entry.invitation_revision == expected_revision + 1
                &&& entry.evidence == (Evidence::Revocation { reason })
                &&& next.mutations.contains_key(call.key())
                &&& kept.kept.operation == "revoke"@
                &&& kept.kept.actor_subject == call.context.actor
                &&& kept.kept.request_hash == call.request_hash
                &&& kept.kept.response == Some::<ResponseModel>(Response::Invitation {
                        invitation: kept.kept.response->0->Invitation_invitation,
                    })
                &&& kept.organization_id == organization_id
                &&& kept.invitation_id == Some(invitation_id)
                &&& kept.command_id is None
                &&& shows(kept.kept.response->0->Invitation_invitation, record)
                &&& forall|other: (Seq<char>, Seq<char>)|
                    other != call.key() ==> (#[trigger] next.mutations.contains_key(other)
                        <==> tables.mutations.contains_key(other)) && next.mutations[other]
                        == tables.mutations[other]
                &&& next.numbers == tables.numbers
            },
            _ => true,
        },
{
    let start = tables.prepared(step);
    let writes = tables.writes_of(step);
    if let Step::Revoke { invitation_id, ids, now, .. } = step {
        assert(tables.invitations.contains_key(invitation_id));
        lemma_apply_five(start, writes[0], writes[1], writes[2], writes[3], writes[4]);
        assert(writes =~= seq![writes[0], writes[1], writes[2], writes[3], writes[4]]);
        lemma_report_keys_are_free(tables, invitation_id, InvitationState::Revoked);
        lemma_dropping_leaves_keys(
            start,
            invitation_id,
            now,
            lifecycle_key(invitation_id, InvitationState::Revoked),
        );
        let next = tables.next(step);
        assert(next.activity.drop_last() =~= tables.activity);
    }
}

/// An acceptance after the deadline expires its invitation and leaves everything else of it.
/// Nothing is kept under its key, its deliveries are dropped, and its end is reported.
#[verifier::rlimit(40)]
pub proof fn late_acceptances_expire_the_invitation(tables: Tables, step: Step)
    requires
        tables.is_consistent(),
        step is AcceptLate,
        tables.enables(step),
    ensures
        match step {
            Step::AcceptLate { invitation_id, call, expected_revision, ids, now } => {
                let next = tables.next(step);
                let before = tables.invitations[invitation_id];
                let record = next.invitations[invitation_id];
                let command = next.commands[ids.command_id];
                let entry = next.activity.last();
                &&& before.revision == expected_revision
                &&& before.state == InvitationState::Pending
                &&& before.acceptance_subject is None
                &&& before.token_expires_at <= now
                &&& next.invitations.contains_key(invitation_id)
                &&& record.invitation_id == before.invitation_id
                &&& record.organization_id == before.organization_id
                &&& record.identifier == before.identifier
                &&& record.email == before.email
                &&& record.email_normalized == before.email_normalized
                &&& record.state == InvitationState::Expired
                &&& record.inviter_subject == before.inviter_subject
                &&& record.acceptance_subject == before.acceptance_subject
                &&& record.token_hash is None
                &&& record.token_generation == before.token_generation
                &&& record.token_expires_at == before.token_expires_at
                &&& record.token_consumed_at == before.token_consumed_at
                &&& record.revision == before.revision + 1
                &&& record.delivery_state == (if before.delivery_state == DeliveryState::Pending {
                    DeliveryState::Superseded
                } else {
                    before.delivery_state
                })
                &&& record.delivery_intent_id == before.delivery_intent_id
                &&& record.delivery_id == before.delivery_id
                &&& record.membership_id == before.membership_id
                &&& record.revoke_reason == before.revoke_reason
                &&& record.created_at == before.created_at
                &&& record.updated_at == now
                &&& record.accepted_at == before.accepted_at
                &&& record.revoked_at == before.revoked_at
                &&& record.expired_at == Some(now)
                &&& forall|other: u128|
                    other != invitation_id ==> (#[trigger] next.invitations.contains_key(other)
                        <==> tables.invitations.contains_key(other)) && next.invitations[other]
                        == tables.invitations[other]
                &&& next.commands.contains_key(ids.command_id)
                &&& command.command_id == ids.command_id
                &&& command.organization_id == before.organization_id
                &&& command.invitation_id == invitation_id
                &&& command.kind == "notify_lifecycle"@
                &&& command.command_key
                    == "lifecycle:"@ + uuid_text(invitation_id) + ":"@ + "expired"@
                &&& command.token_generation is None
                &&& command.acceptance_subject is None
                &&& command.lifecycle == Some("expired"@)
                &&& command.state == CommandState::Pending
                &&& command.attempts == 0
                &&& command.available_at == now
                &&& command.lease_token is None
                &&& command.lease_until is None
                &&& command.last_error is None
                &&& command.receipt is None
                &&& command.updated_at == now
                &&& command.completed_at is None
                &&& forall|other: u128| #[trigger]
                    tables.commands.contains_key(other) ==> next.commands.contains_key(other)
                        && is_left_or_dropped(
                            tables.commands[other],
                            next.commands[other],
                            invitation_id,
                            now,
                        )
                &&& forall|other: u128| #[trigger]
                    next.commands.contains_key(other) ==> tables.commands.contains_key(other)
                        || other == ids.command_id
                &&& next.activity.drop_last() == tables.activity
                &&& next.activity.len() == tables.activity.len() + 1
                &&& entry.activity_id == ids.activity_id
                &&& entry.organization_id == record.organization_id
                &&& entry.invitation_id == record.invitation_id
                &&& entry.kind == ActivityKind::Expired
                &&& entry.actor_subject == "system:accept"@
                &&& entry.invitation_revision == expected_revision + 1
                &&& entry.evidence == Evidence::<Seq<char>>::TokenDeadline
                &&& next.mutations == tables.mutations
                &&& next.numbers == tables.numbers
            },
            _ => true,
        },
{
    let start = tables.prepared(step);
    let writes = tables.writes_of(step);
    if let Step::AcceptLate { invitation_id, call, ids, now, .. } = step {
        let record = tables.invitations[invitation_id];
        assert(tables.invitations.contains_key(invitation_id));
        let release = seq![writes[0]];
        let middle = expiration_writes(record, ids.command_id, now);
        assert(writes =~= (release + middle).push(writes.last()));
        lemma_apply_all_push(start, release + middle, writes.last());
        lemma_apply_all_concat(start, release, middle);
        lemma_apply_one(start, writes[0]);
        let first = start.apply(writes[0]);
        assert(first.mutations =~= tables.mutations);
        lemma_apply_three(first, middle[0], middle[1], middle[2]);
        assert(middle =~= seq![middle[0], middle[1], middle[2]]);
        lemma_report_keys_are_free(tables, invitation_id, InvitationState::Expired);
        lemma_dropping_leaves_keys(
            first,
            invitation_id,
            now,
            lifecycle_key(invitation_id, InvitationState::Expired),
        );
        let next = tables.next(step);
        assert(next.activity.drop_last() =~= tables.activity);
    }
}

/// An expiry ends an invitation whose deadline has passed and leaves everything else of it. Its
/// deliveries are dropped, and its end is reported.
#[verifier::rlimit(40)]
pub proof fn expiries_end_the_invitation(tables: Tables, step: Step)
    requires
        tables.is_consistent(),
        step is Expire,
        tables.enables(step),
    ensures
        match step {
            Step::Expire { invitation_id, actor, ids, now } => {
                let next = tables.next(step);
                let before = tables.invitations[invitation_id];
                let record = next.invitations[invitation_id];
                let command = next.commands[ids.command_id];
                let entry = next.activity.last();
                &&& before.state == InvitationState::Pending
                &&& before.acceptance_subject is None
                &&& before.token_expires_at <= now
                &&& next.invitations.contains_key(invitation_id)
                &&& record.invitation_id == before.invitation_id
                &&& record.organization_id == before.organization_id
                &&& record.identifier == before.identifier
                &&& record.email == before.email
                &&& record.email_normalized == before.email_normalized
                &&& record.state == InvitationState::Expired
                &&& record.inviter_subject == before.inviter_subject
                &&& record.acceptance_subject == before.acceptance_subject
                &&& record.token_hash is None
                &&& record.token_generation == before.token_generation
                &&& record.token_expires_at == before.token_expires_at
                &&& record.token_consumed_at == before.token_consumed_at
                &&& record.revision == before.revision + 1
                &&& record.delivery_state == (if before.delivery_state == DeliveryState::Pending {
                    DeliveryState::Superseded
                } else {
                    before.delivery_state
                })
                &&& record.delivery_intent_id == before.delivery_intent_id
                &&& record.delivery_id == before.delivery_id
                &&& record.membership_id == before.membership_id
                &&& record.revoke_reason == before.revoke_reason
                &&& record.created_at == before.created_at
                &&& record.updated_at == now
                &&& record.accepted_at == before.accepted_at
                &&& record.revoked_at == before.revoked_at
                &&& record.expired_at == Some(now)
                &&& forall|other: u128|
                    other != invitation_id ==> (#[trigger] next.invitations.contains_key(other)
                        <==> tables.invitations.contains_key(other)) && next.invitations[other]
                        == tables.invitations[other]
                &&& next.commands.contains_key(ids.command_id)
                &&& command.command_id == ids.command_id
                &&& command.organization_id == before.organization_id
                &&& command.invitation_id == invitation_id
                &&& command.kind == "notify_lifecycle"@
                &&& command.command_key
                    == "lifecycle:"@ + uuid_text(invitation_id) + ":"@ + "expired"@
                &&& command.token_generation is None
                &&& command.acceptance_subject is None
                &&& command.lifecycle == Some("expired"@)
                &&& command.state == CommandState::Pending
                &&& command.attempts == 0
                &&& command.available_at == now
                &&& command.lease_token is None
                &&& command.lease_until is None
                &&& command.last_error is None
                &&& command.receipt is None
                &&& command.updated_at == now
                &&& command.completed_at is None
                &&& forall|other: u128| #[trigger]
                    tables.commands.contains_key(other) ==> next.commands.contains_key(other)
                        && is_left_or_dropped(
                            tables.commands[other],
                            next.commands[other],
                            invitation_id,
                            now,
                        )
                &&& forall|other: u128| #[trigger]
                    next.commands.contains_key(other) ==> tables.commands.contains_key(other)
                        || other == ids.command_id
                &&& next.activity.drop_last() == tables.activity
                &&& next.activity.len() == tables.activity.len() + 1
                &&& entry.activity_id == ids.activity_id
                &&& entry.organization_id == record.organization_id
                &&& entry.invitation_id == record.invitation_id
                &&& entry.kind == ActivityKind::Expired
                &&& entry.actor_subject == actor
                &&& entry.invitation_revision == before.revision + 1
                &&& entry.evidence == Evidence::<Seq<char>>::TokenDeadline
                &&& next.mutations == tables.mutations
                &&& next.numbers == tables.numbers
            },
            _ => true,
        },
{
    let writes = tables.writes_of(step);
    if let Step::Expire { invitation_id, ids, now, .. } = step {
        let record = tables.invitations[invitation_id];
        assert(tables.invitations.contains_key(invitation_id));
        let middle = expiration_writes(record, ids.command_id, now);
        assert(writes =~= middle.push(writes.last()));
        lemma_apply_all_push(tables, middle, writes.last());
        lemma_apply_three(tables, middle[0], middle[1], middle[2]);
        assert(middle =~= seq![middle[0], middle[1], middle[2]]);
        lemma_report_keys_are_free(tables, invitation_id, InvitationState::Expired);
        lemma_dropping_leaves_keys(
            tables,
            invitation_id,
            now,
            lifecycle_key(invitation_id, InvitationState::Expired),
        );
        let next = tables.next(step);
        assert(next.activity.drop_last() =~= tables.activity);
    }
}

/// An acceptance takes the token of its invitation away, names its subject on it, and leaves
/// everything else of it. It stores the membership command of the subject under a lease, and ties
/// its key to that command.
#[verifier::rlimit(40)]
pub proof fn acceptances_consume_the_token(tables: Tables, step: Step)
    requires
        tables.is_consistent(),
        step is AcceptStart,
        tables.enables(step),
    ensures
        match step {
            Step::AcceptStart {
                invitation_id,
                call,
                expected_revision,
                observed_generation,
                token_hash,
                ids,
                lease_token,
                lease_seconds,
                now,
            } => {
                let next = tables.next(step);
                let before = tables.invitations[invitation_id];
                let record = next.invitations[invitation_id];
                let command = next.commands[ids.command_id];
                let entry = next.activity.last();
                let kept = next.mutations[call.key()];
                &&& before.revision == expected_revision
                &&& before.state == InvitationState::Pending
                &&& before.acceptance_subject is None
                &&& before.token_expires_at > now
                &&& before.token_generation == observed_generation
                &&& before.token_hash == Some(token_hash)
                &&& next.invitations.contains_key(invitation_id)
                &&& record.invitation_id == before.invitation_id
                &&& record.organization_id == before.organization_id
                &&& record.identifier == before.identifier
                &&& record.email == before.email
                &&& record.email_normalized == before.email_normalized
                &&& record.state == before.state
                &&& record.inviter_subject == before.inviter_subject
                &&& record.acceptance_subject == Some(call.context.actor)
                &&& record.token_hash is None
                &&& record.token_generation == before.token_generation
                &&& record.token_expires_at == before.token_expires_at
                &&& record.token_consumed_at == Some(now)
                &&& record.revision == expected_revision + 1
                &&& record.delivery_state == before.delivery_state
                &&& record.delivery_intent_id == before.delivery_intent_id
                &&& record.delivery_id == before.delivery_id
                &&& record.membership_id == before.membership_id
                &&& record.revoke_reason == before.revoke_reason
                &&& record.created_at == before.created_at
                &&& record.updated_at == now
                &&& record.accepted_at == before.accepted_at
                &&& record.revoked_at == before.revoked_at
                &&& record.expired_at == before.expired_at
                &&& forall|other: u128|
                    other != invitation_id ==> (#[trigger] next.invitations.contains_key(other)
                        <==> tables.invitations.contains_key(other)) && next.invitations[other]
                        == tables.invitations[other]
                &&& next.commands.contains_key(ids.command_id)
                &&& command.command_id == ids.command_id
                &&& command.organization_id == before.organization_id
                &&& command.invitation_id == invitation_id
                &&& command.kind == "add_member"@
                &&& command.command_key == "membership:"@ + uuid_text(invitation_id)
                &&& command.token_generation is None
                &&& command.acceptance_subject == Some(call.context.actor)
                &&& command.lifecycle is None
                &&& command.state == CommandState::InFlight
                &&& command.attempts == 1
                &&& command.available_at == now
                &&& command.lease_token == Some(lease_token)
                &&& command.lease_until == Some((now + lease_seconds * 1_000_000) as i64)
                &&& command.last_error is None
                &&& command.receipt is None
                &&& command.updated_at == now
                &&& command.completed_at is None
                &&& forall|other: u128|
                    other != ids.command_id ==> (#[trigger] next.commands.contains_key(other)
                        <==> tables.commands.contains_key(other)) && next.commands[other]
                        == tables.commands[other]
                &&& next.activity.drop_last() == tables.activity
                &&& next.activity.len() == tables.activity.len() + 1
                &&& entry.activity_id == ids.activity_id
                &&& entry.organization_id == record.organization_id
                &&& entry.invitation_id == record.invitation_id
                &&& entry.kind == ActivityKind::AcceptanceStarted
                &&& entry.actor_subject == call.context.actor
                &&& entry.invitation_revision == expected_revision + 1
                &&& entry.evidence == (Evidence::<Seq<char>>::AcceptanceStart {
                    command_id: ids.command_id,
                })
                &&& next.mutations.contains_key(call.key())
                &&& kept.kept.operation == "accept"@
                &&& kept.kept.actor_subject == call.context.actor
                &&& kept.kept.request_hash == call.request_hash
                &&& kept.kept.response is None
                &&& kept.organization_id == before.organization_id
                &&& kept.invitation_id == Some(invitation_id)
                &&& kept.command_id == Some(ids.command_id)
                &&& forall|other: (Seq<char>, Seq<char>)|
                    other != call.key() ==> (#[trigger] next.mutations.contains_key(other)
                        <==> tables.mutations.contains_key(other)) && next.mutations[other]
                        == tables.mutations[other]
                &&& next.numbers == tables.numbers
            },
            _ => true,
        },
{
    let start = tables.prepared(step);
    let writes = tables.writes_of(step);
    if let Step::AcceptStart { invitation_id, ids, now, .. } = step {
        assert(tables.invitations.contains_key(invitation_id));
        lemma_membership_key_is_free(tables, invitation_id);
        assert(writes =~= seq![writes[0], writes[1], writes[2], writes[3], writes[4]]);
        lemma_apply_five(start, writes[0], writes[1], writes[2], writes[3], writes[4]);
        let next = tables.next(step);
        assert(next.activity.drop_last() =~= tables.activity);
    }
}

/// Taking a command puts it under the lease until that many seconds ahead, counts the attempt, and
/// leaves everything else of it and of the store.
#[verifier::rlimit(40)]
pub proof fn claims_lease_the_command(tables: Tables, step: Step)
    requires
        tables.is_consistent(),
        step is Claim,
        tables.enables(step),
    ensures
        match step {
            Step::Claim { command_id, lease_token, lease_seconds, now } => {
                let next = tables.next(step);
                let before = tables.commands[command_id];
                let row = next.commands[command_id];
                &&& next == (Tables { commands: next.commands, ..tables })
                &&& next.commands.contains_key(command_id)
                &&& row.command_id == before.command_id
                &&& row.organization_id == before.organization_id
                &&& row.invitation_id == before.invitation_id
                &&& row.kind == before.kind
                &&& row.command_key == before.command_key
                &&& row.token_generation == before.token_generation
                &&& row.acceptance_subject == before.acceptance_subject
                &&& row.lifecycle == before.lifecycle
                &&& row.state == CommandState::InFlight
                &&& row.attempts == before.attempts + 1
                &&& row.available_at == before.available_at
                &&& row.lease_token == Some(lease_token)
                &&& row.lease_until == Some((now + lease_seconds * 1_000_000) as i64)
                &&& row.last_error == before.last_error
                &&& row.receipt == before.receipt
                &&& row.updated_at == now
                &&& row.completed_at == before.completed_at
                &&& forall|other: u128|
                    other != command_id ==> (#[trigger] next.commands.contains_key(other)
                        <==> tables.commands.contains_key(other)) && next.commands[other]
                        == tables.commands[other]
            },
            _ => true,
        },
{
    let writes = tables.writes_of(step);
    assert(writes =~= seq![writes[0]]);
    lemma_apply_one(tables, writes[0]);
    assert(tables.commands.contains_key(step->Claim_command_id));
}

/// Dropping a held command ends it, and changes nothing else.
#[verifier::rlimit(40)]
pub proof fn drops_end_the_command(tables: Tables, step: Step)
    requires
        tables.is_consistent(),
        step is Settle,
        step->settlement is Supersede,
        tables.enables(step),
    ensures
        match step {
            Step::Settle { command, settlement, ids, now } => {
                let next = tables.next(step);
                let before = tables.commands[command.command_id];
                let row = next.commands[command.command_id];

                &&& before.state == CommandState::InFlight
                &&& before.lease_token == Some(command.lease_token)
                &&& next == (Tables { commands: next.commands, ..tables })
                &&& next.commands == tables.commands.insert(command.command_id, row)
                &&& row.command_id == before.command_id
                &&& row.organization_id == before.organization_id
                &&& row.invitation_id == before.invitation_id
                &&& row.kind == before.kind
                &&& row.command_key == before.command_key
                &&& row.token_generation == before.token_generation
                &&& row.acceptance_subject == before.acceptance_subject
                &&& row.lifecycle == before.lifecycle
                &&& row.state == CommandState::Superseded
                &&& row.attempts == before.attempts
                &&& row.available_at == before.available_at
                &&& row.lease_token is None
                &&& row.lease_until is None
                &&& row.last_error == before.last_error
                &&& row.receipt == before.receipt
                &&& row.updated_at == now
                &&& row.completed_at == Some(now)
            },
            _ => true,
        },
{
    if let Step::Settle { command, settlement, ids, now } = step {
        kinds_differ();
        let writes = tables.writes_of(step);
        assert(tables.commands.contains_key(command.command_id));
        assert(tables.invitations.contains_key(command.invitation_id));
        assert(is_sound_command(tables.commands[command.command_id]));
        assert(writes =~= seq![writes[0]]);
        lemma_apply_one(tables, writes[0]);
    }
}

/// Putting a held command back makes it wait that many seconds, says why, keeps its attempts, and
/// changes nothing else.
#[verifier::rlimit(40)]
pub proof fn retries_put_the_command_back(tables: Tables, step: Step)
    requires
        tables.is_consistent(),
        step is Settle,
        step->settlement is Retry,
        tables.enables(step),
    ensures
        match step {
            Step::Settle { command, settlement, ids, now } => {
                let next = tables.next(step);
                let before = tables.commands[command.command_id];
                let row = next.commands[command.command_id];

                &&& before.state == CommandState::InFlight
                &&& before.lease_token == Some(command.lease_token)
                &&& next == (Tables { commands: next.commands, ..tables })
                &&& next.commands == tables.commands.insert(command.command_id, row)
                &&& row.command_id == before.command_id
                &&& row.organization_id == before.organization_id
                &&& row.invitation_id == before.invitation_id
                &&& row.kind == before.kind
                &&& row.command_key == before.command_key
                &&& row.token_generation == before.token_generation
                &&& row.acceptance_subject == before.acceptance_subject
                &&& row.lifecycle == before.lifecycle
                &&& row.state == CommandState::Pending
                &&& row.attempts == before.attempts
                &&& row.available_at == now + settlement->Retry_delay_seconds * 1_000_000
                &&& row.lease_token is None
                &&& row.lease_until is None
                &&& row.last_error == Some(failure_text(settlement->Retry_code))
                &&& row.receipt == before.receipt
                &&& row.updated_at == now
                &&& row.completed_at == before.completed_at
            },
            _ => true,
        },
{
    if let Step::Settle { command, settlement, ids, now } = step {
        kinds_differ();
        let writes = tables.writes_of(step);
        assert(tables.commands.contains_key(command.command_id));
        assert(tables.invitations.contains_key(command.invitation_id));
        assert(is_sound_command(tables.commands[command.command_id]));
        assert(writes =~= seq![writes[0]]);
        lemma_apply_one(tables, writes[0]);
    }
}

/// A report that was taken ends with its receipt, and nothing else is changed.
#[verifier::rlimit(40)]
pub proof fn reports_end_with_their_receipt(tables: Tables, step: Step)
    requires
        tables.is_consistent(),
        step is Settle,
        step->settlement is CompleteLifecycle,
        tables.enables(step),
    ensures
        match step {
            Step::Settle { command, settlement, ids, now } => {
                let next = tables.next(step);
                let before = tables.commands[command.command_id];
                let row = next.commands[command.command_id];

                &&& before.state == CommandState::InFlight
                &&& before.lease_token == Some(command.lease_token)
                &&& next == (Tables { commands: next.commands, ..tables })
                &&& next.commands == tables.commands.insert(command.command_id, row)
                &&& row.command_id == before.command_id
                &&& row.organization_id == before.organization_id
                &&& row.invitation_id == before.invitation_id
                &&& row.kind == before.kind
                &&& row.command_key == before.command_key
                &&& row.token_generation == before.token_generation
                &&& row.acceptance_subject == before.acceptance_subject
                &&& row.lifecycle == before.lifecycle
                &&& row.state == CommandState::Completed
                &&& row.attempts == before.attempts
                &&& row.available_at == before.available_at
                &&& row.lease_token is None
                &&& row.lease_until is None
                &&& row.last_error is None
                &&& row.receipt == Some(
                    Receipt::<Seq<char>>::Lifecycle { recorded: settlement->recorded },
                )
                &&& row.updated_at == now
                &&& row.completed_at == Some(now)
            },
            _ => true,
        },
{
    if let Step::Settle { command, settlement, ids, now } = step {
        kinds_differ();
        let writes = tables.writes_of(step);
        assert(tables.commands.contains_key(command.command_id));
        assert(tables.invitations.contains_key(command.invitation_id));
        assert(is_sound_command(tables.commands[command.command_id]));
        assert(writes =~= seq![writes[0]]);
        lemma_apply_one(tables, writes[0]);
    }
}

/// A delivery that was taken over ends with its receipt. Its invitation shows it, where it is still
/// pending with the token that was delivered; otherwise the invitation is left.
#[verifier::rlimit(40)]
pub proof fn deliveries_end_with_their_receipt(tables: Tables, step: Step)
    requires
        tables.is_consistent(),
        step is Settle,
        step->settlement is CompleteNotification,
        tables.enables(step),
    ensures
        match step {
            Step::Settle { command, settlement, ids, now } => {
                let next = tables.next(step);
                let before = tables.commands[command.command_id];
                let row = next.commands[command.command_id];
                let old = tables.invitations[command.invitation_id];
                let record = next.invitations[command.invitation_id];
                let intent_id = settlement->intent_id;
                let delivery_id = settlement->CompleteNotification_delivery_id;
                &&& before.state == CommandState::InFlight
                &&& before.lease_token == Some(command.lease_token)
                &&& next == (Tables {
                    commands: next.commands,
                    invitations: next.invitations,
                    ..tables
                })
                &&& next.commands == tables.commands.insert(command.command_id, row)
                &&& next.invitations == tables.invitations.insert(command.invitation_id, record)
                &&& row.command_id == before.command_id
                &&& row.organization_id == before.organization_id
                &&& row.invitation_id == before.invitation_id
                &&& row.kind == before.kind
                &&& row.command_key == before.command_key
                &&& row.token_generation == before.token_generation
                &&& row.acceptance_subject == before.acceptance_subject
                &&& row.lifecycle == before.lifecycle
                &&& row.state == CommandState::Completed
                &&& row.attempts == before.attempts
                &&& row.available_at == before.available_at
                &&& row.lease_token is None
                &&& row.lease_until is None
                &&& row.last_error is None
                &&& row.receipt == Some(Receipt::Notification { intent_id, delivery_id })
                &&& row.updated_at == now
                &&& row.completed_at == Some(now)
                &&& if old.state == InvitationState::Pending && command.token_generation == Some(
                    old.token_generation,
                ) {
                    &&& record.invitation_id == old.invitation_id
                    &&& record.organization_id == old.organization_id
                    &&& record.identifier == old.identifier
                    &&& record.email == old.email
                    &&& record.email_normalized == old.email_normalized
                    &&& record.state == old.state
                    &&& record.inviter_subject == old.inviter_subject
                    &&& record.acceptance_subject == old.acceptance_subject
                    &&& record.token_hash == old.token_hash
                    &&& record.token_generation == old.token_generation
                    &&& record.token_expires_at == old.token_expires_at
                    &&& record.token_consumed_at == old.token_consumed_at
                    &&& record.revision == old.revision
                    &&& record.delivery_state == DeliveryState::Queued
                    &&& record.delivery_intent_id == Some(intent_id)
                    &&& record.delivery_id == Some(delivery_id)
                    &&& record.membership_id == old.membership_id
                    &&& record.revoke_reason == old.revoke_reason
                    &&& record.created_at == old.created_at
                    &&& record.updated_at == now
                    &&& record.accepted_at == old.accepted_at
                    &&& record.revoked_at == old.revoked_at
                    &&& record.expired_at == old.expired_at
                } else {
                    record == old
                }
            },
            _ => true,
        },
{
    if let Step::Settle { command, settlement, ids, now } = step {
        kinds_differ();
        let writes = tables.writes_of(step);
        assert(tables.commands.contains_key(command.command_id));
        assert(tables.invitations.contains_key(command.invitation_id));
        assert(is_sound_command(tables.commands[command.command_id]));
        let record = tables.invitations[command.invitation_id];
        let next = tables.next(step);
        if record.state == InvitationState::Pending && command.token_generation == Some(
            record.token_generation,
        ) {
            assert(writes =~= seq![writes[0]].push(writes[1]));
            lemma_apply_all_push(tables, seq![writes[0]], writes[1]);
        } else {
            assert(writes =~= seq![writes[0]]);
            assert(tables.invitations =~= tables.invitations.insert(
                command.invitation_id,
                record,
            ));
        }
        lemma_apply_one(tables, writes[0]);
    }
}

/// The receipt of a membership accepts its invitation with that membership and leaves everything
/// else of it. Its command ends with the receipt, its end is reported, and every call that waits
/// for the command is answered with the invitation and the membership.
#[verifier::rlimit(40)]
pub proof fn memberships_accept_the_invitation(tables: Tables, step: Step)
    requires
        tables.is_consistent(),
        step is Settle,
        step->settlement is CompleteAccept,
        tables.enables(step),
        tables.commands[step->command.command_id].state == CommandState::InFlight,
    ensures
        match step {
            Step::Settle { command, settlement, ids, now } => {
                let next = tables.next(step);
                let before = tables.commands[command.command_id];
                let row = next.commands[command.command_id];
                let id = command.invitation_id;
                let old = tables.invitations[id];
                let record = next.invitations[id];
                let report = next.commands[ids.command_id];
                let entry = next.activity.last();
                let membership_id = settlement->membership_id;
                let provider_revision = settlement->provider_revision;
                &&& before.state == CommandState::InFlight
                &&& before.lease_token == Some(command.lease_token)
                &&& old.state == InvitationState::Pending
                &&& old.acceptance_subject is Some
                &&& old.acceptance_subject == command.acceptance_subject
                &&& next.invitations == tables.invitations.insert(id, record)
                &&& record.invitation_id == old.invitation_id
                &&& record.organization_id == old.organization_id
                &&& record.identifier == old.identifier
                &&& record.email == old.email
                &&& record.email_normalized == old.email_normalized
                &&& record.state == InvitationState::Accepted
                &&& record.inviter_subject == old.inviter_subject
                &&& record.acceptance_subject == old.acceptance_subject
                &&& record.token_hash == old.token_hash
                &&& record.token_generation == old.token_generation
                &&& record.token_expires_at == old.token_expires_at
                &&& record.token_consumed_at == old.token_consumed_at
                &&& record.revision == old.revision + 1
                &&& record.delivery_state == old.delivery_state
                &&& record.delivery_intent_id == old.delivery_intent_id
                &&& record.delivery_id == old.delivery_id
                &&& record.membership_id == Some(membership_id)
                &&& record.revoke_reason == old.revoke_reason
                &&& record.created_at == old.created_at
                &&& record.updated_at == now
                &&& record.accepted_at == Some(now)
                &&& record.revoked_at == old.revoked_at
                &&& record.expired_at == old.expired_at
                &&& row.command_id == before.command_id
                &&& row.organization_id == before.organization_id
                &&& row.invitation_id == before.invitation_id
                &&& row.kind == before.kind
                &&& row.command_key == before.command_key
                &&& row.token_generation == before.token_generation
                &&& row.acceptance_subject == before.acceptance_subject
                &&& row.lifecycle == before.lifecycle
                &&& row.state == CommandState::Completed
                &&& row.attempts == before.attempts
                &&& row.available_at == before.available_at
                &&& row.lease_token is None
                &&& row.lease_until is None
                &&& row.last_error is None
                &&& row.receipt == Some(
                    Receipt::Membership { membership_id, membership_revision: provider_revision },
                )
                &&& row.updated_at == now
                &&& row.completed_at == Some(now)
                &&& report.command_id == ids.command_id
                &&& report.organization_id == old.organization_id
                &&& report.invitation_id == id
                &&& report.kind == "notify_lifecycle"@
                &&& report.command_key == "lifecycle:"@ + uuid_text(id) + ":"@ + "accepted"@
                &&& report.token_generation is None
                &&& report.acceptance_subject is None
                &&& report.lifecycle == Some("accepted"@)
                &&& report.state == CommandState::Pending
                &&& report.attempts == 0
                &&& report.available_at == now
                &&& report.lease_token is None
                &&& report.lease_until is None
                &&& report.last_error is None
                &&& report.receipt is None
                &&& report.updated_at == now
                &&& report.completed_at is None
                &&& next.commands == tables.commands.insert(command.command_id, row).insert(
                    ids.command_id,
                    report,
                )
                &&& next.activity.drop_last() == tables.activity
                &&& next.activity.len() == tables.activity.len() + 1
                &&& entry.activity_id == ids.activity_id
                &&& entry.organization_id == old.organization_id
                &&& entry.invitation_id == id
                &&& entry.kind == ActivityKind::Accepted
                &&& entry.actor_subject == old.acceptance_subject->0
                &&& entry.invitation_revision == old.revision + 1
                &&& entry.evidence == (Evidence::Membership {
                    membership_id,
                    provider_revision,
                })
                &&& next.mutations.dom() == tables.mutations.dom()
                &&& forall|key: (Seq<char>, Seq<char>)| #[trigger]
                    tables.mutations.contains_key(key) ==> {
                        let was = tables.mutations[key];
                        let is = next.mutations[key];
                        if was.command_id == Some(command.command_id) && was.kept.operation
                            == "accept"@ && was.kept.response is None {
                            let answer = is.kept.response->0->accepted;
                            &&& is.kept.response is Some
                            &&& is.kept.response->0 is Acceptance
                            &&& answer.invitation_id == id
                            &&& answer.identifier == old.identifier
                            &&& answer.organization_id == old.organization_id
                            &&& answer.state == InvitationState::Accepted
                            &&& answer.membership_id == membership_id
                            &&& answer.revision == old.revision + 1
                            &&& is.kept.operation == was.kept.operation
                            &&& is.kept.actor_subject == was.kept.actor_subject
                            &&& is.kept.request_hash == was.kept.request_hash
                            &&& is.organization_id == was.organization_id
                            &&& is.invitation_id == was.invitation_id
                            &&& is.command_id == was.command_id
                        } else {
                            is == was
                        }
                    }
                &&& next.numbers == tables.numbers
            },
            _ => true,
        },
{
    if let Step::Settle { command, settlement, ids, now } = step {
        kinds_differ();
        let writes = tables.writes_of(step);
        assert(tables.commands.contains_key(command.command_id));
        assert(tables.invitations.contains_key(command.invitation_id));
        assert(is_sound_command(tables.commands[command.command_id]));
        assert(writes =~= seq![writes[0], writes[1], writes[2], writes[3], writes[4]]);
        lemma_apply_five(tables, writes[0], writes[1], writes[2], writes[3], writes[4]);
        lemma_report_keys_are_free(tables, command.invitation_id, InvitationState::Accepted);
        let second = tables.apply(writes[0]).apply(writes[1]);
        let key = lifecycle_key(command.invitation_id, InvitationState::Accepted);
        assert(!key_is_taken(second.commands, key)) by {
            if key_is_taken(second.commands, key) {
                let id = choose|id: u128| #[trigger]
                    second.commands.contains_key(id) && second.commands[id].command_key == key;
                assert(tables.commands.contains_key(id));
                assert(tables.commands[id].command_key == key);
            }
        }
        let next = tables.next(step);
        assert(next.activity.drop_last() =~= tables.activity);
        assert(next.mutations.dom() =~= tables.mutations.dom());
    }
}

/// A permanent failure ends its command with the code. A failed delivery of the current token marks
/// its invitation; a failed membership that is still waited for expires its invitation, is reported
/// and logged, and frees the key of every call that waits for it. Any other failure changes nothing
/// else.
#[verifier::rlimit(40)]
pub proof fn failures_end_the_command(tables: Tables, step: Step)
    requires
        tables.is_consistent(),
        step is Settle,
        step->settlement is Fail,
        tables.enables(step),
    ensures
        match step {
            Step::Settle { command, settlement, ids, now } => {
                let next = tables.next(step);
                let before = tables.commands[command.command_id];
                let row = next.commands[command.command_id];
                let id = command.invitation_id;
                let old = tables.invitations[id];
                let record = next.invitations[id];
                let code = failure_text(settlement->Fail_code);
                let entry = next.activity.last();
                &&& before.state == CommandState::InFlight
                &&& before.lease_token == Some(command.lease_token)
                &&& row.command_id == before.command_id
                &&& row.organization_id == before.organization_id
                &&& row.invitation_id == before.invitation_id
                &&& row.kind == before.kind
                &&& row.command_key == before.command_key
                &&& row.token_generation == before.token_generation
                &&& row.acceptance_subject == before.acceptance_subject
                &&& row.lifecycle == before.lifecycle
                &&& row.state == CommandState::Failed
                &&& row.attempts == before.attempts
                &&& row.available_at == before.available_at
                &&& row.lease_token is None
                &&& row.lease_until is None
                &&& row.last_error == Some(code)
                &&& row.receipt is None
                &&& row.updated_at == now
                &&& row.completed_at == Some(now)
                &&& next.invitations == tables.invitations.insert(id, record)
                &&& next.numbers == tables.numbers
                &&& if command.kind == "notify_invitation"@ && old.state == InvitationState::Pending
                    && command.token_generation == Some(old.token_generation) {
                    &&& record.invitation_id == old.invitation_id
                    &&& record.organization_id == old.organization_id
                    &&& record.identifier == old.identifier
                    &&& record.email == old.email
                    &&& record.email_normalized == old.email_normalized
                    &&& record.state == old.state
                    &&& record.inviter_subject == old.inviter_subject
                    &&& record.acceptance_subject == old.acceptance_subject
                    &&& record.token_hash == old.token_hash
                    &&& record.token_generation == old.token_generation
                    &&& record.token_expires_at == old.token_expires_at
                    &&& record.token_consumed_at == old.token_consumed_at
                    &&& record.revision == old.revision
                    &&& record.delivery_state == DeliveryState::Failed
                    &&& record.delivery_intent_id == old.delivery_intent_id
                    &&& record.delivery_id == old.delivery_id
                    &&& record.membership_id == old.membership_id
                    &&& record.revoke_reason == old.revoke_reason
                    &&& record.created_at == old.created_at
                    &&& record.updated_at == now
                    &&& record.accepted_at == old.accepted_at
                    &&& record.revoked_at == old.revoked_at
                    &&& record.expired_at == old.expired_at
                    &&& next.commands == tables.commands.insert(command.command_id, row)
                    &&& next.activity == tables.activity
                    &&& next.mutations == tables.mutations
                } else if command.kind == "add_member"@ && old.state == InvitationState::Pending
                    && command.acceptance_subject == old.acceptance_subject {
                    let report = next.commands[ids.command_id];
                    &&& record.invitation_id == old.invitation_id
                    &&& record.organization_id == old.organization_id
                    &&& record.identifier == old.identifier
                    &&& record.email == old.email
                    &&& record.email_normalized == old.email_normalized
                    &&& record.state == InvitationState::Expired
                    &&& record.inviter_subject == old.inviter_subject
                    &&& record.acceptance_subject == old.acceptance_subject
                    &&& record.token_hash is None
                    &&& record.token_generation == old.token_generation
                    &&& record.token_expires_at == old.token_expires_at
                    &&& record.token_consumed_at == old.token_consumed_at
                    &&& record.revision == old.revision + 1
                    &&& record.delivery_state == (if old.delivery_state == DeliveryState::Pending {
                    DeliveryState::Superseded
                } else {
                    old.delivery_state
                })
                    &&& record.delivery_intent_id == old.delivery_intent_id
                    &&& record.delivery_id == old.delivery_id
                    &&& record.membership_id == old.membership_id
                    &&& record.revoke_reason == old.revoke_reason
                    &&& record.created_at == old.created_at
                    &&& record.updated_at == now
                    &&& record.accepted_at == old.accepted_at
                    &&& record.revoked_at == old.revoked_at
                    &&& record.expired_at == Some(now)
                    &&& next.commands.contains_key(ids.command_id)
                    &&& report.command_id == ids.command_id
                    &&& report.organization_id == old.organization_id
                    &&& report.invitation_id == id
                    &&& report.kind == "notify_lifecycle"@
                    &&& report.command_key == "lifecycle:"@ + uuid_text(id) + ":"@ + "expired"@
                    &&& report.token_generation is None
                    &&& report.acceptance_subject is None
                    &&& report.lifecycle == Some("expired"@)
                    &&& report.state == CommandState::Pending
                    &&& report.attempts == 0
                    &&& report.available_at == now
                    &&& report.lease_token is None
                    &&& report.lease_until is None
                    &&& report.last_error is None
                    &&& report.receipt is None
                    &&& report.updated_at == now
                    &&& report.completed_at is None
                    &&& forall|other: u128| #[trigger]
                        tables.commands.contains_key(other) && other != command.command_id
                            ==> next.commands.contains_key(other) && is_left_or_dropped(
                            tables.commands[other],
                            next.commands[other],
                            id,
                            now,
                        )
                    &&& next.activity.drop_last() == tables.activity
                    &&& next.activity.len() == tables.activity.len() + 1
                    &&& entry.activity_id == ids.activity_id
                    &&& entry.organization_id == old.organization_id
                    &&& entry.invitation_id == id
                    &&& entry.kind == ActivityKind::AcceptanceFailed
                    &&& entry.actor_subject == "system:membership-failure"@
                    &&& entry.invitation_revision == old.revision + 1
                    &&& entry.evidence == (Evidence::Failure { error_code: code })
                    &&& forall|key: (Seq<char>, Seq<char>)|
                        (#[trigger] next.mutations.contains_key(key) <==> {
                            &&& tables.mutations.contains_key(key)
                            &&& !(tables.mutations[key].command_id == Some(command.command_id)
                                && tables.mutations[key].kept.operation == "accept"@
                                && tables.mutations[key].kept.response is None)
                        }) && (next.mutations.contains_key(key) ==> next.mutations[key]
                            == tables.mutations[key])
                } else {
                    &&& record == old
                    &&& next.commands == tables.commands.insert(command.command_id, row)
                    &&& next.activity == tables.activity
                    &&& next.mutations == tables.mutations
                }
            },
            _ => true,
        },
{
    if let Step::Settle { command, settlement, ids, now } = step {
        kinds_differ();
        let writes = tables.writes_of(step);
        assert(tables.commands.contains_key(command.command_id));
        assert(tables.invitations.contains_key(command.invitation_id));
        assert(is_sound_command(tables.commands[command.command_id]));
        let record = tables.invitations[command.invitation_id];
        let head = seq![writes[0]];
        let rest = failure_consequences(
            Some(record),
            command,
            failure_text(settlement->Fail_code),
            ids,
            now,
        );
        assert(writes =~= head + rest);
        lemma_apply_all_concat(tables, head, rest);
        lemma_apply_one(tables, writes[0]);
        let first = tables.apply(writes[0]);
        let next = tables.next(step);
        if command.kind == NOTIFY_INVITATION@ && record.state == InvitationState::Pending
            && command.token_generation == Some(record.token_generation) {
            assert(rest =~= seq![rest[0]]);
            lemma_apply_one(first, rest[0]);
        } else if command.kind == ADD_MEMBER@ && record.state == InvitationState::Pending
            && command.acceptance_subject == record.acceptance_subject {
            let id = command.invitation_id;
            let middle = expiration_writes(record, ids.command_id, now);
            assert(rest =~= middle.push(rest[3]).push(rest[4]));
            lemma_apply_all_push(first, middle.push(rest[3]), rest[4]);
            lemma_apply_all_push(first, middle, rest[3]);
            lemma_apply_three(first, middle[0], middle[1], middle[2]);
            assert(middle =~= seq![middle[0], middle[1], middle[2]]);
            lemma_report_keys_are_free(tables, id, InvitationState::Expired);
            let key = lifecycle_key(id, InvitationState::Expired);
            assert(!key_is_taken(first.commands, key)) by {
                if key_is_taken(first.commands, key) {
                    let other = choose|other: u128| #[trigger]
                        first.commands.contains_key(other) && first.commands[other].command_key
                            == key;
                    assert(tables.commands.contains_key(other));
                    assert(tables.commands[other].command_key == key);
                }
            }
            lemma_dropping_leaves_keys(first, id, now, key);
            assert(next.activity.drop_last() =~= tables.activity);
            assert forall|other: u128| #[trigger]
                tables.commands.contains_key(other) && other
                    != command.command_id implies next.commands.contains_key(other)
                && is_left_or_dropped(tables.commands[other], next.commands[other], id, now) by {
                assert(first.commands.contains_key(other));
            }
        } else {
            assert(rest =~= Seq::empty());
            assert(tables.invitations =~= tables.invitations.insert(
                command.invitation_id,
                record,
            ));
        }
    }
}

} // verus!
