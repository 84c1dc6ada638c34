//! How invitations are made, rotated, revoked, accepted and expired. Each function takes the rows
//! that a transaction has locked and gives the writes that it makes.

use crate::commands::{
    delivery_command, lifecycle_command, make_delivery_command, make_lifecycle_command,
    option_record,
};
use crate::instants::{after, instant_after};
use crate::mutations::{DomainFailure, TokenOperationResult};
use crate::records::{
    seen, DeliveryState, InvitationRecord, InvitationState, InvitationView, StorageError,
};
use crate::text::{decimal, decimal_injective, decimal_is_canonical, decimal_text};
use crate::uuids::{is_random_id, random_id};
use crate::validation::{is_invitation_label, is_opaque_id, MAX_ID_BYTES};
use crate::writes::{
    items_view, writes_view, Activity, ActivityKind, Evidence, ExpireResult, ExpiredItem, Plan,
    Response, StoredWrite, Write, WriteModel,
};
use vstd::prelude::*;
use vstd::string::*;

verus! {

/// The identifiers of the rows that one step of an invitation adds.
#[derive(Clone, Copy, Debug, PartialEq, Eq, Structural)]
pub struct Identifiers {
    pub command_id: u128,
    pub activity_id: u128,
}

/// Identifiers for one step, taken at random, or `None` where there are no random bytes to take.
pub fn fresh_identifiers() -> (ids: Option<Identifiers>)
    ensures
        ids matches Some(ids) ==> is_random_id(ids.command_id) && is_random_id(ids.activity_id),
{
    match (random_id(), random_id()) {
        (Some(command_id), Some(activity_id)) => Some(Identifiers { command_id, activity_id }),
        _ => None,
    }
}

/// Who makes a mutation: the calling instance, its idempotency key and the acting subject.
#[verifier::ext_equal]
#[derive(Clone, Debug, PartialEq, Eq)]
pub struct MutationContext<S> {
    pub caller: S,
    pub idempotency_key: S,
    pub actor: S,
}

impl View for MutationContext<String> {
    type V = MutationContext<Seq<char>>;

    open spec fn view(&self) -> MutationContext<Seq<char>> {
        MutationContext {
            caller: self.caller@,
            idempotency_key: self.idempotency_key@,
            actor: self.actor@,
        }
    }
}

/// An activity entry about an invitation, at its current revision.
pub open spec fn activity_of(
    record: InvitationRecord<Seq<char>>,
    activity_id: u128,
    kind: ActivityKind,
    actor: Seq<char>,
    evidence: Evidence<Seq<char>>,
) -> WriteModel {
    Write::InsertActivity {
        activity: Activity {
            activity_id,
            organization_id: record.organization_id,
            invitation_id: record.invitation_id,
            kind,
            actor_subject: actor,
            invitation_revision: record.revision,
            evidence,
        },
    }
}

pub fn make_activity(
    record: &InvitationRecord<String>,
    activity_id: u128,
    kind: ActivityKind,
    actor: &str,
    evidence: Evidence<String>,
) -> (write: StoredWrite)
    ensures
        write@ == activity_of(record@, activity_id, kind, actor@, evidence@),
{
    Write::InsertActivity {
        activity: Activity {
            activity_id,
            organization_id: record.organization_id.clone(),
            invitation_id: record.invitation_id,
            kind,
            actor_subject: actor.to_owned(),
            invitation_revision: record.revision,
            evidence,
        },
    }
}

/// The text that is locked while a pending invitation is looked for.
pub open spec fn pending_lock(organization_id: Seq<char>, email: Seq<char>) -> Seq<char> {
    organization_id.push('\u{1f}') + email
}

pub fn pending_lock_key(organization_id: &str, email_normalized: &str) -> (key: String)
    ensures
        key@ == pending_lock(organization_id@, email_normalized@),
{
    let mut key = organization_id.to_owned();
    key.push('\u{1f}');
    key.append(email_normalized);
    key
}

/// Two pairs of organization and address are locked by different texts.
pub proof fn pending_locks_differ(
    left: Seq<char>,
    left_email: Seq<char>,
    right: Seq<char>,
    right_email: Seq<char>,
)
    requires
        is_opaque_id(left, MAX_ID_BYTES as int),
        is_opaque_id(right, MAX_ID_BYTES as int),
        pending_lock(left, left_email) == pending_lock(right, right_email),
    ensures
        left == right,
        left_email == right_email,
{
    let l = pending_lock(left, left_email);
    let r = pending_lock(right, right_email);
    assert(l[left.len() as int] == '\u{1f}');
    assert(r[right.len() as int] == '\u{1f}');
    if left.len() < right.len() {
        assert(r[left.len() as int] == right[left.len() as int]);
    }
    if right.len() < left.len() {
        assert(l[right.len() as int] == left[right.len() as int]);
    }
    assert(left =~= l.subrange(0, left.len() as int));
    assert(right =~= r.subrange(0, right.len() as int));
    assert(left_email =~= l.subrange(left.len() as int + 1, l.len() as int));
    assert(right_email =~= r.subrange(right.len() as int + 1, r.len() as int));
}

/// A new invitation is refused while one is pending for its address.
pub fn check_no_pending(exists: bool) -> (result: Result<(), DomainFailure>)
    ensures
        result == (if exists {
            Err(DomainFailure::InvitationExists)
        } else {
            Ok(())
        }),
{
    if exists {
        Err(DomainFailure::InvitationExists)
    } else {
        Ok(())
    }
}

/// What a new invitation is made from.
#[verifier::ext_equal]
#[derive(Clone, Debug, PartialEq, Eq)]
pub struct NewInvitation<S> {
    pub invitation_id: u128,
    pub organization_id: S,
    pub email: S,
    pub email_normalized: S,
    pub token_hash: S,
}

impl View for NewInvitation<String> {
    type V = NewInvitation<Seq<char>>;

    open spec fn view(&self) -> NewInvitation<Seq<char>> {
        NewInvitation {
            invitation_id: self.invitation_id,
            organization_id: self.organization_id@,
            email: self.email@,
            email_normalized: self.email_normalized@,
            token_hash: self.token_hash@,
        }
    }
}

/// The organization-local label of the invitation with the given number.
pub open spec fn invitation_label(number: i64) -> Seq<char> {
    "INV-"@ + decimal(number as int)
}

pub fn format_invitation_label(number: i64) -> (label: String)
    ensures
        label@ == invitation_label(number),
{
    let mut label = "INV-".to_owned();
    label.append(decimal_text(number).as_str());
    label
}

/// Numbers give different labels, and every label is one that an invitation is looked up by.
pub proof fn labels_differ(left: i64, right: i64)
    requires
        left > 0,
        right > 0,
    ensures
        is_invitation_label(invitation_label(left)),
        invitation_label(left) == invitation_label(right) ==> left == right,
{
    reveal_strlit("INV-");
    decimal_is_canonical(left);
    let l = invitation_label(left);
    assert(l.take(4) =~= "INV-"@);
    assert(l.skip(4) =~= decimal(left as int));
    assert(l.subrange(4, l.len() as int) =~= decimal(left as int));
    if invitation_label(left) == invitation_label(right) {
        let r = invitation_label(right);
        assert(r.subrange(4, r.len() as int) =~= decimal(right as int));
        decimal_injective(left as nat, right as nat);
    }
}

/// A new invitation: pending, at its first revision and its first token generation.
pub open spec fn created(
    input: NewInvitation<Seq<char>>,
    inviter: Seq<char>,
    number: i64,
    expires_at: i64,
    now: i64,
) -> InvitationRecord<Seq<char>> {
    InvitationRecord {
        invitation_id: input.invitation_id,
        organization_id: input.organization_id,
        identifier: invitation_label(number),
        email: input.email,
        email_normalized: input.email_normalized,
        state: InvitationState::Pending,
        inviter_subject: inviter,
        acceptance_subject: None,
        token_hash: Some(input.token_hash),
        token_generation: 1,
        token_expires_at: expires_at,
        token_consumed_at: None,
        revision: 1,
        delivery_state: DeliveryState::Pending,
        delivery_intent_id: None,
        delivery_id: None,
        membership_id: None,
        revoke_reason: None,
        created_at: now,
        updated_at: now,
        accepted_at: None,
        revoked_at: None,
        expired_at: None,
    }
}

/// What creating an invitation writes.
pub open spec fn creation_writes(
    input: NewInvitation<Seq<char>>,
    context: MutationContext<Seq<char>>,
    number: i64,
    expires_at: i64,
    ids: Identifiers,
    now: i64,
) -> Seq<WriteModel> {
    let record = created(input, context.actor, number, expires_at, now);
    seq![
        Write::InsertInvitation { record },
        Write::InsertCommand {
            row: delivery_command(
                ids.command_id,
                record.organization_id,
                record.invitation_id,
                1,
                now,
            ),
        },
        activity_of(
            record,
            ids.activity_id,
            ActivityKind::Created,
            context.actor,
            Evidence::Creation { email_normalized: input.email_normalized, token_generation: 1 },
        ),
        Write::CompleteMutation {
            caller: context.caller,
            idempotency_key: context.idempotency_key,
            invitation: Some(record.invitation_id),
            response: Response::Token { invitation: seen(record), token_generation: 1 },
        },
    ]
}

/// The answer of the call that made a token.
pub open spec fn token_made(record: InvitationRecord<Seq<char>>) -> TokenOperationResult<
    Seq<char>,
> {
    TokenOperationResult {
        invitation: seen(record),
        token_generation: record.token_generation,
        disclose_token: true,
    }
}

/// Creates an invitation under the number that its organization has allocated for it.
pub fn plan_creation(
    input: &NewInvitation<String>,
    context: &MutationContext<String>,
    number: i64,
    token_ttl_seconds: i64,
    ids: Identifiers,
    now: i64,
) -> (result: Result<Plan<TokenOperationResult<String>>, StorageError>)
    ensures
        match result {
            Ok(plan) => {
                let expires_at = instant_after(now, token_ttl_seconds)->0;
                &&& number > 0
                &&& instant_after(now, token_ttl_seconds) is Some
                &&& writes_view(plan.writes@) == creation_writes(
                    input@,
                    context@,
                    number,
                    expires_at,
                    ids,
                    now,
                )
                &&& plan.outcome@ == token_made(
                    created(input@, context@.actor, number, expires_at, now),
                )
                &&& plan.outcome.disclose_token
                &&& plan.outcome.token_generation == 1
                &&& plan.outcome.invitation.invitation_id == input.invitation_id
                &&& plan.outcome.invitation.identifier@ == "INV-"@ + decimal(number as int)
                &&& plan.outcome.invitation.organization_id@ == input.organization_id@
                &&& plan.outcome.invitation.email@ == input.email@
                &&& plan.outcome.invitation.inviter_subject@ == context.actor@
                &&& plan.outcome.invitation.state == InvitationState::Pending
                &&& plan.outcome.invitation.revision == 1
                &&& plan.outcome.invitation.token_expires_at == now + token_ttl_seconds * 1_000_000
                &&& plan.outcome.invitation.created_at == now
                &&& plan.outcome.invitation.updated_at == now
                &&& plan.outcome.invitation.delivery_state == DeliveryState::Pending
                &&& !plan.outcome.invitation.acceptance_pending
                &&& plan.outcome.invitation.accepted_subject is None
                &&& plan.outcome.invitation.accepted_at is None
                &&& plan.outcome.invitation.revoked_at is None
                &&& plan.outcome.invitation.expired_at is None
            },
            Err(StorageError::SequenceNotPositive) => number <= 0,
            Err(StorageError::OutOfRange) => number > 0 && instant_after(now, token_ttl_seconds)
                is None,
            Err(_) => false,
        },
{
    if number <= 0 {
        return Err(StorageError::SequenceNotPositive);
    }
    let expires_at = match after(now, token_ttl_seconds) {
        Some(expires_at) => expires_at,
        None => {
            return Err(StorageError::OutOfRange);
        },
    };
    let record = InvitationRecord {
        invitation_id: input.invitation_id,
        organization_id: input.organization_id.clone(),
        identifier: format_invitation_label(number),
        email: input.email.clone(),
        email_normalized: input.email_normalized.clone(),
        state: InvitationState::Pending,
        inviter_subject: context.actor.clone(),
        acceptance_subject: None,
        token_hash: Some(input.token_hash.clone()),
        token_generation: 1,
        token_expires_at: expires_at,
        token_consumed_at: None,
        revision: 1,
        delivery_state: DeliveryState::Pending,
        delivery_intent_id: None,
        delivery_id: None,
        membership_id: None,
        revoke_reason: None,
        created_at: now,
        updated_at: now,
        accepted_at: None,
        revoked_at: None,
        expired_at: None,
    };
    let view = record.seen();
    let command = make_delivery_command(
        ids.command_id,
        input.organization_id.as_str(),
        input.invitation_id,
        1,
        now,
    );
    let activity = make_activity(
        &record,
        ids.activity_id,
        ActivityKind::Created,
        context.actor.as_str(),
        Evidence::Creation {
            email_normalized: input.email_normalized.clone(),
            token_generation: 1,
        },
    );
    let kept = Write::CompleteMutation {
        caller: context.caller.clone(),
        idempotency_key: context.idempotency_key.clone(),
        invitation: Some(input.invitation_id),
        response: Response::Token { invitation: view.copy(), token_generation: 1 },
    };
    let ghost model = created(input@, context@.actor, number, expires_at, now);
    assert(record@ =~= model);
    let writes: Vec<StoredWrite> = vec![
        Write::InsertInvitation { record },
        Write::InsertCommand { row: command },
        activity,
        kept,
    ];
    assert(writes_view(writes@) =~= creation_writes(
        input@,
        context@,
        number,
        expires_at,
        ids,
        now,
    ));
    Ok(
        Plan {
            writes,
            outcome: TokenOperationResult {
                invitation: view,
                token_generation: 1,
                disclose_token: true,
            },
        },
    )
}

/// Whether a pending invitation may be changed by a caller that has seen the given revision.
pub open spec fn change_refusal(
    record: InvitationRecord<Seq<char>>,
    expected_revision: i64,
) -> Option<DomainFailure> {
    if record.revision != expected_revision {
        Some(DomainFailure::RevisionConflict)
    } else if record.state != InvitationState::Pending {
        Some(DomainFailure::InvalidTransition)
    } else if record.acceptance_subject is Some {
        Some(DomainFailure::AcceptanceInProgress)
    } else {
        None
    }
}

/// Why a change of an invitation is refused, where it is: none was found, or the one that was
/// found may not be changed.
pub open spec fn refusal(
    record: Option<InvitationRecord<Seq<char>>>,
    expected_revision: i64,
) -> Option<DomainFailure> {
    match record {
        Some(record) => change_refusal(record, expected_revision),
        None => Some(DomainFailure::InvitationNotFound),
    }
}

pub fn check_change(record: &InvitationRecord<String>, expected_revision: i64) -> (refused: Option<
    DomainFailure,
>)
    ensures
        refused == change_refusal(record@, expected_revision),
{
    if record.revision != expected_revision {
        Some(DomainFailure::RevisionConflict)
    } else if record.state != InvitationState::Pending {
        Some(DomainFailure::InvalidTransition)
    } else if record.acceptance_subject.is_some() {
        Some(DomainFailure::AcceptanceInProgress)
    } else {
        None
    }
}

/// An invitation with the token of its next generation. It is delivered anew.
pub open spec fn rotated(
    record: InvitationRecord<Seq<char>>,
    token_hash: Seq<char>,
    expires_at: i64,
    now: i64,
) -> InvitationRecord<Seq<char>> {
    InvitationRecord {
        token_hash: Some(token_hash),
        token_generation: (record.token_generation + 1) as i64,
        token_expires_at: expires_at,
        revision: (record.revision + 1) as i64,
        delivery_state: DeliveryState::Pending,
        delivery_intent_id: None,
        delivery_id: None,
        updated_at: now,
        ..record
    }
}

/// What rotating the token of an invitation writes.
pub open spec fn rotation_writes(
    record: InvitationRecord<Seq<char>>,
    context: MutationContext<Seq<char>>,
    token_hash: Seq<char>,
    expires_at: i64,
    ids: Identifiers,
    now: i64,
) -> Seq<WriteModel> {
    let next = rotated(record, token_hash, expires_at, now);
    seq![
        Write::SupersedeNotifications { invitation_id: record.invitation_id, at: now },
        Write::UpdateInvitation { record: next },
        Write::InsertCommand {
            row: delivery_command(
                ids.command_id,
                record.organization_id,
                record.invitation_id,
                next.token_generation,
                now,
            ),
        },
        activity_of(
            next,
            ids.activity_id,
            ActivityKind::Resent,
            context.actor,
            Evidence::Rotation { token_generation: next.token_generation },
        ),
        Write::CompleteMutation {
            caller: context.caller,
            idempotency_key: context.idempotency_key,
            invitation: Some(record.invitation_id),
            response: Response::Token {
                invitation: seen(next),
                token_generation: next.token_generation,
            },
        },
    ]
}

/// Rotates the token of a pending invitation and has it delivered again.
pub fn plan_resend(
    current: &Option<InvitationRecord<String>>,
    context: &MutationContext<String>,
    expected_revision: i64,
    token_hash: &str,
    token_ttl_seconds: i64,
    ids: Identifiers,
    now: i64,
) -> (result: Result<Result<Plan<TokenOperationResult<String>>, DomainFailure>, StorageError>)
    ensures
        match result {
            Ok(Ok(plan)) => {
                let record = current->0@;
                let expires_at = instant_after(now, token_ttl_seconds)->0;
                &&& refusal(option_record(*current), expected_revision) is None
                &&& record.token_generation < i64::MAX
                &&& record.revision < i64::MAX
                &&& instant_after(now, token_ttl_seconds) is Some
                &&& writes_view(plan.writes@) == rotation_writes(
                    record,
                    context@,
                    token_hash@,
                    expires_at,
                    ids,
                    now,
                )
                &&& plan.outcome@ == token_made(rotated(record, token_hash@, expires_at, now))
                &&& plan.outcome.disclose_token
                &&& plan.outcome.token_generation == current->0.token_generation + 1
                &&& plan.outcome.invitation.invitation_id == current->0.invitation_id
                &&& plan.outcome.invitation.identifier@ == current->0.identifier@
                &&& plan.outcome.invitation.organization_id@ == current->0.organization_id@
                &&& plan.outcome.invitation.email@ == current->0.email@
                &&& plan.outcome.invitation.inviter_subject@ == current->0.inviter_subject@
                &&& plan.outcome.invitation.state == InvitationState::Pending
                &&& plan.outcome.invitation.revision == expected_revision + 1
                &&& plan.outcome.invitation.token_expires_at == now + token_ttl_seconds * 1_000_000
                &&& plan.outcome.invitation.created_at == current->0.created_at
                &&& plan.outcome.invitation.updated_at == now
                &&& plan.outcome.invitation.delivery_state == DeliveryState::Pending
                &&& !plan.outcome.invitation.acceptance_pending
                &&& plan.outcome.invitation.accepted_subject is None
            },
            Ok(Err(failure)) => refusal(option_record(*current), expected_revision) == Some(
                failure,
            ),
            Err(StorageError::GenerationOverflow) => {
                &&& refusal(option_record(*current), expected_revision) is None
                &&& current->0.token_generation == i64::MAX
            },
            Err(StorageError::OutOfRange) => {
                &&& refusal(option_record(*current), expected_revision) is None
                &&& current->0.token_generation < i64::MAX
                &&& current->0.revision == i64::MAX || instant_after(now, token_ttl_seconds) is None
            },
            Err(_) => false,
        },
{
    let record = match current {
        Some(record) => record,
        None => {
            return Ok(Err(DomainFailure::InvitationNotFound));
        },
    };
    match check_change(record, expected_revision) {
        Some(failure) => {
            return Ok(Err(failure));
        },
        None => {},
    }
    if record.token_generation == i64::MAX {
        return Err(StorageError::GenerationOverflow);
    }
    if record.revision == i64::MAX {
        return Err(StorageError::OutOfRange);
    }
    let expires_at = match after(now, token_ttl_seconds) {
        Some(expires_at) => expires_at,
        None => {
            return Err(StorageError::OutOfRange);
        },
    };
    let generation = record.token_generation + 1;
    let mut next = record.copy();
    next.token_hash = Some(token_hash.to_owned());
    next.token_generation = generation;
    next.token_expires_at = expires_at;
    next.revision = next.revision + 1;
    next.delivery_state = DeliveryState::Pending;
    next.delivery_intent_id = None;
    next.delivery_id = None;
    next.updated_at = now;
    assert(next@ =~= rotated(record@, token_hash@, expires_at, now));
    let view = next.seen();
    let command = make_delivery_command(
        ids.command_id,
        record.organization_id.as_str(),
        record.invitation_id,
        generation,
        now,
    );
    let activity = make_activity(
        &next,
        ids.activity_id,
        ActivityKind::Resent,
        context.actor.as_str(),
        Evidence::Rotation { token_generation: generation },
    );
    let kept = Write::CompleteMutation {
        caller: context.caller.clone(),
        idempotency_key: context.idempotency_key.clone(),
        invitation: Some(record.invitation_id),
        response: Response::Token { invitation: view.copy(), token_generation: generation },
    };
    let writes: Vec<StoredWrite> = vec![
        Write::SupersedeNotifications { invitation_id: record.invitation_id, at: now },
        Write::UpdateInvitation { record: next },
        Write::InsertCommand { row: command },
        activity,
        kept,
    ];
    assert(writes_view(writes@) =~= rotation_writes(
        record@,
        context@,
        token_hash@,
        expires_at,
        ids,
        now,
    ));
    Ok(
        Ok(
            Plan {
                writes,
                outcome: TokenOperationResult {
                    invitation: view,
                    token_generation: generation,
                    disclose_token: true,
                },
            },
        ),
    )
}

/// How the delivery of an invitation stands once the invitation has ended.
pub open spec fn ended_delivery(state: DeliveryState) -> DeliveryState {
    if state == DeliveryState::Pending {
        DeliveryState::Superseded
    } else {
        state
    }
}

fn end_delivery(state: DeliveryState) -> (ended: DeliveryState)
    ensures
        ended == ended_delivery(state),
{
    if state == DeliveryState::Pending {
        DeliveryState::Superseded
    } else {
        state
    }
}

/// A revoked invitation. It has no token any more.
pub open spec fn revoked(
    record: InvitationRecord<Seq<char>>,
    reason: Seq<char>,
    now: i64,
) -> InvitationRecord<Seq<char>> {
    InvitationRecord {
        state: InvitationState::Revoked,
        token_hash: None,
        revision: (record.revision + 1) as i64,
        delivery_state: ended_delivery(record.delivery_state),
        revoke_reason: Some(reason),
        revoked_at: Some(now),
        updated_at: now,
        ..record
    }
}

/// What revoking an invitation writes.
pub open spec fn revocation_writes(
    record: InvitationRecord<Seq<char>>,
    context: MutationContext<Seq<char>>,
    reason: Seq<char>,
    ids: Identifiers,
    now: i64,
) -> Seq<WriteModel> {
    let next = revoked(record, reason, now);
    seq![
        Write::SupersedeNotifications { invitation_id: record.invitation_id, at: now },
        Write::UpdateInvitation { record: next },
        Write::InsertCommand {
            row: lifecycle_command(
                ids.command_id,
                record.organization_id,
                record.invitation_id,
                InvitationState::Revoked,
                now,
            ),
        },
        activity_of(
            next,
            ids.activity_id,
            ActivityKind::Revoked,
            context.actor,
            Evidence::Revocation { reason },
        ),
        Write::CompleteMutation {
            caller: context.caller,
            idempotency_key: context.idempotency_key,
            invitation: Some(record.invitation_id),
            response: Response::Invitation { invitation: seen(next) },
        },
    ]
}

/// Revokes a pending invitation.
pub fn plan_revoke(
    current: &Option<InvitationRecord<String>>,
    context: &MutationContext<String>,
    expected_revision: i64,
    reason: &str,
    ids: Identifiers,
    now: i64,
) -> (result: Result<Result<Plan<InvitationView<String>>, DomainFailure>, StorageError>)
    ensures
        match result {
            Ok(Ok(plan)) => {
                let record = current->0@;
                &&& refusal(option_record(*current), expected_revision) is None
                &&& record.revision < i64::MAX
                &&& writes_view(plan.writes@) == revocation_writes(
                    record,
                    context@,
                    reason@,
                    ids,
                    now,
                )
                &&& plan.outcome@ == seen(revoked(record, reason@, now))
                &&& plan.outcome.invitation_id == current->0.invitation_id
                &&& plan.outcome.identifier@ == current->0.identifier@
                &&& plan.outcome.organization_id@ == current->0.organization_id@
                &&& plan.outcome.email@ == current->0.email@
                &&& plan.outcome.inviter_subject@ == current->0.inviter_subject@
                &&& plan.outcome.state == InvitationState::Revoked
                &&& plan.outcome.revision == expected_revision + 1
                &&& plan.outcome.token_expires_at == current->0.token_expires_at
                &&& plan.outcome.created_at == current->0.created_at
                &&& plan.outcome.updated_at == now
                &&& plan.outcome.revoked_at == Some(now)
                &&& !plan.outcome.acceptance_pending
                &&& plan.outcome.accepted_subject is None
            },
            Ok(Err(failure)) => refusal(option_record(*current), expected_revision) == Some(
                failure,
            ),
            Err(StorageError::OutOfRange) => {
                &&& refusal(option_record(*current), expected_revision) is None
                &&& current->0.revision == i64::MAX
            },
            Err(_) => false,
        },
{
    let record = match current {
        Some(record) => record,
        None => {
            return Ok(Err(DomainFailure::InvitationNotFound));
        },
    };
    match check_change(record, expected_revision) {
        Some(failure) => {
            return Ok(Err(failure));
        },
        None => {},
    }
    if record.revision == i64::MAX {
        return Err(StorageError::OutOfRange);
    }
    let mut next = record.copy();
    next.state = InvitationState::Revoked;
    next.token_hash = None;
    next.revision = next.revision + 1;
    next.delivery_state = end_delivery(next.delivery_state);
    next.revoke_reason = Some(reason.to_owned());
    next.revoked_at = Some(now);
    next.updated_at = now;
    assert(next@ =~= revoked(record@, reason@, now));
    let view = next.seen();
    let command = make_lifecycle_command(
        ids.command_id,
        record.organization_id.as_str(),
        record.invitation_id,
        InvitationState::Revoked,
        now,
    );
    let activity = make_activity(
        &next,
        ids.activity_id,
        ActivityKind::Revoked,
        context.actor.as_str(),
        Evidence::Revocation { reason: reason.to_owned() },
    );
    let kept = Write::CompleteMutation {
        caller: context.caller.clone(),
        idempotency_key: context.idempotency_key.clone(),
        invitation: Some(record.invitation_id),
        response: Response::Invitation { invitation: view.copy() },
    };
    let writes: Vec<StoredWrite> = vec![
        Write::SupersedeNotifications { invitation_id: record.invitation_id, at: now },
        Write::UpdateInvitation { record: next },
        Write::InsertCommand { row: command },
        activity,
        kept,
    ];
    assert(writes_view(writes@) =~= revocation_writes(record@, context@, reason@, ids, now));
    Ok(Ok(Plan { writes, outcome: view }))
}

/// An expired invitation. It has no token any more.
pub open spec fn expired(record: InvitationRecord<Seq<char>>, now: i64) -> InvitationRecord<
    Seq<char>,
> {
    InvitationRecord {
        state: InvitationState::Expired,
        token_hash: None,
        revision: (record.revision + 1) as i64,
        delivery_state: ended_delivery(record.delivery_state),
        expired_at: Some(now),
        updated_at: now,
        ..record
    }
}

/// What expiring an invitation writes, besides the activity entry.
pub open spec fn expiration_writes(
    record: InvitationRecord<Seq<char>>,
    command_id: u128,
    now: i64,
) -> Seq<WriteModel> {
    seq![
        Write::SupersedeNotifications { invitation_id: record.invitation_id, at: now },
        Write::UpdateInvitation { record: expired(record, now) },
        Write::InsertCommand {
            row: lifecycle_command(
                command_id,
                record.organization_id,
                record.invitation_id,
                InvitationState::Expired,
                now,
            ),
        },
    ]
}

/// An invitation can expire while it is pending and its next revision can be stored.
pub open spec fn can_expire(record: InvitationRecord<Seq<char>>) -> bool {
    record.state == InvitationState::Pending && record.revision < i64::MAX
}

/// Expires an invitation that the transaction has locked, behind the given writes.
pub fn expire_locked_invitation(
    writes: &mut Vec<StoredWrite>,
    record: &InvitationRecord<String>,
    command_id: u128,
    now: i64,
) -> (result: Result<InvitationRecord<String>, StorageError>)
    ensures
        match result {
            Ok(next) => {
                &&& can_expire(record@)
                &&& next@ == expired(record@, now)
                &&& writes_view(final(writes)@) == writes_view(old(writes)@) + expiration_writes(
                    record@,
                    command_id,
                    now,
                )
            },
            Err(StorageError::RowNotFound) => {
                &&& record.state != InvitationState::Pending
                &&& final(writes)@ == old(writes)@
            },
            Err(StorageError::OutOfRange) => {
                &&& record.state == InvitationState::Pending
                &&& record.revision == i64::MAX
                &&& final(writes)@ == old(writes)@
            },
            Err(_) => false,
        },
{
    if record.state != InvitationState::Pending {
        return Err(StorageError::RowNotFound);
    }
    if record.revision == i64::MAX {
        return Err(StorageError::OutOfRange);
    }
    let mut next = record.copy();
    next.state = InvitationState::Expired;
    next.token_hash = None;
    next.revision = next.revision + 1;
    next.delivery_state = end_delivery(next.delivery_state);
    next.expired_at = Some(now);
    next.updated_at = now;
    assert(next@ =~= expired(record@, now));
    let command = make_lifecycle_command(
        command_id,
        record.organization_id.as_str(),
        record.invitation_id,
        InvitationState::Expired,
        now,
    );
    writes.push(Write::SupersedeNotifications { invitation_id: record.invitation_id, at: now });
    writes.push(Write::UpdateInvitation { record: next.copy() });
    writes.push(Write::InsertCommand { row: command });
    assert(writes_view(writes@) =~= writes_view(old(writes)@) + expiration_writes(
        record@,
        command_id,
        now,
    ));
    Ok(next)
}

/// Invitations that a batch expires, each with the identifiers of the rows that it adds.
pub open spec fn rows_view(rows: Seq<(InvitationRecord<String>, Identifiers)>) -> Seq<
    (InvitationRecord<Seq<char>>, Identifiers),
> {
    rows.map_values(|row: (InvitationRecord<String>, Identifiers)| (row.0@, row.1))
}

/// What expiring one invitation of a batch writes.
pub open spec fn expiry_step(
    row: (InvitationRecord<Seq<char>>, Identifiers),
    actor: Seq<char>,
    now: i64,
) -> Seq<WriteModel> {
    expiration_writes(row.0, row.1.command_id, now).push(
        activity_of(
            expired(row.0, now),
            row.1.activity_id,
            ActivityKind::Expired,
            actor,
            Evidence::TokenDeadline,
        ),
    )
}

/// What a batch writes: what each of its invitations does, in order.
pub open spec fn expiry_writes(
    rows: Seq<(InvitationRecord<Seq<char>>, Identifiers)>,
    actor: Seq<char>,
    now: i64,
) -> Seq<WriteModel>
    decreases rows.len(),
{
    if rows.len() == 0 {
        Seq::empty()
    } else {
        expiry_writes(rows.drop_last(), actor, now) + expiry_step(rows.last(), actor, now)
    }
}

/// What a batch reports of an invitation.
pub open spec fn expired_item(record: InvitationRecord<Seq<char>>, now: i64) -> ExpiredItem<
    Seq<char>,
> {
    ExpiredItem {
        invitation_id: record.invitation_id,
        identifier: record.identifier,
        revision: expired(record, now).revision,
    }
}

pub open spec fn expired_items(
    rows: Seq<(InvitationRecord<Seq<char>>, Identifiers)>,
    now: i64,
) -> Seq<ExpiredItem<Seq<char>>> {
    rows.map_values(|row: (InvitationRecord<Seq<char>>, Identifiers)| expired_item(row.0, now))
}

/// The first invitation of a batch that cannot expire.
pub open spec fn stops_at(
    rows: Seq<(InvitationRecord<Seq<char>>, Identifiers)>,
    index: int,
) -> bool {
    &&& 0 <= index < rows.len()
    &&& !can_expire(rows[index].0)
    &&& forall|i: int| 0 <= i < index ==> can_expire(#[trigger] rows[i].0)
}

/// Expires the invitations of a batch, each on its token deadline.
pub fn plan_expiry(
    rows: &Vec<(InvitationRecord<String>, Identifiers)>,
    actor: &str,
    now: i64,
) -> (result: Result<Plan<Vec<ExpiredItem<String>>>, StorageError>)
    ensures
        match result {
            Ok(plan) => {
                let batch = rows_view(rows@);
                &&& forall|i: int| 0 <= i < batch.len() ==> can_expire(#[trigger] batch[i].0)
                &&& writes_view(plan.writes@) == expiry_writes(batch, actor@, now)
                &&& items_view(plan.outcome@) == expired_items(batch, now)
                &&& plan.outcome@.len() == rows@.len()
                &&& forall|i: int|
                    0 <= i < rows@.len() ==> {
                        &&& (#[trigger] plan.outcome@[i]).invitation_id == rows@[i].0.invitation_id
                        &&& plan.outcome@[i].identifier@ == rows@[i].0.identifier@
                        &&& plan.outcome@[i].revision == rows@[i].0.revision + 1
                    }
            },
            Err(StorageError::RowNotFound) => exists|index: int|
                {
                    &&& #[trigger] stops_at(rows_view(rows@), index)
                    &&& rows_view(rows@)[index].0.state != InvitationState::Pending
                },
            Err(StorageError::OutOfRange) => exists|index: int|
                {
                    &&& #[trigger] stops_at(rows_view(rows@), index)
                    &&& rows_view(rows@)[index].0.state == InvitationState::Pending
                },
            Err(_) => false,
        },
{
    let ghost batch = rows_view(rows@);
    let mut writes: Vec<StoredWrite> = Vec::new();
    let mut items: Vec<ExpiredItem<String>> = Vec::new();
    let mut i: usize = 0;
    assert(batch.take(0) =~= Seq::empty());
    assert(writes_view(writes@) =~= expiry_writes(batch.take(0), actor@, now));
    while i < rows.len()
        invariant
            i <= rows.len(),
            batch == rows_view(rows@),
            forall|k: int| 0 <= k < i ==> can_expire(#[trigger] batch[k].0),
            writes_view(writes@) == expiry_writes(batch.take(i as int), actor@, now),
            items@.len() == i,
            forall|k: int| 0 <= k < i ==> (#[trigger] items@[k])@ == expired_item(batch[k].0, now),
        decreases rows.len() - i,
    {
        let record = &rows[i].0;
        let ids = rows[i].1;
        let ghost before = writes_view(writes@);
        assert(batch[i as int] == (record@, ids));
        let next = match expire_locked_invitation(&mut writes, record, ids.command_id, now) {
            Ok(next) => next,
            Err(error) => {
                assert(stops_at(batch, i as int));
                return Err(error);
            },
        };
        let activity = make_activity(
            &next,
            ids.activity_id,
            ActivityKind::Expired,
            actor,
            Evidence::TokenDeadline,
        );
        let ghost middle = writes_view(writes@);
        let ghost entry = activity@;
        writes.push(activity);
        assert(writes_view(writes@) =~= middle.push(entry));
        items.push(
            ExpiredItem {
                invitation_id: next.invitation_id,
                identifier: next.identifier,
                revision: next.revision,
            },
        );
        proof {
            let longer = batch.take(i + 1);
            assert(longer.drop_last() =~= batch.take(i as int));
            assert(longer.last() == batch[i as int]);
            assert(middle.push(entry) =~= before + expiry_step(batch[i as int], actor@, now));
        }
        i = i + 1;
    }
    assert(batch.take(i as int) =~= batch);
    assert(items_view(items@) =~= expired_items(batch, now));
    Ok(Plan { writes, outcome: items })
}

/// The answer of a batch and the write that keeps it. `has_more` tells whether an invitation of the
/// organization is overdue after the writes of the batch.
pub fn finish_expiry(
    items: Vec<ExpiredItem<String>>,
    has_more: bool,
    caller: &str,
    idempotency_key: &str,
) -> (result: Result<Plan<ExpireResult<Vec<ExpiredItem<String>>>>, StorageError>)
    ensures
        match result {
            Ok(plan) => {
                &&& plan.outcome@ == (ExpireResult {
                    expired: items@.len() as i64,
                    items: items_view(items@),
                    has_more,
                })
                &&& plan.outcome.expired == items@.len()
                &&& writes_view(plan.writes@) == seq![
                    Write::CompleteMutation {
                        caller: caller@,
                        idempotency_key: idempotency_key@,
                        invitation: None,
                        response: Response::Expiry { expiry: plan.outcome@ },
                    },
                ]
            },
            Err(StorageError::CountOverflow) => items@.len() > i64::MAX,
            Err(_) => false,
        },
{
    if items.len() as u128 > i64::MAX as u128 {
        return Err(StorageError::CountOverflow);
    }
    let expired = items.len() as i64;
    let kept = copy_items(&items);
    let writes: Vec<StoredWrite> = vec![
        Write::CompleteMutation {
            caller: caller.to_owned(),
            idempotency_key: idempotency_key.to_owned(),
            invitation: None,
            response: Response::Expiry { expiry: ExpireResult { expired, items: kept, has_more } },
        },
    ];
    let outcome = ExpireResult { expired, items, has_more };
    assert(writes_view(writes@) =~= seq![
        Write::CompleteMutation {
            caller: caller@,
            idempotency_key: idempotency_key@,
            invitation: None,
            response: Response::Expiry { expiry: outcome@ },
        },
    ]);
    Ok(Plan { writes, outcome })
}

fn copy_items(items: &Vec<ExpiredItem<String>>) -> (copy: Vec<ExpiredItem<String>>)
    ensures
        items_view(copy@) == items_view(items@),
{
    let mut copy: Vec<ExpiredItem<String>> = Vec::new();
    let mut i: usize = 0;
    while i < items.len()
        invariant
            i <= items.len(),
            copy@.len() == i,
            forall|k: int| 0 <= k < i ==> (#[trigger] copy@[k])@ == items@[k]@,
        decreases items.len() - i,
    {
        copy.push(
            ExpiredItem {
                invitation_id: items[i].invitation_id,
                identifier: items[i].identifier.clone(),
                revision: items[i].revision,
            },
        );
        i = i + 1;
    }
    assert(items_view(copy@) =~= items_view(items@));
    copy
}

} // verus!
