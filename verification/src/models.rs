//! What the model of each value shows of it.

use crate::authorization::option_str;
use crate::commands::{option_record, option_row};
use crate::dispatch::{
    CommandAction, CommandEvent, DeliveryReply, DeliveryRequest, MemberReply, MemberRequest,
    ObservationRequest, OrganizationReply, Settlement,
};
use crate::instants::text_or_error;
use crate::lifecycle::{rows_view, Identifiers, MutationContext, NewInvitation};
use crate::mutations::{option_kept, StoredMutation, TokenOperationResult};
use crate::records::{
    option_receipt, AcceptedRecord, CommandRecord, CommandRow, InvitationRecord, InvitationView,
    Receipt,
};
use crate::settlement::{claims_view, commands_view};
use crate::text::option_text;
use crate::token::{result_text, TokenError};
use crate::validation::texts;
use crate::writes::{
    items_view, writes_view, Activity, Evidence, ExpireResult, ExpiredItem, Response,
    ResponseModel, StoredWrite, Write, WriteModel,
};
use vstd::prelude::*;

verus! {

/// The model of a settlement has every field as it is.
pub proof fn settlements_are_modelled_field_by_field(value: Settlement<String>)
    ensures
        match value {
            Settlement::Supersede => value@ == Settlement::<Seq<char>>::Supersede,
            Settlement::Fail { code } => value@ == (Settlement::<Seq<char>>::Fail { code }),
            Settlement::Retry { code, delay_seconds } => value@ == (Settlement::<Seq<char>>::Retry {
                code,
                delay_seconds,
            }),
            Settlement::CompleteAccept { membership_id, provider_revision } => value@
                == (Settlement::<Seq<char>>::CompleteAccept {
                    membership_id: membership_id@,
                    provider_revision: provider_revision@,
                }),
            Settlement::CompleteNotification { intent_id, delivery_id } => value@
                == (Settlement::<Seq<char>>::CompleteNotification {
                    intent_id: intent_id@,
                    delivery_id: delivery_id@,
                }),
            Settlement::CompleteLifecycle { recorded } => value@
                == (Settlement::<Seq<char>>::CompleteLifecycle {
                    recorded,
                }),
        },
{
}

/// The model of a request for a membership has every field as it is.
pub proof fn member_requests_are_modelled_field_by_field(value: MemberRequest<String>)
    ensures
        value@.idempotency_key == value.idempotency_key@,
        value@.organization_id == value.organization_id@,
        value@.subject == value.subject@,
{
}

/// The model of a request for a delivery has every field as it is.
pub proof fn delivery_requests_are_modelled_field_by_field(value: DeliveryRequest<String>)
    ensures
        value@.entity_type == value.entity_type@,
        value@.entity_id == value.entity_id@,
        value@.address == value.address@,
        value@.locale == value.locale,
        value@.organization_id == value.organization_id@,
        value@.organization_name == value.organization_name@,
        value@.invitation_id == value.invitation_id@,
        value@.invitation_url == value.invitation_url@,
        value@.expires_at == value.expires_at@,
        value@.idempotency_key == value.idempotency_key@,
        value@.correlation_id == value.correlation_id@,
        value@.causation_id == value.causation_id@,
        value@.requested_by == value.requested_by@,
{
}

/// The model of a report has every field as it is.
pub proof fn reports_are_modelled_field_by_field(value: ObservationRequest<String>)
    ensures
        value@.observation_id == value.observation_id@,
        value@.organization_id == value.organization_id@,
        value@.invitation_id == value.invitation_id@,
        value@.lifecycle == value.lifecycle,
        value@.observed_at == value.observed_at@,
{
}

/// The model of an action has every field as it is.
pub proof fn actions_are_modelled_field_by_field(value: CommandAction<String>)
    ensures
        match value {
            CommandAction::Settle { settlement } => value@ == (CommandAction::<Seq<char>>::Settle {
                settlement: settlement@,
            }),
            CommandAction::AddMember { member } => value@
                == (CommandAction::<Seq<char>>::AddMember {
                    member: member@,
                }),
            CommandAction::GetOrganization { organization_id } => value@
                == (CommandAction::<Seq<char>>::GetOrganization {
                    organization_id: organization_id@,
                }),
            CommandAction::CreateInvitation { delivery } => value@
                == (CommandAction::<Seq<char>>::CreateInvitation {
                    delivery: delivery@,
                }),
            CommandAction::ObserveLifecycle { observation } => value@
                == (CommandAction::<Seq<char>>::ObserveLifecycle {
                    observation: observation@,
                }),
        },
{
}

/// The model of a reply of the membership provider has every field as it is.
pub proof fn member_replies_are_modelled_field_by_field(value: MemberReply<String>)
    ensures
        match value {
            MemberReply::Added { membership_id, revision } => value@
                == (MemberReply::<Seq<char>>::Added {
                    membership_id: membership_id@,
                    revision: revision@,
                }),
            MemberReply::IdempotencyConflict => value@
                == MemberReply::<Seq<char>>::IdempotencyConflict,
            MemberReply::Rejected => value@ == MemberReply::<Seq<char>>::Rejected,
            MemberReply::Unavailable => value@ == MemberReply::<Seq<char>>::Unavailable,
        },
{
}

/// The model of a reply of the organization directory has every field as it is.
pub proof fn organization_replies_are_modelled_field_by_field(value: OrganizationReply<String>)
    ensures
        match value {
            OrganizationReply::Active { name } => value@
                == (OrganizationReply::<Seq<char>>::Active {
                    name: name@,
                }),
            OrganizationReply::Inactive => value@ == OrganizationReply::<Seq<char>>::Inactive,
            OrganizationReply::Unknown => value@ == OrganizationReply::<Seq<char>>::Unknown,
            OrganizationReply::Rejected => value@ == OrganizationReply::<Seq<char>>::Rejected,
            OrganizationReply::Unavailable => value@
                == OrganizationReply::<Seq<char>>::Unavailable,
        },
{
}

/// The model of a reply of the notification provider has every field as it is.
pub proof fn delivery_replies_are_modelled_field_by_field(value: DeliveryReply<String>)
    ensures
        match value {
            DeliveryReply::Queued { intent_id, delivery_id } => value@
                == (DeliveryReply::<Seq<char>>::Queued {
                    intent_id: intent_id@,
                    delivery_id: delivery_id@,
                }),
            DeliveryReply::IdempotencyConflict => value@
                == DeliveryReply::<Seq<char>>::IdempotencyConflict,
            DeliveryReply::Unknown => value@ == DeliveryReply::<Seq<char>>::Unknown,
            DeliveryReply::Rejected => value@ == DeliveryReply::<Seq<char>>::Rejected,
            DeliveryReply::Unavailable => value@ == DeliveryReply::<Seq<char>>::Unavailable,
        },
{
}

/// The model of an event has every field as it is.
pub proof fn events_are_modelled_field_by_field(value: CommandEvent<String>)
    ensures
        match value {
            CommandEvent::Start => value@ == CommandEvent::<Seq<char>>::Start,
            CommandEvent::Member { member } => value@ == (CommandEvent::<Seq<char>>::Member {
                member: member@,
            }),
            CommandEvent::Organization { organization } => value@
                == (CommandEvent::<Seq<char>>::Organization {
                    organization: organization@,
                }),
            CommandEvent::Delivery { delivered } => value@ == (CommandEvent::<Seq<char>>::Delivery {
                delivered: delivered@,
            }),
            CommandEvent::Observation { observed } => value@
                == (CommandEvent::<Seq<char>>::Observation {
                    observed,
                }),
        },
{
}

/// The model of a call has every field as it is.
pub proof fn calls_are_modelled_field_by_field(value: MutationContext<String>)
    ensures
        value@.caller == value.caller@,
        value@.idempotency_key == value.idempotency_key@,
        value@.actor == value.actor@,
{
}

/// The model of a request for an invitation has every field as it is.
pub proof fn requests_are_modelled_field_by_field(value: NewInvitation<String>)
    ensures
        value@.invitation_id == value.invitation_id,
        value@.organization_id == value.organization_id@,
        value@.email == value.email@,
        value@.email_normalized == value.email_normalized@,
        value@.token_hash == value.token_hash@,
{
}

/// The model of a kept mutation has every field as it is.
pub proof fn mutations_are_modelled_field_by_field<R>(value: StoredMutation<R>)
    ensures
        value@.operation == value.operation@,
        value@.actor_subject == value.actor_subject@,
        value@.request_hash == value.request_hash@,
        value@.response == value.response,
{
}

/// The model of a token operation has every field as it is.
pub proof fn token_operations_are_modelled_field_by_field(value: TokenOperationResult<String>)
    ensures
        value@.invitation == value.invitation@,
        value@.token_generation == value.token_generation,
        value@.disclose_token == value.disclose_token,
{
}

/// The model of an invitation has every field as it is.
pub proof fn invitations_are_modelled_field_by_field(value: InvitationRecord<String>)
    ensures
        value@.invitation_id == value.invitation_id,
        value@.organization_id == value.organization_id@,
        value@.identifier == value.identifier@,
        value@.email == value.email@,
        value@.email_normalized == value.email_normalized@,
        value@.state == value.state,
        value@.inviter_subject == value.inviter_subject@,
        value@.acceptance_subject == option_text(value.acceptance_subject),
        value@.token_hash == option_text(value.token_hash),
        value@.token_generation == value.token_generation,
        value@.token_expires_at == value.token_expires_at,
        value@.token_consumed_at == value.token_consumed_at,
        value@.revision == value.revision,
        value@.delivery_state == value.delivery_state,
        value@.delivery_intent_id == option_text(value.delivery_intent_id),
        value@.delivery_id == option_text(value.delivery_id),
        value@.membership_id == option_text(value.membership_id),
        value@.revoke_reason == option_text(value.revoke_reason),
        value@.created_at == value.created_at,
        value@.updated_at == value.updated_at,
        value@.accepted_at == value.accepted_at,
        value@.revoked_at == value.revoked_at,
        value@.expired_at == value.expired_at,
{
}

/// The model of what is shown of an invitation has every field as it is.
pub proof fn shown_invitations_are_modelled_field_by_field(value: InvitationView<String>)
    ensures
        value@.invitation_id == value.invitation_id,
        value@.identifier == value.identifier@,
        value@.organization_id == value.organization_id@,
        value@.email == value.email@,
        value@.state == value.state,
        value@.inviter_subject == value.inviter_subject@,
        value@.accepted_subject == option_text(value.accepted_subject),
        value@.revision == value.revision,
        value@.token_expires_at == value.token_expires_at,
        value@.acceptance_pending == value.acceptance_pending,
        value@.delivery_state == value.delivery_state,
        value@.created_at == value.created_at,
        value@.updated_at == value.updated_at,
        value@.accepted_at == value.accepted_at,
        value@.revoked_at == value.revoked_at,
        value@.expired_at == value.expired_at,
{
}

/// The model of the answer of an acceptance has every field as it is.
pub proof fn accepted_records_are_modelled_field_by_field(value: AcceptedRecord<String>)
    ensures
        value@.invitation_id == value.invitation_id,
        value@.identifier == value.identifier@,
        value@.organization_id == value.organization_id@,
        value@.state == value.state,
        value@.membership_id == value.membership_id@,
        value@.revision == value.revision,
{
}

/// The model of a receipt has every field as it is.
pub proof fn receipts_are_modelled_field_by_field(value: Receipt<String>)
    ensures
        match value {
            Receipt::Membership { membership_id, membership_revision } => value@
                == (Receipt::<Seq<char>>::Membership {
                    membership_id: membership_id@,
                    membership_revision: membership_revision@,
                }),
            Receipt::Notification { intent_id, delivery_id } => value@
                == (Receipt::<Seq<char>>::Notification {
                    intent_id: intent_id@,
                    delivery_id: delivery_id@,
                }),
            Receipt::Lifecycle { recorded } => value@ == (Receipt::<Seq<char>>::Lifecycle {
                recorded,
            }),
        },
{
}

/// The model of a stored command has every field as it is.
pub proof fn commands_are_modelled_field_by_field(value: CommandRow<String>)
    ensures
        value@.command_id == value.command_id,
        value@.organization_id == value.organization_id@,
        value@.invitation_id == value.invitation_id,
        value@.kind == value.kind@,
        value@.command_key == value.command_key@,
        value@.token_generation == value.token_generation,
        value@.acceptance_subject == option_text(value.acceptance_subject),
        value@.lifecycle == option_text(value.lifecycle),
        value@.state == value.state,
        value@.attempts == value.attempts,
        value@.available_at == value.available_at,
        value@.lease_token == value.lease_token,
        value@.lease_until == value.lease_until,
        value@.last_error == option_text(value.last_error),
        value@.receipt == option_receipt(value.receipt),
        value@.updated_at == value.updated_at,
        value@.completed_at == value.completed_at,
{
}

/// The model of a held command has every field as it is.
pub proof fn held_commands_are_modelled_field_by_field(value: CommandRecord<String>)
    ensures
        value@.command_id == value.command_id,
        value@.organization_id == value.organization_id@,
        value@.invitation_id == value.invitation_id,
        value@.kind == value.kind@,
        value@.command_key == value.command_key@,
        value@.token_generation == value.token_generation,
        value@.acceptance_subject == option_text(value.acceptance_subject),
        value@.lifecycle == option_text(value.lifecycle),
        value@.attempts == value.attempts,
        value@.lease_token == value.lease_token,
{
}

/// The model of the evidence of an activity has every field as it is.
pub proof fn evidence_is_modelled_field_by_field(value: Evidence<String>)
    ensures
        match value {
            Evidence::Creation { email_normalized, token_generation } => value@
                == (Evidence::<Seq<char>>::Creation {
                    email_normalized: email_normalized@,
                    token_generation,
                }),
            Evidence::Rotation { token_generation } => value@ == (Evidence::<Seq<char>>::Rotation {
                token_generation,
            }),
            Evidence::Revocation { reason } => value@ == (Evidence::<Seq<char>>::Revocation {
                reason: reason@,
            }),
            Evidence::TokenDeadline => value@ == Evidence::<Seq<char>>::TokenDeadline,
            Evidence::AcceptanceStart { command_id } => value@
                == (Evidence::<Seq<char>>::AcceptanceStart {
                    command_id,
                }),
            Evidence::Membership { membership_id, provider_revision } => value@
                == (Evidence::<Seq<char>>::Membership {
                    membership_id: membership_id@,
                    provider_revision: provider_revision@,
                }),
            Evidence::Failure { error_code } => value@ == (Evidence::<Seq<char>>::Failure {
                error_code: error_code@,
            }),
        },
{
}

/// The model of an activity has every field as it is.
pub proof fn activities_are_modelled_field_by_field(value: Activity<String>)
    ensures
        value@.activity_id == value.activity_id,
        value@.organization_id == value.organization_id@,
        value@.invitation_id == value.invitation_id,
        value@.kind == value.kind,
        value@.actor_subject == value.actor_subject@,
        value@.invitation_revision == value.invitation_revision,
        value@.evidence == value.evidence@,
{
}

/// The model of an expired invitation has every field as it is.
pub proof fn expired_items_are_modelled_field_by_field(value: ExpiredItem<String>)
    ensures
        value@.invitation_id == value.invitation_id,
        value@.identifier == value.identifier@,
        value@.revision == value.revision,
{
}

/// The model of the answer of an expiry has every field as it is.
pub proof fn expiries_are_modelled_field_by_field(value: ExpireResult<Vec<ExpiredItem<String>>>)
    ensures
        value@.expired == value.expired,
        value@.items == items_view(value.items@),
        value@.has_more == value.has_more,
{
}

/// The model of a kept answer has every field as it is.
pub proof fn answers_are_modelled_field_by_field(value: Response<String, Vec<ExpiredItem<String>>>)
    ensures
        match value {
            Response::Token { invitation, token_generation } => value@ == (ResponseModel::Token {
                invitation: invitation@,
                token_generation,
            }),
            Response::Invitation { invitation } => value@ == (ResponseModel::Invitation {
                invitation: invitation@,
            }),
            Response::Acceptance { accepted } => value@ == (ResponseModel::Acceptance {
                accepted: accepted@,
            }),
            Response::Expiry { expiry } => value@ == (ResponseModel::Expiry {
                expiry: expiry@,
            }),
            Response::Dispatch { dispatch } => value@ == (ResponseModel::Dispatch { dispatch }),
        },
{
}

/// The model of a write has every field as it is.
pub proof fn writes_are_modelled_field_by_field(value: Write<String, Vec<ExpiredItem<String>>>)
    ensures
        match value {
            Write::InsertInvitation { record } => value@ == (WriteModel::InsertInvitation {
                record: record@,
            }),
            Write::UpdateInvitation { record } => value@ == (WriteModel::UpdateInvitation {
                record: record@,
            }),
            Write::SupersedeNotifications { invitation_id, at } => value@
                == (WriteModel::SupersedeNotifications {
                    invitation_id,
                    at,
                }),
            Write::InsertCommand { row } => value@ == (WriteModel::InsertCommand { row: row@ }),
            Write::UpdateCommand { row } => value@ == (WriteModel::UpdateCommand { row: row@ }),
            Write::InsertActivity { activity } => value@ == (WriteModel::InsertActivity {
                activity: activity@,
            }),
            Write::CompleteMutation {
                caller,
                idempotency_key,
                invitation,
                response,
            } => value@
                == (WriteModel::CompleteMutation {
                    caller: caller@,
                    idempotency_key: idempotency_key@,
                    invitation,
                    response: response@,
                }),
            Write::BindMutation {
                caller,
                idempotency_key,
                organization_id,
                invitation_id,
                command_id,
            } => value@
                == (WriteModel::BindMutation {
                    caller: caller@,
                    idempotency_key: idempotency_key@,
                    organization_id: organization_id@,
                    invitation_id,
                    command_id,
                }),
            Write::ReleaseMutation { caller, idempotency_key } => value@
                == (WriteModel::ReleaseMutation {
                    caller: caller@,
                    idempotency_key: idempotency_key@,
                }),
            Write::CompleteAcceptance { command_id, accepted } => value@
                == (WriteModel::CompleteAcceptance {
                    command_id,
                    accepted: accepted@,
                }),
            Write::ReleaseAcceptance { command_id } => value@ == (WriteModel::ReleaseAcceptance {
                command_id,
            }),
        },
{
}

/// A text that may be missing is modelled as it is, missing or not.
pub proof fn optional_texts_are_modelled_as_they_are(text: Option<String>)
    ensures
        text matches Some(found) ==> option_text(text) == Some(found@),
        text is None ==> option_text(text) is None,
{
}

/// A receipt that may be missing is modelled as it is, missing or not.
pub proof fn optional_receipts_are_modelled_as_they_are(receipt: Option<Receipt<String>>)
    ensures
        receipt matches Some(found) ==> option_receipt(receipt) == Some(found@),
        receipt is None ==> option_receipt(receipt) is None,
{
}

/// A row that may be missing is modelled as it is, missing or not.
pub proof fn optional_rows_are_modelled_as_they_are(
    record: Option<InvitationRecord<String>>,
    row: Option<CommandRow<String>>,
)
    ensures
        record matches Some(found) ==> option_record(record) == Some(found@),
        record is None ==> option_record(record) is None,
        row matches Some(found) ==> option_row(row) == Some(found@),
        row is None ==> option_row(row) is None,
{
}

/// A mutation that may not be kept is modelled as it is, kept or not.
pub proof fn optional_mutations_are_modelled_as_they_are<R>(stored: Option<StoredMutation<R>>)
    ensures
        stored matches Some(found) ==> option_kept(stored) == Some(found@),
        stored is None ==> option_kept(stored) is None,
{
}

/// A borrowed text that may be missing is modelled as it is, and so is a text that may be an error.
pub proof fn results_are_modelled_as_they_are(
    borrowed: Option<&str>,
    text: Result<String, String>,
    token: Result<String, TokenError>,
)
    ensures
        borrowed matches Some(found) ==> option_str(borrowed) == Some(found@),
        borrowed is None ==> option_str(borrowed) is None,
        text matches Ok(found) ==> text_or_error(text) == Ok::<Seq<char>, Seq<char>>(found@),
        text matches Err(error) ==> text_or_error(text) == Err::<Seq<char>, Seq<char>>(error@),
        token matches Ok(found) ==> result_text(token) == Ok::<Seq<char>, TokenError>(found@),
        token matches Err(error) ==> result_text(token) == Err::<Seq<char>, TokenError>(error),
{
}

/// The model of a sequence has the models of its elements, in their order.
pub proof fn sequences_are_modelled_in_order(
    writes: Seq<StoredWrite>,
    items: Seq<ExpiredItem<String>>,
    rows: Seq<(InvitationRecord<String>, Identifiers)>,
    claims: Seq<(CommandRow<String>, u128)>,
    commands: Seq<CommandRecord<String>>,
    values: Seq<String>,
)
    ensures
        writes_view(writes).len() == writes.len(),
        forall|i: int| 0 <= i < writes.len() ==> #[trigger] writes_view(writes)[i] == writes[i]@,
        items_view(items).len() == items.len(),
        forall|i: int| 0 <= i < items.len() ==> #[trigger] items_view(items)[i] == items[i]@,
        rows_view(rows).len() == rows.len(),
        forall|i: int|
            0 <= i < rows.len() ==> #[trigger] rows_view(rows)[i] == (rows[i].0@, rows[i].1),
        claims_view(claims).len() == claims.len(),
        forall|i: int|
            0 <= i < claims.len() ==> #[trigger] claims_view(claims)[i] == (
            claims[i].0@,
            claims[i].1,
            ),
        commands_view(commands).len() == commands.len(),
        forall|i: int|
            0 <= i < commands.len() ==> #[trigger] commands_view(commands)[i] == commands[i]@,
        texts(values).len() == values.len(),
        forall|i: int| 0 <= i < values.len() ==> #[trigger] texts(values)[i] == values[i]@,
{
}

} // verus!
