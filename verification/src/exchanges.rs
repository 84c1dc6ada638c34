//! What providers are asked on behalf of a held command, and how their replies settle it.

use crate::commands::kinds_differ;
use crate::dispatch::{
    acceptance_error, action_view, disposition_of, failure_text, next_action, retry_delay, tally,
    CommandAction, CommandDisposition, CommandEvent, DeliveryReply, DeliverySettings, FailureCode,
    Locale, MemberReply, ObservationReply, OrganizationReply, RetryPolicy, Settlement,
};
use crate::instants::instant_text;
use crate::records::{
    state_text, states_are_told_apart_by_their_text, CommandRecord, InvitationRecord,
    InvitationState, StorageError,
};
use crate::text::decimal;
use crate::token::{derived_token, token_check, TokenError};
use crate::urls::url_with_pairs;
use crate::uuids::uuid_text;
use vstd::arithmetic::power2::{lemma_pow2_unfold, pow2};
use vstd::prelude::*;

verus! {

/// A settlement that ends the command for good.
pub open spec fn fails(settlement: Settlement<Seq<char>>, reason: FailureCode) -> bool {
    settlement matches Settlement::Fail { code } && code == reason
}

/// A settlement that puts the command back for so many seconds.
pub open spec fn waits(
    settlement: Settlement<Seq<char>>,
    reason: FailureCode,
    seconds: int,
) -> bool {
    settlement matches Settlement::Retry { code, delay_seconds } && code == reason && delay_seconds
        == seconds
}

/// The text of a state names that state alone.
proof fn lemma_states_by_text(state: InvitationState)
    ensures
        state_text(state) == "accepted"@ <==> state == InvitationState::Accepted,
        state_text(state) == "revoked"@ <==> state == InvitationState::Revoked,
        state_text(state) == "expired"@ <==> state == InvitationState::Expired,
{
    if state_text(state) == "accepted"@ {
        states_are_told_apart_by_their_text(state, InvitationState::Accepted);
    }
    if state_text(state) == "revoked"@ {
        states_are_told_apart_by_their_text(state, InvitationState::Revoked);
    }
    if state_text(state) == "expired"@ {
        states_are_told_apart_by_their_text(state, InvitationState::Expired);
    }
}

/// A delay is one that a command can wait.
proof fn lemma_delays_fit(attempts: i32, base_seconds: i64)
    ensures
        i64::MIN <= retry_delay(attempts, base_seconds) <= 86_400,
{
}

/// A report says how its invitation ended: the state that its command names, which is the state of
/// the invitation, and the instant at which the invitation came into that state. It is about the
/// invitation and the organization of its command.
pub proof fn reports_say_how_the_invitation_ended(
    command: CommandRecord<Seq<char>>,
    record: InvitationRecord<Seq<char>>,
    event: CommandEvent<Seq<char>>,
    settings: DeliverySettings,
    policy: RetryPolicy,
)
    requires
        next_action(command, Some(record), event, settings, policy) is Ok,
        next_action(command, Some(record), event, settings, policy)->Ok_0 is ObserveLifecycle,
    ensures
        ({
            let observation = next_action(
                command,
                Some(record),
                event,
                settings,
                policy,
            )->Ok_0->observation;
            let ended = match observation.lifecycle {
                InvitationState::Accepted => record.accepted_at,
                InvitationState::Revoked => record.revoked_at,
                InvitationState::Expired => record.expired_at,
                InvitationState::Pending => None,
            };
            &&& event is Start
            &&& command.kind == "notify_lifecycle"@
            &&& command.lifecycle == Some(state_text(observation.lifecycle))
            &&& record.state == observation.lifecycle
            &&& observation.lifecycle != InvitationState::Pending
            &&& ended is Some
            &&& instant_text(ended->0) == Ok::<Seq<char>, Seq<char>>(observation.observed_at)
            &&& observation.observation_id == command.command_key
            &&& observation.organization_id == command.organization_id
            &&& observation.invitation_id == uuid_text(command.invitation_id)
        }),
{
    kinds_differ();
    lemma_states_by_text(record.state);
}

/// An invitation that ended at an instant that has a text is reported, by a command that names its
/// state.
pub proof fn ended_invitations_are_reported(
    command: CommandRecord<Seq<char>>,
    record: InvitationRecord<Seq<char>>,
    settings: DeliverySettings,
    policy: RetryPolicy,
)
    requires
        command.kind == "notify_lifecycle"@,
        command.lifecycle == Some(state_text(record.state)),
        ({
            let ended = match record.state {
                InvitationState::Accepted => record.accepted_at,
                InvitationState::Revoked => record.revoked_at,
                InvitationState::Expired => record.expired_at,
                InvitationState::Pending => None,
            };
            ended is Some && instant_text(ended->0) is Ok
        }),
    ensures
        next_action(command, Some(record), CommandEvent::Start, settings, policy) is Ok,
        next_action(
            command,
            Some(record),
            CommandEvent::Start,
            settings,
            policy,
        )->Ok_0 is ObserveLifecycle,
{
    kinds_differ();
    lemma_states_by_text(record.state);
}

/// A report of an end without an instant fails, and so does one of an invitation that is pending.
pub proof fn reports_need_the_instant_of_the_end(
    command: CommandRecord<Seq<char>>,
    record: InvitationRecord<Seq<char>>,
    settings: DeliverySettings,
    policy: RetryPolicy,
)
    requires
        command.kind == "notify_lifecycle"@,
        command.lifecycle == Some(state_text(record.state)),
    ensures
        ({
            let action = next_action(command, Some(record), CommandEvent::Start, settings, policy);
            let missing = Ok::<CommandAction<Seq<char>>, Seq<char>>(
                CommandAction::Settle {
                    settlement: Settlement::Fail { code: FailureCode::MissingLifecycleTimestamp },
                },
            );
            &&& record.state == InvitationState::Accepted && record.accepted_at is None ==> action
                == missing
            &&& record.state == InvitationState::Revoked && record.revoked_at is None ==> action
                == missing
            &&& record.state == InvitationState::Expired && record.expired_at is None ==> action
                == missing
            &&& record.state == InvitationState::Pending ==> action == Ok::<
                CommandAction<Seq<char>>,
                Seq<char>,
            >(
                CommandAction::Settle {
                    settlement: Settlement::Fail { code: FailureCode::InvalidLifecycle },
                },
            )
        }),
{
    kinds_differ();
    lemma_states_by_text(record.state);
}

/// A command is dropped at its start exactly where its invitation is gone or has moved on: a
/// delivery when the invitation is no longer pending or its token is another one, a report when the
/// invitation is in another state, a membership when another subject accepts or the invitation has
/// ended. A command of another kind is dropped too.
pub proof fn commands_are_dropped_when_the_invitation_moved_on(
    command: CommandRecord<Seq<char>>,
    invitation: Option<InvitationRecord<Seq<char>>>,
    settings: DeliverySettings,
    policy: RetryPolicy,
)
    ensures
        ({
            let action = next_action(command, invitation, CommandEvent::Start, settings, policy);
            let stands = invitation matches Some(record) && {
                ||| command.kind == "notify_invitation"@ && record.state == InvitationState::Pending
                    && record.token_hash is Some && command.token_generation == Some(
                    record.token_generation,
                )
                ||| command.kind == "notify_lifecycle"@ && command.lifecycle == Some(
                    state_text(record.state),
                )
                ||| command.kind == "add_member"@ && record.state == InvitationState::Pending
                    && record.acceptance_subject == command.acceptance_subject
            };
            action == Ok::<CommandAction<Seq<char>>, Seq<char>>(
                CommandAction::Settle { settlement: Settlement::Supersede },
            ) <==> !stands
        }),
{
    kinds_differ();
}

/// A membership is asked for with the key, the organization and the subject of its command, and
/// only for a pending invitation that this subject accepts.
pub proof fn memberships_are_asked_for_the_accepting_subject(
    command: CommandRecord<Seq<char>>,
    record: InvitationRecord<Seq<char>>,
    event: CommandEvent<Seq<char>>,
    settings: DeliverySettings,
    policy: RetryPolicy,
)
    requires
        next_action(command, Some(record), event, settings, policy) is Ok,
        next_action(command, Some(record), event, settings, policy)->Ok_0 is AddMember,
    ensures
        ({
            let member = next_action(command, Some(record), event, settings, policy)->Ok_0->member;
            &&& event is Start
            &&& command.kind == "add_member"@
            &&& record.state == InvitationState::Pending
            &&& record.acceptance_subject == Some(member.subject)
            &&& command.acceptance_subject == Some(member.subject)
            &&& member.idempotency_key == command.command_key
            &&& member.organization_id == command.organization_id
        }),
{
    kinds_differ();
}

/// A membership command whose subject accepts a pending invitation asks for the membership; one
/// without a subject fails.
pub proof fn accepting_subjects_get_their_membership(
    command: CommandRecord<Seq<char>>,
    record: InvitationRecord<Seq<char>>,
    settings: DeliverySettings,
    policy: RetryPolicy,
)
    requires
        command.kind == "add_member"@,
        record.state == InvitationState::Pending,
        record.acceptance_subject == command.acceptance_subject,
    ensures
        ({
            let action = next_action(command, Some(record), CommandEvent::Start, settings, policy);
            &&& action is Ok
            &&& command.acceptance_subject is Some ==> action->Ok_0 is AddMember
            &&& command.acceptance_subject is None ==> action->Ok_0 == (CommandAction::<
                Seq<char>,
            >::Settle {
                settlement: Settlement::Fail { code: FailureCode::MissingAcceptanceSubject },
            })
        }),
{
    kinds_differ();
}

/// A delivery starts with the organization of its command.
pub proof fn deliveries_start_with_the_organization(
    command: CommandRecord<Seq<char>>,
    record: InvitationRecord<Seq<char>>,
    event: CommandEvent<Seq<char>>,
    settings: DeliverySettings,
    policy: RetryPolicy,
)
    requires
        next_action(command, Some(record), event, settings, policy) is Ok,
        next_action(command, Some(record), event, settings, policy)->Ok_0 is GetOrganization,
    ensures
        event is Start,
        command.kind == "notify_invitation"@,
        next_action(
            command,
            Some(record),
            event,
            settings,
            policy,
        )->Ok_0->GetOrganization_organization_id == command.organization_id,
{
    kinds_differ();
}

/// What is delivered goes to the address of the invitation, on behalf of its inviter, in the name
/// of its organization. It carries a link with the identifier, the token and the revision of the
/// invitation, and the deadline of the token; the token is the one of the generation of the
/// command, and the stored verifier takes it.
pub proof fn deliveries_carry_the_invitation(
    command: CommandRecord<Seq<char>>,
    record: InvitationRecord<Seq<char>>,
    event: CommandEvent<Seq<char>>,
    settings: DeliverySettings,
    policy: RetryPolicy,
)
    requires
        next_action(command, Some(record), event, settings, policy) is Ok,
        next_action(command, Some(record), event, settings, policy)->Ok_0 is CreateInvitation,
    ensures
        ({
            let delivery = next_action(
                command,
                Some(record),
                event,
                settings,
                policy,
            )->Ok_0->delivery;
            let token = derived_token(
                settings.derivation_secret@,
                command.invitation_id,
                command.token_generation->0,
            );
            &&& event matches CommandEvent::Organization {
                organization: OrganizationReply::Active { name },
            } && delivery.organization_name == name
            &&& delivery.entity_type == "organization_invitation"@
            &&& delivery.entity_id == uuid_text(command.invitation_id)
            &&& delivery.address == record.email
            &&& settings.locale@ == "en-US"@ ==> delivery.locale == Locale::EnUS
            &&& settings.locale@ != "en-US"@ ==> delivery.locale == Locale::En
            &&& delivery.organization_id == record.organization_id
            &&& delivery.invitation_id == uuid_text(command.invitation_id)
            &&& delivery.idempotency_key == command.command_key
            &&& delivery.correlation_id == uuid_text(command.invitation_id)
            &&& delivery.causation_id == uuid_text(command.command_id)
            &&& delivery.requested_by == record.inviter_subject
            &&& instant_text(record.token_expires_at) == Ok::<Seq<char>, Seq<char>>(
                delivery.expires_at,
            )
            &&& command.token_generation is Some
            &&& token is Ok
            &&& record.token_hash is Some
            &&& token_check(token->Ok_0, settings.token_pepper@, record.token_hash->0) == Ok::<
                bool,
                TokenError,
            >(true)
            &&& url_with_pairs(
                settings.invitation_url_base@,
                seq![
                    ("invitation_id"@, uuid_text(command.invitation_id)),
                    ("token"@, token->Ok_0),
                    ("revision"@, decimal(record.revision as int)),
                ],
            ) == Some(delivery.invitation_url)
        }),
{
    kinds_differ();
}

/// A delivery to an active organization is made where the token of the command is the one that the
/// stored verifier takes, the link can be made and the deadline has a text. It is dropped where the
/// invitation has no verifier, and fails where the token or the link cannot be made.
pub proof fn active_organizations_get_the_delivery(
    command: CommandRecord<Seq<char>>,
    record: InvitationRecord<Seq<char>>,
    name: Seq<char>,
    settings: DeliverySettings,
    policy: RetryPolicy,
)
    ensures
        ({
            let reply = OrganizationReply::Active { name };
            let event = CommandEvent::Organization { organization: reply };
            let action = next_action(command, Some(record), event, settings, policy);
            let generation = command.token_generation;
            let token = derived_token(
                settings.derivation_secret@,
                command.invitation_id,
                generation->0,
            );
            let check = token_check(token->Ok_0, settings.token_pepper@, record.token_hash->0);
            let takes = check == Ok::<bool, TokenError>(true);
            let link = url_with_pairs(
                settings.invitation_url_base@,
                seq![
                    ("invitation_id"@, uuid_text(command.invitation_id)),
                    ("token"@, token->Ok_0),
                    ("revision"@, decimal(record.revision as int)),
                ],
            );
            let settled = action->Ok_0->settlement;
            if generation is None {
                settled == Settlement::<Seq<char>>::Fail {
                    code: FailureCode::MissingTokenGeneration,
                }
            } else if token is Err {
                settled == Settlement::<Seq<char>>::Fail {
                    code: FailureCode::TokenDerivationFailed,
                }
            } else if record.token_hash is None {
                settled == Settlement::<Seq<char>>::Supersede
            } else if !takes {
                settled == Settlement::<Seq<char>>::Fail {
                    code: FailureCode::TokenDerivationMismatch,
                }
            } else if link is None {
                settled == Settlement::<Seq<char>>::Fail { code: FailureCode::InvalidInvitationUrl }
            } else {
                &&& action is Ok <==> instant_text(record.token_expires_at) is Ok
                &&& action is Ok ==> action->Ok_0 is CreateInvitation
                &&& action is Err ==> instant_text(record.token_expires_at) == Err::<
                    Seq<char>,
                    Seq<char>,
                >(action->Err_0)
            }
        }),
{
}

/// The reply of a provider settles the command. A result completes it with what the provider gave.
/// A definite refusal fails it at once, an outage puts it back however often it was tried, and an
/// outcome that is not known puts it back until the attempts are used up.
pub proof fn replies_settle_the_command(
    command: CommandRecord<Seq<char>>,
    invitation: Option<InvitationRecord<Seq<char>>>,
    event: CommandEvent<Seq<char>>,
    settings: DeliverySettings,
    policy: RetryPolicy,
)
    requires
        event !is Start,
        event matches CommandEvent::Organization { organization } ==> invitation is Some
            && organization !is Active,
    ensures
        ({
            let action = next_action(command, invitation, event, settings, policy);
            let settled = action->Ok_0->settlement;
            let delay = retry_delay(command.attempts, policy.retry_base_seconds);
            let last = command.attempts >= policy.max_command_attempts;
            &&& action is Ok
            &&& action->Ok_0 is Settle
            &&& match event {
                CommandEvent::Member { member: MemberReply::Added { membership_id, revision } } => {
                    settled == (Settlement::CompleteAccept {
                        membership_id,
                        provider_revision: revision,
                    })
                },
                CommandEvent::Delivery {
                    delivered: DeliveryReply::Queued { intent_id, delivery_id },
                } => settled == (Settlement::CompleteNotification { intent_id, delivery_id }),
                CommandEvent::Observation { observed: ObservationReply::Observed { recorded } } => {
                    settled == (Settlement::<Seq<char>>::CompleteLifecycle { recorded })
                },
                CommandEvent::Member { member: MemberReply::IdempotencyConflict } => fails(
                    settled,
                    FailureCode::MembershipIdempotencyConflict,
                ),
                CommandEvent::Member { member: MemberReply::Rejected } => fails(
                    settled,
                    FailureCode::MembershipRejected,
                ),
                CommandEvent::Member { member: MemberReply::Unavailable } => waits(
                    settled,
                    FailureCode::MembershipUnavailable,
                    delay,
                ),
                CommandEvent::Organization { organization: OrganizationReply::Inactive } => fails(
                    settled,
                    FailureCode::OrganizationInactive,
                ),
                CommandEvent::Organization { organization: OrganizationReply::Rejected } => fails(
                    settled,
                    FailureCode::OrganizationDirectoryRejected,
                ),
                CommandEvent::Organization { organization: OrganizationReply::Unavailable } => {
                    waits(settled, FailureCode::OrganizationDirectoryUnavailable, delay)
                },
                CommandEvent::Organization { organization: OrganizationReply::Unknown } => {
                    &&& last ==> fails(settled, FailureCode::OrganizationDirectoryUnknown)
                    &&& !last ==> waits(settled, FailureCode::OrganizationDirectoryUnknown, delay)
                },
                CommandEvent::Delivery { delivered: DeliveryReply::IdempotencyConflict } => fails(
                    settled,
                    FailureCode::NotificationIdempotencyConflict,
                ),
                CommandEvent::Delivery { delivered: DeliveryReply::Rejected } => fails(
                    settled,
                    FailureCode::NotificationRejected,
                ),
                CommandEvent::Delivery { delivered: DeliveryReply::Unavailable } => waits(
                    settled,
                    FailureCode::NotificationUnavailable,
                    delay,
                ),
                CommandEvent::Delivery { delivered: DeliveryReply::Unknown } => {
                    &&& last ==> fails(settled, FailureCode::NotificationUnknown)
                    &&& !last ==> waits(settled, FailureCode::NotificationUnknown, delay)
                },
                CommandEvent::Observation { observed: ObservationReply::ObservationConflict } => {
                    fails(settled, FailureCode::NotificationObservationConflict)
                },
                CommandEvent::Observation { observed: ObservationReply::Rejected } => fails(
                    settled,
                    FailureCode::NotificationRejected,
                ),
                CommandEvent::Observation { observed: ObservationReply::Unavailable } => waits(
                    settled,
                    FailureCode::NotificationUnavailable,
                    delay,
                ),
                CommandEvent::Observation { observed: ObservationReply::Unknown } => {
                    &&& last ==> fails(settled, FailureCode::NotificationUnknown)
                    &&& !last ==> waits(settled, FailureCode::NotificationUnknown, delay)
                },
                _ => false,
            }
        }),
{
    lemma_delays_fit(command.attempts, policy.retry_base_seconds);
}

/// A command whose invitation is gone is dropped when its organization has answered.
pub proof fn deliveries_of_lost_invitations_are_dropped(
    command: CommandRecord<Seq<char>>,
    organization: OrganizationReply<Seq<char>>,
    settings: DeliverySettings,
    policy: RetryPolicy,
)
    ensures
        next_action(command, None, CommandEvent::Organization { organization }, settings, policy)
            == Ok::<CommandAction<Seq<char>>, Seq<char>>(
            CommandAction::Settle { settlement: Settlement::Supersede },
        ),
{
}

/// The first delay is the base, every further attempt doubles the delay, within a day above and the
/// least number below, and from the thirteenth attempt on it stays.
pub proof fn retry_delays_double(attempts: i32, base_seconds: i64)
    ensures
        attempts <= 1 ==> retry_delay(attempts, base_seconds) == if base_seconds <= 86_400 {
            base_seconds as int
        } else {
            86_400
        },
        1 <= attempts < 13 ==> {
            let delay = retry_delay(attempts, base_seconds);
            let next = retry_delay((attempts + 1) as i32, base_seconds);
            next == if 2 * delay > 86_400 {
                86_400
            } else if 2 * delay < i64::MIN {
                i64::MIN as int
            } else {
                2 * delay
            }
        },
        attempts > 13 ==> retry_delay(attempts, base_seconds) == retry_delay(13, base_seconds),
{
    vstd::arithmetic::power2::lemma2_to64();
    let one = pow2(0);
    assert(base_seconds * one == base_seconds) by (nonlinear_arith)
        requires
            one == 1,
    ;
    if 1 <= attempts < 13 {
        let power = pow2((attempts - 1) as nat);
        lemma_pow2_unfold(attempts as nat);
        assert(base_seconds * (2 * power) == 2 * (base_seconds * power)) by (nonlinear_arith);
    }
}

/// The model of an action has the action, or the text of the error.
pub proof fn actions_keep_their_error(action: Result<CommandAction<String>, StorageError>)
    ensures
        action matches Ok(found) ==> action_view(action) == Ok::<
            CommandAction<Seq<char>>,
            Seq<char>,
        >(found@),
        action matches Err(StorageError::TimestampNotFormattable { error }) ==> action_view(action)
            == Err::<CommandAction<Seq<char>>, Seq<char>>(error@),
{
}

/// A command that failed for good counts as a failure, one that was put back as a retry, and every
/// other settlement as completed.
pub proof fn settlements_are_counted_as_what_they_are(
    settlement: Settlement<Seq<char>>,
)
    ensures
        settlement is Fail <==> disposition_of(settlement) == CommandDisposition::PermanentFailure,
        settlement is Retry <==> disposition_of(settlement) == CommandDisposition::RetryScheduled,
{
}

/// A tally counts each command once, under its own disposition.
pub proof fn tallies_count_each_command_once(
    dispositions: Seq<CommandDisposition>,
    last: CommandDisposition,
    counted: CommandDisposition,
)
    ensures
        tally(Seq::empty(), counted) == 0,
        last == counted ==> tally(dispositions.push(last), counted) == tally(dispositions, counted)
            + 1,
        last != counted ==> tally(dispositions.push(last), counted) == tally(dispositions, counted),
{
    assert(dispositions.push(last).drop_last() =~= dispositions);
}

/// The words under which a failure is stored.
pub proof fn failures_are_stored_in_words()
    ensures
        failure_text(FailureCode::MissingAcceptanceSubject) == "missing_acceptance_subject"@,
        failure_text(FailureCode::MembershipIdempotencyConflict)
            == "membership_idempotency_conflict"@,
        failure_text(FailureCode::MembershipRejected) == "membership_rejected"@,
        failure_text(FailureCode::MembershipUnavailable) == "membership_unavailable"@,
        failure_text(FailureCode::OrganizationInactive) == "organization_inactive"@,
        failure_text(FailureCode::OrganizationDirectoryUnknown)
            == "organization_directory_unknown"@,
        failure_text(FailureCode::OrganizationDirectoryRejected)
            == "organization_directory_rejected"@,
        failure_text(FailureCode::OrganizationDirectoryUnavailable)
            == "organization_directory_unavailable"@,
        failure_text(FailureCode::MissingTokenGeneration) == "missing_token_generation"@,
        failure_text(FailureCode::TokenDerivationFailed) == "token_derivation_failed"@,
        failure_text(FailureCode::TokenDerivationMismatch) == "token_derivation_mismatch"@,
        failure_text(FailureCode::InvalidInvitationUrl) == "invalid_invitation_url"@,
        failure_text(FailureCode::NotificationIdempotencyConflict)
            == "notification_idempotency_conflict"@,
        failure_text(FailureCode::NotificationUnknown) == "notification_unknown"@,
        failure_text(FailureCode::NotificationRejected) == "notification_rejected"@,
        failure_text(FailureCode::NotificationUnavailable) == "notification_unavailable"@,
        failure_text(FailureCode::MissingLifecycle) == "missing_lifecycle"@,
        failure_text(FailureCode::InvalidLifecycle) == "invalid_lifecycle"@,
        failure_text(FailureCode::MissingLifecycleTimestamp) == "missing_lifecycle_timestamp"@,
        failure_text(FailureCode::NotificationObservationConflict)
            == "notification_observation_conflict"@,
        failure_text(FailureCode::UnknownCommandKind) == "unknown_command_kind"@,
{
}

/// Only a definite refusal of the membership provider has a text for the subject.
pub proof fn only_refused_memberships_are_told(code: FailureCode)
    ensures
        acceptance_error(code) is Some <==> code == FailureCode::MembershipIdempotencyConflict
            || code == FailureCode::MembershipRejected,
        acceptance_error(FailureCode::MembershipIdempotencyConflict) == Some(
            "Organization Membership Admin reported an idempotency conflict"@,
        ),
        acceptance_error(FailureCode::MembershipRejected) == Some(
            "Organization Membership Admin rejected invitation acceptance"@,
        ),
{
}

} // verus!
