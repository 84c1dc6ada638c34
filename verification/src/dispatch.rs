//! How a held command is executed: which provider is asked for what, and how its reply settles the
//! command.

use crate::acceptance::{acceptance_writes, accepted, awaits, complete_accept};
use crate::commands::{
    command_matches_invitation, finished, is_fenced, matches_invitation, option_record, option_row,
    retried, retry_command, supersede_command, superseded, ADD_MEMBER, NOTIFY_INVITATION,
    NOTIFY_LIFECYCLE,
};
use crate::digests::wipe_text;
use crate::instants::{format_time, instant_after, instant_text};
use crate::lifecycle::Identifiers;
use crate::records::{
    acceptance_of, AcceptedRecord, CommandRecord, CommandRow, CommandState, InvitationRecord,
    InvitationState, Receipt, StorageError,
};
use crate::settlement::{
    complete_lifecycle_command, complete_notification_command, delivery_writes, fail_command,
    failure_writes,
};
use crate::text::same_text;
use crate::token::{derive_token, derived_token, token_check, verify_token, TokenError};
use crate::urls::{invitation_pairs, invitation_url, url_with_pairs, MAX_URL_BYTES};
use crate::uuids::{format_uuid, uuid_text};
use crate::writes::{writes_view, DispatchResult, Plan, Response, StoredWrite, Write, WriteModel};
use vstd::arithmetic::power2::pow2;
use vstd::prelude::*;
use vstd::utf8::*;

verus! {

/// Why a command failed, or has to wait.
#[derive(Clone, Copy, Debug, PartialEq, Eq, Structural)]
pub enum FailureCode {
    MissingAcceptanceSubject,
    MembershipIdempotencyConflict,
    MembershipRejected,
    MembershipUnavailable,
    OrganizationInactive,
    OrganizationDirectoryUnknown,
    OrganizationDirectoryRejected,
    OrganizationDirectoryUnavailable,
    MissingTokenGeneration,
    TokenDerivationFailed,
    TokenDerivationMismatch,
    InvalidInvitationUrl,
    NotificationIdempotencyConflict,
    NotificationUnknown,
    NotificationRejected,
    NotificationUnavailable,
    MissingLifecycle,
    InvalidLifecycle,
    MissingLifecycleTimestamp,
    NotificationObservationConflict,
    UnknownCommandKind,
}

/// The stored text of a failure code.
pub open spec fn failure_text(code: FailureCode) -> Seq<char> {
    match code {
        FailureCode::MissingAcceptanceSubject => "missing_acceptance_subject"@,
        FailureCode::MembershipIdempotencyConflict => "membership_idempotency_conflict"@,
        FailureCode::MembershipRejected => "membership_rejected"@,
        FailureCode::MembershipUnavailable => "membership_unavailable"@,
        FailureCode::OrganizationInactive => "organization_inactive"@,
        FailureCode::OrganizationDirectoryUnknown => "organization_directory_unknown"@,
        FailureCode::OrganizationDirectoryRejected => "organization_directory_rejected"@,
        FailureCode::OrganizationDirectoryUnavailable => "organization_directory_unavailable"@,
        FailureCode::MissingTokenGeneration => "missing_token_generation"@,
        FailureCode::TokenDerivationFailed => "token_derivation_failed"@,
        FailureCode::TokenDerivationMismatch => "token_derivation_mismatch"@,
        FailureCode::InvalidInvitationUrl => "invalid_invitation_url"@,
        FailureCode::NotificationIdempotencyConflict => "notification_idempotency_conflict"@,
        FailureCode::NotificationUnknown => "notification_unknown"@,
        FailureCode::NotificationRejected => "notification_rejected"@,
        FailureCode::NotificationUnavailable => "notification_unavailable"@,
        FailureCode::MissingLifecycle => "missing_lifecycle"@,
        FailureCode::InvalidLifecycle => "invalid_lifecycle"@,
        FailureCode::MissingLifecycleTimestamp => "missing_lifecycle_timestamp"@,
        FailureCode::NotificationObservationConflict => "notification_observation_conflict"@,
        FailureCode::UnknownCommandKind => "unknown_command_kind"@,
    }
}

impl FailureCode {
    pub fn as_str(&self) -> (text: &'static str)
        ensures
            text@ == failure_text(*self),
    {
        match self {
            FailureCode::MissingAcceptanceSubject => "missing_acceptance_subject",
            FailureCode::MembershipIdempotencyConflict => "membership_idempotency_conflict",
            FailureCode::MembershipRejected => "membership_rejected",
            FailureCode::MembershipUnavailable => "membership_unavailable",
            FailureCode::OrganizationInactive => "organization_inactive",
            FailureCode::OrganizationDirectoryUnknown => "organization_directory_unknown",
            FailureCode::OrganizationDirectoryRejected => "organization_directory_rejected",
            FailureCode::OrganizationDirectoryUnavailable => "organization_directory_unavailable",
            FailureCode::MissingTokenGeneration => "missing_token_generation",
            FailureCode::TokenDerivationFailed => "token_derivation_failed",
            FailureCode::TokenDerivationMismatch => "token_derivation_mismatch",
            FailureCode::InvalidInvitationUrl => "invalid_invitation_url",
            FailureCode::NotificationIdempotencyConflict => "notification_idempotency_conflict",
            FailureCode::NotificationUnknown => "notification_unknown",
            FailureCode::NotificationRejected => "notification_rejected",
            FailureCode::NotificationUnavailable => "notification_unavailable",
            FailureCode::MissingLifecycle => "missing_lifecycle",
            FailureCode::InvalidLifecycle => "invalid_lifecycle",
            FailureCode::MissingLifecycleTimestamp => "missing_lifecycle_timestamp",
            FailureCode::NotificationObservationConflict => "notification_observation_conflict",
            FailureCode::UnknownCommandKind => "unknown_command_kind",
        }
    }
}

/// The longest wait before a command is tried again, in seconds.
pub const MAX_RETRY_SECONDS: i64 = 86_400;

/// How often the wait has been doubled before the given attempt: at most 12 times.
pub open spec fn retry_exponent(attempts: i32) -> nat {
    if attempts <= 1 {
        0
    } else if attempts > 13 {
        12
    } else {
        (attempts - 1) as nat
    }
}

/// The wait after the given attempt: the base, doubled with every attempt, at most a day.
pub open spec fn retry_delay(attempts: i32, base_seconds: i64) -> int {
    let delay = base_seconds * pow2(retry_exponent(attempts));
    if delay > MAX_RETRY_SECONDS {
        MAX_RETRY_SECONDS as int
    } else if delay < i64::MIN {
        i64::MIN as int
    } else {
        delay
    }
}

/// Two to the given power of at most 12.
fn power_of_two(exponent: u32) -> (power: i64)
    requires
        exponent <= 12,
    ensures
        power == pow2(exponent as nat),
        1 <= power <= 4_096,
{
    let mut power: i64 = 1;
    let mut i: u32 = 0;
    proof {
        vstd::arithmetic::power2::lemma2_to64();
    }
    while i < exponent
        invariant
            i <= exponent <= 12,
            power == pow2(i as nat),
            1 <= power <= 4_096,
        decreases exponent - i,
    {
        proof {
            vstd::arithmetic::power2::lemma_pow2_unfold((i + 1) as nat);
            vstd::arithmetic::power2::lemma2_to64();
            if i + 1 < 12 {
                vstd::arithmetic::power2::lemma_pow2_strictly_increases((i + 1) as nat, 12);
            }
        }
        power = power * 2;
        i = i + 1;
    }
    power
}

/// How long a command waits before it is tried again, in seconds.
pub fn retry_delay_seconds(attempts: i32, base_seconds: i64) -> (delay: i64)
    ensures
        delay == retry_delay(attempts, base_seconds),
{
    let exponent: u32 = if attempts <= 1 {
        0
    } else if attempts > 13 {
        12
    } else {
        (attempts - 1) as u32
    };
    let power = power_of_two(exponent);
    assert(-0x8000_0000_0000_0000 * 4_096 <= base_seconds * power <= 0x7fff_ffff_ffff_ffff * 4_096)
        by (nonlinear_arith)
        requires
            1 <= power <= 4_096,
            -0x8000_0000_0000_0000 <= base_seconds <= 0x7fff_ffff_ffff_ffff,
    ;
    let delay: i128 = base_seconds as i128 * power as i128;
    if delay > MAX_RETRY_SECONDS as i128 {
        MAX_RETRY_SECONDS
    } else if delay < i64::MIN as i128 {
        i64::MIN
    } else {
        delay as i64
    }
}

/// With a positive base the wait is positive, is at most a day, and never shrinks from one attempt
/// to a later one.
pub proof fn retry_delays_grow_to_a_day(earlier: i32, later: i32, base_seconds: i64)
    requires
        earlier <= later,
        base_seconds > 0,
    ensures
        0 < retry_delay(earlier, base_seconds) <= retry_delay(later, base_seconds)
            <= MAX_RETRY_SECONDS,
{
    let small = retry_exponent(earlier);
    let large = retry_exponent(later);
    vstd::arithmetic::power2::lemma_pow2_pos(small);
    vstd::arithmetic::power2::lemma_pow2_pos(large);
    if small < large {
        vstd::arithmetic::power2::lemma_pow2_strictly_increases(small, large);
    }
    assert(0 < base_seconds * pow2(small) <= base_seconds * pow2(large)) by (nonlinear_arith)
        requires
            base_seconds > 0,
            0 < pow2(small) <= pow2(large),
    ;
}

/// When a command is tried again, and when it is given up.
#[derive(Clone, Copy, Debug, PartialEq, Eq, Structural)]
pub struct RetryPolicy {
    pub retry_base_seconds: i64,
    pub max_command_attempts: i32,
}

/// How a command is settled.
#[verifier::ext_equal]
#[derive(Clone, Debug, PartialEq, Eq)]
pub enum Settlement<S> {
    Supersede,
    Fail { code: FailureCode },
    Retry { code: FailureCode, delay_seconds: i64 },
    CompleteAccept { membership_id: S, provider_revision: S },
    CompleteNotification { intent_id: S, delivery_id: S },
    CompleteLifecycle { recorded: bool },
}

impl View for Settlement<String> {
    type V = Settlement<Seq<char>>;

    open spec fn view(&self) -> Settlement<Seq<char>> {
        match self {
            Settlement::Supersede => Settlement::Supersede,
            Settlement::Fail { code } => Settlement::Fail { code: *code },
            Settlement::Retry { code, delay_seconds } => Settlement::Retry {
                code: *code,
                delay_seconds: *delay_seconds,
            },
            Settlement::CompleteAccept { membership_id, provider_revision }
                => Settlement::CompleteAccept {
                membership_id: membership_id@,
                provider_revision: provider_revision@,
            },
            Settlement::CompleteNotification { intent_id, delivery_id }
                => Settlement::CompleteNotification {
                intent_id: intent_id@,
                delivery_id: delivery_id@,
            },
            Settlement::CompleteLifecycle { recorded } => Settlement::CompleteLifecycle {
                recorded: *recorded,
            },
        }
    }
}

/// What a settled command counts as.
#[derive(Clone, Copy, Debug, PartialEq, Eq, Structural)]
pub enum CommandDisposition {
    Completed,
    RetryScheduled,
    PermanentFailure,
}

pub open spec fn disposition_of<S>(settlement: Settlement<S>) -> CommandDisposition {
    match settlement {
        Settlement::Fail { .. } => CommandDisposition::PermanentFailure,
        Settlement::Retry { .. } => CommandDisposition::RetryScheduled,
        _ => CommandDisposition::Completed,
    }
}

impl Settlement<String> {
    pub fn disposition(&self) -> (disposition: CommandDisposition)
        ensures
            disposition == disposition_of(self@),
    {
        match self {
            Settlement::Fail { .. } => CommandDisposition::PermanentFailure,
            Settlement::Retry { .. } => CommandDisposition::RetryScheduled,
            _ => CommandDisposition::Completed,
        }
    }
}

/// A command that has to wait for its provider.
pub open spec fn scheduled(
    command: CommandRecord<Seq<char>>,
    code: FailureCode,
    policy: RetryPolicy,
) -> Settlement<Seq<char>> {
    Settlement::Retry {
        code,
        delay_seconds: retry_delay(command.attempts, policy.retry_base_seconds) as i64,
    }
}

/// Has a command tried again after its wait.
pub fn schedule_command_retry(
    command: &CommandRecord<String>,
    code: FailureCode,
    policy: RetryPolicy,
) -> (settlement: Settlement<String>)
    ensures
        settlement@ == scheduled(command@, code, policy),
{
    let delay_seconds = retry_delay_seconds(command.attempts, policy.retry_base_seconds);
    Settlement::Retry { code, delay_seconds }
}

/// A command whose provider gave an answer that is not understood: it is tried again until its
/// attempts are used up.
pub open spec fn retried_or_failed(
    command: CommandRecord<Seq<char>>,
    code: FailureCode,
    policy: RetryPolicy,
) -> Settlement<Seq<char>> {
    if command.attempts >= policy.max_command_attempts {
        Settlement::Fail { code }
    } else {
        scheduled(command, code, policy)
    }
}

pub fn retry_or_fail_command(
    command: &CommandRecord<String>,
    code: FailureCode,
    policy: RetryPolicy,
) -> (settlement: Settlement<String>)
    ensures
        settlement@ == retried_or_failed(command@, code, policy),
{
    if command.attempts >= policy.max_command_attempts {
        Settlement::Fail { code }
    } else {
        schedule_command_retry(command, code, policy)
    }
}

/// A request to make a subject a member.
#[verifier::ext_equal]
#[derive(Clone, Debug, PartialEq, Eq)]
pub struct MemberRequest<S> {
    pub idempotency_key: S,
    pub organization_id: S,
    pub subject: S,
}

impl View for MemberRequest<String> {
    type V = MemberRequest<Seq<char>>;

    open spec fn view(&self) -> MemberRequest<Seq<char>> {
        MemberRequest {
            idempotency_key: self.idempotency_key@,
            organization_id: self.organization_id@,
            subject: self.subject@,
        }
    }
}

/// The language of a notification.
#[derive(Clone, Copy, Debug, PartialEq, Eq, Structural)]
pub enum Locale {
    En,
    EnUS,
}

/// A request to deliver an invitation.
#[verifier::ext_equal]
#[derive(Clone, PartialEq, Eq)]
pub struct DeliveryRequest<S> {
    pub entity_type: S,
    pub entity_id: S,
    pub address: S,
    pub locale: Locale,
    pub organization_id: S,
    pub organization_name: S,
    pub invitation_id: S,
    pub invitation_url: S,
    pub expires_at: S,
    pub idempotency_key: S,
    pub correlation_id: S,
    pub causation_id: S,
    pub requested_by: S,
}

impl View for DeliveryRequest<String> {
    type V = DeliveryRequest<Seq<char>>;

    open spec fn view(&self) -> DeliveryRequest<Seq<char>> {
        DeliveryRequest {
            entity_type: self.entity_type@,
            entity_id: self.entity_id@,
            address: self.address@,
            locale: self.locale,
            organization_id: self.organization_id@,
            organization_name: self.organization_name@,
            invitation_id: self.invitation_id@,
            invitation_url: self.invitation_url@,
            expires_at: self.expires_at@,
            idempotency_key: self.idempotency_key@,
            correlation_id: self.correlation_id@,
            causation_id: self.causation_id@,
            requested_by: self.requested_by@,
        }
    }
}

/// A report of how an invitation ended.
#[verifier::ext_equal]
#[derive(Clone, Debug, PartialEq, Eq)]
pub struct ObservationRequest<S> {
    pub observation_id: S,
    pub organization_id: S,
    pub invitation_id: S,
    pub lifecycle: InvitationState,
    pub observed_at: S,
}

impl View for ObservationRequest<String> {
    type V = ObservationRequest<Seq<char>>;

    open spec fn view(&self) -> ObservationRequest<Seq<char>> {
        ObservationRequest {
            observation_id: self.observation_id@,
            organization_id: self.organization_id@,
            invitation_id: self.invitation_id@,
            lifecycle: self.lifecycle,
            observed_at: self.observed_at@,
        }
    }
}

/// What is done next with a held command.
#[verifier::ext_equal]
#[derive(Clone, PartialEq, Eq)]
pub enum CommandAction<S> {
    Settle { settlement: Settlement<S> },
    AddMember { member: MemberRequest<S> },
    GetOrganization { organization_id: S },
    CreateInvitation { delivery: DeliveryRequest<S> },
    ObserveLifecycle { observation: ObservationRequest<S> },
}

impl View for CommandAction<String> {
    type V = CommandAction<Seq<char>>;

    open spec fn view(&self) -> CommandAction<Seq<char>> {
        match self {
            CommandAction::Settle { settlement } => CommandAction::Settle {
                settlement: settlement@,
            },
            CommandAction::AddMember { member } => CommandAction::AddMember { member: member@ },
            CommandAction::GetOrganization { organization_id } => CommandAction::GetOrganization {
                organization_id: organization_id@,
            },
            CommandAction::CreateInvitation { delivery } => CommandAction::CreateInvitation {
                delivery: delivery@,
            },
            CommandAction::ObserveLifecycle { observation } => CommandAction::ObserveLifecycle {
                observation: observation@,
            },
        }
    }
}

/// A command that is given up.
pub open spec fn failing<S>(code: FailureCode) -> CommandAction<S> {
    CommandAction::Settle { settlement: Settlement::Fail { code } }
}

fn fail(code: FailureCode) -> (action: CommandAction<String>)
    ensures
        action@ == failing::<Seq<char>>(code),
{
    CommandAction::Settle { settlement: Settlement::Fail { code } }
}

/// When an invitation came into one of the states in which it ends.
pub open spec fn ended_at(
    record: InvitationRecord<Seq<char>>,
    lifecycle: Seq<char>,
) -> Option<(InvitationState, Option<i64>)> {
    if lifecycle == "accepted"@ {
        Some((InvitationState::Accepted, record.accepted_at))
    } else if lifecycle == "revoked"@ {
        Some((InvitationState::Revoked, record.revoked_at))
    } else if lifecycle == "expired"@ {
        Some((InvitationState::Expired, record.expired_at))
    } else {
        None
    }
}

/// The report of how an invitation ended. It has no text for an instant that cannot be written.
pub open spec fn lifecycle_action(
    command: CommandRecord<Seq<char>>,
    record: InvitationRecord<Seq<char>>,
) -> Result<CommandAction<Seq<char>>, Seq<char>> {
    match command.lifecycle {
        None => Ok(failing(FailureCode::MissingLifecycle)),
        Some(lifecycle) => match ended_at(record, lifecycle) {
            None => Ok(failing(FailureCode::InvalidLifecycle)),
            Some((_, None)) => Ok(failing(FailureCode::MissingLifecycleTimestamp)),
            Some((state, Some(at))) => match instant_text(at) {
                Err(error) => Err(error),
                Ok(observed_at) => Ok(
                    CommandAction::ObserveLifecycle {
                        observation: ObservationRequest {
                            observation_id: command.command_key,
                            organization_id: command.organization_id,
                            invitation_id: uuid_text(command.invitation_id),
                            lifecycle: state,
                            observed_at,
                        },
                    },
                ),
            },
        },
    }
}

/// The first step of a command: one that has no work left is dropped, and any other asks the
/// provider of its kind.
pub open spec fn first_action(
    command: CommandRecord<Seq<char>>,
    invitation: Option<InvitationRecord<Seq<char>>>,
) -> Result<CommandAction<Seq<char>>, Seq<char>> {
    match invitation {
        None => Ok(CommandAction::Settle { settlement: Settlement::Supersede }),
        Some(record) => if !matches_invitation(command, record) {
            Ok(CommandAction::Settle { settlement: Settlement::Supersede })
        } else if command.kind == ADD_MEMBER@ {
            match command.acceptance_subject {
                None => Ok(failing(FailureCode::MissingAcceptanceSubject)),
                Some(subject) => Ok(
                    CommandAction::AddMember {
                        member: MemberRequest {
                            idempotency_key: command.command_key,
                            organization_id: command.organization_id,
                            subject,
                        },
                    },
                ),
            }
        } else if command.kind == NOTIFY_INVITATION@ {
            Ok(CommandAction::GetOrganization { organization_id: command.organization_id })
        } else if command.kind == NOTIFY_LIFECYCLE@ {
            lifecycle_action(command, record)
        } else {
            Ok(failing(FailureCode::UnknownCommandKind))
        },
    }
}

/// An action, or why an instant that it tells has no text.
pub open spec fn action_view(
    action: Result<CommandAction<String>, StorageError>,
) -> Result<CommandAction<Seq<char>>, Seq<char>> {
    match action {
        Ok(action) => Ok(action@),
        Err(StorageError::TimestampNotFormattable { error }) => Err(error@),
        Err(_) => Err(Seq::empty()),
    }
}

fn member_request(command: &CommandRecord<String>, subject: &String) -> (member: MemberRequest<
    String,
>)
    ensures
        member@ == (MemberRequest {
            idempotency_key: command@.command_key,
            organization_id: command@.organization_id,
            subject: subject@,
        }),
{
    MemberRequest {
        idempotency_key: command.command_key.clone(),
        organization_id: command.organization_id.clone(),
        subject: subject.clone(),
    }
}

fn lifecycle_step(command: &CommandRecord<String>, record: &InvitationRecord<String>) -> (action:
    Result<CommandAction<String>, StorageError>)
    ensures
        action_view(action) == lifecycle_action(command@, record@),
        action is Err ==> action->Err_0 is TimestampNotFormattable,
{
    let lifecycle = match &command.lifecycle {
        Some(lifecycle) => lifecycle.as_str(),
        None => {
            return Ok(fail(FailureCode::MissingLifecycle));
        },
    };
    let (state, at) = if same_text(lifecycle, "accepted") {
        (InvitationState::Accepted, record.accepted_at)
    } else if same_text(lifecycle, "revoked") {
        (InvitationState::Revoked, record.revoked_at)
    } else if same_text(lifecycle, "expired") {
        (InvitationState::Expired, record.expired_at)
    } else {
        return Ok(fail(FailureCode::InvalidLifecycle));
    };
    let at = match at {
        Some(at) => at,
        None => {
            return Ok(fail(FailureCode::MissingLifecycleTimestamp));
        },
    };
    match format_time(at) {
        Ok(observed_at) => Ok(
            CommandAction::ObserveLifecycle {
                observation: ObservationRequest {
                    observation_id: command.command_key.clone(),
                    organization_id: command.organization_id.clone(),
                    invitation_id: format_uuid(command.invitation_id),
                    lifecycle: state,
                    observed_at,
                },
            },
        ),
        Err(error) => Err(StorageError::TimestampNotFormattable { error }),
    }
}

/// Starts a held command. `invitation` is its invitation as it is stored.
pub fn start_command(
    command: &CommandRecord<String>,
    invitation: &Option<InvitationRecord<String>>,
) -> (action: Result<CommandAction<String>, StorageError>)
    ensures
        action_view(action) == first_action(command@, option_record(*invitation)),
        action is Err ==> action->Err_0 is TimestampNotFormattable,
{
    let record = match command_matches_invitation(command, invitation) {
        Some(record) => record,
        None => {
            return Ok(CommandAction::Settle { settlement: Settlement::Supersede });
        },
    };
    let kind = command.kind.as_str();
    if same_text(kind, ADD_MEMBER) {
        match &command.acceptance_subject {
            Some(subject) => Ok(
                CommandAction::AddMember { member: member_request(command, subject) },
            ),
            None => Ok(fail(FailureCode::MissingAcceptanceSubject)),
        }
    } else if same_text(kind, NOTIFY_INVITATION) {
        Ok(CommandAction::GetOrganization { organization_id: command.organization_id.clone() })
    } else if same_text(kind, NOTIFY_LIFECYCLE) {
        lifecycle_step(command, record)
    } else {
        Ok(fail(FailureCode::UnknownCommandKind))
    }
}

/// What the membership provider answered.
#[verifier::ext_equal]
#[derive(Clone, Debug, PartialEq, Eq)]
pub enum MemberReply<S> {
    Added { membership_id: S, revision: S },
    IdempotencyConflict,
    Rejected,
    Unavailable,
}

impl View for MemberReply<String> {
    type V = MemberReply<Seq<char>>;

    open spec fn view(&self) -> MemberReply<Seq<char>> {
        match self {
            MemberReply::Added { membership_id, revision } => MemberReply::Added {
                membership_id: membership_id@,
                revision: revision@,
            },
            MemberReply::IdempotencyConflict => MemberReply::IdempotencyConflict,
            MemberReply::Rejected => MemberReply::Rejected,
            MemberReply::Unavailable => MemberReply::Unavailable,
        }
    }
}

/// How the reply of the membership provider settles a command: a receipt completes it, a refusal
/// is final, and an outage is waited out.
pub open spec fn member_settlement(
    command: CommandRecord<Seq<char>>,
    reply: MemberReply<Seq<char>>,
    policy: RetryPolicy,
) -> Settlement<Seq<char>> {
    match reply {
        MemberReply::Added { membership_id, revision } => Settlement::CompleteAccept {
            membership_id,
            provider_revision: revision,
        },
        MemberReply::IdempotencyConflict => Settlement::Fail {
            code: FailureCode::MembershipIdempotencyConflict,
        },
        MemberReply::Rejected => Settlement::Fail { code: FailureCode::MembershipRejected },
        MemberReply::Unavailable => scheduled(
            command,
            FailureCode::MembershipUnavailable,
            policy,
        ),
    }
}

pub fn on_member_reply(
    command: &CommandRecord<String>,
    reply: MemberReply<String>,
    policy: RetryPolicy,
) -> (settlement: Settlement<String>)
    ensures
        settlement@ == member_settlement(command@, reply@, policy),
{
    match reply {
        MemberReply::Added { membership_id, revision } => Settlement::CompleteAccept {
            membership_id,
            provider_revision: revision,
        },
        MemberReply::IdempotencyConflict => Settlement::Fail {
            code: FailureCode::MembershipIdempotencyConflict,
        },
        MemberReply::Rejected => Settlement::Fail { code: FailureCode::MembershipRejected },
        MemberReply::Unavailable => schedule_command_retry(
            command,
            FailureCode::MembershipUnavailable,
            policy,
        ),
    }
}

/// The request by which an accepting call adds its subject. A command without a subject has none.
pub fn acceptance_request(command: &CommandRecord<String>) -> (member: Option<
    MemberRequest<String>,
>)
    ensures
        match member {
            Some(member) => command@.acceptance_subject == Some(member@.subject) && member@ == (
            MemberRequest {
                idempotency_key: command@.command_key,
                organization_id: command@.organization_id,
                subject: member@.subject,
            }),
            None => command@.acceptance_subject is None,
        },
{
    match &command.acceptance_subject {
        Some(subject) => Some(member_request(command, subject)),
        None => None,
    }
}

/// What an accepting call is told when its command was not completed.
pub open spec fn acceptance_error(code: FailureCode) -> Option<Seq<char>> {
    match code {
        FailureCode::MembershipIdempotencyConflict => Some(
            "Organization Membership Admin reported an idempotency conflict"@,
        ),
        FailureCode::MembershipRejected => Some(
            "Organization Membership Admin rejected invitation acceptance"@,
        ),
        _ => None,
    }
}

/// The words for a refused acceptance. An outage has none: its own error is passed on.
pub fn acceptance_error_text(code: FailureCode) -> (text: Option<&'static str>)
    ensures
        match text {
            Some(text) => acceptance_error(code) == Some(text@),
            None => acceptance_error(code) is None,
        },
{
    match code {
        FailureCode::MembershipIdempotencyConflict => Some(
            "Organization Membership Admin reported an idempotency conflict",
        ),
        FailureCode::MembershipRejected => Some(
            "Organization Membership Admin rejected invitation acceptance",
        ),
        _ => None,
    }
}

/// What the organization directory answered.
#[verifier::ext_equal]
#[derive(Clone, Debug, PartialEq, Eq)]
pub enum OrganizationReply<S> {
    Active { name: S },
    Inactive,
    Unknown,
    Rejected,
    Unavailable,
}

impl View for OrganizationReply<String> {
    type V = OrganizationReply<Seq<char>>;

    open spec fn view(&self) -> OrganizationReply<Seq<char>> {
        match self {
            OrganizationReply::Active { name } => OrganizationReply::Active { name: name@ },
            OrganizationReply::Inactive => OrganizationReply::Inactive,
            OrganizationReply::Unknown => OrganizationReply::Unknown,
            OrganizationReply::Rejected => OrganizationReply::Rejected,
            OrganizationReply::Unavailable => OrganizationReply::Unavailable,
        }
    }
}

/// What deliveries are made with.
pub struct DeliverySettings<'a> {
    pub derivation_secret: &'a [u8],
    pub token_pepper: &'a [u8],
    pub invitation_url_base: &'a str,
    pub locale: &'a str,
}

pub open spec fn notification_locale(locale: Seq<char>) -> Locale {
    if locale == "en-US"@ {
        Locale::EnUS
    } else {
        Locale::En
    }
}

/// The request that delivers an invitation.
pub open spec fn delivery_request(
    command: CommandRecord<Seq<char>>,
    record: InvitationRecord<Seq<char>>,
    organization_name: Seq<char>,
    invitation_url: Seq<char>,
    expires_at: Seq<char>,
    locale: Seq<char>,
) -> DeliveryRequest<Seq<char>> {
    DeliveryRequest {
        entity_type: "organization_invitation"@,
        entity_id: uuid_text(command.invitation_id),
        address: record.email,
        locale: notification_locale(locale),
        organization_id: record.organization_id,
        organization_name,
        invitation_id: uuid_text(command.invitation_id),
        invitation_url,
        expires_at,
        idempotency_key: command.command_key,
        correlation_id: uuid_text(command.invitation_id),
        causation_id: uuid_text(command.command_id),
        requested_by: record.inviter_subject,
    }
}

/// The delivery of the token that a command was made for. The token is derived anew and must pass
/// the check against the stored verifier; a deadline that cannot be written has no request.
pub open spec fn delivery_action(
    command: CommandRecord<Seq<char>>,
    record: InvitationRecord<Seq<char>>,
    organization_name: Seq<char>,
    settings: DeliverySettings,
) -> Result<CommandAction<Seq<char>>, Seq<char>> {
    match command.token_generation {
        None => Ok(failing(FailureCode::MissingTokenGeneration)),
        Some(generation) => match derived_token(
            settings.derivation_secret@,
            command.invitation_id,
            generation,
        ) {
            Err(_) => Ok(failing(FailureCode::TokenDerivationFailed)),
            Ok(token) => match record.token_hash {
                None => Ok(CommandAction::Settle { settlement: Settlement::Supersede }),
                Some(stored) => if token_check(token, settings.token_pepper@, stored) != Ok::<
                    bool,
                    TokenError,
                >(true) {
                    Ok(failing(FailureCode::TokenDerivationMismatch))
                } else {
                    match url_with_pairs(
                        settings.invitation_url_base@,
                        invitation_pairs(command.invitation_id, token, record.revision),
                    ) {
                        None => Ok(failing(FailureCode::InvalidInvitationUrl)),
                        Some(url) => match instant_text(record.token_expires_at) {
                            Err(error) => Err(error),
                            Ok(expires_at) => Ok(
                                CommandAction::CreateInvitation {
                                    delivery: delivery_request(
                                        command,
                                        record,
                                        organization_name,
                                        url,
                                        expires_at,
                                        settings.locale@,
                                    ),
                                },
                            ),
                        },
                    }
                },
            },
        },
    }
}

/// How the reply of the directory moves a delivery on.
pub open spec fn organization_action(
    command: CommandRecord<Seq<char>>,
    record: InvitationRecord<Seq<char>>,
    reply: OrganizationReply<Seq<char>>,
    settings: DeliverySettings,
    policy: RetryPolicy,
) -> Result<CommandAction<Seq<char>>, Seq<char>> {
    match reply {
        OrganizationReply::Active { name } => delivery_action(command, record, name, settings),
        OrganizationReply::Inactive => Ok(failing(FailureCode::OrganizationInactive)),
        OrganizationReply::Unknown => Ok(
            CommandAction::Settle {
                settlement: retried_or_failed(
                    command,
                    FailureCode::OrganizationDirectoryUnknown,
                    policy,
                ),
            },
        ),
        OrganizationReply::Rejected => Ok(failing(FailureCode::OrganizationDirectoryRejected)),
        OrganizationReply::Unavailable => Ok(
            CommandAction::Settle {
                settlement: scheduled(
                    command,
                    FailureCode::OrganizationDirectoryUnavailable,
                    policy,
                ),
            },
        ),
    }
}

fn delivery_step(
    command: &CommandRecord<String>,
    record: &InvitationRecord<String>,
    organization_name: String,
    settings: &DeliverySettings,
) -> (action: Result<CommandAction<String>, StorageError>)
    requires
        encode_utf8(settings.invitation_url_base@).len() <= MAX_URL_BYTES,
    ensures
        action_view(action) == delivery_action(
            command@,
            record@,
            organization_name@,
            *settings,
        ),
        action is Err ==> action->Err_0 is TimestampNotFormattable,
{
    let generation = match command.token_generation {
        Some(generation) => generation,
        None => {
            return Ok(fail(FailureCode::MissingTokenGeneration));
        },
    };
    let mut token = match derive_token(
        settings.derivation_secret,
        command.invitation_id,
        generation,
    ) {
        Ok(token) => token,
        Err(_) => {
            return Ok(fail(FailureCode::TokenDerivationFailed));
        },
    };
    let stored = match &record.token_hash {
        Some(stored) => stored.as_str(),
        None => {
            wipe_text(&mut token);
            return Ok(CommandAction::Settle { settlement: Settlement::Supersede });
        },
    };
    let passes = match verify_token(token.as_str(), settings.token_pepper, stored) {
        Ok(passes) => passes,
        Err(_) => false,
    };
    if !passes {
        wipe_text(&mut token);
        return Ok(fail(FailureCode::TokenDerivationMismatch));
    }
    let link = invitation_url(
        settings.invitation_url_base,
        command.invitation_id,
        token.as_str(),
        record.revision,
    );
    wipe_text(&mut token);
    let url = match link {
        Some(url) => url,
        None => {
            return Ok(fail(FailureCode::InvalidInvitationUrl));
        },
    };
    let expires_at = match format_time(record.token_expires_at) {
        Ok(expires_at) => expires_at,
        Err(error) => {
            return Err(StorageError::TimestampNotFormattable { error });
        },
    };
    let locale = if same_text(settings.locale, "en-US") {
        Locale::EnUS
    } else {
        Locale::En
    };
    Ok(
        CommandAction::CreateInvitation {
            delivery: DeliveryRequest {
                entity_type: "organization_invitation".to_owned(),
                entity_id: format_uuid(command.invitation_id),
                address: record.email.clone(),
                locale,
                organization_id: record.organization_id.clone(),
                organization_name,
                invitation_id: format_uuid(command.invitation_id),
                invitation_url: url,
                expires_at,
                idempotency_key: command.command_key.clone(),
                correlation_id: format_uuid(command.invitation_id),
                causation_id: format_uuid(command.command_id),
                requested_by: record.inviter_subject.clone(),
            },
        },
    )
}

/// Goes on with a delivery once the directory has answered.
pub fn on_organization_reply(
    command: &CommandRecord<String>,
    record: &InvitationRecord<String>,
    reply: OrganizationReply<String>,
    settings: &DeliverySettings,
    policy: RetryPolicy,
) -> (action: Result<CommandAction<String>, StorageError>)
    requires
        encode_utf8(settings.invitation_url_base@).len() <= MAX_URL_BYTES,
    ensures
        action_view(action) == organization_action(
            command@,
            record@,
            reply@,
            *settings,
            policy,
        ),
        action is Err ==> action->Err_0 is TimestampNotFormattable,
{
    match reply {
        OrganizationReply::Active { name } => delivery_step(command, record, name, settings),
        OrganizationReply::Inactive => Ok(fail(FailureCode::OrganizationInactive)),
        OrganizationReply::Unknown => Ok(
            CommandAction::Settle {
                settlement: retry_or_fail_command(
                    command,
                    FailureCode::OrganizationDirectoryUnknown,
                    policy,
                ),
            },
        ),
        OrganizationReply::Rejected => Ok(fail(FailureCode::OrganizationDirectoryRejected)),
        OrganizationReply::Unavailable => Ok(
            CommandAction::Settle {
                settlement: schedule_command_retry(
                    command,
                    FailureCode::OrganizationDirectoryUnavailable,
                    policy,
                ),
            },
        ),
    }
}

/// What the notification provider answered to a delivery.
#[verifier::ext_equal]
#[derive(Clone, Debug, PartialEq, Eq)]
pub enum DeliveryReply<S> {
    Queued { intent_id: S, delivery_id: S },
    IdempotencyConflict,
    Unknown,
    Rejected,
    Unavailable,
}

impl View for DeliveryReply<String> {
    type V = DeliveryReply<Seq<char>>;

    open spec fn view(&self) -> DeliveryReply<Seq<char>> {
        match self {
            DeliveryReply::Queued { intent_id, delivery_id } => DeliveryReply::Queued {
                intent_id: intent_id@,
                delivery_id: delivery_id@,
            },
            DeliveryReply::IdempotencyConflict => DeliveryReply::IdempotencyConflict,
            DeliveryReply::Unknown => DeliveryReply::Unknown,
            DeliveryReply::Rejected => DeliveryReply::Rejected,
            DeliveryReply::Unavailable => DeliveryReply::Unavailable,
        }
    }
}

/// How the reply of the notification provider settles a delivery.
pub open spec fn delivery_settlement(
    command: CommandRecord<Seq<char>>,
    reply: DeliveryReply<Seq<char>>,
    policy: RetryPolicy,
) -> Settlement<Seq<char>> {
    match reply {
        DeliveryReply::Queued { intent_id, delivery_id } => Settlement::CompleteNotification {
            intent_id,
            delivery_id,
        },
        DeliveryReply::IdempotencyConflict => Settlement::Fail {
            code: FailureCode::NotificationIdempotencyConflict,
        },
        DeliveryReply::Unknown => retried_or_failed(
            command,
            FailureCode::NotificationUnknown,
            policy,
        ),
        DeliveryReply::Rejected => Settlement::Fail { code: FailureCode::NotificationRejected },
        DeliveryReply::Unavailable => scheduled(
            command,
            FailureCode::NotificationUnavailable,
            policy,
        ),
    }
}

pub fn on_delivery_reply(
    command: &CommandRecord<String>,
    reply: DeliveryReply<String>,
    policy: RetryPolicy,
) -> (settlement: Settlement<String>)
    ensures
        settlement@ == delivery_settlement(command@, reply@, policy),
{
    match reply {
        DeliveryReply::Queued { intent_id, delivery_id } => Settlement::CompleteNotification {
            intent_id,
            delivery_id,
        },
        DeliveryReply::IdempotencyConflict => Settlement::Fail {
            code: FailureCode::NotificationIdempotencyConflict,
        },
        DeliveryReply::Unknown => retry_or_fail_command(
            command,
            FailureCode::NotificationUnknown,
            policy,
        ),
        DeliveryReply::Rejected => Settlement::Fail { code: FailureCode::NotificationRejected },
        DeliveryReply::Unavailable => schedule_command_retry(
            command,
            FailureCode::NotificationUnavailable,
            policy,
        ),
    }
}

/// What the notification provider answered to a report.
#[derive(Clone, Copy, Debug, PartialEq, Eq, Structural)]
pub enum ObservationReply {
    Observed { recorded: bool },
    ObservationConflict,
    Unknown,
    Rejected,
    Unavailable,
}

/// How the reply of the notification provider settles a report.
pub open spec fn observation_settlement(
    command: CommandRecord<Seq<char>>,
    reply: ObservationReply,
    policy: RetryPolicy,
) -> Settlement<Seq<char>> {
    match reply {
        ObservationReply::Observed { recorded } => Settlement::CompleteLifecycle { recorded },
        ObservationReply::ObservationConflict => Settlement::Fail {
            code: FailureCode::NotificationObservationConflict,
        },
        ObservationReply::Unknown => retried_or_failed(
            command,
            FailureCode::NotificationUnknown,
            policy,
        ),
        ObservationReply::Rejected => Settlement::Fail { code: FailureCode::NotificationRejected },
        ObservationReply::Unavailable => scheduled(
            command,
            FailureCode::NotificationUnavailable,
            policy,
        ),
    }
}

pub fn on_observation_reply(
    command: &CommandRecord<String>,
    reply: ObservationReply,
    policy: RetryPolicy,
) -> (settlement: Settlement<String>)
    ensures
        settlement@ == observation_settlement(command@, reply, policy),
{
    match reply {
        ObservationReply::Observed { recorded } => Settlement::CompleteLifecycle { recorded },
        ObservationReply::ObservationConflict => Settlement::Fail {
            code: FailureCode::NotificationObservationConflict,
        },
        ObservationReply::Unknown => retry_or_fail_command(
            command,
            FailureCode::NotificationUnknown,
            policy,
        ),
        ObservationReply::Rejected => Settlement::Fail { code: FailureCode::NotificationRejected },
        ObservationReply::Unavailable => schedule_command_retry(
            command,
            FailureCode::NotificationUnavailable,
            policy,
        ),
    }
}

/// What has happened to a held command: it is to be started, or a provider has answered.
#[verifier::ext_equal]
#[derive(Clone, Debug, PartialEq, Eq)]
pub enum CommandEvent<S> {
    Start,
    Member { member: MemberReply<S> },
    Organization { organization: OrganizationReply<S> },
    Delivery { delivered: DeliveryReply<S> },
    Observation { observed: ObservationReply },
}

impl View for CommandEvent<String> {
    type V = CommandEvent<Seq<char>>;

    open spec fn view(&self) -> CommandEvent<Seq<char>> {
        match self {
            CommandEvent::Start => CommandEvent::Start,
            CommandEvent::Member { member } => CommandEvent::Member { member: member@ },
            CommandEvent::Organization { organization } => CommandEvent::Organization {
                organization: organization@,
            },
            CommandEvent::Delivery { delivered } => CommandEvent::Delivery {
                delivered: delivered@,
            },
            CommandEvent::Observation { observed } => CommandEvent::Observation {
                observed: *observed,
            },
        }
    }
}

/// What is done next with a held command. `invitation` is its invitation, as it was when the
/// command was started.
pub open spec fn next_action(
    command: CommandRecord<Seq<char>>,
    invitation: Option<InvitationRecord<Seq<char>>>,
    event: CommandEvent<Seq<char>>,
    settings: DeliverySettings,
    policy: RetryPolicy,
) -> Result<CommandAction<Seq<char>>, Seq<char>> {
    match event {
        CommandEvent::Start => first_action(command, invitation),
        CommandEvent::Member { member } => Ok(
            CommandAction::Settle { settlement: member_settlement(command, member, policy) },
        ),
        CommandEvent::Organization { organization } => match invitation {
            Some(record) => organization_action(command, record, organization, settings, policy),
            None => Ok(CommandAction::Settle { settlement: Settlement::Supersede }),
        },
        CommandEvent::Delivery { delivered } => Ok(
            CommandAction::Settle { settlement: delivery_settlement(command, delivered, policy) },
        ),
        CommandEvent::Observation { observed } => Ok(
            CommandAction::Settle { settlement: observation_settlement(command, observed, policy) },
        ),
    }
}

/// Executes a held command, one event at a time: from what has happened to what is done next. The
/// instants that a provider is told have to have a text.
pub fn execute_command(
    command: &CommandRecord<String>,
    invitation: &Option<InvitationRecord<String>>,
    event: CommandEvent<String>,
    settings: &DeliverySettings,
    policy: RetryPolicy,
) -> (action: Result<CommandAction<String>, StorageError>)
    requires
        encode_utf8(settings.invitation_url_base@).len() <= MAX_URL_BYTES,
    ensures
        action_view(action) == next_action(
            command@,
            option_record(*invitation),
            event@,
            *settings,
            policy,
        ),
        action is Err ==> action->Err_0 is TimestampNotFormattable,
{
    match event {
        CommandEvent::Start => start_command(command, invitation),
        CommandEvent::Member { member } => Ok(
            CommandAction::Settle { settlement: on_member_reply(command, member, policy) },
        ),
        CommandEvent::Organization { organization } => match invitation {
            Some(record) => on_organization_reply(command, record, organization, settings, policy),
            None => Ok(CommandAction::Settle { settlement: Settlement::Supersede }),
        },
        CommandEvent::Delivery { delivered } => Ok(
            CommandAction::Settle { settlement: on_delivery_reply(command, delivered, policy) },
        ),
        CommandEvent::Observation { observed } => Ok(
            CommandAction::Settle { settlement: on_observation_reply(command, observed, policy) },
        ),
    }
}

/// Every command is settled after at most two answers: only the organization directory is followed
/// by another question, and that is the delivery.
pub proof fn commands_are_settled_after_two_answers(
    command: CommandRecord<Seq<char>>,
    invitation: Option<InvitationRecord<Seq<char>>>,
    event: CommandEvent<Seq<char>>,
    settings: DeliverySettings,
    policy: RetryPolicy,
)
    requires
        event !is Start,
        next_action(command, invitation, event, settings, policy) is Ok,
    ensures
        ({
            let action = next_action(command, invitation, event, settings, policy)->Ok_0;
            action is Settle || event is Organization && action is CreateInvitation
        }),
{
}

/// A provider is asked with the key of the command, at every attempt: a repeated request is the
/// same request to the provider.
pub proof fn providers_see_the_command_key(
    command: CommandRecord<Seq<char>>,
    invitation: Option<InvitationRecord<Seq<char>>>,
    event: CommandEvent<Seq<char>>,
    settings: DeliverySettings,
    policy: RetryPolicy,
)
    requires
        next_action(command, invitation, event, settings, policy) is Ok,
    ensures
        match next_action(command, invitation, event, settings, policy)->Ok_0 {
            CommandAction::AddMember { member } => member.idempotency_key == command.command_key,
            CommandAction::CreateInvitation { delivery } => delivery.idempotency_key
                == command.command_key,
            CommandAction::ObserveLifecycle { observation } => observation.observation_id
                == command.command_key,
            _ => true,
        },
{
}

pub open spec fn is_completed(row: Option<CommandRow<Seq<char>>>) -> bool {
    row matches Some(row) && row.state == CommandState::Completed
}

/// The answer of a completed acceptance: the one that was given before, or the one that the
/// receipt gives now. It has none where the rows do not allow the acceptance to complete.
pub open spec fn acceptance_answer(
    row: Option<CommandRow<Seq<char>>>,
    invitation: Option<InvitationRecord<Seq<char>>>,
    command: CommandRecord<Seq<char>>,
    membership_id: Seq<char>,
    now: i64,
) -> Option<AcceptedRecord<Seq<char>>> {
    match invitation {
        None => None,
        Some(record) => if is_completed(row) {
            match record.membership_id {
                Some(joined) => if record.state == InvitationState::Accepted {
                    Some(acceptance_of(record, joined))
                } else {
                    None
                },
                None => None,
            }
        } else if is_fenced(row, command.lease_token) && awaits(record, command) && record.revision
            < i64::MAX {
            Some(acceptance_of(accepted(record, membership_id, now), membership_id))
        } else {
            None
        },
    }
}

/// What settling a command writes. It has no writes where the lease has been lost, or where a
/// value cannot be stored.
pub open spec fn settlement_writes(
    settlement: Settlement<Seq<char>>,
    row: Option<CommandRow<Seq<char>>>,
    invitation: Option<InvitationRecord<Seq<char>>>,
    command: CommandRecord<Seq<char>>,
    ids: Identifiers,
    now: i64,
) -> Option<Seq<WriteModel>> {
    match settlement {
        Settlement::CompleteAccept { membership_id, provider_revision } => if acceptance_answer(
            row,
            invitation,
            command,
            membership_id,
            now,
        ) is None {
            None
        } else if is_completed(row) {
            Some(Seq::empty())
        } else {
            Some(
                acceptance_writes(
                    row->0,
                    invitation->0,
                    membership_id,
                    provider_revision,
                    ids,
                    now,
                ),
            )
        },
        Settlement::Supersede => if is_fenced(row, command.lease_token) {
            Some(command_write(superseded(row->0, now)))
        } else {
            None
        },
        Settlement::Fail { code } => if is_fenced(row, command.lease_token) && (command.kind
            == ADD_MEMBER@ ==> (invitation matches Some(record) && (awaits(record, command)
            ==> record.revision < i64::MAX))) {
            Some(failure_writes(row->0, invitation, command, failure_text(code), ids, now))
        } else {
            None
        },
        Settlement::Retry { code, delay_seconds } => if is_fenced(row, command.lease_token)
            && instant_after(now, delay_seconds) is Some {
            Some(
                command_write(
                    retried(
                        row->0,
                        failure_text(code),
                        instant_after(now, delay_seconds)->0,
                        now,
                    ),
                ),
            )
        } else {
            None
        },
        Settlement::CompleteNotification { intent_id, delivery_id } => if is_fenced(
            row,
            command.lease_token,
        ) {
            Some(delivery_writes(row->0, invitation, command, intent_id, delivery_id, now))
        } else {
            None
        },
        Settlement::CompleteLifecycle { recorded } => if is_fenced(row, command.lease_token) {
            Some(
                command_write(
                    finished(
                        row->0,
                        CommandState::Completed,
                        Some(Receipt::Lifecycle { recorded }),
                        None,
                        now,
                    ),
                ),
            )
        } else {
            None
        },
    }
}

/// The one write that changes nothing but a command.
pub open spec fn command_write(row: CommandRow<Seq<char>>) -> Seq<WriteModel> {
    seq![Write::UpdateCommand { row }]
}

fn one_write(row: CommandRow<String>) -> (writes: Vec<StoredWrite>)
    ensures
        writes_view(writes@) == command_write(row@),
{
    let writes: Vec<StoredWrite> = vec![Write::UpdateCommand { row }];
    assert(writes_view(writes@) =~= command_write(row@));
    writes
}

/// Why a settlement is refused. A command has to be held under its lease, but for an acceptance that
/// is completed once more, and every number and instant that is written has to be in range.
pub open spec fn settlement_refusal(
    settlement: Settlement<Seq<char>>,
    row: Option<CommandRow<Seq<char>>>,
    invitation: Option<InvitationRecord<Seq<char>>>,
    command: CommandRecord<Seq<char>>,
    now: i64,
) -> Option<StorageError> {
    let fenced = is_fenced(row, command.lease_token);
    match settlement {
        Settlement::CompleteAccept { .. } => if row is None {
            Some(StorageError::RowNotFound)
        } else if !is_completed(row) && !fenced {
            Some(StorageError::LeaseFenceCrossed)
        } else {
            match invitation {
                None => Some(StorageError::RowNotFound),
                Some(record) => if is_completed(row) {
                    if record.state != InvitationState::Accepted {
                        Some(StorageError::NotAccepted)
                    } else if record.membership_id is None {
                        Some(StorageError::NoMembership)
                    } else {
                        None
                    }
                } else if !awaits(record, command) {
                    Some(StorageError::CommandMismatch)
                } else if record.revision == i64::MAX {
                    Some(StorageError::OutOfRange)
                } else {
                    None
                },
            }
        },
        Settlement::Fail { .. } => if !fenced {
            Some(StorageError::RowNotFound)
        } else if command.kind != ADD_MEMBER@ {
            None
        } else {
            match invitation {
                None => Some(StorageError::RowNotFound),
                Some(record) => if awaits(record, command) && record.revision == i64::MAX {
                    Some(StorageError::OutOfRange)
                } else {
                    None
                },
            }
        },
        Settlement::Retry { delay_seconds, .. } => if !fenced {
            Some(StorageError::RowNotFound)
        } else if instant_after(now, delay_seconds) is None {
            Some(StorageError::OutOfRange)
        } else {
            None
        },
        Settlement::Supersede
        | Settlement::CompleteNotification { .. }
        | Settlement::CompleteLifecycle { .. } => if !fenced {
            Some(StorageError::RowNotFound)
        } else {
            None
        },
    }
}

/// A settlement either writes or is refused.
pub proof fn settlements_write_or_are_refused(
    settlement: Settlement<Seq<char>>,
    row: Option<CommandRow<Seq<char>>>,
    invitation: Option<InvitationRecord<Seq<char>>>,
    command: CommandRecord<Seq<char>>,
    ids: Identifiers,
    now: i64,
)
    ensures
        settlement_writes(settlement, row, invitation, command, ids, now) is Some
            <==> settlement_refusal(settlement, row, invitation, command, now) is None,
{
}

/// Settles a held command. `row` is the command as it is stored, and `invitation` its invitation.
/// Completing an acceptance gives its answer.
pub fn settle_command(
    settlement: &Settlement<String>,
    row: Option<CommandRow<String>>,
    invitation: &Option<InvitationRecord<String>>,
    command: &CommandRecord<String>,
    ids: Identifiers,
    now: i64,
) -> (result: Result<Plan<Option<AcceptedRecord<String>>>, StorageError>)
    ensures
        match result {
            Ok(plan) => {
                &&& settlement_writes(
                    settlement@,
                    option_row(row),
                    option_record(*invitation),
                    command@,
                    ids,
                    now,
                ) == Some(writes_view(plan.writes@))
                &&& match settlement@ {
                    Settlement::CompleteAccept { membership_id, .. } => plan.outcome is Some
                        && acceptance_answer(
                        option_row(row),
                        option_record(*invitation),
                        command@,
                        membership_id,
                        now,
                    ) == Some(plan.outcome->0@),
                    _ => plan.outcome is None,
                }
            },
            Err(error) => settlement_refusal(
                settlement@,
                option_row(row),
                option_record(*invitation),
                command@,
                now,
            ) == Some(error),
        },
        result is Ok <==> settlement_refusal(
            settlement@,
            option_row(row),
            option_record(*invitation),
            command@,
            now,
        ) is None,
{
    match settlement {
        Settlement::Supersede => match supersede_command(row, command.lease_token, now) {
            Ok(dropped) => Ok(Plan { writes: one_write(dropped), outcome: None }),
            Err(error) => Err(error),
        },
        Settlement::Fail { code } => match fail_command(
            row,
            invitation,
            command,
            code.as_str(),
            ids,
            now,
        ) {
            Ok(writes) => Ok(Plan { writes, outcome: None }),
            Err(error) => Err(error),
        },
        Settlement::Retry { code, delay_seconds } => match retry_command(
            row,
            command.lease_token,
            code.as_str(),
            *delay_seconds,
            now,
        ) {
            Ok(waiting) => Ok(Plan { writes: one_write(waiting), outcome: None }),
            Err(error) => Err(error),
        },
        Settlement::CompleteAccept { membership_id, provider_revision } => match complete_accept(
            row,
            invitation,
            command,
            membership_id.as_str(),
            provider_revision.as_str(),
            ids,
            now,
        ) {
            Ok(plan) => {
                let Plan { writes, outcome } = plan;
                assert(is_completed(option_row(row)) ==> writes_view(writes@) =~= Seq::empty());
                Ok(Plan { writes, outcome: Some(outcome) })
            },
            Err(error) => Err(error),
        },
        Settlement::CompleteNotification { intent_id, delivery_id } => {
            match complete_notification_command(
                row,
                invitation,
                command,
                intent_id.as_str(),
                delivery_id.as_str(),
                now,
            ) {
                Ok(writes) => Ok(Plan { writes, outcome: None }),
                Err(error) => Err(error),
            }
        },
        Settlement::CompleteLifecycle { recorded } => match complete_lifecycle_command(
            row,
            command,
            *recorded,
            now,
        ) {
            Ok(ended) => Ok(Plan { writes: one_write(ended), outcome: None }),
            Err(error) => Err(error),
        },
    }
}

/// A worker that has lost its lease writes nothing, whatever it settles: not once the command is
/// under another lease, and not once it has ended or waits again.
pub proof fn lost_leases_write_nothing(
    settlement: Settlement<Seq<char>>,
    row: Option<CommandRow<Seq<char>>>,
    invitation: Option<InvitationRecord<Seq<char>>>,
    command: CommandRecord<Seq<char>>,
    ids: Identifiers,
    now: i64,
)
    requires
        !is_fenced(row, command.lease_token),
    ensures
        ({
            let writes = settlement_writes(settlement, row, invitation, command, ids, now);
            writes is None || writes == Some(Seq::<WriteModel>::empty())
        }),
{
}

/// A command that is settled or taken anew is no longer held under the lease that it had.
pub proof fn leases_are_used_once(
    settlement: Settlement<Seq<char>>,
    row: CommandRow<Seq<char>>,
    invitation: Option<InvitationRecord<Seq<char>>>,
    command: CommandRecord<Seq<char>>,
    ids: Identifiers,
    now: i64,
    i: int,
)
    requires
        settlement_writes(settlement, Some(row), invitation, command, ids, now) is Some,
        0 <= i < settlement_writes(settlement, Some(row), invitation, command, ids, now)->0.len(),
    ensures
        settlement_writes(settlement, Some(row), invitation, command, ids, now)->0[i] matches
            Write::UpdateCommand { row: next } ==> next.command_id == row.command_id && !is_fenced(
            Some(next),
            command.lease_token,
        ),
{
    broadcast use vstd::seq_lib::group_seq_properties;

}

/// How often a disposition occurs.
pub open spec fn tally(
    dispositions: Seq<CommandDisposition>,
    counted: CommandDisposition,
) -> nat
    decreases dispositions.len(),
{
    if dispositions.len() == 0 {
        0
    } else {
        tally(dispositions.drop_last(), counted) + if dispositions.last() == counted {
            1nat
        } else {
            0
        }
    }
}

/// The answer of a dispatch batch, unless the batch is too long to be counted. Every command
/// counts once. `has_more` tells whether a command of the organization is due after the batch.
pub fn dispatch_result(dispositions: &Vec<CommandDisposition>, has_more: bool) -> (result: Option<
    DispatchResult,
>)
    ensures
        match result {
            Some(result) => {
                &&& result.processed == dispositions@.len()
                &&& result.completed == tally(dispositions@, CommandDisposition::Completed)
                &&& result.retry_scheduled == tally(
                    dispositions@,
                    CommandDisposition::RetryScheduled,
                )
                &&& result.permanent_failed == tally(
                    dispositions@,
                    CommandDisposition::PermanentFailure,
                )
                &&& result.processed == result.completed + result.retry_scheduled
                    + result.permanent_failed
                &&& result.has_more == has_more
            },
            None => dispositions@.len() > i64::MAX,
        },
{
    if dispositions.len() as u128 > i64::MAX as u128 {
        return None;
    }
    let mut result = DispatchResult {
        processed: dispositions.len() as i64,
        completed: 0,
        retry_scheduled: 0,
        permanent_failed: 0,
        has_more,
    };
    let mut i: usize = 0;
    assert(dispositions@.take(0) =~= Seq::empty());
    while i < dispositions.len()
        invariant
            i <= dispositions.len() <= i64::MAX,
            result.processed == dispositions@.len(),
            result.has_more == has_more,
            result.completed == tally(
                dispositions@.take(i as int),
                CommandDisposition::Completed,
            ),
            result.retry_scheduled == tally(
                dispositions@.take(i as int),
                CommandDisposition::RetryScheduled,
            ),
            result.permanent_failed == tally(
                dispositions@.take(i as int),
                CommandDisposition::PermanentFailure,
            ),
            i == result.completed + result.retry_scheduled + result.permanent_failed,
        decreases dispositions.len() - i,
    {
        proof {
            let longer = dispositions@.take(i + 1);
            assert(longer.drop_last() =~= dispositions@.take(i as int));
            assert(longer.last() == dispositions@[i as int]);
        }
        match dispositions[i] {
            CommandDisposition::Completed => {
                result.completed = result.completed + 1;
            },
            CommandDisposition::RetryScheduled => {
                result.retry_scheduled = result.retry_scheduled + 1;
            },
            CommandDisposition::PermanentFailure => {
                result.permanent_failed = result.permanent_failed + 1;
            },
        }
        i = i + 1;
    }
    assert(dispositions@.take(i as int) =~= dispositions@);
    Some(result)
}

/// The write that keeps the answer of a dispatch batch.
pub open spec fn dispatch_write(
    result: DispatchResult,
    caller: Seq<char>,
    idempotency_key: Seq<char>,
) -> WriteModel {
    Write::CompleteMutation {
        caller,
        idempotency_key,
        invitation: None,
        response: Response::Dispatch { dispatch: result },
    }
}

pub fn finish_dispatch(result: DispatchResult, caller: &str, idempotency_key: &str) -> (write:
    StoredWrite)
    ensures
        write@ == dispatch_write(result, caller@, idempotency_key@),
{
    Write::CompleteMutation {
        caller: caller.to_owned(),
        idempotency_key: idempotency_key.to_owned(),
        invitation: None,
        response: Response::Dispatch { dispatch: result },
    }
}

} // verus!
