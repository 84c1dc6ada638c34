use organization_invitation::commands::{
    command_matches_invitation, make_delivery_command, make_lifecycle_command,
    make_membership_command,
};
use organization_invitation::dispatch::{
    acceptance_error_text, acceptance_request, dispatch_result, execute_command, finish_dispatch,
    retry_delay_seconds, settle_command, CommandAction, CommandDisposition, CommandEvent,
    DeliveryReply, DeliverySettings, FailureCode, Locale, MemberReply, ObservationReply,
    OrganizationReply, RetryPolicy, Settlement,
};
use organization_invitation::lifecycle::{
    fresh_identifiers, plan_creation, MutationContext, NewInvitation,
};
use organization_invitation::operations::make_token_hash;
use organization_invitation::records::{
    decode_command, CommandRecord, CommandRow, CommandState, DeliveryState, InvitationRecord,
    InvitationState, StorageError,
};
use organization_invitation::token::derive_token;
use organization_invitation::writes::{Response, StoredWrite, Write};

const ID: u128 = 0x6a43_eca2_af4b_4897_8514_c4bf_069a_de77;
const POLICY: RetryPolicy = RetryPolicy {
    retry_base_seconds: 30,
    max_command_attempts: 3,
};

fn settings<'a>() -> DeliverySettings<'a> {
    DeliverySettings {
        derivation_secret: &[0x41; 32],
        token_pepper: &[0x52; 32],
        invitation_url_base: "https://app.example.com/accept",
        locale: "en-US",
    }
}

fn invitation(token_hash: &str) -> InvitationRecord<String> {
    let plan = plan_creation(
        &NewInvitation {
            invitation_id: ID,
            organization_id: "org".to_owned(),
            email: "a@example.com".to_owned(),
            email_normalized: "a@example.com".to_owned(),
            token_hash: token_hash.to_owned(),
        },
        &MutationContext {
            caller: "admin-api".to_owned(),
            idempotency_key: "key".to_owned(),
            actor: "usr_inviter".to_owned(),
        },
        1,
        3_600,
        fresh_identifiers().unwrap(),
        0,
    )
    .unwrap();
    match plan.writes.into_iter().next() {
        Some(Write::InsertInvitation { record }) => record,
        _ => unreachable!(),
    }
}

fn hold(mut row: CommandRow<String>, attempts: i32) -> (CommandRow<String>, CommandRecord<String>) {
    row.state = CommandState::InFlight;
    row.attempts = attempts;
    row.lease_token = Some(9);
    row.lease_until = Some(1);
    let command = decode_command(&row).unwrap();
    (row, command)
}

fn delivery(attempts: i32) -> CommandRecord<String> {
    hold(make_delivery_command(5, "org", ID, 1, 0), attempts).1
}

fn step(
    command: &CommandRecord<String>,
    invitation: &Option<InvitationRecord<String>>,
    event: CommandEvent<String>,
) -> CommandAction<String> {
    execute_command(command, invitation, event, &settings(), POLICY).unwrap()
}

fn settled(action: CommandAction<String>) -> Settlement<String> {
    match action {
        CommandAction::Settle { settlement } => settlement,
        _ => unreachable!("the command is not settled"),
    }
}

fn failed(code: FailureCode) -> Settlement<String> {
    Settlement::Fail { code }
}

fn retried(code: FailureCode, delay_seconds: i64) -> Settlement<String> {
    Settlement::Retry {
        code,
        delay_seconds,
    }
}

#[test]
fn waits_double_up_to_a_day() {
    for (attempts, expected) in [
        (i32::MIN, 30),
        (0, 30),
        (1, 30),
        (2, 60),
        (3, 120),
        (8, 3_840),
        (12, 61_440),
        (13, 86_400),
        (i32::MAX, 86_400),
    ] {
        assert_eq!(retry_delay_seconds(attempts, 30), expected);
    }
    assert_eq!(retry_delay_seconds(13, 1), 4_096);
    assert_eq!(retry_delay_seconds(20, 1), 4_096);
    assert_eq!(retry_delay_seconds(1, i64::MAX), 86_400);
    assert_eq!(retry_delay_seconds(13, i64::MIN), i64::MIN);
}

#[test]
fn commands_without_work_are_superseded() {
    let command = delivery(1);
    assert_eq!(
        settled(step(&command, &None, CommandEvent::Start)),
        Settlement::Supersede
    );
    for change in 0..3 {
        let mut record = invitation("verifier");
        match change {
            0 => record.state = InvitationState::Revoked,
            1 => record.token_hash = None,
            _ => record.token_generation = 2,
        }
        let found = Some(record);
        assert!(command_matches_invitation(&command, &found).is_none());
        assert_eq!(
            settled(step(&command, &found, CommandEvent::Start)),
            Settlement::Supersede
        );
    }
    let (_, report) = hold(
        make_lifecycle_command(6, "org", ID, InvitationState::Revoked, 0),
        1,
    );
    assert_eq!(
        settled(step(
            &report,
            &Some(invitation("verifier")),
            CommandEvent::Start
        )),
        Settlement::Supersede
    );
    let mut unknown = command;
    unknown.kind = "unknown".to_owned();
    assert_eq!(
        settled(step(
            &unknown,
            &Some(invitation("verifier")),
            CommandEvent::Start
        )),
        Settlement::Supersede
    );
}

#[test]
fn memberships_are_asked_for_with_the_key_of_the_command() {
    let (_, command) = hold(make_membership_command(7, "org", ID, "usr_invitee", 0), 2);
    let mut record = invitation("verifier");
    record.acceptance_subject = Some("usr_invitee".to_owned());
    let found = Some(record);
    match step(&command, &found, CommandEvent::Start) {
        CommandAction::AddMember { member } => {
            assert_eq!(
                member.idempotency_key,
                "membership:6a43eca2-af4b-4897-8514-c4bf069ade77"
            );
            assert_eq!(member.organization_id, "org");
            assert_eq!(member.subject, "usr_invitee");
            assert_eq!(acceptance_request(&command), Some(member));
        }
        _ => unreachable!("another action is taken"),
    }
    let reply = |member: MemberReply<String>| {
        settled(step(&command, &found, CommandEvent::Member { member }))
    };
    assert_eq!(
        reply(MemberReply::Added {
            membership_id: "member_1".to_owned(),
            revision: "2".to_owned(),
        }),
        Settlement::CompleteAccept {
            membership_id: "member_1".to_owned(),
            provider_revision: "2".to_owned(),
        }
    );
    assert_eq!(
        reply(MemberReply::IdempotencyConflict),
        failed(FailureCode::MembershipIdempotencyConflict)
    );
    assert_eq!(
        reply(MemberReply::Rejected),
        failed(FailureCode::MembershipRejected)
    );
    assert_eq!(
        reply(MemberReply::Unavailable),
        retried(FailureCode::MembershipUnavailable, 60)
    );

    let mut bare = command.clone();
    bare.acceptance_subject = None;
    let mut open = found.clone();
    open.as_mut().unwrap().acceptance_subject = None;
    assert_eq!(
        settled(step(&bare, &open, CommandEvent::Start)),
        failed(FailureCode::MissingAcceptanceSubject)
    );
    assert_eq!(acceptance_request(&bare), None);
}

#[test]
fn deliveries_ask_the_directory_first() {
    let command = delivery(3);
    let found = Some(invitation("verifier"));
    assert!(
        step(&command, &found, CommandEvent::Start)
            == CommandAction::GetOrganization {
                organization_id: "org".to_owned()
            }
    );
    let reply = |attempts: i32, organization: OrganizationReply<String>| {
        settled(step(
            &delivery(attempts),
            &found,
            CommandEvent::Organization { organization },
        ))
    };
    assert_eq!(
        reply(1, OrganizationReply::Inactive),
        failed(FailureCode::OrganizationInactive)
    );
    assert_eq!(
        reply(2, OrganizationReply::Unknown),
        retried(FailureCode::OrganizationDirectoryUnknown, 60)
    );
    assert_eq!(
        reply(3, OrganizationReply::Unknown),
        failed(FailureCode::OrganizationDirectoryUnknown)
    );
    assert_eq!(
        reply(1, OrganizationReply::Rejected),
        failed(FailureCode::OrganizationDirectoryRejected)
    );
    assert_eq!(
        reply(9, OrganizationReply::Unavailable),
        retried(FailureCode::OrganizationDirectoryUnavailable, 7_680)
    );
}

#[test]
fn deliveries_carry_the_link_with_the_derived_token() {
    let hash = make_token_hash(&[0x41; 32], &[0x52; 32], ID, 1).unwrap();
    let token = derive_token(&[0x41; 32], ID, 1).unwrap();
    let command = delivery(1);
    let found = Some(invitation(&hash));
    let active = || CommandEvent::Organization {
        organization: OrganizationReply::Active {
            name: "Example".to_owned(),
        },
    };
    match step(&command, &found, active()) {
        CommandAction::CreateInvitation { delivery } => {
            assert_eq!(delivery.entity_type, "organization_invitation");
            assert_eq!(delivery.entity_id, "6a43eca2-af4b-4897-8514-c4bf069ade77");
            assert_eq!(delivery.address, "a@example.com");
            assert_eq!(delivery.locale, Locale::EnUS);
            assert_eq!(delivery.organization_id, "org");
            assert_eq!(delivery.organization_name, "Example");
            assert_eq!(
                delivery.invitation_url,
                format!(
                    "https://app.example.com/accept?invitation_id=\
                     6a43eca2-af4b-4897-8514-c4bf069ade77&token={token}&revision=1"
                )
            );
            assert_eq!(delivery.expires_at, "1970-01-01T01:00:00Z");
            assert_eq!(
                delivery.idempotency_key,
                "notify:6a43eca2-af4b-4897-8514-c4bf069ade77:1"
            );
            assert_eq!(delivery.causation_id, "00000000-0000-0000-0000-000000000005");
            assert_eq!(delivery.requested_by, "usr_inviter");
        }
        _ => unreachable!("another action is taken"),
    }

    let mut wrong = settings();
    wrong.derivation_secret = &[0x43; 32];
    assert_eq!(
        execute_command(&command, &found, active(), &wrong, POLICY).map(settled),
        Ok(failed(FailureCode::TokenDerivationMismatch))
    );
    wrong.derivation_secret = &[0x41; 31];
    assert_eq!(
        execute_command(&command, &found, active(), &wrong, POLICY).map(settled),
        Ok(failed(FailureCode::TokenDerivationFailed))
    );
    let mut base = settings();
    base.invitation_url_base = "no url";
    assert_eq!(
        execute_command(&command, &found, active(), &base, POLICY).map(settled),
        Ok(failed(FailureCode::InvalidInvitationUrl))
    );
    let mut bare = command.clone();
    bare.token_generation = None;
    assert_eq!(
        settled(step(&bare, &found, active())),
        failed(FailureCode::MissingTokenGeneration)
    );
    let mut consumed = found.clone();
    consumed.as_mut().unwrap().token_hash = None;
    assert_eq!(
        settled(step(&command, &consumed, active())),
        Settlement::Supersede
    );
    let mut endless = found.clone();
    endless.as_mut().unwrap().token_expires_at = i64::MAX;
    assert!(matches!(
        execute_command(&command, &endless, active(), &settings(), POLICY).map(settled),
        Err(StorageError::TimestampNotFormattable { .. })
    ));
    endless.as_mut().unwrap().token_expires_at = -62_167_219_200_000_001;
    assert_eq!(
        execute_command(&command, &endless, active(), &settings(), POLICY)
            .map(settled)
            .err()
            .and_then(|error| error.detail())
            .as_deref(),
        Some(
            "invitation timestamp cannot be formatted: \
             The year component cannot be formatted into the requested format."
        )
    );
}

#[test]
fn deliveries_are_settled_by_the_reply_of_the_provider() {
    let found = Some(invitation("verifier"));
    let reply = |attempts: i32, delivered: DeliveryReply<String>| {
        settled(step(
            &delivery(attempts),
            &found,
            CommandEvent::Delivery { delivered },
        ))
    };
    assert_eq!(
        reply(
            1,
            DeliveryReply::Queued {
                intent_id: "intent".to_owned(),
                delivery_id: "delivery".to_owned(),
            }
        ),
        Settlement::CompleteNotification {
            intent_id: "intent".to_owned(),
            delivery_id: "delivery".to_owned(),
        }
    );
    assert_eq!(
        reply(1, DeliveryReply::IdempotencyConflict),
        failed(FailureCode::NotificationIdempotencyConflict)
    );
    assert_eq!(
        reply(1, DeliveryReply::Unknown),
        retried(FailureCode::NotificationUnknown, 30)
    );
    assert_eq!(
        reply(3, DeliveryReply::Unknown),
        failed(FailureCode::NotificationUnknown)
    );
    assert_eq!(
        reply(1, DeliveryReply::Rejected),
        failed(FailureCode::NotificationRejected)
    );
    assert_eq!(
        reply(4, DeliveryReply::Unavailable),
        retried(FailureCode::NotificationUnavailable, 240)
    );
}

#[test]
fn reports_say_how_and_when_the_invitation_ended() {
    let (_, command) = hold(
        make_lifecycle_command(6, "org", ID, InvitationState::Revoked, 0),
        1,
    );
    let mut record = invitation("verifier");
    record.state = InvitationState::Revoked;
    record.revoked_at = Some(1_500_000);
    let found = Some(record);
    match step(&command, &found, CommandEvent::Start) {
        CommandAction::ObserveLifecycle { observation } => {
            assert_eq!(
                observation.observation_id,
                "lifecycle:6a43eca2-af4b-4897-8514-c4bf069ade77:revoked"
            );
            assert_eq!(observation.organization_id, "org");
            assert_eq!(
                observation.invitation_id,
                "6a43eca2-af4b-4897-8514-c4bf069ade77"
            );
            assert_eq!(observation.lifecycle, InvitationState::Revoked);
            assert_eq!(observation.observed_at, "1970-01-01T00:00:01.5Z");
        }
        _ => unreachable!("another action is taken"),
    }
    let mut undated = found.clone();
    undated.as_mut().unwrap().revoked_at = None;
    assert_eq!(
        settled(step(&command, &undated, CommandEvent::Start)),
        failed(FailureCode::MissingLifecycleTimestamp)
    );
    let mut odd = command.clone();
    odd.lifecycle = Some("pending".to_owned());
    assert_eq!(
        settled(step(
            &odd,
            &Some(invitation("verifier")),
            CommandEvent::Start
        )),
        failed(FailureCode::InvalidLifecycle)
    );
    let reply = |observed: ObservationReply| {
        settled(step(&command, &found, CommandEvent::Observation { observed }))
    };
    assert_eq!(
        reply(ObservationReply::Observed { recorded: true }),
        Settlement::CompleteLifecycle { recorded: true }
    );
    assert_eq!(
        reply(ObservationReply::ObservationConflict),
        failed(FailureCode::NotificationObservationConflict)
    );
    assert_eq!(
        reply(ObservationReply::Unknown),
        retried(FailureCode::NotificationUnknown, 30)
    );
    assert_eq!(
        reply(ObservationReply::Rejected),
        failed(FailureCode::NotificationRejected)
    );
    assert_eq!(
        reply(ObservationReply::Unavailable),
        retried(FailureCode::NotificationUnavailable, 30)
    );
}

fn settle(
    settlement: &Settlement<String>,
    row: &CommandRow<String>,
    record: &InvitationRecord<String>,
    command: &CommandRecord<String>,
) -> Result<Vec<StoredWrite>, StorageError> {
    settle_command(
        settlement,
        Some(row.clone()),
        &Some(record.clone()),
        command,
        fresh_identifiers().unwrap(),
        10_000_000,
    )
    .map(|plan| plan.writes)
}

#[test]
fn settlements_write_what_they_say() {
    let (row, command) = hold(make_delivery_command(5, "org", ID, 1, 0), 1);
    let record = invitation("verifier");
    let retry = retried(FailureCode::NotificationUnavailable, 60);
    let writes = settle(&retry, &row, &record, &command).unwrap();
    match writes.as_slice() {
        [Write::UpdateCommand { row }] => {
            assert_eq!(row.state, CommandState::Pending);
            assert_eq!(row.available_at, 70_000_000);
            assert_eq!(row.last_error.as_deref(), Some("notification_unavailable"));
            assert_eq!(row.lease_token, None);
            assert_eq!(row.attempts, 1);
        }
        other => unreachable!("{other:?}"),
    }
    let writes = settle(&Settlement::Supersede, &row, &record, &command).unwrap();
    match writes.as_slice() {
        [Write::UpdateCommand { row }] => {
            assert_eq!(row.state, CommandState::Superseded);
            assert_eq!(row.completed_at, Some(10_000_000));
        }
        other => unreachable!("{other:?}"),
    }
    let writes = settle(
        &failed(FailureCode::NotificationRejected),
        &row,
        &record,
        &command,
    )
    .unwrap();
    match writes.as_slice() {
        [Write::UpdateCommand { row }, Write::UpdateInvitation { record }] => {
            assert_eq!(row.state, CommandState::Failed);
            assert_eq!(record.delivery_state, DeliveryState::Failed);
        }
        other => unreachable!("{other:?}"),
    }
    let mut moved = record.clone();
    moved.token_generation = 2;
    let queued = Settlement::CompleteNotification {
        intent_id: "i".to_owned(),
        delivery_id: "d".to_owned(),
    };
    assert_eq!(settle(&queued, &row, &record, &command).unwrap().len(), 2);
    assert_eq!(settle(&queued, &row, &moved, &command).unwrap().len(), 1);
    assert_eq!(retry.disposition(), CommandDisposition::RetryScheduled);
    assert_eq!(queued.disposition(), CommandDisposition::Completed);
    assert_eq!(
        Settlement::<String>::Supersede.disposition(),
        CommandDisposition::Completed
    );
    assert_eq!(
        failed(FailureCode::NotificationRejected).disposition(),
        CommandDisposition::PermanentFailure
    );
}

#[test]
fn a_lost_lease_settles_nothing() {
    let (row, command) = hold(make_delivery_command(5, "org", ID, 1, 0), 1);
    let record = invitation("verifier");
    let mut taken = row.clone();
    taken.lease_token = Some(10);
    let mut waiting = row;
    waiting.state = CommandState::Pending;
    waiting.lease_token = None;
    for settlement in [
        Settlement::Supersede,
        failed(FailureCode::NotificationRejected),
        retried(FailureCode::NotificationUnavailable, 1),
        Settlement::CompleteLifecycle { recorded: true },
        Settlement::CompleteNotification {
            intent_id: "i".to_owned(),
            delivery_id: "d".to_owned(),
        },
        Settlement::CompleteAccept {
            membership_id: "m".to_owned(),
            provider_revision: "1".to_owned(),
        },
    ] {
        let refused = match settlement {
            Settlement::CompleteAccept { .. } => StorageError::LeaseFenceCrossed,
            _ => StorageError::RowNotFound,
        };
        for row in [&taken, &waiting] {
            assert_eq!(
                settle(&settlement, row, &record, &command),
                Err(refused.clone())
            );
        }
    }
}

#[test]
fn settlements_are_refused_for_what_they_are() {
    let (row, command) = hold(make_membership_command(7, "org", ID, "usr_invitee", 0), 1);
    let mut record = invitation("verifier");
    record.acceptance_subject = Some("usr_invitee".to_owned());
    record.token_hash = None;
    let accept = Settlement::CompleteAccept {
        membership_id: "m".to_owned(),
        provider_revision: "1".to_owned(),
    };
    let refusal = |settlement: &Settlement<String>,
                   row: Option<&CommandRow<String>>,
                   record: Option<&InvitationRecord<String>>| {
        settle_command(
            settlement,
            row.cloned(),
            &record.cloned(),
            &command,
            fresh_identifiers().unwrap(),
            10_000_000,
        )
        .err()
    };
    assert_eq!(refusal(&accept, Some(&row), Some(&record)), None);
    assert_eq!(
        refusal(&accept, None, Some(&record)),
        Some(StorageError::RowNotFound)
    );
    assert_eq!(
        refusal(&accept, Some(&row), None),
        Some(StorageError::RowNotFound)
    );
    let mut other = record.clone();
    other.acceptance_subject = Some("usr_other".to_owned());
    assert_eq!(
        refusal(&accept, Some(&row), Some(&other)),
        Some(StorageError::CommandMismatch)
    );
    let mut last = record.clone();
    last.revision = i64::MAX;
    assert_eq!(
        refusal(&accept, Some(&row), Some(&last)),
        Some(StorageError::OutOfRange)
    );
    let mut completed = row.clone();
    completed.state = CommandState::Completed;
    assert_eq!(
        refusal(&accept, Some(&completed), Some(&record)),
        Some(StorageError::NotAccepted)
    );
    let mut accepted = record.clone();
    accepted.state = InvitationState::Accepted;
    assert_eq!(
        refusal(&accept, Some(&completed), Some(&accepted)),
        Some(StorageError::NoMembership)
    );
    accepted.membership_id = Some("m".to_owned());
    assert_eq!(refusal(&accept, Some(&completed), Some(&accepted)), None);

    let fail = failed(FailureCode::MembershipRejected);
    assert_eq!(refusal(&fail, Some(&row), Some(&record)), None);
    assert_eq!(
        refusal(&fail, Some(&row), None),
        Some(StorageError::RowNotFound)
    );
    assert_eq!(
        refusal(&fail, Some(&row), Some(&last)),
        Some(StorageError::OutOfRange)
    );
    assert_eq!(
        refusal(
            &retried(FailureCode::MembershipUnavailable, i64::MAX),
            Some(&row),
            Some(&record)
        ),
        Some(StorageError::OutOfRange)
    );
}

#[test]
fn batches_count_every_command_once() {
    let result = dispatch_result(
        &vec![
            CommandDisposition::Completed,
            CommandDisposition::RetryScheduled,
            CommandDisposition::Completed,
            CommandDisposition::PermanentFailure,
        ],
        true,
    )
    .unwrap();
    assert_eq!(result.processed, 4);
    assert_eq!(result.completed, 2);
    assert_eq!(result.retry_scheduled, 1);
    assert_eq!(result.permanent_failed, 1);
    assert!(result.has_more);
    match finish_dispatch(result, "worker", "batch-1") {
        Write::CompleteMutation {
            caller,
            idempotency_key,
            invitation,
            response,
        } => {
            assert_eq!(caller, "worker");
            assert_eq!(idempotency_key, "batch-1");
            assert_eq!(invitation, None);
            assert_eq!(response, Response::Dispatch { dispatch: result });
        }
        other => unreachable!("{other:?}"),
    }
}

#[test]
fn refused_acceptances_have_words() {
    assert_eq!(
        acceptance_error_text(FailureCode::MembershipIdempotencyConflict),
        Some("Organization Membership Admin reported an idempotency conflict")
    );
    assert_eq!(
        acceptance_error_text(FailureCode::MembershipRejected),
        Some("Organization Membership Admin rejected invitation acceptance")
    );
    assert_eq!(
        acceptance_error_text(FailureCode::MembershipUnavailable),
        None
    );
}
