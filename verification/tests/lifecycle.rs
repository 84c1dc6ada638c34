use organization_invitation::acceptance::{
    complete_accept, decide_accept, start_acceptance, AcceptDecision,
};
use organization_invitation::commands::{retry_command, supersede_command};
use organization_invitation::cursor::{
    decode_invitation_cursor, encode_invitation_cursor, make_page, InvitationCursor,
};
use organization_invitation::lifecycle::{
    check_no_pending, finish_expiry, fresh_identifiers, pending_lock_key, plan_creation,
    plan_expiry, plan_resend, plan_revoke, MutationContext, NewInvitation,
};
use organization_invitation::mutations::{
    begin_exclusive_mutation, begin_mutation, lookup_accept_replay, replay_token_operation,
    AcceptStart, DomainFailure, MutationReplay, StoredMutation, StoredTokenResponse,
    TokenOperationResult,
};
use organization_invitation::operations::{
    check_get, fresh_invitation_id, make_token_hash, token_response, InvitationLookup,
};
use organization_invitation::records::{
    AcceptedRecord, CommandRecord, CommandRow, CommandState, DeliveryState, InvitationRecord,
    InvitationState, InvitationView, Receipt, StorageError,
};
use organization_invitation::settlement::{
    claim_due_commands, complete_notification_command, fail_command,
};
use organization_invitation::token::{derive_token, verify_token};
use organization_invitation::writes::{
    Activity, ActivityKind, Evidence, ExpireResult, ExpiredItem, Response, StoredResponse,
    StoredWrite, Write,
};
use std::collections::BTreeMap;
use uuid::Uuid;

const DERIVATION_SECRET: [u8; 32] = [0x41; 32];
const TOKEN_PEPPER: [u8; 32] = [0x52; 32];
const TOKEN_TTL_SECONDS: i64 = 3_600;
const SECOND: i64 = 1_000_000;

struct Mutation {
    operation: String,
    actor: String,
    request_hash: Vec<u8>,
    command_id: Option<u128>,
    response: Option<StoredResponse>,
}

/// A store in memory that applies the writes of each transaction.
#[derive(Default)]
struct Store {
    invitations: BTreeMap<u128, InvitationRecord<String>>,
    commands: BTreeMap<u128, CommandRow<String>>,
    mutations: BTreeMap<(String, String), Mutation>,
    activity: Vec<Activity<String>>,
    numbers: BTreeMap<String, i64>,
    now: i64,
}

fn context(caller: &str, key: &str, actor: &str) -> MutationContext<String> {
    MutationContext {
        caller: caller.to_owned(),
        idempotency_key: key.to_owned(),
        actor: actor.to_owned(),
    }
}

impl Store {
    fn apply(&mut self, writes: Vec<StoredWrite>) {
        for write in writes {
            match write {
                Write::InsertInvitation { record } => {
                    assert!(self.invitations.insert(record.invitation_id, record).is_none());
                }
                Write::UpdateInvitation { record } => {
                    assert!(self.invitations.insert(record.invitation_id, record).is_some());
                }
                Write::SupersedeNotifications { invitation_id, at } => {
                    for row in self.commands.values_mut() {
                        if row.invitation_id == invitation_id
                            && row.kind == "notify_invitation"
                            && matches!(
                                row.state,
                                CommandState::Pending | CommandState::InFlight
                            )
                        {
                            row.state = CommandState::Superseded;
                            row.lease_token = None;
                            row.lease_until = None;
                            row.updated_at = at;
                            row.completed_at = Some(at);
                        }
                    }
                }
                Write::InsertCommand { row } => {
                    if self
                        .commands
                        .values()
                        .all(|other| other.command_key != row.command_key)
                    {
                        self.commands.insert(row.command_id, row);
                    }
                }
                Write::UpdateCommand { row } => {
                    assert!(self.commands.insert(row.command_id, row).is_some());
                }
                Write::InsertActivity { activity } => self.activity.push(activity),
                Write::CompleteMutation {
                    caller,
                    idempotency_key,
                    response,
                    ..
                } => {
                    let row = self.mutations.get_mut(&(caller, idempotency_key)).unwrap();
                    assert!(row.response.is_none());
                    row.response = Some(response);
                }
                Write::BindMutation {
                    caller,
                    idempotency_key,
                    command_id,
                    ..
                } => {
                    let row = self.mutations.get_mut(&(caller, idempotency_key)).unwrap();
                    row.command_id = Some(command_id);
                }
                Write::ReleaseMutation {
                    caller,
                    idempotency_key,
                } => {
                    self.mutations.remove(&(caller, idempotency_key));
                }
                Write::CompleteAcceptance {
                    command_id,
                    accepted,
                } => {
                    for row in self.mutations.values_mut() {
                        if row.command_id == Some(command_id) && row.response.is_none() {
                            row.response = Some(Response::Acceptance {
                                accepted: accepted.clone(),
                            });
                        }
                    }
                }
                Write::ReleaseAcceptance { command_id } => {
                    self.mutations
                        .retain(|_, row| row.command_id != Some(command_id) || row.response.is_some());
                }
            }
        }
    }

    fn stored<R>(
        &self,
        context: &MutationContext<String>,
        read: impl Fn(&StoredResponse) -> R,
    ) -> Option<StoredMutation<R>> {
        self.mutations
            .get(&(context.caller.clone(), context.idempotency_key.clone()))
            .map(|row| StoredMutation {
                operation: row.operation.clone(),
                actor_subject: row.actor.clone(),
                request_hash: row.request_hash.clone(),
                response: row.response.as_ref().map(read),
            })
    }

    fn reserve(&mut self, context: &MutationContext<String>, operation: &str, hash: &[u8]) {
        let reserved = self.mutations.insert(
            (context.caller.clone(), context.idempotency_key.clone()),
            Mutation {
                operation: operation.to_owned(),
                actor: context.actor.clone(),
                request_hash: hash.to_vec(),
                command_id: None,
                response: None,
            },
        );
        assert!(reserved.is_none());
    }

    fn create(
        &mut self,
        context: &MutationContext<String>,
        hash: &[u8],
        invitation_id: u128,
        organization_id: &str,
        email: &str,
        token_hash: &str,
    ) -> Result<TokenOperationResult<String>, DomainFailure> {
        let kept = self.stored(context, token_of);
        if let Some(replay) =
            begin_exclusive_mutation(kept, "invite", &context.actor, hash)?
        {
            return Ok(replay_token_operation(replay));
        }
        let exists = self.invitations.values().any(|record| {
            record.organization_id == organization_id
                && record.email_normalized == email.to_lowercase()
                && record.state == InvitationState::Pending
        });
        check_no_pending(exists)?;
        self.reserve(context, "invite", hash);
        let number = *self.numbers.entry(organization_id.to_owned()).or_insert(1);
        self.numbers.insert(organization_id.to_owned(), number + 1);
        let plan = plan_creation(
            &NewInvitation {
                invitation_id,
                organization_id: organization_id.to_owned(),
                email: email.to_owned(),
                email_normalized: email.to_lowercase(),
                token_hash: token_hash.to_owned(),
            },
            context,
            number,
            TOKEN_TTL_SECONDS,
            fresh_identifiers().unwrap(),
            self.now,
        )
        .unwrap();
        self.apply(plan.writes);
        Ok(plan.outcome)
    }

    fn invite(&mut self, organization_id: &str, email: &str, key: &str) -> InvitationView<String> {
        let id = fresh_invitation_id().unwrap();
        self.create(
            &context("admin-api", key, "usr_inviter"),
            key.as_bytes(),
            id,
            organization_id,
            email,
            "a verifier",
        )
        .unwrap()
        .invitation
    }

    fn find(&self, organization_id: &str, id: u128) -> Option<InvitationRecord<String>> {
        self.invitations
            .get(&id)
            .filter(|record| record.organization_id == organization_id)
            .cloned()
    }

    fn get(&self, organization_id: &str, reference: &str) -> Option<InvitationRecord<String>> {
        match check_get(reference).unwrap() {
            InvitationLookup::Id(id) => self.find(organization_id, id),
            InvitationLookup::Label(label) => self
                .invitations
                .values()
                .find(|record| {
                    record.organization_id == organization_id && record.identifier == label
                })
                .cloned(),
        }
    }

    fn resend(
        &mut self,
        context: &MutationContext<String>,
        hash: &[u8],
        organization_id: &str,
        id: u128,
        revision: i64,
        token_hash: &str,
    ) -> Result<TokenOperationResult<String>, DomainFailure> {
        let kept = self.stored(context, token_of);
        if let Some(replay) =
            begin_exclusive_mutation(kept, "resend", &context.actor, hash)?
        {
            return Ok(replay_token_operation(replay));
        }
        let plan = plan_resend(
            &self.find(organization_id, id),
            context,
            revision,
            token_hash,
            TOKEN_TTL_SECONDS,
            fresh_identifiers().unwrap(),
            self.now,
        )
        .unwrap()?;
        self.reserve(context, "resend", hash);
        self.apply(plan.writes);
        Ok(plan.outcome)
    }

    fn revoke(
        &mut self,
        context: &MutationContext<String>,
        hash: &[u8],
        organization_id: &str,
        id: u128,
        revision: i64,
        reason: &str,
    ) -> Result<InvitationView<String>, DomainFailure> {
        let kept = self.stored(context, |response| match response {
            Response::Invitation { invitation } => invitation.clone(),
            _ => unreachable!(),
        });
        if let Some(replay) =
            begin_exclusive_mutation(kept, "revoke", &context.actor, hash)?
        {
            return Ok(replay);
        }
        let plan = plan_revoke(
            &self.find(organization_id, id),
            context,
            revision,
            reason,
            fresh_identifiers().unwrap(),
            self.now,
        )
        .unwrap()?;
        self.reserve(context, "revoke", hash);
        self.apply(plan.writes);
        Ok(plan.outcome)
    }

    fn accept(
        &mut self,
        context: &MutationContext<String>,
        hash: &[u8],
        id: u128,
        revision: i64,
        generation: i64,
        token_hash: &str,
    ) -> Result<AcceptStart, DomainFailure> {
        match begin_mutation(
            self.stored(context, accepted_of),
            "accept",
            &context.actor,
            hash,
        )? {
            MutationReplay::Replay(accepted) => return Ok(AcceptStart::Replay(accepted)),
            MutationReplay::InProgress => return Ok(AcceptStart::InProgress),
            MutationReplay::New => {}
        }
        let current = self.invitations.get(&id).cloned();
        let ids = fresh_identifiers().unwrap();
        match decide_accept(
            &current, context, revision, generation, token_hash, ids, self.now,
        )
        .unwrap()
        {
            AcceptDecision::Refuse(failure) => Err(failure),
            AcceptDecision::Expire(writes) => {
                self.reserve(context, "accept", hash);
                self.apply(writes);
                Err(DomainFailure::InvitationExpired)
            }
            AcceptDecision::Proceed(command) => {
                self.reserve(context, "accept", hash);
                let key = command.command_key.clone();
                self.apply(vec![Write::InsertCommand { row: command }]);
                let stored = self
                    .commands
                    .values()
                    .find(|row| row.command_key == key)
                    .unwrap()
                    .clone();
                let plan = start_acceptance(
                    &current.unwrap(),
                    stored,
                    context,
                    fresh_invitation_id().unwrap(),
                    30,
                    ids.activity_id,
                    self.now,
                )
                .unwrap();
                self.apply(plan.writes);
                Ok(AcceptStart::Execute(plan.outcome))
            }
        }
    }

    fn complete(
        &mut self,
        command: &CommandRecord<String>,
        membership_id: &str,
        revision: &str,
    ) -> Result<AcceptedRecord<String>, StorageError> {
        let plan = complete_accept(
            self.commands.get(&command.command_id).cloned(),
            &self.invitations.get(&command.invitation_id).cloned(),
            command,
            membership_id,
            revision,
            fresh_identifiers().unwrap(),
            self.now,
        )?;
        self.apply(plan.writes);
        Ok(plan.outcome)
    }

    fn claim(&mut self, organization_id: &str, limit: usize) -> Vec<CommandRecord<String>> {
        let now = self.now;
        let rows: Vec<(CommandRow<String>, u128)> = self
            .commands
            .values()
            .filter(|row| {
                row.organization_id == organization_id
                    && match row.state {
                        CommandState::Pending => row.available_at <= now,
                        CommandState::InFlight => row.lease_until.is_some_and(|until| until < now),
                        _ => false,
                    }
            })
            .take(limit)
            .map(|row| (row.clone(), fresh_invitation_id().unwrap()))
            .collect();
        let plan = claim_due_commands(&rows, 30, now).unwrap();
        self.apply(plan.writes);
        plan.outcome
    }

    fn expire(
        &mut self,
        context: &MutationContext<String>,
        organization_id: &str,
        limit: usize,
    ) -> ExpireResult<Vec<ExpiredItem<String>>> {
        self.reserve(context, "expire_due", b"batch");
        let now = self.now;
        let due = |record: &&InvitationRecord<String>| {
            record.organization_id == organization_id
                && record.state == InvitationState::Pending
                && record.acceptance_subject.is_none()
                && record.token_expires_at <= now
        };
        let rows: Vec<_> = self
            .invitations
            .values()
            .filter(due)
            .take(limit)
            .map(|record| (record.clone(), fresh_identifiers().unwrap()))
            .collect();
        let plan = plan_expiry(&rows, &context.actor, now).unwrap();
        self.apply(plan.writes);
        let has_more = self.invitations.values().any(|record| due(&record));
        let finished = finish_expiry(
            plan.outcome,
            has_more,
            &context.caller,
            &context.idempotency_key,
        )
        .unwrap();
        self.apply(finished.writes);
        finished.outcome
    }
}

fn token_of(response: &StoredResponse) -> StoredTokenResponse {
    match response {
        Response::Token {
            invitation,
            token_generation,
        } => StoredTokenResponse {
            invitation: invitation.clone(),
            token_generation: *token_generation,
        },
        _ => unreachable!(),
    }
}

fn accepted_of(response: &StoredResponse) -> AcceptedRecord<String> {
    match response {
        Response::Acceptance { accepted } => accepted.clone(),
        _ => unreachable!(),
    }
}

#[test]
fn setup_restart_and_caller_scoped_replay_are_durable() {
    let mut store = Store::default();
    let id = fresh_invitation_id().unwrap();
    let token_hash = make_token_hash(&DERIVATION_SECRET, &TOKEN_PEPPER, id, 1).unwrap();
    let call = context("admin-api", "invite-restart-1", "usr_inviter");
    let created = store
        .create(
            &call,
            b"invite-restart-1",
            id,
            "org_restart",
            "member@example.com",
            &token_hash,
        )
        .unwrap();
    assert!(created.disclose_token);
    assert_eq!(created.invitation.identifier, "INV-1");
    let issued = token_response(created.clone(), &DERIVATION_SECRET).unwrap();
    let token = issued.invitation_token.unwrap();
    assert!(issued.token_returned);
    let stored_hash = store.invitations[&id].token_hash.clone().unwrap();
    assert!(stored_hash.starts_with("$argon2id$v=19$"));
    assert!(!stored_hash.contains(token.as_str()));
    assert!(verify_token(&token, &TOKEN_PEPPER, &stored_hash).unwrap());

    let replay = store
        .create(
            &call,
            b"invite-restart-1",
            fresh_invitation_id().unwrap(),
            "org_restart",
            "member@example.com",
            "not-used-on-replay",
        )
        .unwrap();
    assert_eq!(replay.invitation, created.invitation);
    assert!(
        !replay.disclose_token,
        "a replay must not disclose the token again"
    );
    let answer = token_response(replay.clone(), &DERIVATION_SECRET).unwrap();
    assert!(!answer.token_returned);
    assert_eq!(answer.invitation_token, None);

    let other_caller = store
        .create(
            &context("another-admin-api", "invite-restart-1", "usr_inviter"),
            b"invite-restart-1",
            fresh_invitation_id().unwrap(),
            "org_restart",
            "another@example.com",
            "another verifier",
        )
        .unwrap();
    assert_ne!(
        other_caller.invitation.invitation_id,
        replay.invitation.invitation_id
    );
    assert_eq!(other_caller.invitation.identifier, "INV-2");
}

#[test]
fn concurrent_same_email_and_revision_mutations_are_serialized() {
    let mut store = Store::default();
    let first = store.create(
        &context("admin-api", "same-email-1", "usr_inviter"),
        b"same-email-1",
        fresh_invitation_id().unwrap(),
        "org_concurrency",
        "Member@Example.COM",
        "first verifier",
    );
    let second = store.create(
        &context("admin-api", "same-email-2", "usr_inviter"),
        b"same-email-2",
        fresh_invitation_id().unwrap(),
        "org_concurrency",
        "member@example.com",
        "second verifier",
    );
    let outcomes = [first, second];
    assert_eq!(outcomes.iter().filter(|outcome| outcome.is_ok()).count(), 1);
    assert_eq!(
        outcomes
            .iter()
            .filter(|outcome| matches!(outcome, Err(DomainFailure::InvitationExists)))
            .count(),
        1
    );
    let invitation = outcomes.into_iter().find_map(Result::ok).unwrap();
    let resend = store.resend(
        &context("admin-api", "resend-race", "usr_admin"),
        b"resend-race",
        "org_concurrency",
        invitation.invitation.invitation_id,
        invitation.invitation.revision,
        "resend verifier",
    );
    let revoke = store.revoke(
        &context("admin-api", "revoke-race", "usr_admin"),
        b"revoke-race",
        "org_concurrency",
        invitation.invitation.invitation_id,
        invitation.invitation.revision,
        "security review",
    );
    assert_eq!(usize::from(resend.is_ok()) + usize::from(revoke.is_ok()), 1);
    assert_eq!(
        usize::from(matches!(resend, Err(DomainFailure::RevisionConflict)))
            + usize::from(matches!(revoke, Err(DomainFailure::RevisionConflict))),
        1
    );
}

#[test]
fn resend_invalidates_old_token_and_list_uses_stable_keyset_pages() {
    let mut store = Store::default();
    let first_id = fresh_invitation_id().unwrap();
    let token = derive_token(&DERIVATION_SECRET, first_id, 1).unwrap();
    let first = store
        .create(
            &context("admin-api", "page-create-1", "usr_inviter"),
            b"page-create-1",
            first_id,
            "org_pages",
            "first@example.com",
            &make_token_hash(&DERIVATION_SECRET, &TOKEN_PEPPER, first_id, 1).unwrap(),
        )
        .unwrap();
    let new_token = derive_token(&DERIVATION_SECRET, first_id, 2).unwrap();
    let new_hash = make_token_hash(&DERIVATION_SECRET, &TOKEN_PEPPER, first_id, 2).unwrap();
    let call = context("admin-api", "page-resend-1", "usr_admin");
    let resent = store
        .resend(
            &call,
            b"page-resend-1",
            "org_pages",
            first_id,
            first.invitation.revision,
            &new_hash,
        )
        .unwrap();
    assert_eq!(resent.token_generation, 2);
    let stored_hash = store.invitations[&first_id].token_hash.clone().unwrap();
    assert!(!verify_token(&token, &TOKEN_PEPPER, &stored_hash).unwrap());
    assert!(verify_token(&new_token, &TOKEN_PEPPER, &stored_hash).unwrap());
    let replay = store
        .resend(
            &call,
            b"page-resend-1",
            "org_pages",
            first_id,
            first.invitation.revision,
            "ignored-on-replay",
        )
        .unwrap();
    assert!(!replay.disclose_token);
    assert_eq!(
        store
            .commands
            .values()
            .filter(|row| row.state == CommandState::Superseded)
            .map(|row| row.token_generation)
            .collect::<Vec<_>>(),
        vec![Some(1)]
    );

    for number in 2..=5 {
        store.now += i64::from(number % 2) * SECOND;
        store.invite(
            "org_pages",
            &format!("member-{number}@example.com"),
            &format!("page-create-{number}"),
        );
    }
    let mut all: Vec<InvitationView<String>> =
        store.invitations.values().map(InvitationRecord::seen).collect();
    all.sort_by_key(|view| std::cmp::Reverse((view.created_at, view.invitation_id)));
    let behind = |cursor: Option<InvitationCursor>| -> Vec<InvitationView<String>> {
        all.iter()
            .filter(|view| {
                cursor.is_none_or(|cursor| {
                    (i128::from(view.created_at) * 1000, view.invitation_id)
                        < (cursor.created_at, cursor.invitation_id)
                })
            })
            .take(3)
            .cloned()
            .collect()
    };
    let first_page = make_page(behind(None), 2).unwrap();
    assert_eq!(first_page.items.len(), 2);
    let cursor_value = encode_invitation_cursor(first_page.items.last().unwrap()).unwrap();
    assert_eq!(first_page.next_cursor.as_ref(), Some(&cursor_value));
    let cursor = decode_invitation_cursor(&cursor_value).unwrap();
    let second_page = make_page(behind(Some(cursor)), 2).unwrap();
    assert_eq!(second_page.items.len(), 2);
    assert!(first_page.items.iter().all(|left| {
        second_page
            .items
            .iter()
            .all(|right| left.invitation_id != right.invitation_id)
    }));
    let last = decode_invitation_cursor(second_page.next_cursor.as_deref().unwrap()).unwrap();
    let third_page = make_page(behind(Some(last)), 2).unwrap();
    assert_eq!(third_page.items.len(), 1);
    assert_eq!(third_page.next_cursor, None);
    let listed: Vec<u128> = [first_page.items, second_page.items, third_page.items]
        .concat()
        .iter()
        .map(|view| view.invitation_id)
        .collect();
    assert_eq!(
        listed,
        all.iter().map(|view| view.invitation_id).collect::<Vec<_>>()
    );
}

#[test]
fn acceptance_race_creates_one_membership_command_and_exact_replay() {
    let mut store = Store::default();
    let id = fresh_invitation_id().unwrap();
    let token = derive_token(&DERIVATION_SECRET, id, 1).unwrap();
    let token_hash = make_token_hash(&DERIVATION_SECRET, &TOKEN_PEPPER, id, 1).unwrap();
    let invitation = store
        .create(
            &context("admin-api", "accept-create-1", "usr_inviter"),
            b"accept-create-1",
            id,
            "org_accept",
            "invitee@example.com",
            &token_hash,
        )
        .unwrap()
        .invitation;
    let stored_hash = store.invitations[&id].token_hash.clone().unwrap();
    assert!(verify_token(&token, &TOKEN_PEPPER, &stored_hash).unwrap());
    let calls = [
        context("accept-api", "accept-race-1", "usr_invitee_a"),
        context("accept-api", "accept-race-2", "usr_invitee_b"),
    ];
    let first = store.accept(&calls[0], b"accept-race-1", id, 1, 1, &stored_hash);
    let second = store.accept(&calls[1], b"accept-race-2", id, 1, 1, &stored_hash);
    assert!(matches!(
        second,
        Err(DomainFailure::RevisionConflict | DomainFailure::AcceptanceInProgress)
    ));
    assert_eq!(
        store.accept(&calls[1], b"accept-race-2", id, 2, 1, &stored_hash),
        Err(DomainFailure::AcceptanceInProgress)
    );
    let command = match first.unwrap() {
        AcceptStart::Execute(command) => command,
        _ => unreachable!(),
    };
    assert_eq!(command.attempts, 1);
    assert_eq!(command.kind, "add_member");
    assert!(matches!(
        lookup_accept_replay(
            store.stored(&calls[0], accepted_of),
            "usr_invitee_a",
            b"accept-race-1"
        ),
        Ok(Some(AcceptStart::InProgress))
    ));
    assert_eq!(
        store.accept(&calls[0], b"accept-race-1", id, 1, 1, &stored_hash),
        Ok(AcceptStart::InProgress)
    );
    let accepted = store.complete(&command, "member_1", "2").unwrap();
    assert_eq!(accepted.state, InvitationState::Accepted);
    assert_eq!(accepted.state.as_str(), "accepted");
    assert_eq!(accepted.membership_id, "member_1");
    assert_eq!(accepted.revision, 3);
    assert_eq!(
        store.complete(&command, "member_1", "2").unwrap(),
        accepted
    );
    let replay = lookup_accept_replay(
        store.stored(&calls[0], accepted_of),
        "usr_invitee_a",
        b"accept-race-1",
    )
    .unwrap();
    assert!(matches!(replay, Some(AcceptStart::Replay(value)) if value == accepted));
    assert_eq!(
        lookup_accept_replay(
            store.stored(&calls[0], accepted_of),
            "usr_invitee_b",
            b"accept-race-1"
        ),
        Err(DomainFailure::IdempotencyConflict)
    );
    let membership_commands = store
        .commands
        .values()
        .filter(|row| row.invitation_id == id && row.kind == "add_member")
        .count();
    assert_eq!(membership_commands, 1);
    assert_eq!(
        store.commands[&command.command_id].receipt,
        Some(Receipt::Membership {
            membership_id: "member_1".to_owned(),
            membership_revision: "2".to_owned(),
        })
    );
    assert!(store
        .commands
        .values()
        .any(|row| row.kind == "notify_lifecycle" && row.lifecycle.as_deref() == Some("accepted")));
    let view = store.invitations[&id].seen();
    assert_eq!(view.accepted_subject.as_deref(), Some("usr_invitee_a"));
    assert!(!view.acceptance_pending);
}

#[test]
fn concurrent_expiry_workers_skip_locked_without_duplicate_activity() {
    let mut store = Store::default();
    for number in 1..=4 {
        store.invite(
            "org_expire",
            &format!("expired-{number}@example.com"),
            &format!("expire-create-{number}"),
        );
    }
    store.now = TOKEN_TTL_SECONDS * SECOND;
    let first = store.expire(
        &context("worker-a", "expire-batch-a", "usr_worker_a"),
        "org_expire",
        2,
    );
    assert!(first.has_more);
    let second = store.expire(
        &context("worker-b", "expire-batch-b", "usr_worker_b"),
        "org_expire",
        2,
    );
    assert!(!second.has_more);
    assert_eq!(first.expired + second.expired, 4);
    assert_eq!(
        store
            .invitations
            .values()
            .filter(|record| record.state == InvitationState::Expired)
            .count(),
        4
    );
    assert_eq!(
        store
            .activity
            .iter()
            .filter(|entry| entry.kind == ActivityKind::Expired)
            .count(),
        4
    );
    assert_eq!(
        store
            .commands
            .values()
            .filter(|row| row.kind == "notify_lifecycle"
                && row.lifecycle.as_deref() == Some("expired"))
            .count(),
        4
    );
    assert!(store.invitations.values().all(|record| {
        record.delivery_state == DeliveryState::Superseded && record.token_hash.is_none()
    }));
}

#[test]
fn command_restart_recovery_is_lease_fenced_and_contains_no_plaintext_token() {
    let mut store = Store::default();
    let invitation = store.invite("org_outbox", "outbox@example.com", "outbox-create-1");
    let token = derive_token(&DERIVATION_SECRET, invitation.invitation_id, 1).unwrap();
    let first_claim = store.claim("org_outbox", 1).pop().unwrap();
    assert_eq!(first_claim.kind, "notify_invitation");
    let row = store.commands[&first_claim.command_id].clone();
    assert!(!format!("{row:?}").contains(token.as_str()));
    assert!(store.claim("org_outbox", 1).is_empty());

    store.now = row.lease_until.unwrap() + 1;
    let recovered = store.claim("org_outbox", 1).pop().unwrap();
    assert_eq!(recovered.command_id, first_claim.command_id);
    assert_eq!(recovered.attempts, 2);
    assert_ne!(recovered.lease_token, first_claim.lease_token);
    let stored = || store.commands.get(&recovered.command_id).cloned();
    assert_eq!(
        retry_command(stored(), first_claim.lease_token, "stale", 1, store.now),
        Err(StorageError::RowNotFound),
        "a stale worker must not cross the lease fence"
    );
    assert_eq!(
        supersede_command(stored(), first_claim.lease_token, store.now),
        Err(StorageError::RowNotFound)
    );
    let writes = complete_notification_command(
        stored(),
        &store.invitations.get(&invitation.invitation_id).cloned(),
        &recovered,
        "intent_1",
        "delivery_1",
        store.now,
    )
    .unwrap();
    store.apply(writes);
    assert_eq!(
        store.commands[&recovered.command_id].state.as_str(),
        "completed"
    );
    let record = &store.invitations[&invitation.invitation_id];
    assert_eq!(record.delivery_state.as_str(), "queued");
    assert_eq!(record.delivery_intent_id.as_deref(), Some("intent_1"));
    assert_eq!(record.delivery_id.as_deref(), Some("delivery_1"));
    assert_eq!(record.revision, 1);
}

#[test]
fn a_different_request_under_a_taken_key_is_refused() {
    let mut store = Store::default();
    store.invite("org", "a@example.com", "key-1");
    let call = context("admin-api", "key-1", "usr_inviter");
    for (actor, hash) in [("usr_inviter", b"other".as_slice()), ("usr_other", b"key-1")] {
        let call = context("admin-api", "key-1", actor);
        assert_eq!(
            store
                .create(&call, hash, 7, "org", "b@example.com", "verifier")
                .map(|_| ()),
            Err(DomainFailure::IdempotencyConflict)
        );
    }
    assert_eq!(
        begin_exclusive_mutation(
            store.stored(&call, token_of),
            "resend",
            "usr_inviter",
            b"key-1"
        ),
        Err(DomainFailure::IdempotencyConflict)
    );
    store.reserve(&context("worker", "batch", "usr"), "dispatch_due", b"hash");
    assert_eq!(
        begin_exclusive_mutation(
            store.stored(&context("worker", "batch", "usr"), token_of),
            "dispatch_due",
            "usr",
            b"hash"
        ),
        Err(DomainFailure::IdempotencyConflict)
    );
}

#[test]
fn changes_are_refused_in_order() {
    let mut store = Store::default();
    let invitation = store.invite("org", "a@example.com", "create");
    let id = invitation.invitation_id;
    let call = context("admin-api", "revoke", "usr_admin");
    assert_eq!(
        store.revoke(&call, b"h", "another org", id, 1, "reason"),
        Err(DomainFailure::InvitationNotFound)
    );
    assert_eq!(
        store.revoke(&call, b"h", "org", id, 2, "reason"),
        Err(DomainFailure::RevisionConflict)
    );
    let view = store.revoke(&call, b"h", "org", id, 1, "reason").unwrap();
    assert_eq!(view.state, InvitationState::Revoked);
    assert_eq!(view.revision, 2);
    assert_eq!(view.revoked_at, Some(0));
    assert_eq!(view.delivery_state, DeliveryState::Superseded);
    assert_eq!(store.invitations[&id].revoke_reason.as_deref(), Some("reason"));
    assert_eq!(
        store
            .resend(
                &context("admin-api", "resend", "usr"),
                b"h",
                "org",
                id,
                2,
                "verifier"
            )
            .map(|_| ()),
        Err(DomainFailure::InvalidTransition)
    );
    assert_eq!(
        store.revoke(&call, b"h", "org", id, 1, "reason").unwrap(),
        view
    );
    assert_eq!(
        store.activity.last().unwrap().evidence,
        Evidence::Revocation {
            reason: "reason".to_owned()
        }
    );
    assert_eq!(store.activity.last().unwrap().kind.as_str(), "invitation.revoked");
    store.invite("org", "a@example.com", "create-again");
}

#[test]
fn a_late_acceptance_expires_the_invitation_and_frees_its_key() {
    let mut store = Store::default();
    let invitation = store.invite("org", "a@example.com", "create");
    let id = invitation.invitation_id;
    let call = context("accept-api", "accept", "usr_invitee");
    assert_eq!(
        store.accept(&call, b"h", id, 1, 2, "a verifier"),
        Err(DomainFailure::TokenInvalid)
    );
    assert_eq!(
        store.accept(&call, b"h", id, 1, 1, "another verifier"),
        Err(DomainFailure::TokenInvalid)
    );
    assert_eq!(
        store.accept(&call, b"h", 5, 1, 1, "a verifier"),
        Err(DomainFailure::InvitationNotFound)
    );
    store.now = invitation.token_expires_at;
    assert_eq!(
        store.accept(&call, b"h", id, 1, 1, "a verifier"),
        Err(DomainFailure::InvitationExpired)
    );
    assert!(!store
        .mutations
        .contains_key(&("accept-api".to_owned(), "accept".to_owned())));
    let entry = store.activity.last().unwrap();
    assert_eq!(entry.actor_subject, "system:accept");
    assert_eq!(entry.kind.as_str(), "invitation.expired");
    assert_eq!(entry.evidence, Evidence::TokenDeadline);
    assert_eq!(store.invitations[&id].state, InvitationState::Expired);
    assert_eq!(
        store.accept(&call, b"h", id, 2, 1, "a verifier"),
        Err(DomainFailure::InvalidTransition)
    );
}

#[test]
fn a_refused_membership_expires_the_invitation_and_frees_its_key() {
    let mut store = Store::default();
    let invitation = store.invite("org", "a@example.com", "create");
    let id = invitation.invitation_id;
    let call = context("accept-api", "accept", "usr_invitee");
    let command = match store.accept(&call, b"h", id, 1, 1, "a verifier").unwrap() {
        AcceptStart::Execute(command) => command,
        _ => unreachable!(),
    };
    let writes = fail_command(
        store.commands.get(&command.command_id).cloned(),
        &store.invitations.get(&id).cloned(),
        &command,
        "membership_rejected",
        fresh_identifiers().unwrap(),
        store.now,
    )
    .unwrap();
    store.apply(writes);
    assert_eq!(store.invitations[&id].state, InvitationState::Expired);
    assert_eq!(store.invitations[&id].revision, 3);
    assert!(!store
        .mutations
        .contains_key(&("accept-api".to_owned(), "accept".to_owned())));
    let entry = store.activity.last().unwrap();
    assert_eq!(entry.actor_subject, "system:membership-failure");
    assert_eq!(entry.kind.as_str(), "invitation.acceptance_failed");
    assert_eq!(
        entry.evidence,
        Evidence::Failure {
            error_code: "membership_rejected".to_owned()
        }
    );
    let row = &store.commands[&command.command_id];
    assert_eq!(row.state, CommandState::Failed);
    assert_eq!(row.last_error.as_deref(), Some("membership_rejected"));
    assert_eq!(
        store.complete(&command, "member", "1"),
        Err(StorageError::LeaseFenceCrossed)
    );
}

#[test]
fn a_failed_delivery_marks_the_invitation() {
    let mut store = Store::default();
    let invitation = store.invite("org", "a@example.com", "create");
    let command = store.claim("org", 1).pop().unwrap();
    let writes = fail_command(
        store.commands.get(&command.command_id).cloned(),
        &store.invitations.get(&invitation.invitation_id).cloned(),
        &command,
        "notification_rejected",
        fresh_identifiers().unwrap(),
        store.now,
    )
    .unwrap();
    store.apply(writes);
    let record = &store.invitations[&invitation.invitation_id];
    assert_eq!(record.delivery_state, DeliveryState::Failed);
    assert_eq!(record.state, InvitationState::Pending);
    assert_eq!(record.revision, 1);
}

#[test]
fn rows_that_do_not_fit_are_errors() {
    let mut store = Store::default();
    let invitation = store.invite("org", "a@example.com", "create");
    let id = invitation.invitation_id;
    let call = context("accept-api", "accept", "usr_invitee");
    let command = match store.accept(&call, b"h", id, 1, 1, "a verifier").unwrap() {
        AcceptStart::Execute(command) => command,
        _ => unreachable!(),
    };
    let row = store.commands.get(&command.command_id).cloned();
    let record = store.invitations.get(&id).cloned();
    let complete = |row: &Option<CommandRow<String>>, record: &Option<InvitationRecord<String>>| {
        complete_accept(
            row.clone(),
            record,
            &command,
            "member",
            "1",
            fresh_identifiers().unwrap(),
            0,
        )
        .map(|plan| plan.outcome)
    };
    assert_eq!(complete(&None, &record), Err(StorageError::RowNotFound));
    assert_eq!(complete(&row, &None), Err(StorageError::RowNotFound));
    let mut other = record.clone();
    other.as_mut().unwrap().acceptance_subject = Some("usr_other".to_owned());
    assert_eq!(complete(&row, &other), Err(StorageError::CommandMismatch));
    let mut last = record.clone();
    last.as_mut().unwrap().revision = i64::MAX;
    assert_eq!(complete(&row, &last), Err(StorageError::OutOfRange));
    let mut done = row.clone();
    done.as_mut().unwrap().state = CommandState::Completed;
    assert_eq!(complete(&done, &record), Err(StorageError::NotAccepted));
    let mut accepted = record.clone();
    accepted.as_mut().unwrap().state = InvitationState::Accepted;
    assert_eq!(complete(&done, &accepted), Err(StorageError::NoMembership));

    let input = NewInvitation {
        invitation_id: 1,
        organization_id: "org".to_owned(),
        email: "b@example.com".to_owned(),
        email_normalized: "b@example.com".to_owned(),
        token_hash: "verifier".to_owned(),
    };
    assert_eq!(
        plan_creation(&input, &call, 0, 1, fresh_identifiers().unwrap(), 0).map(|plan| plan.outcome),
        Err(StorageError::SequenceNotPositive)
    );
    assert_eq!(
        plan_creation(&input, &call, 1, 1, fresh_identifiers().unwrap(), i64::MAX).map(|plan| plan.outcome),
        Err(StorageError::OutOfRange)
    );
    let mut newest = store.invitations.get(&id).cloned();
    let record = newest.as_mut().unwrap();
    record.acceptance_subject = None;
    record.token_generation = i64::MAX;
    assert_eq!(
        plan_resend(&newest, &call, 2, "verifier", 1, fresh_identifiers().unwrap(), 0)
            .map(|result| result.map(|plan| plan.outcome)),
        Err(StorageError::GenerationOverflow)
    );
    let ended = vec![(accepted.unwrap(), fresh_identifiers().unwrap())];
    assert_eq!(
        plan_expiry(&ended, "usr", 0).map(|plan| plan.outcome),
        Err(StorageError::RowNotFound)
    );
}

#[test]
fn references_find_invitations_of_their_organization() {
    let mut store = Store::default();
    let first = store.invite("org", "a@example.com", "create-1");
    let second = store.invite("org", "b@example.com", "create-2");
    let foreign = store.invite("other", "a@example.com", "create-3");
    assert_eq!(first.identifier, "INV-1");
    assert_eq!(second.identifier, "INV-2");
    assert_eq!(foreign.identifier, "INV-1");
    for (organization, invitation) in [("org", &first), ("org", &second), ("other", &foreign)] {
        let text = Uuid::from_u128(invitation.invitation_id).to_string();
        for reference in [&text, &text.to_uppercase(), &invitation.identifier] {
            let found = store.get(organization, reference).unwrap();
            assert_eq!(&found.seen(), invitation);
        }
        let strange = if organization == "org" { "other" } else { "org" };
        assert_eq!(store.get(strange, &text), None);
    }
    assert_eq!(store.get("other", "INV-2"), None);
    assert_eq!(store.get("org", "INV-3"), None);
    assert_eq!(store.get("org", &Uuid::nil().to_string()), None);
}

#[test]
fn pending_addresses_are_locked_by_organization() {
    assert_eq!(pending_lock_key("org", "a@b.c"), "org\u{1f}a@b.c");
    assert_ne!(pending_lock_key("org", "1a@b.c"), pending_lock_key("org1", "a@b.c"));
}

#[test]
fn tokens_of_earlier_generations_are_refused_for_good() {
    let mut store = Store::default();
    let id = store.invite("org", "a@example.com", "invite").invitation_id;
    for revision in 1..4 {
        let key = format!("resend-{revision}");
        let resent = store
            .resend(
                &context("admin-api", &key, "usr_admin"),
                key.as_bytes(),
                "org",
                id,
                revision,
                &format!("verifier {revision}"),
            )
            .unwrap();
        assert_eq!(resent.token_generation, revision + 1);
    }
    for (generation, verifier) in [(1, "a verifier"), (2, "verifier 1"), (3, "verifier 3")] {
        let key = format!("accept-{generation}");
        assert_eq!(
            store.accept(
                &context("accept-api", &key, "usr_invitee"),
                key.as_bytes(),
                id,
                4,
                generation,
                verifier,
            ),
            Err(DomainFailure::TokenInvalid)
        );
    }
    let start = store.accept(
        &context("accept-api", "accept", "usr_invitee"),
        b"accept",
        id,
        4,
        4,
        "verifier 3",
    );
    assert!(matches!(start, Ok(AcceptStart::Execute(_))));
}

#[test]
fn ended_invitations_and_commands_stay_as_they_are() {
    let mut store = Store::default();
    let invitation = store.invite("org", "a@example.com", "invite");
    let id = invitation.invitation_id;
    store
        .revoke(
            &context("admin-api", "revoke", "usr_admin"),
            b"revoke",
            "org",
            id,
            1,
            "no longer needed",
        )
        .unwrap();
    let ended = store.invitations[&id].clone();
    assert_eq!(ended.state, InvitationState::Revoked);
    assert_eq!(ended.revision, 2);
    for revision in 1..4 {
        let key = format!("late-{revision}");
        let call = context("admin-api", &key, "usr_admin");
        let expected = if revision == 2 {
            DomainFailure::InvalidTransition
        } else {
            DomainFailure::RevisionConflict
        };
        assert_eq!(
            store.resend(&call, b"late", "org", id, revision, "verifier"),
            Err(expected)
        );
        assert_eq!(
            store.revoke(&call, b"late", "org", id, revision, "again"),
            Err(expected)
        );
        assert_eq!(
            store.accept(&call, b"late", id, revision, 1, "a verifier"),
            Err(expected)
        );
    }
    store.now = i64::MAX / 2;
    let swept = store.expire(&context("worker", "sweep", "usr_worker"), "org", 100);
    assert_eq!(swept.expired, 0);
    assert_eq!(store.invitations[&id], ended);

    let claimed = store.claim("org", 100);
    assert_eq!(claimed.len(), 1);
    assert_eq!(claimed[0].kind, "notify_lifecycle");
    let superseded: Vec<_> = store
        .commands
        .values()
        .filter(|row| row.kind == "notify_invitation")
        .cloned()
        .collect();
    assert_eq!(superseded.len(), 1);
    assert_eq!(superseded[0].state, CommandState::Superseded);
}
