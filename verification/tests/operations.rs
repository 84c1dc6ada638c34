use base64::Engine;
use organization_invitation::contract::{AcceptError, AcceptRequest, ManagementError};
use organization_invitation::cursor::{
    decode_invitation_cursor, encode_invitation_cursor, make_page,
};
use organization_invitation::digests::request_hash;
use organization_invitation::lifecycle::{plan_creation, Identifiers, MutationContext, NewInvitation};
use organization_invitation::mutations::{AcceptStart, TokenOperationResult};
use organization_invitation::operations::{
    check_accept, check_batch, check_get, check_invite, check_list, check_resend, check_revoke,
    check_token, fresh_invitation_id, make_token_hash, next_generation, replayed_acceptance,
    token_response, InvitationLookup,
};
use organization_invitation::records::{
    decode_invitation, AcceptedRecord, InvitationRecord, InvitationRow, InvitationState,
    StorageError,
};
use organization_invitation::text::{decimal_text, parse_positive};
use organization_invitation::token::{derive_token, TokenError};
use organization_invitation::uuids::id_from_bytes;
use organization_invitation::worker_contract::WorkerError;
use organization_invitation::writes::Write;
use uuid::Uuid;

const ID: u128 = 0x6a43_eca2_af4b_4897_8514_c4bf_069a_de77;
const ID_TEXT: &str = "6a43eca2-af4b-4897-8514-c4bf069ade77";

fn record(created_at: i64, token_hash: &str) -> InvitationRecord<String> {
    let plan = plan_creation(
        &NewInvitation {
            invitation_id: ID,
            organization_id: "org".to_owned(),
            email: "a@example.com".to_owned(),
            email_normalized: "a@example.com".to_owned(),
            token_hash: token_hash.to_owned(),
        },
        &MutationContext {
            caller: "admin-api".to_owned(),
            idempotency_key: "key".to_owned(),
            actor: "usr_inviter".to_owned(),
        },
        7,
        3_600,
        Identifiers {
            command_id: 1,
            activity_id: 2,
        },
        created_at,
    )
    .unwrap();
    match plan.writes.into_iter().next() {
        Some(Write::InsertInvitation { record }) => record,
        _ => unreachable!(),
    }
}

#[test]
fn invitations_need_an_address_and_a_key() {
    assert_eq!(
        check_invite(" A@Example.com ", "key-1"),
        Ok("a@example.com".to_owned())
    );
    assert_eq!(
        check_invite("nobody", "key-1"),
        Err(ManagementError::InvalidRequest)
    );
    assert_eq!(
        check_invite("a@example.com", ""),
        Err(ManagementError::InvalidRequest)
    );
    let long = "k".repeat(201);
    assert_eq!(
        check_invite("a@example.com", &long),
        Err(ManagementError::InvalidRequest)
    );
    assert!(check_invite("a@example.com", &long[..200]).is_ok());
}

#[test]
fn new_identifiers_are_random() {
    let left = Uuid::from_u128(fresh_invitation_id().unwrap());
    assert_eq!(left.get_version_num(), 4);
    assert_ne!(left.as_u128(), fresh_invitation_id().unwrap());
}

#[test]
fn identifiers_are_made_of_random_bytes() {
    let bytes: Vec<u8> = (0..16).collect();
    assert_eq!(
        id_from_bytes(&bytes),
        Some(0x0001_0203_0405_4607_8809_0a0b_0c0d_0e0f)
    );
    assert_eq!(
        id_from_bytes(&[0xff; 16]),
        Some(0xffff_ffff_ffff_4fff_bfff_ffff_ffff_ffff)
    );
    assert_eq!(id_from_bytes(&bytes[..15]), None);
    assert_eq!(id_from_bytes(&[0; 17]), None);
}

#[test]
fn invitations_are_looked_up_by_identifier_or_label() {
    assert_eq!(check_get(ID_TEXT), Ok(InvitationLookup::Id(ID)));
    assert_eq!(
        check_get(&ID_TEXT.to_uppercase()),
        Ok(InvitationLookup::Id(ID))
    );
    assert_eq!(
        check_get(&format!("urn:uuid:{ID_TEXT}")),
        Ok(InvitationLookup::Id(ID))
    );
    assert_eq!(
        check_get(&format!("{{{ID_TEXT}}}")),
        Ok(InvitationLookup::Id(ID))
    );
    assert_eq!(
        check_get("INV-42"),
        Ok(InvitationLookup::Label("INV-42".to_owned()))
    );
    let long = format!("INV-{}", "1".repeat(28));
    assert_eq!(check_get(&long), Ok(InvitationLookup::Label(long)));
    for reference in ["INV-", "INV-0", "INV-007", "inv-1", "INV-1a", "", "42"] {
        assert_eq!(check_get(reference), Err(ManagementError::InvalidRequest));
    }
}

#[test]
fn pages_hold_one_to_a_hundred() {
    let query = check_list(100, &None, &Some(" A@Example.com".to_owned())).unwrap();
    assert_eq!(query.fetch, 101);
    assert_eq!(query.cursor, None);
    assert_eq!(query.email_normalized.as_deref(), Some("a@example.com"));
    for limit in [0, 101, -1, i64::MIN, i64::MAX] {
        assert_eq!(
            check_list(limit, &None, &None),
            Err(ManagementError::InvalidRequest)
        );
    }
    assert_eq!(
        check_list(1, &Some("no cursor".to_owned()), &None),
        Err(ManagementError::InvalidRequest)
    );
    assert_eq!(
        check_list(1, &None, &Some("no address".to_owned())),
        Err(ManagementError::InvalidRequest)
    );
    let view = record(1_500_000, "verifier").seen();
    let cursor = encode_invitation_cursor(&view).unwrap();
    let query = check_list(1, &Some(cursor), &None).unwrap();
    assert_eq!(query.cursor.unwrap().invitation_id, ID);
    assert_eq!(query.cursor.unwrap().created_at, 1_500_000_000);
}

#[test]
fn cursors_are_opaque_and_read_back() {
    let view = record(1_500_000, "verifier").seen();
    let cursor = encode_invitation_cursor(&view).unwrap();
    let payload = base64::engine::general_purpose::URL_SAFE_NO_PAD
        .decode(&cursor)
        .unwrap();
    assert_eq!(
        String::from_utf8(payload).unwrap(),
        format!("[\"1970-01-01T00:00:01.5Z\",\"{ID_TEXT}\"]")
    );
    let place = decode_invitation_cursor(&cursor).unwrap();
    assert_eq!(place.created_at, 1_500_000_000);
    assert_eq!(place.invitation_id, ID);
    for text in ["", "!", "AAAA", &cursor[1..], &format!("{cursor}=")] {
        assert_eq!(decode_invitation_cursor(text), None);
    }
    let late = record(i64::MAX - 3_600_000_000, "verifier").seen();
    assert!(matches!(
        encode_invitation_cursor(&late),
        Err(StorageError::CursorNotFormattable { .. })
    ));
    for created_at in [-377_705_116_800_000_000, -62_167_219_200_000_001] {
        let mut early = view.clone();
        early.created_at = created_at;
        let error = encode_invitation_cursor(&early).unwrap_err();
        assert_eq!(
            error.detail().as_deref(),
            Some(
                "cursor timestamp cannot be formatted: \
                 The year component cannot be formatted into the requested format."
            )
        );
    }
    let page = make_page(vec![view.clone(), view.clone()], 1).unwrap();
    assert_eq!(page.items.len(), 1);
    assert_eq!(page.next_cursor, Some(cursor));
    let page = make_page(vec![view], 1).unwrap();
    assert_eq!(page.items.len(), 1);
    assert_eq!(page.next_cursor, None);
}

#[test]
fn mutations_name_their_invitation_and_revision() {
    assert_eq!(check_resend("org", ID_TEXT, "7", "key"), Ok((ID, 7)));
    assert_eq!(check_resend("org", ID_TEXT, "+7", "key"), Ok((ID, 7)));
    for (organization, id, revision, key) in [
        ("an org", ID_TEXT, "7", "key"),
        ("org", "INV-7", "7", "key"),
        ("org", ID_TEXT, "0", "key"),
        ("org", ID_TEXT, "-1", "key"),
        ("org", ID_TEXT, "", "key"),
        ("org", ID_TEXT, "9223372036854775808", "key"),
        ("org", ID_TEXT, "7", "a key"),
    ] {
        assert_eq!(
            check_resend(organization, id, revision, key),
            Err(ManagementError::InvalidRequest)
        );
    }
    assert_eq!(
        check_revoke("org", ID_TEXT, "7", "key", "because\nof this"),
        Ok((ID, 7))
    );
    for reason in ["", "  \t", "bell\u{7}", &"x".repeat(2_001)] {
        assert_eq!(
            check_revoke("org", ID_TEXT, "7", "key", reason),
            Err(ManagementError::InvalidRequest)
        );
    }
}

#[test]
fn resends_make_the_next_generation() {
    let mut current = Some(record(0, "verifier"));
    assert_eq!(next_generation(&current, "org"), Ok(Ok(2)));
    assert_eq!(
        next_generation(&current, "other"),
        Ok(Err(ManagementError::InvitationNotFound))
    );
    assert_eq!(
        next_generation(&None, "org"),
        Ok(Err(ManagementError::InvitationNotFound))
    );
    current.as_mut().unwrap().token_generation = i64::MAX;
    assert_eq!(
        next_generation(&current, "org"),
        Err(StorageError::GenerationOverflow)
    );
}

#[test]
fn tokens_are_returned_by_the_call_that_made_them() {
    let made = TokenOperationResult {
        invitation: record(0, "verifier").seen(),
        token_generation: 1,
        disclose_token: true,
    };
    let response = token_response(made.clone(), &[0x41; 32]).unwrap();
    assert_eq!(
        response.invitation_token,
        Some(derive_token(&[0x41; 32], ID, 1).unwrap())
    );
    assert_eq!(
        response.debug_text(),
        format!(
            "TokenResponse {{ invitation_id: {ID_TEXT}, token_returned: true, \
             invitation_token: \"<redacted>\" }}"
        )
    );
    assert!(!response
        .debug_text()
        .contains(response.invitation_token.as_deref().unwrap()));
    assert_eq!(
        token_response(made.clone(), &[0x41; 31]).err(),
        Some(TokenError::InvalidSecret)
    );
    let mut repeated = made;
    repeated.disclose_token = false;
    let response = token_response(repeated, &[0x41; 31]).unwrap();
    assert!(!response.token_returned);
    assert_eq!(response.invitation_token, None);
}

#[test]
fn acceptances_show_their_token() {
    let token = derive_token(&[0x41; 32], ID, 1).unwrap();
    let request = AcceptRequest {
        expected_revision: "1".to_owned(),
        idempotency_key: "key".to_owned(),
        invitation_id: ID_TEXT.to_owned(),
        token: token.clone(),
    };
    assert_eq!(check_accept(&request), Ok((ID, 1)));
    let with = |change: fn(&mut AcceptRequest)| {
        let mut changed = AcceptRequest {
            expected_revision: "1".to_owned(),
            idempotency_key: "key".to_owned(),
            invitation_id: ID_TEXT.to_owned(),
            token: "t".repeat(32),
        };
        change(&mut changed);
        check_accept(&changed)
    };
    assert_eq!(with(|_| {}), Ok((ID, 1)));
    assert_eq!(
        with(|request| request.token.truncate(31)),
        Err(AcceptError::InvalidRequest)
    );
    assert_eq!(
        with(|request| request.token.push('=')),
        Err(AcceptError::InvalidRequest)
    );
    assert_eq!(
        with(|request| request.expected_revision.clear()),
        Err(AcceptError::InvalidRequest)
    );
    assert_eq!(
        with(|request| request.invitation_id.push('0')),
        Err(AcceptError::InvalidRequest)
    );
    assert_eq!(
        with(|request| request.idempotency_key.push(' ')),
        Err(AcceptError::InvalidRequest)
    );

    let pepper = [0x52; 32];
    let hash = make_token_hash(&[0x41; 32], &pepper, ID, 1).unwrap();
    let mut current = Some(record(0, &hash));
    assert_eq!(
        check_token(&current, &token, &pepper),
        Ok(Ok((1, hash.clone())))
    );
    assert_eq!(
        check_token(&current, "another token", &pepper),
        Ok(Err(AcceptError::TokenInvalid))
    );
    assert_eq!(
        check_token(&current, &token, &[0; 31]),
        Err(TokenError::InvalidSecret)
    );
    assert_eq!(
        check_token(&None, &token, &pepper),
        Ok(Err(AcceptError::InvitationNotFound))
    );
    current.as_mut().unwrap().token_hash = None;
    assert_eq!(
        check_token(&current, &token, &pepper),
        Ok(Err(AcceptError::TokenInvalid))
    );
    current.as_mut().unwrap().state = InvitationState::Expired;
    assert_eq!(
        check_token(&current, &token, &pepper),
        Ok(Err(AcceptError::InvalidTransition))
    );
}

#[test]
fn token_hashes_need_good_secrets() {
    assert_eq!(
        make_token_hash(&[1; 31], &[2; 32], ID, 1),
        Err(TokenError::InvalidSecret)
    );
    assert_eq!(
        make_token_hash(&[1; 32], &[2; 31], ID, 1),
        Err(TokenError::InvalidSecret)
    );
    assert_eq!(
        make_token_hash(&[1; 32], &[2; 32], ID, 0),
        Err(TokenError::InvalidSecret)
    );
}

#[test]
fn repeated_acceptances_get_their_answer() {
    let accepted = AcceptedRecord {
        invitation_id: ID,
        identifier: "INV-7".to_owned(),
        organization_id: "org".to_owned(),
        state: InvitationState::Accepted,
        membership_id: "member".to_owned(),
        revision: 3,
    };
    assert_eq!(
        replayed_acceptance(AcceptStart::Replay(accepted.clone())),
        Ok(accepted)
    );
    assert_eq!(
        replayed_acceptance(AcceptStart::InProgress),
        Err(AcceptError::AcceptanceInProgress)
    );
}

#[test]
fn batches_hold_one_to_a_hundred() {
    assert_eq!(check_batch(1, "key"), Ok(()));
    assert_eq!(check_batch(100, "key"), Ok(()));
    assert_eq!(check_batch(0, "key"), Err(WorkerError::InvalidRequest));
    assert_eq!(check_batch(101, "key"), Err(WorkerError::InvalidRequest));
    assert_eq!(check_batch(1, ""), Err(WorkerError::InvalidRequest));
}

#[test]
fn requests_are_told_apart_by_their_digest() {
    let hash = request_hash(b"abc");
    assert_eq!(hash.len(), 32);
    assert_eq!(hash[..4], [0xba, 0x78, 0x16, 0xbf]);
    assert_ne!(hash, request_hash(b"abd"));
}

#[test]
fn revisions_are_positive_decimal_texts() {
    for value in [1, 7, 10, 4_096, i64::MAX] {
        assert_eq!(decimal_text(value), value.to_string());
        assert_eq!(parse_positive(&value.to_string()), Some(value));
    }
    assert_eq!(decimal_text(i64::MIN), i64::MIN.to_string());
    assert_eq!(decimal_text(0), "0");
    assert_eq!(parse_positive("007"), Some(7));
    for text in ["", "+", "-", "0", "-5", "1.0", " 1", "1 ", "९"] {
        assert_eq!(parse_positive(text), None);
    }
}

fn row(state: &str, delivery_state: &str) -> InvitationRow {
    let record = record(0, "verifier");
    InvitationRow {
        invitation_id: record.invitation_id,
        organization_id: record.organization_id,
        identifier: record.identifier,
        email: record.email,
        email_normalized: record.email_normalized,
        state: state.to_owned(),
        inviter_subject: record.inviter_subject,
        acceptance_subject: Some("usr_invitee".to_owned()),
        token_hash: record.token_hash,
        token_generation: record.token_generation,
        token_expires_at: record.token_expires_at,
        token_consumed_at: record.token_consumed_at,
        revision: record.revision,
        delivery_state: delivery_state.to_owned(),
        delivery_intent_id: record.delivery_intent_id,
        delivery_id: record.delivery_id,
        membership_id: record.membership_id,
        revoke_reason: record.revoke_reason,
        created_at: record.created_at,
        updated_at: record.updated_at,
        accepted_at: record.accepted_at,
        revoked_at: record.revoked_at,
        expired_at: record.expired_at,
    }
}

#[test]
fn rows_are_read_with_known_states_only() {
    for state in ["pending", "accepted", "revoked", "expired"] {
        for delivery in ["pending", "queued", "failed", "superseded"] {
            let record = decode_invitation(row(state, delivery)).unwrap();
            assert_eq!(record.state.as_str(), state);
            assert_eq!(record.delivery_state.as_str(), delivery);
            let view = record.seen();
            assert_eq!(view.acceptance_pending, state == "pending");
            assert_eq!(view.accepted_subject.is_some(), state == "accepted");
        }
    }
    let error = decode_invitation(row("lost", "pending")).unwrap_err();
    assert_eq!(
        error,
        StorageError::UnknownInvitationState {
            state: "lost".to_owned()
        }
    );
    assert_eq!(
        error.detail().as_deref(),
        Some("unknown invitation state `lost`")
    );
    assert_eq!(
        decode_invitation(row("pending", "lost"))
            .unwrap_err()
            .detail()
            .as_deref(),
        Some("unknown invitation delivery state `lost`")
    );
    assert_eq!(
        StorageError::LeaseFenceCrossed.detail().as_deref(),
        Some("membership command completion crossed its lease fence")
    );
    assert_eq!(StorageError::RowNotFound.detail(), None);
}
