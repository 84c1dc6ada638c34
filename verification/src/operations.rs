//! What each operation asks of its request before it touches the store, and what it answers.

use crate::commands::option_record;
use crate::contract::{AcceptError, AcceptRequest, ManagementError};
use crate::cursor::{cursor_value, decode_invitation_cursor, InvitationCursor};
use crate::digests::wipe_text;
use crate::mutations::{AcceptStart, TokenOperationResult};
use crate::records::{
    AcceptedRecord, InvitationRecord, InvitationState, InvitationView, StorageError,
};
use crate::text::{lowercase, option_text, parse_positive, positive_value, same_text};
use crate::token::{
    derive_token, derived_token, hash_token, peppered_bytes, token_check, token_verifier,
    verifier_start, verify_token, TokenError,
};
use crate::uuids::{
    format_uuid, is_random_id, parse_uuid, random_id, uuid_text, uuid_value,
};
use crate::validation::{
    is_free_text, is_idempotency_key, is_invitation_label, is_invitation_ref, is_token_input,
    mutation_target, normalize_email, normalized_email, parse_mutation, valid_idempotency_key,
    valid_invitation_ref, valid_text, valid_token_input, MAX_REASON_BYTES,
};
use crate::worker_contract::WorkerError;
use vstd::prelude::*;
use vstd::string::*;

verus! {

/// The most that a page or a batch may hold.
pub const MAX_LIMIT: i64 = 100;

/// Checks the request for a new invitation and gives the normal form of its address.
pub fn check_invite(email: &str, idempotency_key: &str) -> (result: Result<String, ManagementError>)
    ensures
        match result {
            Ok(address) => normalized_email(email@) == Some(address@) && is_idempotency_key(
                idempotency_key@,
            ),
            Err(error) => {
                &&& error == ManagementError::InvalidRequest
                &&& normalized_email(email@) is None || !is_idempotency_key(idempotency_key@)
            },
        },
{
    match normalize_email(email) {
        Some(address) => {
            if valid_idempotency_key(idempotency_key) {
                Ok(address)
            } else {
                Err(ManagementError::InvalidRequest)
            }
        },
        None => Err(ManagementError::InvalidRequest),
    }
}

/// The identifier of a new invitation, taken at random, or `None` where there are no random bytes
/// to take.
pub fn fresh_invitation_id() -> (id: Option<u128>)
    ensures
        id matches Some(id) ==> is_random_id(id),
{
    random_id()
}

/// The secrets and the generation from which a token can be made.
pub open spec fn can_make_token(derivation: Seq<u8>, pepper: Seq<u8>, generation: i64) -> bool {
    32 <= derivation.len() && 32 <= pepper.len() && 0 < generation
}

/// Makes the verifier of one token generation of an invitation. The token that is derived for the
/// generation passes the check against it.
pub fn make_token_hash(
    derivation_secret: &[u8],
    token_pepper: &[u8],
    invitation_id: u128,
    generation: i64,
) -> (hash: Result<String, TokenError>)
    ensures
        match hash {
            Ok(hash) => {
                let token = derived_token(derivation_secret@, invitation_id, generation);
                &&& can_make_token(derivation_secret@, token_pepper@, generation)
                &&& token is Ok
                &&& exists|salt: Seq<u8>|
                    {
                        &&& salt.len() == 16
                        &&& #[trigger] token_verifier(token->Ok_0, token_pepper@, salt) == Ok::<
                            Seq<char>,
                            TokenError,
                        >(hash@)
                        &&& verifier_start(salt).is_prefix_of(hash@)
                    }
                &&& token_check(token->Ok_0, token_pepper@, hash@) == Ok::<bool, TokenError>(true)
            },
            Err(TokenError::InvalidSecret) => !can_make_token(
                derivation_secret@,
                token_pepper@,
                generation,
            ),
            Err(TokenError::HashFailure) => {
                let token = derived_token(derivation_secret@, invitation_id, generation);
                &&& can_make_token(derivation_secret@, token_pepper@, generation)
                &&& token is Ok
                &&& peppered_bytes(token->Ok_0, token_pepper@).len() > u32::MAX
            },
            Err(TokenError::EntropyUnavailable) => can_make_token(
                derivation_secret@,
                token_pepper@,
                generation,
            ),
            Err(TokenError::InvalidStoredHash) => false,
        },
{
    match derive_token(derivation_secret, invitation_id, generation) {
        Ok(mut token) => {
            let hash = hash_token(token.as_str(), token_pepper);
            wipe_text(&mut token);
            hash
        },
        Err(error) => Err(error),
    }
}

/// What an invitation is looked up by.
#[derive(Clone, Debug, PartialEq, Eq)]
pub enum InvitationLookup {
    Id(u128),
    Label(String),
}

/// Reads what an invitation is looked up by.
pub fn check_get(invitation_ref: &str) -> (result: Result<InvitationLookup, ManagementError>)
    ensures
        match result {
            Ok(InvitationLookup::Id(id)) => uuid_value(invitation_ref@) == Some(id),
            Ok(InvitationLookup::Label(label)) => {
                &&& uuid_value(invitation_ref@) is None
                &&& is_invitation_label(invitation_ref@)
                &&& label@ == invitation_ref@
            },
            Err(error) => {
                &&& error == ManagementError::InvalidRequest
                &&& !is_invitation_ref(invitation_ref@)
            },
        },
{
    if !valid_invitation_ref(invitation_ref) {
        return Err(ManagementError::InvalidRequest);
    }
    match parse_uuid(invitation_ref) {
        Some(id) => Ok(InvitationLookup::Id(id)),
        None => Ok(InvitationLookup::Label(invitation_ref.to_owned())),
    }
}

/// No label can be mistaken for an identifier.
pub proof fn labels_are_not_identifiers(label: Seq<char>)
    requires
        is_invitation_label(label),
    ensures
        uuid_value(label) is None,
{
    reveal_strlit("INV-");
    assert(label.take(4)[0] == 'I');
    assert(label[0] == 'I');
    if label.len() == 36 {
        assert(label.skip(4)[4] == label[8]);
    }
    if label.len() == 45 {
        reveal_strlit("urn:uuid:");
        assert(lowercase(label.take(9))[0] == 'i');
    }
}

/// What a page of the list is asked for.
#[derive(Clone, Debug, PartialEq, Eq)]
pub struct ListQuery {
    pub cursor: Option<InvitationCursor>,
    pub email_normalized: Option<String>,
    /// How many invitations are fetched: one more than the page holds.
    pub fetch: i64,
}

pub open spec fn is_limit(limit: i64) -> bool {
    1 <= limit <= MAX_LIMIT
}

/// A request for a page: a limit from 1 to 100, a cursor that is one, and an address that is one.
pub open spec fn is_list_request(
    limit: i64,
    cursor: Option<Seq<char>>,
    email: Option<Seq<char>>,
) -> bool {
    &&& is_limit(limit)
    &&& cursor matches Some(cursor) ==> cursor_value(cursor) is Some
    &&& email matches Some(email) ==> normalized_email(email) is Some
}

/// Checks the request for a page of the list.
pub fn check_list(limit: i64, cursor: &Option<String>, email: &Option<String>) -> (result: Result<
    ListQuery,
    ManagementError,
>)
    ensures
        match result {
            Ok(query) => {
                &&& is_list_request(limit, option_text(*cursor), option_text(*email))
                &&& query.fetch == limit + 1
                &&& query.cursor == match option_text(*cursor) {
                    Some(cursor) => cursor_value(cursor),
                    None => None,
                }
                &&& option_text(query.email_normalized) == match option_text(*email) {
                    Some(email) => normalized_email(email),
                    None => None,
                }
            },
            Err(error) => {
                &&& error == ManagementError::InvalidRequest
                &&& !is_list_request(limit, option_text(*cursor), option_text(*email))
            },
        },
{
    if !(1 <= limit && limit <= MAX_LIMIT) {
        return Err(ManagementError::InvalidRequest);
    }
    let place = match cursor {
        Some(cursor) => match decode_invitation_cursor(cursor.as_str()) {
            Some(place) => Some(place),
            None => {
                return Err(ManagementError::InvalidRequest);
            },
        },
        None => None,
    };
    let address = match email {
        Some(email) => match normalize_email(email.as_str()) {
            Some(address) => Some(address),
            None => {
                return Err(ManagementError::InvalidRequest);
            },
        },
        None => None,
    };
    Ok(ListQuery { cursor: place, email_normalized: address, fetch: limit + 1 })
}

/// Checks the request for a resend, and gives the invitation and the revision that it names.
pub fn check_resend(
    organization_id: &str,
    invitation_id: &str,
    expected_revision: &str,
    idempotency_key: &str,
) -> (result: Result<(u128, i64), ManagementError>)
    ensures
        match mutation_target(
            organization_id@,
            invitation_id@,
            expected_revision@,
            idempotency_key@,
        ) {
            Some(target) => result == Ok::<(u128, i64), ManagementError>(target),
            None => result == Err::<(u128, i64), ManagementError>(ManagementError::InvalidRequest),
        },
{
    match parse_mutation(organization_id, invitation_id, expected_revision, idempotency_key) {
        Some(target) => Ok(target),
        None => Err(ManagementError::InvalidRequest),
    }
}

/// The token generation that a resend makes, from what is stored before the invitation is locked.
pub fn next_generation(current: &Option<InvitationRecord<String>>, organization_id: &str) -> (
    result: Result<Result<i64, ManagementError>, StorageError>)
    ensures
        ({
            let found = current is Some && current->0@.organization_id == organization_id@;
            match result {
                Ok(Ok(generation)) => found && generation == current->0.token_generation + 1,
                Ok(Err(error)) => !found && error == ManagementError::InvitationNotFound,
                Err(StorageError::GenerationOverflow) => found && current->0.token_generation
                    == i64::MAX,
                Err(_) => false,
            }
        }),
{
    match current {
        Some(record) => {
            if !same_text(record.organization_id.as_str(), organization_id) {
                return Ok(Err(ManagementError::InvitationNotFound));
            }
            if record.token_generation == i64::MAX {
                return Err(StorageError::GenerationOverflow);
            }
            Ok(Ok(record.token_generation + 1))
        },
        None => Ok(Err(ManagementError::InvitationNotFound)),
    }
}

/// Checks the request for a revocation, and gives the invitation and the revision that it names.
pub fn check_revoke(
    organization_id: &str,
    invitation_id: &str,
    expected_revision: &str,
    idempotency_key: &str,
    reason: &str,
) -> (result: Result<(u128, i64), ManagementError>)
    ensures
        ({
            let target = mutation_target(
                organization_id@,
                invitation_id@,
                expected_revision@,
                idempotency_key@,
            );
            match result {
                Ok(found) => target == Some(found) && is_free_text(
                    reason@,
                    MAX_REASON_BYTES as int,
                ),
                Err(error) => {
                    &&& error == ManagementError::InvalidRequest
                    &&& target is None || !is_free_text(reason@, MAX_REASON_BYTES as int)
                },
            }
        }),
{
    match parse_mutation(organization_id, invitation_id, expected_revision, idempotency_key) {
        Some(target) => {
            if valid_text(reason, MAX_REASON_BYTES) {
                Ok(target)
            } else {
                Err(ManagementError::InvalidRequest)
            }
        },
        None => Err(ManagementError::InvalidRequest),
    }
}

/// The answer of an operation that makes a token.
#[derive(Clone, PartialEq, Eq)]
pub struct TokenResponse {
    pub invitation: InvitationView<String>,
    pub token_returned: bool,
    pub invitation_token: Option<String>,
}

/// How an answer is logged: the invitation, and whether the token was returned. The token itself
/// is never shown.
pub open spec fn redacted_response(invitation_id: u128, token_returned: bool) -> Seq<char> {
    "TokenResponse { invitation_id: "@ + uuid_text(invitation_id) + ", token_returned: "@ + (
    if token_returned {
        "true"@
    } else {
        "false"@
    }) + ", invitation_token: \"<redacted>\" }"@
}

impl TokenResponse {
    /// The answer for logs and diagnostics. The token has no influence on the text.
    pub fn debug_text(&self) -> (text: String)
        ensures
            text@ == redacted_response(self.invitation.invitation_id, self.token_returned),
    {
        let mut text = "TokenResponse { invitation_id: ".to_owned();
        text.append(format_uuid(self.invitation.invitation_id).as_str());
        text.append(", token_returned: ");
        text.append(
            if self.token_returned {
                "true"
            } else {
                "false"
            },
        );
        text.append(", invitation_token: \"<redacted>\" }");
        text
    }
}

/// The answer of an invitation or a resend: the token of its generation for the call that made it,
/// and no token for any other.
pub fn token_response(
    result: TokenOperationResult<String>,
    derivation_secret: &[u8],
) -> (response: Result<TokenResponse, TokenError>)
    ensures
        ({
            let token = derived_token(
                derivation_secret@,
                result.invitation.invitation_id,
                result.token_generation,
            );
            match response {
                Ok(response) => {
                    &&& response.invitation == result.invitation
                    &&& response.token_returned == result.disclose_token
                    &&& result.disclose_token ==> token is Ok && option_text(
                        response.invitation_token,
                    ) == Some(token->Ok_0)
                    &&& !result.disclose_token ==> response.invitation_token is None
                },
                Err(error) => result.disclose_token && token == Err::<Seq<char>, TokenError>(error),
            }
        }),
{
    let token = if result.disclose_token {
        match derive_token(
            derivation_secret,
            result.invitation.invitation_id,
            result.token_generation,
        ) {
            Ok(token) => Some(token),
            Err(error) => {
                return Err(error);
            },
        }
    } else {
        None
    };
    Ok(
        TokenResponse {
            token_returned: result.disclose_token,
            invitation: result.invitation,
            invitation_token: token,
        },
    )
}

/// A well-formed request to accept: the invitation, the revision, the key and the token.
pub open spec fn is_accept_request(request: AcceptRequest) -> bool {
    &&& uuid_value(request.invitation_id@) is Some
    &&& is_idempotency_key(request.idempotency_key@)
    &&& is_token_input(request.token@)
    &&& positive_value(request.expected_revision@) is Some
}

/// Checks a request to accept, and gives the invitation and the revision that it names.
pub fn check_accept(request: &AcceptRequest) -> (result: Result<(u128, i64), AcceptError>)
    ensures
        match result {
            Ok((id, revision)) => {
                &&& is_accept_request(*request)
                &&& uuid_value(request.invitation_id@) == Some(id)
                &&& positive_value(request.expected_revision@) == Some(revision)
            },
            Err(error) => error == AcceptError::InvalidRequest && !is_accept_request(*request),
        },
{
    let id = match parse_uuid(request.invitation_id.as_str()) {
        Some(id) => id,
        None => {
            return Err(AcceptError::InvalidRequest);
        },
    };
    if !valid_idempotency_key(request.idempotency_key.as_str()) || !valid_token_input(
        request.token.as_str(),
    ) {
        return Err(AcceptError::InvalidRequest);
    }
    match parse_positive(request.expected_revision.as_str()) {
        Some(revision) => Ok((id, revision)),
        None => Err(AcceptError::InvalidRequest),
    }
}

/// The token that an acceptance shows is checked against the verifier of its invitation, before
/// the invitation is locked: the generation and the verifier that it passed, or why it does not.
pub open spec fn shown_token(
    current: Option<InvitationRecord<Seq<char>>>,
    token: Seq<char>,
    pepper: Seq<u8>,
) -> Result<Result<(i64, Seq<char>), AcceptError>, TokenError> {
    match current {
        None => Ok(Err(AcceptError::InvitationNotFound)),
        Some(record) => if record.state != InvitationState::Pending {
            Ok(Err(AcceptError::InvalidTransition))
        } else {
            match record.token_hash {
                None => Ok(Err(AcceptError::TokenInvalid)),
                Some(stored) => match token_check(token, pepper, stored) {
                    Err(error) => Err(error),
                    Ok(false) => Ok(Err(AcceptError::TokenInvalid)),
                    Ok(true) => Ok(Ok((record.token_generation, stored))),
                },
            }
        },
    }
}

pub fn check_token(
    current: &Option<InvitationRecord<String>>,
    token: &str,
    token_pepper: &[u8],
) -> (result: Result<Result<(i64, String), AcceptError>, TokenError>)
    ensures
        (match result {
            Ok(Ok((generation, stored))) => Ok(Ok((generation, stored@))),
            Ok(Err(error)) => Ok(Err(error)),
            Err(error) => Err(error),
        }) == shown_token(option_record(*current), token@, token_pepper@),
{
    let record = match current {
        Some(record) => record,
        None => {
            return Ok(Err(AcceptError::InvitationNotFound));
        },
    };
    if record.state != InvitationState::Pending {
        return Ok(Err(AcceptError::InvalidTransition));
    }
    let stored = match &record.token_hash {
        Some(stored) => stored,
        None => {
            return Ok(Err(AcceptError::TokenInvalid));
        },
    };
    match verify_token(token, token_pepper, stored.as_str()) {
        Ok(true) => Ok(Ok((record.token_generation, stored.clone()))),
        Ok(false) => Ok(Err(AcceptError::TokenInvalid)),
        Err(error) => Err(error),
    }
}

/// The answer to a repeated acceptance: what was answered before, or that it is still under way.
pub fn replayed_acceptance(start: AcceptStart) -> (result: Result<
    AcceptedRecord<String>,
    AcceptError,
>)
    ensures
        result == (match start {
            AcceptStart::Replay(accepted) => Ok(accepted),
            _ => Err(AcceptError::AcceptanceInProgress),
        }),
{
    match start {
        AcceptStart::Replay(accepted) => Ok(accepted),
        _ => Err(AcceptError::AcceptanceInProgress),
    }
}

/// Checks the request for a batch of the worker.
pub fn check_batch(limit: i64, idempotency_key: &str) -> (result: Result<(), WorkerError>)
    ensures
        result == (if is_limit(limit) && is_idempotency_key(idempotency_key@) {
            Ok(())
        } else {
            Err(WorkerError::InvalidRequest)
        }),
{
    if !(1 <= limit && limit <= MAX_LIMIT) || !valid_idempotency_key(idempotency_key) {
        Err(WorkerError::InvalidRequest)
    } else {
        Ok(())
    }
}

} // verus!
