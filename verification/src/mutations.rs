//! Idempotent mutations: what is kept under a caller-scoped key, and what a repeated request
//! gets.

use crate::records::{AcceptedRecord, CommandRecord, InvitationView};
use crate::text::same_text;
use crate::token::same_bytes;
use vstd::prelude::*;

verus! {

/// Why an operation on an invitation is refused.
#[derive(Clone, Copy, Debug, PartialEq, Eq, Structural)]
pub enum DomainFailure {
    InvitationNotFound,
    InvitationExists,
    RevisionConflict,
    IdempotencyConflict,
    InvalidTransition,
    TokenInvalid,
    InvitationExpired,
    AcceptanceInProgress,
}

/// What is kept under an idempotency key of a caller: what the request was, and its answer once
/// there is one.
#[derive(Clone, Debug, PartialEq, Eq)]
pub struct StoredMutation<R> {
    pub operation: String,
    pub actor_subject: String,
    pub request_hash: Vec<u8>,
    pub response: Option<R>,
}

/// What is kept under an idempotency key, in statements.
#[verifier::ext_equal]
pub struct KeptMutation<R> {
    pub operation: Seq<char>,
    pub actor_subject: Seq<char>,
    pub request_hash: Seq<u8>,
    pub response: Option<R>,
}

impl<R> View for StoredMutation<R> {
    type V = KeptMutation<R>;

    open spec fn view(&self) -> KeptMutation<R> {
        KeptMutation {
            operation: self.operation@,
            actor_subject: self.actor_subject@,
            request_hash: self.request_hash@,
            response: self.response,
        }
    }
}

pub open spec fn option_kept<R>(stored: Option<StoredMutation<R>>) -> Option<KeptMutation<R>> {
    match stored {
        Some(stored) => Some(stored@),
        None => None,
    }
}

/// What a request finds under its idempotency key.
#[derive(Clone, Debug, PartialEq, Eq)]
pub enum MutationReplay<R> {
    New,
    Replay(R),
    InProgress,
}

/// The request that is kept is the one that comes in: the same operation, by the same actor, with
/// the same content.
pub open spec fn is_same_request<R>(
    kept: KeptMutation<R>,
    operation: Seq<char>,
    actor: Seq<char>,
    request_hash: Seq<u8>,
) -> bool {
    kept.operation == operation && kept.actor_subject == actor && kept.request_hash == request_hash
}

/// A key that was free is now reserved. A key that was taken answers the same request with what
/// it answered before, or with the news that it is still at work, and refuses any other request.
pub open spec fn mutation_start<R>(
    kept: Option<KeptMutation<R>>,
    operation: Seq<char>,
    actor: Seq<char>,
    request_hash: Seq<u8>,
) -> Result<MutationReplay<R>, DomainFailure> {
    match kept {
        None => Ok(MutationReplay::New),
        Some(kept) => if !is_same_request(kept, operation, actor, request_hash) {
            Err(DomainFailure::IdempotencyConflict)
        } else {
            match kept.response {
                Some(response) => Ok(MutationReplay::Replay(response)),
                None => Ok(MutationReplay::InProgress),
            }
        },
    }
}

/// Starts a mutation. `stored` is what was under its key before the key was reserved.
pub fn begin_mutation<R>(
    stored: Option<StoredMutation<R>>,
    operation: &str,
    actor: &str,
    request_hash: &[u8],
) -> (start: Result<MutationReplay<R>, DomainFailure>)
    ensures
        start == mutation_start(option_kept(stored), operation@, actor@, request_hash@),
{
    match stored {
        None => Ok(MutationReplay::New),
        Some(stored) => {
            if !same_text(stored.operation.as_str(), operation) || !same_text(
                stored.actor_subject.as_str(),
                actor,
            ) || !same_bytes(stored.request_hash.as_slice(), request_hash) {
                return Err(DomainFailure::IdempotencyConflict);
            }
            match stored.response {
                Some(response) => Ok(MutationReplay::Replay(response)),
                None => Ok(MutationReplay::InProgress),
            }
        },
    }
}

/// What starting a mutation gives that no one may wait for: the answer of an earlier run, or
/// nothing yet. A run under way is a conflict.
pub open spec fn exclusive_start<R>(
    kept: Option<KeptMutation<R>>,
    operation: Seq<char>,
    actor: Seq<char>,
    request_hash: Seq<u8>,
) -> Result<Option<R>, DomainFailure> {
    match mutation_start(kept, operation, actor, request_hash) {
        Ok(MutationReplay::New) => Ok(None),
        Ok(MutationReplay::Replay(response)) => Ok(Some(response)),
        Ok(MutationReplay::InProgress) => Err(DomainFailure::IdempotencyConflict),
        Err(failure) => Err(failure),
    }
}

/// Starts an invitation, a resend, a revocation, an expiry batch or a dispatch batch.
pub fn begin_exclusive_mutation<R>(
    stored: Option<StoredMutation<R>>,
    operation: &str,
    actor: &str,
    request_hash: &[u8],
) -> (start: Result<Option<R>, DomainFailure>)
    ensures
        start == exclusive_start(option_kept(stored), operation@, actor@, request_hash@),
{
    match begin_mutation(stored, operation, actor, request_hash) {
        Ok(MutationReplay::New) => Ok(None),
        Ok(MutationReplay::Replay(response)) => Ok(Some(response)),
        Ok(MutationReplay::InProgress) => Err(DomainFailure::IdempotencyConflict),
        Err(failure) => Err(failure),
    }
}

/// How an acceptance goes on.
#[derive(Clone, Debug, PartialEq, Eq)]
pub enum AcceptStart {
    Replay(AcceptedRecord<String>),
    Execute(CommandRecord<String>),
    InProgress,
}

/// The operation under which acceptances are kept.
pub const ACCEPT: &'static str = "accept";

/// Looks an acceptance up before any token is checked. A key that is free gives `None`.
pub fn lookup_accept_replay(
    stored: Option<StoredMutation<AcceptedRecord<String>>>,
    actor: &str,
    request_hash: &[u8],
) -> (found: Result<Option<AcceptStart>, DomainFailure>)
    ensures
        found == (match mutation_start(option_kept(stored), ACCEPT@, actor@, request_hash@) {
            Ok(MutationReplay::New) => Ok(None),
            Ok(MutationReplay::Replay(accepted)) => Ok(Some(AcceptStart::Replay(accepted))),
            Ok(MutationReplay::InProgress) => Ok(Some(AcceptStart::InProgress)),
            Err(failure) => Err(failure),
        }),
{
    match begin_mutation(stored, ACCEPT, actor, request_hash) {
        Ok(MutationReplay::New) => Ok(None),
        Ok(MutationReplay::Replay(accepted)) => Ok(Some(AcceptStart::Replay(accepted))),
        Ok(MutationReplay::InProgress) => Ok(Some(AcceptStart::InProgress)),
        Err(failure) => Err(failure),
    }
}

/// The answer of an operation that makes a token.
#[verifier::ext_equal]
#[derive(Clone, Debug, PartialEq, Eq)]
pub struct TokenOperationResult<S> {
    pub invitation: InvitationView<S>,
    pub token_generation: i64,
    /// Whether the token may be returned: only by the call that made it.
    pub disclose_token: bool,
}

impl View for TokenOperationResult<String> {
    type V = TokenOperationResult<Seq<char>>;

    open spec fn view(&self) -> TokenOperationResult<Seq<char>> {
        TokenOperationResult {
            invitation: self.invitation@,
            token_generation: self.token_generation,
            disclose_token: self.disclose_token,
        }
    }
}

/// What is kept of an operation that makes a token. The token itself is not.
#[derive(Clone, Debug, PartialEq, Eq)]
pub struct StoredTokenResponse {
    pub invitation: InvitationView<String>,
    pub token_generation: i64,
}

/// The answer to a repeated request that made a token: the same invitation, and no token.
pub fn replay_token_operation(stored: StoredTokenResponse) -> (result: TokenOperationResult<String>)
    ensures
        result.invitation == stored.invitation,
        result.token_generation == stored.token_generation,
        !result.disclose_token,
{
    TokenOperationResult {
        invitation: stored.invitation,
        token_generation: stored.token_generation,
        disclose_token: false,
    }
}

} // verus!
