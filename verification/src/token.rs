//! Invitation tokens: how they are derived, how their verifiers are made, and how one is checked.

use crate::base64url::{
    base64, base64_injective, base64url, base64url_injective, base64url_symbols, encode_base64url,
};
use crate::digests::{
    argon2_matches, argon2id_header, argon2id_start, argon2id_text, authenticate, check_password,
    hash_password, hmac_sha256, is_phc_text, many_lanes, names_many_lanes, random_bytes, reads_phc,
    wipe,
};
use crate::validation::is_token_input;
use vstd::prelude::*;
use vstd::utf8::*;

verus! {

pub const TOKEN_CONTEXT: &'static str = "lenso.organization-invitation.token.v1\0";

pub const ARGON_MEMORY_KIB: u32 = 19_456;

pub const ARGON_ITERATIONS: u32 = 2;

pub const ARGON_PARALLELISM: u32 = 1;

pub const ARGON_OUTPUT_BYTES: usize = 32;

#[derive(Clone, Copy, Debug, PartialEq, Eq, Structural)]
pub enum TokenError {
    InvalidSecret,
    EntropyUnavailable,
    HashFailure,
    InvalidStoredHash,
}

impl TokenError {
    /// The error in words.
    pub fn message(&self) -> (message: &'static str)
        ensures
            message@ == (match self {
                TokenError::InvalidSecret => "token secret must contain at least 256 bits"@,
                TokenError::EntropyUnavailable => "operating-system entropy is unavailable"@,
                TokenError::HashFailure => "Argon2id token hashing failed"@,
                TokenError::InvalidStoredHash => "stored Argon2id token hash is invalid"@,
            }),
    {
        match self {
            TokenError::InvalidSecret => "token secret must contain at least 256 bits",
            TokenError::EntropyUnavailable => "operating-system entropy is unavailable",
            TokenError::HashFailure => "Argon2id token hashing failed",
            TokenError::InvalidStoredHash => "stored Argon2id token hash is invalid",
        }
    }
}

/// The lowest `count` bytes of `n`, the highest of them first.
pub open spec fn big_endian(n: int, count: nat) -> Seq<u8>
    decreases count,
{
    if count == 0 {
        Seq::empty()
    } else {
        big_endian(n / 256, (count - 1) as nat).push((n % 256) as u8)
    }
}

fn append_big_endian(bytes: &mut Vec<u8>, value: u128, count: usize)
    ensures
        final(bytes)@ == old(bytes)@ + big_endian(value as int, count as nat),
    decreases count,
{
    if count > 0 {
        append_big_endian(bytes, value / 256, count - 1);
        bytes.push((value % 256) as u8);
        assert(bytes@ =~= old(bytes)@ + big_endian(value as int, count as nat));
    } else {
        assert(bytes@ =~= old(bytes)@ + big_endian(value as int, count as nat));
    }
}

/// What is authenticated for a token: the context, the invitation and the generation.
pub open spec fn token_message(invitation_id: u128, generation: i64) -> Seq<u8> {
    encode_utf8(TOKEN_CONTEXT@) + big_endian(invitation_id as int, 16) + big_endian(
        generation as int,
        8,
    )
}

/// The token of one generation of an invitation, under a derivation secret.
pub open spec fn token_text(secret: Seq<u8>, invitation_id: u128, generation: i64) -> Seq<char> {
    base64url(hmac_sha256(secret, token_message(invitation_id, generation)))
}

/// What deriving a token gives: a secret of at least 256 bits and a positive generation are
/// asked for.
pub open spec fn derived_token(secret: Seq<u8>, invitation_id: u128, generation: i64) -> Result<
    Seq<char>,
    TokenError,
> {
    if secret.len() < 32 || generation <= 0 {
        Err(TokenError::InvalidSecret)
    } else {
        Ok(token_text(secret, invitation_id, generation))
    }
}

pub open spec fn result_text(result: Result<String, TokenError>) -> Result<Seq<char>, TokenError> {
    match result {
        Ok(text) => Ok(text@),
        Err(error) => Err(error),
    }
}

/// Derives the token of one generation of an invitation. Every derived token is one that is
/// taken for acceptance, and has 43 characters.
pub fn derive_token(derivation_secret: &[u8], invitation_id: u128, generation: i64) -> (token:
    Result<String, TokenError>)
    ensures
        result_text(token) == derived_token(derivation_secret@, invitation_id, generation),
        token is Ok ==> is_token_input(token->Ok_0@),
        token is Ok ==> token->Ok_0@.len() == 43,
{
    if derivation_secret.len() < 32 || generation <= 0 {
        return Err(TokenError::InvalidSecret);
    }
    let mut message: Vec<u8> = Vec::new();
    message.extend_from_slice(TOKEN_CONTEXT.as_bytes());
    assert(message@ =~= encode_utf8(TOKEN_CONTEXT@));
    append_big_endian(&mut message, invitation_id, 16);
    append_big_endian(&mut message, generation as u128, 8);
    match authenticate(derivation_secret, message.as_slice()) {
        Some(code) => {
            proof {
                base64url_symbols(code@);
            }
            Ok(encode_base64url(code.as_slice()))
        },
        None => Err(TokenError::InvalidSecret),
    }
}

proof fn lemma_big_endian_length(n: int, count: nat)
    ensures
        big_endian(n, count).len() == count,
    decreases count,
{
    if count > 0 {
        lemma_big_endian_length(n / 256, (count - 1) as nat);
    }
}

proof fn lemma_big_endian_injective(left: int, right: int, count: nat)
    requires
        0 <= left,
        0 <= right,
        left < vstd::arithmetic::power::pow(256, count),
        right < vstd::arithmetic::power::pow(256, count),
        big_endian(left, count) == big_endian(right, count),
    ensures
        left == right,
    decreases count,
{
    if count == 0 {
        vstd::arithmetic::power::lemma_pow0(256);
    } else {
        let less = (count - 1) as nat;
        let p = vstd::arithmetic::power::pow(256, less);
        vstd::arithmetic::power::lemma_pow_adds(256, 1, less);
        vstd::arithmetic::power::lemma_pow1(256);
        assert(left / 256 < p && right / 256 < p) by (nonlinear_arith)
            requires
                left < 256 * p,
                right < 256 * p,
                0 <= left,
                0 <= right,
        ;
        assert(big_endian(left, count).drop_last() =~= big_endian(left / 256, less));
        assert(big_endian(right, count).drop_last() =~= big_endian(right / 256, less));
        assert(big_endian(left, count).last() == (left % 256) as u8);
        assert(big_endian(right, count).last() == (right % 256) as u8);
        lemma_big_endian_injective(left / 256, right / 256, less);
    }
}

proof fn lemma_power_of_256()
    ensures
        vstd::arithmetic::power::pow(256, 8) == 0x1_0000_0000_0000_0000,
        vstd::arithmetic::power::pow(256, 16) == u128::MAX + 1,
{
    let a = vstd::arithmetic::power::pow(256, 1);
    let b = vstd::arithmetic::power::pow(256, 2);
    let c = vstd::arithmetic::power::pow(256, 4);
    let d = vstd::arithmetic::power::pow(256, 8);
    vstd::arithmetic::power::lemma_pow1(256);
    vstd::arithmetic::power::lemma_pow_adds(256, 1, 1);
    vstd::arithmetic::power::lemma_pow_adds(256, 2, 2);
    vstd::arithmetic::power::lemma_pow_adds(256, 4, 4);
    vstd::arithmetic::power::lemma_pow_adds(256, 8, 8);
    assert(a * a == 0x1_0000) by (nonlinear_arith)
        requires
            a == 256,
    ;
    assert(b * b == 0x1_0000_0000) by (nonlinear_arith)
        requires
            b == 0x1_0000,
    ;
    assert(c * c == 0x1_0000_0000_0000_0000) by (nonlinear_arith)
        requires
            c == 0x1_0000_0000,
    ;
    assert(d * d == u128::MAX + 1) by (nonlinear_arith)
        requires
            d == 0x1_0000_0000_0000_0000,
    ;
}

/// No two generations, of one invitation or of two, are authenticated as the same message.
pub proof fn token_messages_differ(
    left_id: u128,
    left_generation: i64,
    right_id: u128,
    right_generation: i64,
)
    requires
        left_generation > 0,
        right_generation > 0,
        token_message(left_id, left_generation) == token_message(right_id, right_generation),
    ensures
        left_id == right_id,
        left_generation == right_generation,
{
    let context = encode_utf8(TOKEN_CONTEXT@);
    let left = token_message(left_id, left_generation);
    let right = token_message(right_id, right_generation);
    lemma_big_endian_length(left_id as int, 16);
    lemma_big_endian_length(right_id as int, 16);
    lemma_big_endian_length(left_generation as int, 8);
    lemma_big_endian_length(right_generation as int, 8);
    let n = context.len() as int;
    assert(left.subrange(n, n + 16) =~= big_endian(left_id as int, 16));
    assert(right.subrange(n, n + 16) =~= big_endian(right_id as int, 16));
    assert(left.subrange(n + 16, n + 24) =~= big_endian(left_generation as int, 8));
    assert(right.subrange(n + 16, n + 24) =~= big_endian(right_generation as int, 8));
    lemma_power_of_256();
    lemma_big_endian_injective(left_id as int, right_id as int, 16);
    lemma_big_endian_injective(left_generation as int, right_generation as int, 8);
}

/// The tokens of two generations, of one invitation or of two, are the same only where HMAC gives
/// one code for two different messages.
pub proof fn equal_tokens_are_equal_codes(
    secret: Seq<u8>,
    left_id: u128,
    left_generation: i64,
    right_id: u128,
    right_generation: i64,
)
    requires
        left_generation > 0,
        right_generation > 0,
        left_id != right_id || left_generation != right_generation,
        token_text(secret, left_id, left_generation) == token_text(
            secret,
            right_id,
            right_generation,
        ),
    ensures
        token_message(left_id, left_generation) != token_message(right_id, right_generation),
        hmac_sha256(secret, token_message(left_id, left_generation)) == hmac_sha256(
            secret,
            token_message(right_id, right_generation),
        ),
{
    base64url_injective(
        hmac_sha256(secret, token_message(left_id, left_generation)),
        hmac_sha256(secret, token_message(right_id, right_generation)),
    );
    if token_message(left_id, left_generation) == token_message(right_id, right_generation) {
        token_messages_differ(left_id, left_generation, right_id, right_generation);
    }
}

/// What is hashed for a token: its text, a zero byte and the pepper.
pub open spec fn peppered_bytes(token: Seq<char>, pepper: Seq<u8>) -> Seq<u8> {
    encode_utf8(token).push(0u8) + pepper
}

/// What is hashed for a token, in one allocation, so that no copy of it is left behind.
pub fn peppered(token: &str, pepper: &[u8]) -> (input: Vec<u8>)
    ensures
        input@ == peppered_bytes(token@, pepper@),
{
    let bytes = token.as_bytes();
    let length = bytes.len().saturating_add(pepper.len()).saturating_add(1);
    let mut input: Vec<u8> = Vec::with_capacity(length);
    input.extend_from_slice(bytes);
    input.push(0);
    input.extend_from_slice(pepper);
    assert(input@ =~= peppered_bytes(token@, pepper@));
    input
}

/// The verifier of a token under a pepper and a salt.
pub open spec fn token_verifier(token: Seq<char>, pepper: Seq<u8>, salt: Seq<u8>) -> Result<
    Seq<char>,
    TokenError,
> {
    if pepper.len() < 32 {
        Err(TokenError::InvalidSecret)
    } else {
        match argon2id_text(
            peppered_bytes(token, pepper),
            salt,
            ARGON_MEMORY_KIB,
            ARGON_ITERATIONS,
            ARGON_PARALLELISM,
            ARGON_OUTPUT_BYTES,
        ) {
            Some(phc) => Ok(phc),
            None => Err(TokenError::HashFailure),
        }
    }
}

/// What checking a token against a stored verifier gives. No token matches a verifier that names
/// more lanes than there can be.
pub open spec fn token_check(token: Seq<char>, pepper: Seq<u8>, stored: Seq<char>) -> Result<
    bool,
    TokenError,
> {
    if pepper.len() < 32 {
        Err(TokenError::InvalidSecret)
    } else if !is_phc_text(stored) {
        Err(TokenError::InvalidStoredHash)
    } else if names_many_lanes(stored) {
        Ok(false)
    } else {
        match argon2_matches(peppered_bytes(token, pepper), stored) {
            Some(matches) => Ok(matches),
            None => Err(TokenError::InvalidStoredHash),
        }
    }
}

/// How a verifier starts: Argon2id, its parameters, and the salt.
pub open spec fn verifier_start(salt: Seq<u8>) -> Seq<char> {
    argon2id_start(ARGON_MEMORY_KIB, ARGON_ITERATIONS, ARGON_PARALLELISM, salt)
}

/// A verifier holds its salt: verifiers under different salts are different.
pub proof fn salts_tell_verifiers_apart(
    left_salt: Seq<u8>,
    left: Seq<char>,
    right_salt: Seq<u8>,
    right: Seq<char>,
)
    requires
        left_salt.len() == 16,
        right_salt.len() == 16,
        verifier_start(left_salt).is_prefix_of(left),
        verifier_start(right_salt).is_prefix_of(right),
        left_salt != right_salt,
    ensures
        left != right,
{
    let header = argon2id_header(ARGON_MEMORY_KIB, ARGON_ITERATIONS, ARGON_PARALLELISM);
    let n = header.len() as int;
    if left == right {
        assert(base64(left_salt) =~= left.subrange(n, n + 22)) by {
            assert(verifier_start(left_salt).subrange(n, n + 22) =~= base64(left_salt));
            assert(left.take(verifier_start(left_salt).len() as int) =~= verifier_start(left_salt));
        }
        assert(base64(right_salt) =~= right.subrange(n, n + 22)) by {
            assert(verifier_start(right_salt).subrange(n, n + 22) =~= base64(right_salt));
            assert(right.take(verifier_start(right_salt).len() as int) =~= verifier_start(
                right_salt,
            ));
        }
        base64_injective(left_salt, right_salt);
    }
}

/// Makes the verifier of a token under a salt of 16 bytes. It names Argon2id, its parameters and
/// the salt, and the token that it was made from passes the check against it.
pub fn hash_token_with_salt(token: &str, pepper: &[u8], salt: &[u8]) -> (hash: Result<
    String,
    TokenError,
>)
    requires
        salt@.len() == 16,
    ensures
        result_text(hash) == token_verifier(token@, pepper@, salt@),
        hash is Ok <==> 32 <= pepper@.len() && peppered_bytes(token@, pepper@).len() <= u32::MAX,
        hash is Ok ==> token_check(token@, pepper@, hash->Ok_0@) == Ok::<bool, TokenError>(true),
        hash is Ok ==> verifier_start(salt@).is_prefix_of(hash->Ok_0@),
{
    if pepper.len() < 32 {
        return Err(TokenError::InvalidSecret);
    }
    let mut input = peppered(token, pepper);
    let hash = hash_password(
        input.as_slice(),
        salt,
        ARGON_MEMORY_KIB,
        ARGON_ITERATIONS,
        ARGON_PARALLELISM,
        ARGON_OUTPUT_BYTES,
    );
    wipe(&mut input);
    match hash {
        Some(hash) => Ok(hash),
        None => Err(TokenError::HashFailure),
    }
}

/// Makes the verifier of a token under a fresh random salt.
pub fn hash_token(token: &str, pepper: &[u8]) -> (hash: Result<String, TokenError>)
    ensures
        hash == Err::<String, TokenError>(TokenError::InvalidSecret) <==> pepper@.len() < 32,
        hash is Ok ==> exists|salt: Seq<u8>|
            {
                &&& salt.len() == 16
                &&& #[trigger] token_verifier(token@, pepper@, salt) == result_text(hash)
                &&& verifier_start(salt).is_prefix_of(hash->Ok_0@)
            },
        hash is Ok ==> token_check(token@, pepper@, hash->Ok_0@) == Ok::<bool, TokenError>(true),
        hash == Err::<String, TokenError>(TokenError::HashFailure) ==> peppered_bytes(
            token@,
            pepper@,
        ).len() > u32::MAX,
        hash != Err::<String, TokenError>(TokenError::InvalidStoredHash),
{
    if pepper.len() < 32 {
        return Err(TokenError::InvalidSecret);
    }
    match random_bytes() {
        Some(salt) => {
            let hash = hash_token_with_salt(token, pepper, salt.as_slice());
            assert(token_verifier(token@, pepper@, salt@) == result_text(hash));
            hash
        },
        None => Err(TokenError::EntropyUnavailable),
    }
}

/// Checks a token against a stored verifier.
pub fn verify_token(token: &str, pepper: &[u8], encoded_hash: &str) -> (matches: Result<
    bool,
    TokenError,
>)
    ensures
        matches == token_check(token@, pepper@, encoded_hash@),
{
    if pepper.len() < 32 {
        return Err(TokenError::InvalidSecret);
    }
    if !reads_phc(encoded_hash) {
        return Err(TokenError::InvalidStoredHash);
    }
    if many_lanes(encoded_hash) {
        return Ok(false);
    }
    let mut input = peppered(token, pepper);
    let matches = check_password(input.as_slice(), encoded_hash);
    wipe(&mut input);
    match matches {
        Some(matches) => Ok(matches),
        None => Err(TokenError::InvalidStoredHash),
    }
}

/// The secrets that tokens rest on: at least 256 bits each, and different from one another.
pub open spec fn are_token_secrets(pepper: Seq<u8>, derivation: Seq<u8>) -> bool {
    32 <= pepper.len() && 32 <= derivation.len() && pepper != derivation
}

pub fn valid_token_secrets(pepper: &[u8], derivation: &[u8]) -> (valid: bool)
    ensures
        valid == are_token_secrets(pepper@, derivation@),
{
    if pepper.len() < 32 || derivation.len() < 32 {
        return false;
    }
    !same_bytes(pepper, derivation)
}

/// Whether two rows of bytes are the same.
pub fn same_bytes(left: &[u8], right: &[u8]) -> (same: bool)
    ensures
        same == (left@ == right@),
{
    if left.len() != right.len() {
        return false;
    }
    for i in 0..left.len()
        invariant
            left@.len() == right@.len(),
            forall|k: int| 0 <= k < i ==> left@[k] == right@[k],
    {
        if left[i] != right[i] {
            return false;
        }
    }
    assert(left@ =~= right@);
    true
}

} // verus!
