//! Keyed digests, request digests and password hashes.

use crate::base64url::base64;
use crate::text::{decimal, digit, is_digit, option_text, text_chars};
use argon2::password_hash::{PasswordHash, PasswordHasher, PasswordVerifier, SaltString};
use argon2::{Algorithm, Argon2, Params, Version};
use hmac::{Hmac, Mac};
use sha2::{Digest, Sha256};
use vstd::prelude::*;
use zeroize::Zeroize;

verus! {

/// The HMAC of a message under a key, with SHA-256.
pub uninterp spec fn hmac_sha256(key: Seq<u8>, message: Seq<u8>) -> Seq<u8>;

/// `Hmac::<Sha256>` of `hmac`: the authentication code of a message, which has 32 bytes. Keys of
/// every length are taken.
#[verifier::external_body]
pub(crate) fn authenticate(key: &[u8], message: &[u8]) -> (code: Option<Vec<u8>>)
    ensures
        code is Some,
        code->Some_0@ == hmac_sha256(key@, message@),
        code->Some_0@.len() == 32,
{
    let mut mac = Hmac::<Sha256>::new_from_slice(key).ok()?;
    mac.update(message);
    Some(mac.finalize().into_bytes().to_vec())
}

/// The SHA-256 digest of bytes.
pub uninterp spec fn sha256(bytes: Seq<u8>) -> Seq<u8>;

/// `Sha256::digest` of `sha2`: the digest of bytes, which has 32 bytes.
#[verifier::external_body]
fn digest_bytes(bytes: &[u8]) -> (digest: Vec<u8>)
    ensures
        digest@ == sha256(bytes@),
        digest@.len() == 32,
{
    Sha256::digest(bytes).to_vec()
}

/// The digest by which a request is told apart from others with its idempotency key.
pub fn request_hash(wire: &[u8]) -> (hash: Vec<u8>)
    ensures
        hash@ == sha256(wire@),
        hash@.len() == 32,
{
    digest_bytes(wire)
}

/// The Argon2id hash of a password under a salt, as PHC text, or `None` where a parameter is out
/// of range.
pub uninterp spec fn argon2id_text(
    password: Seq<u8>,
    salt: Seq<u8>,
    memory_kib: u32,
    iterations: u32,
    lanes: u32,
    output_length: usize,
) -> Option<Seq<char>>;

/// Whether a text is a PHC text: the fields of a password hash, separated by `$`.
pub uninterp spec fn is_phc_text(text: Seq<char>) -> bool;

/// Whether a password matches a PHC text, or `None` where the text is no PHC text.
pub uninterp spec fn argon2_matches(password: Seq<u8>, phc: Seq<char>) -> Option<bool>;

/// How a PHC text names Argon2id, its version 19 and its parameters.
pub open spec fn argon2id_header(memory_kib: u32, iterations: u32, lanes: u32) -> Seq<char> {
    "$argon2id$v=19$m="@ + decimal(memory_kib as int) + ",t="@ + decimal(iterations as int) + ",p="@
        + decimal(lanes as int) + "$"@
}

/// How the PHC text of an Argon2id hash starts: its parameters, and its salt.
pub open spec fn argon2id_start(
    memory_kib: u32,
    iterations: u32,
    lanes: u32,
    salt: Seq<u8>,
) -> Seq<char> {
    argon2id_header(memory_kib, iterations, lanes) + base64(salt) + "$"@
}

/// A number of lanes is named at `i`.
pub open spec fn names_lanes_at(text: Seq<char>, i: int) -> bool {
    0 <= i && i + 1 < text.len() && text[i] == 'p' && text[i + 1] == '='
}

/// The number of lanes that is named at `i` has nine digits or more, and none is named behind it.
pub open spec fn ends_in_many_lanes_at(text: Seq<char>, i: int) -> bool {
    &&& names_lanes_at(text, i)
    &&& i + 11 <= text.len()
    &&& forall|j: int| i + 2 <= j < i + 11 ==> is_digit(#[trigger] text[j])
    &&& forall|j: int| i < j ==> !#[trigger] names_lanes_at(text, j)
}

/// A text whose last number of lanes, which is the one that counts, has nine digits or more. Argon2
/// takes 16,777,215 lanes at most, so no password matches such a text.
pub open spec fn names_many_lanes(text: Seq<char>) -> bool {
    exists|i: int| #[trigger] ends_in_many_lanes_at(text, i)
}

pub(crate) fn many_lanes(text: &str) -> (r: bool)
    ensures
        r == names_many_lanes(text@),
{
    let chars = text_chars(text);
    let mut i: usize = chars.len();
    while i > 0
        invariant
            chars@ == text@,
            i <= chars.len(),
            forall|j: int| i <= j ==> !#[trigger] names_lanes_at(text@, j),
        decreases i,
    {
        i = i - 1;
        if chars.len() - i >= 2 && chars[i] == 'p' && chars[i + 1] == '=' {
            assert(names_lanes_at(text@, i as int));
            if chars.len() - i < 11 {
                return false;
            }
            let mut digits: usize = 0;
            while digits < 9 && digit(chars[i + 2 + digits])
                invariant
                    chars@ == text@,
                    i + 11 <= chars.len(),
                    digits <= 9,
                    forall|j: int|
                        i + 2 <= j < i + 2 + digits ==> is_digit(#[trigger] text@[j]),
                decreases 9 - digits,
            {
                digits = digits + 1;
            }
            if digits == 9 {
                assert(ends_in_many_lanes_at(text@, i as int));
                return true;
            }
            assert(!is_digit(text@[i + 2 + digits]));
            return false;
        }
    }
    false
}

/// `Argon2::hash_password` of `argon2`, for Argon2id in version 0x13: the hash as PHC text. The
/// text starts with the algorithm, its version, its parameters and the salt, and matches the
/// password that it was made from. With parameters in range a password of at most `u32::MAX` bytes
/// is hashed. The memory is allocated at once, so it is bounded to a gibibyte.
#[verifier::external_body]
pub(crate) fn hash_password(
    password: &[u8],
    salt: &[u8],
    memory_kib: u32,
    iterations: u32,
    lanes: u32,
    output_length: usize,
) -> (phc: Option<String>)
    requires
        8 <= salt@.len() <= 48,
        1 <= lanes <= 0xff_ffff,
        8 * lanes <= memory_kib <= 0x10_0000,
        1 <= iterations,
        10 <= output_length <= 64,
    ensures
        option_text(phc) == argon2id_text(
            password@,
            salt@,
            memory_kib,
            iterations,
            lanes,
            output_length,
        ),
        phc is Some <==> password@.len() <= u32::MAX,
        phc is Some ==> argon2id_start(memory_kib, iterations, lanes, salt@).is_prefix_of(
            phc->Some_0@,
        ),
        phc is Some ==> is_phc_text(phc->Some_0@),
        phc is Some ==> !names_many_lanes(phc->Some_0@),
        phc is Some ==> argon2_matches(password@, phc->Some_0@) == Some(true),
{
    let params = Params::new(memory_kib, iterations, lanes, Some(output_length)).ok()?;
    let salt = SaltString::encode_b64(salt).ok()?;
    let argon2 = Argon2::new(Algorithm::Argon2id, Version::V0x13, params);
    argon2.hash_password(password, &salt).ok().map(|hash| hash.to_string())
}

/// `PasswordHash::new` of `argon2`: whether a text is a PHC text.
#[verifier::external_body]
pub(crate) fn reads_phc(text: &str) -> (valid: bool)
    ensures
        valid == is_phc_text(text@),
{
    PasswordHash::new(text).is_ok()
}

/// `Argon2::verify_password` of `argon2`: whether a password matches a PHC text. The algorithm, its
/// parameters and the salt are those that the text names, the last ones where it names some twice.
/// Eight times the number of lanes is computed in 32 bits before that number is bounded, so a text
/// whose number of lanes has nine digits or more is left out: the product can overflow. It aborts
/// where the text names more memory than there is.
#[verifier::external_body]
pub(crate) fn check_password(password: &[u8], phc: &str) -> (matches: Option<bool>)
    requires
        !names_many_lanes(phc@),
    ensures
        matches == argon2_matches(password@, phc@),
        matches is Some <==> is_phc_text(phc@),
{
    let hash = PasswordHash::new(phc).ok()?;
    Some(Argon2::default().verify_password(password, &hash).is_ok())
}

/// `getrandom::fill`: 16 bytes from the operating system, or `None` where it has none to give. The
/// bytes are up to chance.
#[verifier::external_body]
pub(crate) fn random_bytes() -> (bytes: Option<Vec<u8>>)
    ensures
        bytes is Some ==> bytes->Some_0@.len() == 16,
{
    let mut bytes = [0_u8; 16];
    getrandom::fill(&mut bytes).ok()?;
    Some(bytes.to_vec())
}

/// `Zeroize::zeroize` of `zeroize`, for `Vec<u8>`: overwrites the bytes and leaves none.
#[verifier::external_body]
pub(crate) fn wipe(bytes: &mut Vec<u8>)
    ensures
        final(bytes)@ == Seq::<u8>::empty(),
{
    bytes.zeroize();
}

/// `Zeroize::zeroize` of `zeroize`, for `String`: overwrites the text and leaves none.
#[verifier::external_body]
pub(crate) fn wipe_text(text: &mut String)
    ensures
        final(text)@ == Seq::<char>::empty(),
{
    text.zeroize();
}

} // verus!
