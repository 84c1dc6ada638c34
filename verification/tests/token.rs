use base64::Engine;
use hmac::Mac;
use organization_invitation::token::{
    derive_token, hash_token, hash_token_with_salt, valid_token_secrets, verify_token, TokenError,
};
use organization_invitation::validation::valid_token_input;
use uuid::Uuid;

#[test]
fn token_is_deterministic_by_generation_and_argon_hash_is_salted() {
    let derivation = [7_u8; 32];
    let pepper = [9_u8; 32];
    let id = Uuid::new_v4().as_u128();
    let first = derive_token(&derivation, id, 1).unwrap();
    assert_eq!(first, derive_token(&derivation, id, 1).unwrap());
    assert_ne!(first, derive_token(&derivation, id, 2).unwrap());
    let hash_a = hash_token(&first, &pepper).unwrap();
    let hash_b = hash_token(&first, &pepper).unwrap();
    assert_ne!(hash_a, hash_b);
    assert!(verify_token(&first, &pepper, &hash_a).unwrap());
    assert!(!verify_token("wrong", &pepper, &hash_a).unwrap());
    assert!(hash_a.starts_with("$argon2id$v=19$"));
}

#[test]
fn derived_tokens_are_taken_for_acceptance() {
    let token = derive_token(&[7_u8; 32], 1, 1).unwrap();
    assert_eq!(token.len(), 43);
    assert!(valid_token_input(&token));
    assert_ne!(token, derive_token(&[8_u8; 32], 1, 1).unwrap());
    assert_ne!(token, derive_token(&[7_u8; 32], 2, 1).unwrap());
}

#[test]
fn tokens_are_the_code_of_context_invitation_and_generation() {
    let id = Uuid::from_u128(0x6a43_eca2_af4b_4897_8514_c4bf_069a_de77);
    let mut mac = hmac::Hmac::<sha2::Sha256>::new_from_slice(&[7_u8; 32]).unwrap();
    mac.update(b"lenso.organization-invitation.token.v1\0");
    mac.update(id.as_bytes());
    mac.update(&258_i64.to_be_bytes());
    let code = mac.finalize().into_bytes();
    assert_eq!(
        derive_token(&[7_u8; 32], id.as_u128(), 258).unwrap(),
        base64::engine::general_purpose::URL_SAFE_NO_PAD.encode(code)
    );
}

#[test]
fn verifiers_name_their_parameters() {
    let hash = hash_token_with_salt("token", &[9_u8; 32], &[3_u8; 16]).unwrap();
    assert!(hash.starts_with("$argon2id$v=19$m=19456,t=2,p=1$"));
    assert_eq!(
        hash,
        hash_token_with_salt("token", &[9_u8; 32], &[3_u8; 16]).unwrap()
    );
    assert!(!hash.contains("token"));
    assert!(!verify_token("token", &[8_u8; 32], &hash).unwrap());
}

#[test]
fn verifiers_hold_their_salt() {
    let pepper = [9_u8; 32];
    let mut salts: Vec<[u8; 16]> = vec![[3; 16], [0xfb; 16], [0xff; 16]];
    salts.push(core::array::from_fn(|i| 16 * i as u8));
    let hashes: Vec<String> = salts
        .iter()
        .map(|salt| hash_token_with_salt("token", &pepper, salt).unwrap())
        .collect();
    for (salt, hash) in salts.iter().zip(&hashes) {
        let text = base64::engine::general_purpose::STANDARD_NO_PAD.encode(salt);
        assert!(hash.starts_with(&format!("$argon2id$v=19$m=19456,t=2,p=1${text}$")));
        assert!(verify_token("token", &pepper, hash).unwrap());
        assert_eq!(hashes.iter().filter(|other| *other == hash).count(), 1);
    }
}

#[test]
fn verifiers_with_impossible_lanes_match_nothing() {
    let pepper = [9_u8; 32];
    for lanes in ["536870912", "000000001", "4294967296", "99999999999"] {
        let stored =
            format!("$argon2id$v=19$m=4096,t=2,p={lanes}$c29tZXNhbHRzYWx0$AAAAAAAAAAAAAAAAAAAAAA");
        assert_eq!(verify_token("token", &pepper, &stored), Ok(false));
    }
    assert_eq!(
        verify_token(
            "token",
            &pepper,
            "$argon2id$v=19$m=4096,t=2,p=99999999$c29tZXNhbHRzYWx0$AAAAAAAAAAAAAAAAAAAAAA"
        ),
        Ok(false)
    );
    let hash = hash_token_with_salt("token", &pepper, &[3; 16]).unwrap();
    let repeated = hash.replace(",p=1$", ",p=536870912,p=1$");
    assert_ne!(hash, repeated);
    assert_eq!(verify_token("token", &pepper, &repeated), Ok(true));
    let repeated = hash.replace(",p=1$", ",p=1,p=536870912$");
    assert_eq!(verify_token("token", &pepper, &repeated), Ok(false));
    assert_eq!(
        verify_token("token", &pepper, "p=536870912"),
        Err(TokenError::InvalidStoredHash)
    );
}

#[test]
fn short_secrets_and_foreign_hashes_are_refused() {
    assert_eq!(
        derive_token(&[7_u8; 31], 1, 1),
        Err(TokenError::InvalidSecret)
    );
    assert_eq!(
        derive_token(&[7_u8; 32], 1, 0),
        Err(TokenError::InvalidSecret)
    );
    assert_eq!(
        hash_token("token", &[9_u8; 31]),
        Err(TokenError::InvalidSecret)
    );
    assert_eq!(
        verify_token("token", &[9_u8; 31], "x"),
        Err(TokenError::InvalidSecret)
    );
    assert_eq!(
        verify_token("token", &[9_u8; 32], "no hash"),
        Err(TokenError::InvalidStoredHash)
    );
    assert_eq!(
        TokenError::InvalidSecret.message(),
        "token secret must contain at least 256 bits"
    );
    assert_eq!(
        TokenError::EntropyUnavailable.message(),
        "operating-system entropy is unavailable"
    );
    assert_eq!(
        TokenError::HashFailure.message(),
        "Argon2id token hashing failed"
    );
}

#[test]
fn token_secrets_are_long_and_different() {
    assert!(valid_token_secrets(&[1; 32], &[2; 32]));
    assert!(!valid_token_secrets(&[1; 32], &[1; 32]));
    assert!(!valid_token_secrets(&[1; 31], &[2; 32]));
    assert!(!valid_token_secrets(&[1; 32], &[2; 31]));
}
