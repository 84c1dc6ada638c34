use organization_invitation::validation::{normalize_email, valid_invitation_ref};
use uuid::Uuid;

#[test]
fn email_normalization_is_conservative_and_org_identifiers_are_stable() {
    assert_eq!(
        normalize_email("  Member+Team@Example.COM  "),
        Some("member+team@example.com".to_owned())
    );
    assert_eq!(normalize_email("missing-domain@"), None);
    assert_eq!(normalize_email("dot..dot@example.com"), None);
    assert!(valid_invitation_ref("INV-42"));
    assert!(valid_invitation_ref(&Uuid::new_v4().to_string()));
    assert!(!valid_invitation_ref("INV-0001"));
}

#[test]
fn normal_addresses_are_their_own_normal_form() {
    for address in ["  Member+Team@Example.COM  ", "a.b@x-1.example", "A@b"] {
        let normal = normalize_email(address).unwrap();
        assert_eq!(normalize_email(&normal), Some(normal));
    }
}

#[test]
fn addresses_are_plain() {
    for address in [
        "@example.com",
        "a@",
        "a@b@c",
        ".a@example.com",
        "a.@example.com",
        "a@-example.com",
        "a@example-.com",
        "a@example..com",
        "a@.com",
        "ä@example.com",
        "a b@example.com",
        "a@exam_ple.com",
        "ab",
        "",
    ] {
        assert_eq!(normalize_email(address), None, "{address}");
    }
    let local = "l".repeat(64);
    assert!(normalize_email(&format!("{local}@example.com")).is_some());
    assert!(normalize_email(&format!("{local}l@example.com")).is_none());
    let label = "d".repeat(63);
    assert!(normalize_email(&format!("a@{label}.com")).is_some());
    assert!(normalize_email(&format!("a@{label}d.com")).is_none());
    assert!(normalize_email(&format!("a@{label}.{label}.{label}.{label}")).is_some());
    assert!(normalize_email(&format!("a@{label}.{label}.{label}.{label}.c")).is_none());
}
