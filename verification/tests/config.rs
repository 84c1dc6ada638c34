use lenso_auth_sdk::ActorAssertionIssuer;
use organization_invitation::config::{
    OrganizationInvitationConfig, OrganizationInvitationConfigError,
};

fn public_key() -> String {
    ActorAssertionIssuer::new("auth.users", b"invitation test signing key").public_key_base64()
}

fn valid_config() -> OrganizationInvitationConfig {
    OrganizationInvitationConfig::new(
        "organization_invitation_v1".to_owned(),
        "organization-invitation/database-url".to_owned(),
        "organization-invitation/token-pepper".to_owned(),
        "organization-invitation/token-derivation".to_owned(),
        "auth.users".to_owned(),
        public_key(),
        vec!["organization-admin-api".to_owned()],
        vec!["invitation-accept-api".to_owned()],
        vec!["organization-invitation-worker".to_owned()],
        "https://app.example.com/organization/invitations/accept".to_owned(),
    )
    .unwrap()
}

#[test]
fn configuration_rejects_shared_secret_material_and_unbounded_urls() {
    let mut config = valid_config();
    config.token_pepper_secret = config.database_url_secret.clone();
    assert_eq!(
        config.validate(),
        Err(OrganizationInvitationConfigError::InvalidSecretReference)
    );

    let mut config = valid_config();
    config.invitation_url_base = "https://app.example.com/accept?token=forbidden".to_owned();
    assert_eq!(
        config.validate(),
        Err(OrganizationInvitationConfigError::InvalidInvitationUrl)
    );

    let mut config = valid_config();
    config.worker_callers.push(config.worker_callers[0].clone());
    assert_eq!(
        config.validate(),
        Err(OrganizationInvitationConfigError::InvalidWorkerCallers)
    );
}

#[test]
fn new_configurations_have_the_defaults() {
    let config = valid_config();
    assert_eq!(config.locale, "en");
    assert_eq!(config.token_ttl_seconds, 604_800);
    assert_eq!(config.command_lease_seconds, 120);
    assert_eq!(config.max_command_attempts, 8);
    assert_eq!(config.retry_base_seconds, 30);
    assert_eq!(config.validate(), Ok(()));
}

#[test]
fn schemas_have_plain_names_of_their_own() {
    for name in ["a", "organization_invitation_v1", "x1_"] {
        let mut config = valid_config();
        config.schema = name.to_owned();
        assert_eq!(config.validate(), Ok(()), "{name}");
    }
    let long = "a".repeat(64);
    for name in [
        "",
        "1a",
        "_a",
        "Invitations",
        "a-b",
        "public",
        "information_schema",
        "pg_catalog",
        long.as_str(),
    ] {
        let mut config = valid_config();
        config.schema = name.to_owned();
        assert_eq!(
            config.validate(),
            Err(OrganizationInvitationConfigError::InvalidSchema),
            "{name}"
        );
    }
}

#[test]
fn secret_references_are_paths_of_plain_segments() {
    for reference in ["", "/a", "a/", "a//b", "a/../b", "./a", "a b", "ä"] {
        let mut config = valid_config();
        config.token_derivation_secret = reference.to_owned();
        assert_eq!(
            config.validate(),
            Err(OrganizationInvitationConfigError::InvalidSecretReference),
            "{reference}"
        );
    }
}

#[test]
fn issuers_and_keys_are_checked() {
    let mut config = valid_config();
    config.auth_issuer = "auth/users".to_owned();
    assert_eq!(
        config.validate(),
        Err(OrganizationInvitationConfigError::InvalidAuthIssuer)
    );
    for key in ["", "not base64", "AAAA"] {
        let mut config = valid_config();
        config.auth_assertion_public_key = key.to_owned();
        assert_eq!(
            config.validate(),
            Err(OrganizationInvitationConfigError::InvalidAuthPublicKey),
            "{key}"
        );
    }
}

#[test]
fn allowlists_are_exact_and_not_empty() {
    let mut config = valid_config();
    config.management_callers.clear();
    assert_eq!(
        config.validate(),
        Err(OrganizationInvitationConfigError::InvalidManagementCallers)
    );
    let mut config = valid_config();
    config.acceptance_callers = vec!["a/b".to_owned()];
    assert_eq!(
        config.validate(),
        Err(OrganizationInvitationConfigError::InvalidAcceptanceCallers)
    );
    let mut config = valid_config();
    config.worker_callers = (0..65).map(|number| format!("worker-{number}")).collect();
    assert_eq!(
        config.validate(),
        Err(OrganizationInvitationConfigError::InvalidWorkerCallers)
    );
    config.worker_callers.pop();
    assert_eq!(config.validate(), Ok(()));
}

#[test]
fn link_bases_are_query_free_https_urls() {
    let long = format!("https://app.example.com/{}", "a".repeat(2_025));
    for base in [
        "app.example.com/accept",
        "http://app.example.com/accept",
        "mailto:someone@example.com",
        "https://app.example.com/accept?",
        "https://app.example.com/accept#top",
        long.as_str(),
    ] {
        let mut config = valid_config();
        config.invitation_url_base = base.to_owned();
        assert_eq!(
            config.validate(),
            Err(OrganizationInvitationConfigError::InvalidInvitationUrl),
            "{base}"
        );
    }
    let mut config = valid_config();
    config.invitation_url_base = long[..2_048].to_owned();
    assert_eq!(config.validate(), Ok(()));
}

#[test]
fn locales_and_bounds_are_checked() {
    let mut config = valid_config();
    config.locale = "de".to_owned();
    assert_eq!(
        config.validate(),
        Err(OrganizationInvitationConfigError::InvalidLocale)
    );
    config.locale = "en-US".to_owned();
    assert_eq!(config.validate(), Ok(()));
    for (ttl, lease, attempts, base, valid) in [
        (300, 30, 1, 1, true),
        (2_592_000, 3_600, 20, 3_600, true),
        (299, 30, 1, 1, false),
        (2_592_001, 30, 1, 1, false),
        (300, 29, 1, 1, false),
        (300, 3_601, 1, 1, false),
        (300, 30, 0, 1, false),
        (300, 30, 21, 1, false),
        (300, 30, 1, 0, false),
        (300, 30, 1, 3_601, false),
    ] {
        config.token_ttl_seconds = ttl;
        config.command_lease_seconds = lease;
        config.max_command_attempts = attempts;
        config.retry_base_seconds = base;
        assert_eq!(
            config.validate(),
            if valid {
                Ok(())
            } else {
                Err(OrganizationInvitationConfigError::InvalidBounds)
            }
        );
    }
}

#[test]
fn configuration_errors_have_words() {
    assert_eq!(
        OrganizationInvitationConfigError::InvalidSchema.message(),
        "invalid owned PostgreSQL schema"
    );
    assert_eq!(
        OrganizationInvitationConfigError::InvalidInvitationUrl.message(),
        "invitation_url_base must be a query-free HTTPS URL"
    );
    assert_eq!(
        OrganizationInvitationConfigError::InvalidLocale.message(),
        "locale must be `en` or `en-US`"
    );
}
