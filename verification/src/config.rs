//! The immutable configuration of one invitation instance.

use crate::text::{is_digit, is_lower, same_text};
use crate::urls::{parse_url, parsed_url, MAX_URL_BYTES};
use crate::validation::{
    is_allowlist, is_identifier, is_secret_reference, texts, valid_identifier,
    valid_secret_reference, validate_callers,
};
use lenso_auth_sdk::ActorAssertionVerifier;
use lenso_postgres_kit::{PlanError, SchemaPlan};
use vstd::prelude::*;
use vstd::utf8::*;

verus! {

pub const DEFAULT_LOCALE: &'static str = "en";

pub const DEFAULT_TOKEN_TTL_SECONDS: i64 = 604_800;

pub const DEFAULT_COMMAND_LEASE_SECONDS: i64 = 120;

pub const DEFAULT_MAX_COMMAND_ATTEMPTS: i32 = 8;

pub const DEFAULT_RETRY_BASE_SECONDS: i64 = 30;

/// Immutable configuration for one Organization Invitation instance.
#[derive(Clone, Debug, PartialEq, Eq)]
pub struct OrganizationInvitationConfig {
    pub schema: String,
    pub database_url_secret: String,
    pub token_pepper_secret: String,
    pub token_derivation_secret: String,
    pub auth_issuer: String,
    pub auth_assertion_public_key: String,
    pub management_callers: Vec<String>,
    pub acceptance_callers: Vec<String>,
    pub worker_callers: Vec<String>,
    pub invitation_url_base: String,
    pub locale: String,
    pub token_ttl_seconds: i64,
    pub command_lease_seconds: i64,
    pub max_command_attempts: i32,
    pub retry_base_seconds: i64,
}

/// Invalid immutable Organization Invitation configuration.
#[derive(Clone, Copy, Debug, PartialEq, Eq, Structural)]
pub enum OrganizationInvitationConfigError {
    InvalidSchema,
    InvalidSecretReference,
    InvalidAuthIssuer,
    InvalidAuthPublicKey,
    InvalidManagementCallers,
    InvalidAcceptanceCallers,
    InvalidWorkerCallers,
    InvalidInvitationUrl,
    InvalidLocale,
    InvalidBounds,
}

impl OrganizationInvitationConfigError {
    pub fn message(&self) -> (message: &'static str)
        ensures
            message@ == (match self {
                OrganizationInvitationConfigError::InvalidSchema
                    => "invalid owned PostgreSQL schema"@,
                OrganizationInvitationConfigError::InvalidSecretReference
                    => "database, pepper, and derivation secrets require distinct valid references"@,
                OrganizationInvitationConfigError::InvalidAuthIssuer => "invalid Auth issuer"@,
                OrganizationInvitationConfigError::InvalidAuthPublicKey
                    => "invalid Auth assertion public key"@,
                OrganizationInvitationConfigError::InvalidManagementCallers
                    => "management_callers must contain unique exact Instance keys"@,
                OrganizationInvitationConfigError::InvalidAcceptanceCallers
                    => "acceptance_callers must contain unique exact Instance keys"@,
                OrganizationInvitationConfigError::InvalidWorkerCallers
                    => "worker_callers must contain unique exact Instance keys"@,
                OrganizationInvitationConfigError::InvalidInvitationUrl
                    => "invitation_url_base must be a query-free HTTPS URL"@,
                OrganizationInvitationConfigError::InvalidLocale
                    => "locale must be `en` or `en-US`"@,
                OrganizationInvitationConfigError::InvalidBounds
                    => "token, lease, retry, or attempt bounds are invalid"@,
            }),
    {
        match self {
            OrganizationInvitationConfigError::InvalidSchema => "invalid owned PostgreSQL schema",
            OrganizationInvitationConfigError::InvalidSecretReference => {
                "database, pepper, and derivation secrets require distinct valid references"
            },
            OrganizationInvitationConfigError::InvalidAuthIssuer => "invalid Auth issuer",
            OrganizationInvitationConfigError::InvalidAuthPublicKey => {
                "invalid Auth assertion public key"
            },
            OrganizationInvitationConfigError::InvalidManagementCallers => {
                "management_callers must contain unique exact Instance keys"
            },
            OrganizationInvitationConfigError::InvalidAcceptanceCallers => {
                "acceptance_callers must contain unique exact Instance keys"
            },
            OrganizationInvitationConfigError::InvalidWorkerCallers => {
                "worker_callers must contain unique exact Instance keys"
            },
            OrganizationInvitationConfigError::InvalidInvitationUrl => {
                "invitation_url_base must be a query-free HTTPS URL"
            },
            OrganizationInvitationConfigError::InvalidLocale => "locale must be `en` or `en-US`",
            OrganizationInvitationConfigError::InvalidBounds => {
                "token, lease, retry, or attempt bounds are invalid"
            },
        }
    }
}

/// The name of a schema that an instance may own: 1 to 63 small letters, digits and `_`, a letter
/// first, and none of the names that PostgreSQL keeps for itself.
pub open spec fn is_schema_name(name: Seq<char>) -> bool {
    &&& 0 < name.len() <= 63
    &&& is_lower(name[0])
    &&& forall|i: int|
        0 <= i < name.len() ==> is_lower(#[trigger] name[i]) || is_digit(name[i]) || name[i] == '_'
    &&& name != "public"@
    &&& name != "information_schema"@
    &&& !(name.len() >= 3 && name.take(3) == "pg_"@)
}

/// `SchemaPlan::new` of `lenso_postgres_kit`, as far as the name goes: whether a schema of this
/// name can be owned.
#[verifier::external_body]
fn names_schema(name: &str) -> (valid: bool)
    ensures
        valid == is_schema_name(name@),
{
    !matches!(SchemaPlan::new(name, &[]), Err(PlanError::InvalidSchemaName { .. }))
}

/// Whether a text is the URL-safe base64 form of an Ed25519 public key.
pub uninterp spec fn is_assertion_key(text: Seq<char>) -> bool;

/// `ActorAssertionVerifier::from_public_key_base64` of `lenso_auth_sdk`: whether a verifier can be
/// made from a key. The issuer has no part in it.
#[verifier::external_body]
fn accepts_assertion_key(issuer: &str, key: &str) -> (valid: bool)
    ensures
        valid == is_assertion_key(key@),
{
    ActorAssertionVerifier::from_public_key_base64(issuer, key).is_ok()
}

/// The base of invitation links: an HTTPS URL of at most 2048 bytes with a host, and with neither
/// query nor fragment.
pub open spec fn is_link_base(base: Seq<char>) -> bool {
    &&& parsed_url(base) matches Some((_, scheme, true, false, false)) && scheme == "https"@
    &&& encode_utf8(base).len() <= MAX_URL_BYTES
}

impl OrganizationInvitationConfig {
    pub open spec fn has_secret_references(self) -> bool {
        &&& is_secret_reference(self.database_url_secret@)
        &&& is_secret_reference(self.token_pepper_secret@)
        &&& is_secret_reference(self.token_derivation_secret@)
        &&& self.database_url_secret@ != self.token_pepper_secret@
        &&& self.database_url_secret@ != self.token_derivation_secret@
        &&& self.token_pepper_secret@ != self.token_derivation_secret@
    }

    pub open spec fn has_bounds(self) -> bool {
        &&& 300 <= self.token_ttl_seconds <= 2_592_000
        &&& 30 <= self.command_lease_seconds <= 3_600
        &&& 1 <= self.max_command_attempts <= 20
        &&& 1 <= self.retry_base_seconds <= 3_600
    }

    /// The first thing that is wrong with a configuration, if any.
    pub open spec fn flaw(self) -> Option<OrganizationInvitationConfigError> {
        if !is_schema_name(self.schema@) {
            Some(OrganizationInvitationConfigError::InvalidSchema)
        } else if !self.has_secret_references() {
            Some(OrganizationInvitationConfigError::InvalidSecretReference)
        } else if !is_identifier(self.auth_issuer@, 256) {
            Some(OrganizationInvitationConfigError::InvalidAuthIssuer)
        } else if !is_assertion_key(self.auth_assertion_public_key@) {
            Some(OrganizationInvitationConfigError::InvalidAuthPublicKey)
        } else if !is_allowlist(texts(self.management_callers@)) {
            Some(OrganizationInvitationConfigError::InvalidManagementCallers)
        } else if !is_allowlist(texts(self.acceptance_callers@)) {
            Some(OrganizationInvitationConfigError::InvalidAcceptanceCallers)
        } else if !is_allowlist(texts(self.worker_callers@)) {
            Some(OrganizationInvitationConfigError::InvalidWorkerCallers)
        } else if !is_link_base(self.invitation_url_base@) {
            Some(OrganizationInvitationConfigError::InvalidInvitationUrl)
        } else if self.locale@ != "en"@ && self.locale@ != "en-US"@ {
            Some(OrganizationInvitationConfigError::InvalidLocale)
        } else if !self.has_bounds() {
            Some(OrganizationInvitationConfigError::InvalidBounds)
        } else {
            None
        }
    }

    /// The configuration itself, or the first thing that is wrong with it.
    pub open spec fn checked(self) -> Result<Self, OrganizationInvitationConfigError> {
        match self.flaw() {
            Some(error) => Err(error),
            None => Ok(self),
        }
    }

    /// Creates and validates immutable Organization Invitation configuration.
    #[allow(clippy::too_many_arguments)]
    pub fn new(
        schema: String,
        database_url_secret: String,
        token_pepper_secret: String,
        token_derivation_secret: String,
        auth_issuer: String,
        auth_assertion_public_key: String,
        management_callers: Vec<String>,
        acceptance_callers: Vec<String>,
        worker_callers: Vec<String>,
        invitation_url_base: String,
    ) -> (config: Result<Self, OrganizationInvitationConfigError>)
        ensures
            exists|locale: String|
                #[trigger] locale@ == DEFAULT_LOCALE@ && config == (OrganizationInvitationConfig {
                    schema,
                    database_url_secret,
                    token_pepper_secret,
                    token_derivation_secret,
                    auth_issuer,
                    auth_assertion_public_key,
                    management_callers,
                    acceptance_callers,
                    worker_callers,
                    invitation_url_base,
                    locale,
                    token_ttl_seconds: DEFAULT_TOKEN_TTL_SECONDS,
                    command_lease_seconds: DEFAULT_COMMAND_LEASE_SECONDS,
                    max_command_attempts: DEFAULT_MAX_COMMAND_ATTEMPTS,
                    retry_base_seconds: DEFAULT_RETRY_BASE_SECONDS,
                }).checked(),
    {
        let config = OrganizationInvitationConfig {
            schema,
            database_url_secret,
            token_pepper_secret,
            token_derivation_secret,
            auth_issuer,
            auth_assertion_public_key,
            management_callers,
            acceptance_callers,
            worker_callers,
            invitation_url_base,
            locale: DEFAULT_LOCALE.to_owned(),
            token_ttl_seconds: DEFAULT_TOKEN_TTL_SECONDS,
            command_lease_seconds: DEFAULT_COMMAND_LEASE_SECONDS,
            max_command_attempts: DEFAULT_MAX_COMMAND_ATTEMPTS,
            retry_base_seconds: DEFAULT_RETRY_BASE_SECONDS,
        };
        assert(config.locale@ == DEFAULT_LOCALE@);
        match config.validate() {
            Ok(()) => Ok(config),
            Err(error) => Err(error),
        }
    }

    /// Checks the configuration, and names the first thing that is wrong with it.
    pub fn validate(&self) -> (result: Result<(), OrganizationInvitationConfigError>)
        ensures
            result == (match self.flaw() {
                Some(error) => Err(error),
                None => Ok(()),
            }),
    {
        if !names_schema(self.schema.as_str()) {
            return Err(OrganizationInvitationConfigError::InvalidSchema);
        }
        let database_url = self.database_url_secret.as_str();
        let token_pepper = self.token_pepper_secret.as_str();
        let token_derivation = self.token_derivation_secret.as_str();
        if !valid_secret_reference(database_url) || !valid_secret_reference(token_pepper)
            || !valid_secret_reference(token_derivation) || same_text(database_url, token_pepper)
            || same_text(database_url, token_derivation) || same_text(
            token_pepper,
            token_derivation,
        ) {
            return Err(OrganizationInvitationConfigError::InvalidSecretReference);
        }
        if !valid_identifier(self.auth_issuer.as_str(), 256) {
            return Err(OrganizationInvitationConfigError::InvalidAuthIssuer);
        }
        if !accepts_assertion_key(
            self.auth_issuer.as_str(),
            self.auth_assertion_public_key.as_str(),
        ) {
            return Err(OrganizationInvitationConfigError::InvalidAuthPublicKey);
        }
        if validate_callers(&self.management_callers).is_err() {
            return Err(OrganizationInvitationConfigError::InvalidManagementCallers);
        }
        if validate_callers(&self.acceptance_callers).is_err() {
            return Err(OrganizationInvitationConfigError::InvalidAcceptanceCallers);
        }
        if validate_callers(&self.worker_callers).is_err() {
            return Err(OrganizationInvitationConfigError::InvalidWorkerCallers);
        }
        match parse_url(self.invitation_url_base.as_str()) {
            Some(url) => {
                if !same_text(url.scheme.as_str(), "https") || !url.has_host || url.has_query
                    || url.has_fragment || self.invitation_url_base.as_str().as_bytes().len()
                    > MAX_URL_BYTES {
                    return Err(OrganizationInvitationConfigError::InvalidInvitationUrl);
                }
            },
            None => {
                return Err(OrganizationInvitationConfigError::InvalidInvitationUrl);
            },
        }
        if !same_text(self.locale.as_str(), "en") && !same_text(self.locale.as_str(), "en-US") {
            return Err(OrganizationInvitationConfigError::InvalidLocale);
        }
        if !(300 <= self.token_ttl_seconds && self.token_ttl_seconds <= 2_592_000) || !(30
            <= self.command_lease_seconds && self.command_lease_seconds <= 3_600) || !(1
            <= self.max_command_attempts && self.max_command_attempts <= 20) || !(1
            <= self.retry_base_seconds && self.retry_base_seconds <= 3_600) {
            return Err(OrganizationInvitationConfigError::InvalidBounds);
        }
        Ok(())
    }
}

/// A configuration without a flaw has three different secrets, exact allowlists, a query-free
/// HTTPS base for its links, and bounded times and counts.
pub proof fn valid_configurations_are_bounded(config: OrganizationInvitationConfig)
    requires
        config.flaw() is None,
    ensures
        is_schema_name(config.schema@),
        config.database_url_secret@ != config.token_pepper_secret@,
        config.database_url_secret@ != config.token_derivation_secret@,
        config.token_pepper_secret@ != config.token_derivation_secret@,
        is_allowlist(texts(config.management_callers@)),
        is_allowlist(texts(config.acceptance_callers@)),
        is_allowlist(texts(config.worker_callers@)),
        is_link_base(config.invitation_url_base@),
        config.has_bounds(),
{
}

} // verus!
