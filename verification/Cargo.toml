[package]
name = "organization_invitation"
version = "0.1.0"
edition = "2021"
publish = false

[dependencies]
argon2 = "=0.5.3"
base64 = "=0.22.1"
futures = "0.3"
getrandom = "=0.3.4"
hmac = "=0.12.1"
lenso = "=0.5.30"
lenso-auth-sdk = "=0.2.3"
lenso-capability-access-control = "=0.2.0"
lenso-capability-agent-tool-provider = "=0.3.0"
lenso-capability-notification-transactional = "=0.1.1"
lenso-capability-organization-directory = "=0.2.0"
lenso-capability-organization-membership = "=0.2.0"
lenso-capability-organization-membership-admin = "=0.3.0"
lenso-capability-secrets = "=0.1.4"
lenso-kernel = "=0.3.13"
lenso-postgres-kit = "=0.1.1"
serde = { version = "=1.0.229", features = ["derive"] }
serde_json = "=1.0.154"
sha2 = "=0.10.9"
sqlx = { version = "=0.9.0", default-features = false, features = ["postgres", "runtime-tokio", "uuid", "time", "json"] }
thiserror = "2"
time = { version = "=0.3.55", features = ["formatting", "parsing", "serde"] }
url = "=2.5.8"
uuid = { version = "=1.29.0", features = ["serde", "v4"] }
zeroize = "=1.9.1"
