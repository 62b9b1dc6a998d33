//! Authentication, authorization and encrypted-secret metadata.
//!
//! Password, token, encryption and signature algorithms live elsewhere: this
//! module only decides about the typed records that they produce.

use vstd::prelude::*;

use crate::domain::{duplicate_text, Id, VaultContext};
use crate::error::{accepted_if, invalid, StateError};
use crate::order::{is_page, keys, keys_of, page, Keyed, SortKey};
use crate::text::text_eq;

pub mod laws;
pub mod queries;

verus! {

/// Persisted authenticated-encryption record. The plaintext is never present.
#[derive(Clone, PartialEq, Eq)]
pub struct EncryptedSecretRecord {
    /// Stable secret record identity.
    pub id: Id,
    /// Stable purpose used as associated data.
    pub purpose: String,
    /// Non-secret owner category.
    pub owner_type: String,
    /// Optional non-secret owner identity.
    pub owner_id: Option<String>,
    /// Master-key version used for this ciphertext.
    pub key_version: u32,
    /// Encryption nonce.
    pub nonce: Vec<u8>,
    /// Authenticated ciphertext including its tag.
    pub ciphertext: Vec<u8>,
    /// Optional masked hint safe for an admin response.
    pub hint: Option<String>,
    /// Creation timestamp in UTC Unix milliseconds.
    pub created_at: i64,
    /// Last ciphertext update timestamp.
    pub updated_at: i64,
}

/// An encrypted secret as stored.
#[derive(Clone, PartialEq, Eq)]
pub struct EncryptedSecretRow {
    pub id: String,
    pub purpose: String,
    pub owner_type: String,
    pub owner_id: Option<String>,
    pub key_version: i64,
    pub nonce: Vec<u8>,
    pub ciphertext: Vec<u8>,
    pub hint: Option<String>,
    pub created_at: i64,
    pub updated_at: i64,
}

impl EncryptedSecretRow {
    /// The record that the row holds, or why it cannot be read.
    pub open spec fn decoded(self) -> Result<EncryptedSecretRecord, StateError> {
        if !(0 <= self.key_version <= u32::MAX) {
            invalid("secret key version is invalid")
        } else {
            Ok(
                EncryptedSecretRecord {
                    id: Id { text: self.id },
                    purpose: self.purpose,
                    owner_type: self.owner_type,
                    owner_id: self.owner_id,
                    key_version: self.key_version as u32,
                    nonce: self.nonce,
                    ciphertext: self.ciphertext,
                    hint: self.hint,
                    created_at: self.created_at,
                    updated_at: self.updated_at,
                },
            )
        }
    }
}

/// Reads a stored row.
pub fn row_to_secret(row: EncryptedSecretRow) -> (r: Result<EncryptedSecretRecord, StateError>)
    ensures
        r == row.decoded(),
{
    if row.key_version < 0 || row.key_version > u32::MAX as i64 {
        return Err(StateError::InvalidInput("secret key version is invalid"));
    }
    Ok(
        EncryptedSecretRecord {
            id: Id { text: row.id },
            purpose: row.purpose,
            owner_type: row.owner_type,
            owner_id: row.owner_id,
            key_version: row.key_version as u32,
            nonce: row.nonce,
            ciphertext: row.ciphertext,
            hint: row.hint,
            created_at: row.created_at,
            updated_at: row.updated_at,
        },
    )
}

/// Secret metadata that is safe to print.
#[derive(Clone, Debug, PartialEq, Eq)]
pub struct SecretView {
    /// Stable secret record identity.
    pub id: Id,
    /// Stable purpose used as associated data.
    pub purpose: String,
    /// Non-secret owner category.
    pub owner_type: String,
    /// Optional non-secret owner identity.
    pub owner_id: Option<String>,
    /// Master-key version used for this ciphertext.
    pub key_version: u32,
    /// Whether a ciphertext is stored.
    pub has_ciphertext: bool,
    /// Optional masked hint safe for an admin response.
    pub hint: Option<String>,
    /// Creation timestamp in UTC Unix milliseconds.
    pub created_at: i64,
    /// Last ciphertext update timestamp.
    pub updated_at: i64,
}

impl EncryptedSecretRecord {
    /// The record without its secret material.
    pub open spec fn safe_view(self) -> SecretView {
        SecretView {
            id: self.id,
            purpose: self.purpose,
            owner_type: self.owner_type,
            owner_id: self.owner_id,
            key_version: self.key_version,
            has_ciphertext: self.ciphertext@.len() > 0,
            hint: self.hint,
            created_at: self.created_at,
            updated_at: self.updated_at,
        }
    }

    /// The record without its secret material.
    pub fn redacted(&self) -> (r: SecretView)
        ensures
            r == self.safe_view(),
    {
        SecretView {
            id: self.id.duplicate(),
            purpose: self.purpose.clone(),
            owner_type: self.owner_type.clone(),
            owner_id: duplicate_text(&self.owner_id),
            key_version: self.key_version,
            has_ciphertext: self.ciphertext.len() > 0,
            hint: duplicate_text(&self.hint),
            created_at: self.created_at,
            updated_at: self.updated_at,
        }
    }
}

/// Persisted admin identity.
#[derive(Clone, PartialEq, Eq)]
pub struct AdminUserRecord {
    /// Stable admin user identity.
    pub id: Id,
    /// Normalized login name.
    pub username: String,
    /// Password hash string.
    pub password_hash: String,
    /// Disabled identities cannot create or use sessions.
    pub disabled: bool,
    /// Last password-change timestamp.
    pub password_changed_at: i64,
    /// Creation timestamp.
    pub created_at: i64,
    /// Last identity update timestamp.
    pub updated_at: i64,
}

/// An admin identity as stored.
#[derive(Clone, PartialEq, Eq)]
pub struct AdminUserRow {
    pub id: String,
    pub username: String,
    pub password_hash: String,
    pub disabled: i64,
    pub password_changed_at: i64,
    pub created_at: i64,
    pub updated_at: i64,
}

impl AdminUserRow {
    /// The record that the row holds, or why it cannot be read.
    pub open spec fn decoded(self) -> Result<AdminUserRecord, StateError> {
            Ok(
                AdminUserRecord {
                    id: Id { text: self.id },
                    username: self.username,
                    password_hash: self.password_hash,
                    disabled: self.disabled != 0,
                    password_changed_at: self.password_changed_at,
                    created_at: self.created_at,
                    updated_at: self.updated_at,
                },
            )
    }
}

/// Reads a stored row.
pub fn row_to_admin_user(row: AdminUserRow) -> (r: Result<AdminUserRecord, StateError>)
    ensures
        r == row.decoded(),
{
    Ok(
        AdminUserRecord {
            id: Id { text: row.id },
            username: row.username,
            password_hash: row.password_hash,
            disabled: row.disabled != 0,
            password_changed_at: row.password_changed_at,
            created_at: row.created_at,
            updated_at: row.updated_at,
        },
    )
}

/// Admin identity that is safe to print.
#[derive(Clone, Debug, PartialEq, Eq)]
pub struct AdminUserView {
    /// Stable admin user identity.
    pub id: Id,
    /// Normalized login name.
    pub username: String,
    /// Disabled identities cannot create or use sessions.
    pub disabled: bool,
    /// Last password-change timestamp.
    pub password_changed_at: i64,
    /// Creation timestamp.
    pub created_at: i64,
    /// Last identity update timestamp.
    pub updated_at: i64,
}

impl AdminUserRecord {
    /// The record without its secret material.
    pub open spec fn safe_view(self) -> AdminUserView {
        AdminUserView {
            id: self.id,
            username: self.username,
            disabled: self.disabled,
            password_changed_at: self.password_changed_at,
            created_at: self.created_at,
            updated_at: self.updated_at,
        }
    }

    /// The record without its secret material.
    pub fn redacted(&self) -> (r: AdminUserView)
        ensures
            r == self.safe_view(),
    {
        AdminUserView {
            id: self.id.duplicate(),
            username: self.username.clone(),
            disabled: self.disabled,
            password_changed_at: self.password_changed_at,
            created_at: self.created_at,
            updated_at: self.updated_at,
        }
    }
}

/// Persisted opaque admin session metadata.
#[derive(Clone, PartialEq, Eq)]
pub struct AdminSessionRecord {
    /// Stable session identity.
    pub id: Id,
    /// Owning admin identity.
    pub user_id: Id,
    /// Keyed digest of the opaque cookie token.
    pub token_digest: Vec<u8>,
    /// Keyed digest of the session-bound secret.
    pub csrf_secret_digest: Vec<u8>,
    /// Master-key version used for both digests.
    pub digest_key_version: u32,
    /// Creation timestamp.
    pub created_at: i64,
    /// Last validated use timestamp.
    pub last_seen_at: i64,
    /// Absolute expiry timestamp.
    pub expires_at: i64,
    /// Safe peer address captured by the adapter.
    pub source_ip: Option<String>,
    /// Digest of the user agent, never the raw header.
    pub user_agent_hash: Option<Vec<u8>>,
    /// Explicit revocation timestamp.
    pub revoked_at: Option<i64>,
}

/// An admin session as stored.
#[derive(Clone, PartialEq, Eq)]
pub struct AdminSessionRow {
    pub id: String,
    pub user_id: String,
    pub token_digest: Vec<u8>,
    pub csrf_secret_digest: Vec<u8>,
    pub digest_key_version: i64,
    pub created_at: i64,
    pub last_seen_at: i64,
    pub expires_at: i64,
    pub source_ip: Option<String>,
    pub user_agent_hash: Option<Vec<u8>>,
    pub revoked_at: Option<i64>,
}

impl AdminSessionRow {
    /// The record that the row holds, or why it cannot be read.
    pub open spec fn decoded(self) -> Result<AdminSessionRecord, StateError> {
        if !(0 <= self.digest_key_version <= u32::MAX) {
            invalid("session key version is invalid")
        } else {
            Ok(
                AdminSessionRecord {
                    id: Id { text: self.id },
                    user_id: Id { text: self.user_id },
                    token_digest: self.token_digest,
                    csrf_secret_digest: self.csrf_secret_digest,
                    digest_key_version: self.digest_key_version as u32,
                    created_at: self.created_at,
                    last_seen_at: self.last_seen_at,
                    expires_at: self.expires_at,
                    source_ip: self.source_ip,
                    user_agent_hash: self.user_agent_hash,
                    revoked_at: self.revoked_at,
                },
            )
        }
    }
}

/// Reads a stored row.
pub fn row_to_session(row: AdminSessionRow) -> (r: Result<AdminSessionRecord, StateError>)
    ensures
        r == row.decoded(),
{
    if row.digest_key_version < 0 || row.digest_key_version > u32::MAX as i64 {
        return Err(StateError::InvalidInput("session key version is invalid"));
    }
    Ok(
        AdminSessionRecord {
            id: Id { text: row.id },
            user_id: Id { text: row.user_id },
            token_digest: row.token_digest,
            csrf_secret_digest: row.csrf_secret_digest,
            digest_key_version: row.digest_key_version as u32,
            created_at: row.created_at,
            last_seen_at: row.last_seen_at,
            expires_at: row.expires_at,
            source_ip: row.source_ip,
            user_agent_hash: row.user_agent_hash,
            revoked_at: row.revoked_at,
        },
    )
}

/// Session metadata that is safe to print.
#[derive(Clone, Debug, PartialEq, Eq)]
pub struct AdminSessionView {
    /// Stable session identity.
    pub id: Id,
    /// Owning admin identity.
    pub user_id: Id,
    /// Master-key version used for both digests.
    pub digest_key_version: u32,
    /// Creation timestamp.
    pub created_at: i64,
    /// Last validated use timestamp.
    pub last_seen_at: i64,
    /// Absolute expiry timestamp.
    pub expires_at: i64,
    /// Safe peer address captured by the adapter.
    pub source_ip: Option<String>,
    /// Whether a user agent digest is stored.
    pub has_user_agent_hash: bool,
    /// Explicit revocation timestamp.
    pub revoked_at: Option<i64>,
}

impl AdminSessionRecord {
    /// The record without its secret material.
    pub open spec fn safe_view(self) -> AdminSessionView {
        AdminSessionView {
            id: self.id,
            user_id: self.user_id,
            digest_key_version: self.digest_key_version,
            created_at: self.created_at,
            last_seen_at: self.last_seen_at,
            expires_at: self.expires_at,
            source_ip: self.source_ip,
            has_user_agent_hash: self.user_agent_hash is Some,
            revoked_at: self.revoked_at,
        }
    }

    /// The record without its secret material.
    pub fn redacted(&self) -> (r: AdminSessionView)
        ensures
            r == self.safe_view(),
    {
        AdminSessionView {
            id: self.id.duplicate(),
            user_id: self.user_id.duplicate(),
            digest_key_version: self.digest_key_version,
            created_at: self.created_at,
            last_seen_at: self.last_seen_at,
            expires_at: self.expires_at,
            source_ip: duplicate_text(&self.source_ip),
            has_user_agent_hash: self.user_agent_hash.is_some(),
            revoked_at: self.revoked_at,
        }
    }
}

/// Vault-bound WebDAV app credential.
#[derive(Clone, PartialEq, Eq)]
pub struct WebDavCredentialRecord {
    /// Stable credential identity.
    pub id: Id,
    /// Isolation boundary.
    pub vault_id: Id,
    /// Admin-visible device or client name.
    pub name: String,
    /// Login name.
    pub username: String,
    /// Password hash string.
    pub password_hash: String,
    /// Serialized validated permission set.
    pub permissions_json: String,
    /// Creation timestamp.
    pub created_at: i64,
    /// Last successful verification timestamp.
    pub last_used_at: Option<i64>,
    /// Optional expiry timestamp.
    pub expires_at: Option<i64>,
    /// Explicit revocation timestamp.
    pub revoked_at: Option<i64>,
}

/// A WebDAV credential as stored.
#[derive(Clone, PartialEq, Eq)]
pub struct WebDavCredentialRow {
    pub id: String,
    pub vault_id: String,
    pub name: String,
    pub username: String,
    pub password_hash: String,
    pub permissions_json: String,
    pub created_at: i64,
    pub last_used_at: Option<i64>,
    pub expires_at: Option<i64>,
    pub revoked_at: Option<i64>,
}

impl WebDavCredentialRow {
    /// The record that the row holds, or why it cannot be read.
    pub open spec fn decoded(self) -> Result<WebDavCredentialRecord, StateError> {
            Ok(
                WebDavCredentialRecord {
                    id: Id { text: self.id },
                    vault_id: Id { text: self.vault_id },
                    name: self.name,
                    username: self.username,
                    password_hash: self.password_hash,
                    permissions_json: self.permissions_json,
                    created_at: self.created_at,
                    last_used_at: self.last_used_at,
                    expires_at: self.expires_at,
                    revoked_at: self.revoked_at,
                },
            )
    }
}

/// Reads a stored row.
pub fn row_to_webdav(row: WebDavCredentialRow) -> (r: Result<WebDavCredentialRecord, StateError>)
    ensures
        r == row.decoded(),
{
    Ok(
        WebDavCredentialRecord {
            id: Id { text: row.id },
            vault_id: Id { text: row.vault_id },
            name: row.name,
            username: row.username,
            password_hash: row.password_hash,
            permissions_json: row.permissions_json,
            created_at: row.created_at,
            last_used_at: row.last_used_at,
            expires_at: row.expires_at,
            revoked_at: row.revoked_at,
        },
    )
}

/// Credential metadata without the password hash.
#[derive(Clone, Debug, PartialEq, Eq)]
pub struct WebDavCredentialView {
    /// Stable credential identity.
    pub id: Id,
    /// Isolation boundary.
    pub vault_id: Id,
    /// Admin-visible device or client name.
    pub name: String,
    /// Login name.
    pub username: String,
    /// Serialized validated permission set.
    pub permissions_json: String,
    /// Creation timestamp.
    pub created_at: i64,
    /// Last successful verification timestamp.
    pub last_used_at: Option<i64>,
    /// Optional expiry timestamp.
    pub expires_at: Option<i64>,
    /// Explicit revocation timestamp.
    pub revoked_at: Option<i64>,
}

impl WebDavCredentialRecord {
    /// The record without its secret material.
    pub open spec fn safe_view(self) -> WebDavCredentialView {
        WebDavCredentialView {
            id: self.id,
            vault_id: self.vault_id,
            name: self.name,
            username: self.username,
            permissions_json: self.permissions_json,
            created_at: self.created_at,
            last_used_at: self.last_used_at,
            expires_at: self.expires_at,
            revoked_at: self.revoked_at,
        }
    }

    /// The record without its secret material.
    pub fn redacted(&self) -> (r: WebDavCredentialView)
        ensures
            r == self.safe_view(),
    {
        WebDavCredentialView {
            id: self.id.duplicate(),
            vault_id: self.vault_id.duplicate(),
            name: self.name.clone(),
            username: self.username.clone(),
            permissions_json: self.permissions_json.clone(),
            created_at: self.created_at,
            last_used_at: self.last_used_at,
            expires_at: self.expires_at,
            revoked_at: self.revoked_at,
        }
    }
}

/// Vault-bound access token metadata. The plaintext token is never stored.
#[derive(Clone, PartialEq, Eq)]
pub struct McpTokenRecord {
    /// Stable credential identity.
    pub id: Id,
    /// Isolation boundary.
    pub vault_id: Id,
    /// Admin-visible token name.
    pub name: String,
    /// Visible lookup prefix.
    pub token_prefix: String,
    /// Installation-keyed token digest.
    pub token_digest: Vec<u8>,
    /// Master-key version used for the keyed token digest.
    pub digest_key_version: u32,
    /// Serialized validated scope set.
    pub scopes_json: String,
    /// Creation timestamp.
    pub created_at: i64,
    /// Last successful verification timestamp.
    pub last_used_at: Option<i64>,
    /// Optional expiry timestamp.
    pub expires_at: Option<i64>,
    /// Explicit revocation timestamp.
    pub revoked_at: Option<i64>,
}

/// An access token as stored.
#[derive(Clone, PartialEq, Eq)]
pub struct McpTokenRow {
    pub id: String,
    pub vault_id: String,
    pub name: String,
    pub token_prefix: String,
    pub token_digest: Vec<u8>,
    pub digest_key_version: i64,
    pub scopes_json: String,
    pub created_at: i64,
    pub last_used_at: Option<i64>,
    pub expires_at: Option<i64>,
    pub revoked_at: Option<i64>,
}

impl McpTokenRow {
    /// The record that the row holds, or why it cannot be read.
    pub open spec fn decoded(self) -> Result<McpTokenRecord, StateError> {
        if !(0 <= self.digest_key_version <= u32::MAX) {
            invalid("token key version is invalid")
        } else {
            Ok(
                McpTokenRecord {
                    id: Id { text: self.id },
                    vault_id: Id { text: self.vault_id },
                    name: self.name,
                    token_prefix: self.token_prefix,
                    token_digest: self.token_digest,
                    digest_key_version: self.digest_key_version as u32,
                    scopes_json: self.scopes_json,
                    created_at: self.created_at,
                    last_used_at: self.last_used_at,
                    expires_at: self.expires_at,
                    revoked_at: self.revoked_at,
                },
            )
        }
    }
}

/// Reads a stored row.
pub fn row_to_mcp(row: McpTokenRow) -> (r: Result<McpTokenRecord, StateError>)
    ensures
        r == row.decoded(),
{
    if row.digest_key_version < 0 || row.digest_key_version > u32::MAX as i64 {
        return Err(StateError::InvalidInput("token key version is invalid"));
    }
    Ok(
        McpTokenRecord {
            id: Id { text: row.id },
            vault_id: Id { text: row.vault_id },
            name: row.name,
            token_prefix: row.token_prefix,
            token_digest: row.token_digest,
            digest_key_version: row.digest_key_version as u32,
            scopes_json: row.scopes_json,
            created_at: row.created_at,
            last_used_at: row.last_used_at,
            expires_at: row.expires_at,
            revoked_at: row.revoked_at,
        },
    )
}

/// Token metadata without the token digest.
#[derive(Clone, Debug, PartialEq, Eq)]
pub struct McpTokenView {
    /// Stable credential identity.
    pub id: Id,
    /// Isolation boundary.
    pub vault_id: Id,
    /// Admin-visible token name.
    pub name: String,
    /// Visible lookup prefix.
    pub token_prefix: String,
    /// Master-key version used for the keyed token digest.
    pub digest_key_version: u32,
    /// Serialized validated scope set.
    pub scopes_json: String,
    /// Creation timestamp.
    pub created_at: i64,
    /// Last successful verification timestamp.
    pub last_used_at: Option<i64>,
    /// Optional expiry timestamp.
    pub expires_at: Option<i64>,
    /// Explicit revocation timestamp.
    pub revoked_at: Option<i64>,
}

impl McpTokenRecord {
    /// The record without its secret material.
    pub open spec fn safe_view(self) -> McpTokenView {
        McpTokenView {
            id: self.id,
            vault_id: self.vault_id,
            name: self.name,
            token_prefix: self.token_prefix,
            digest_key_version: self.digest_key_version,
            scopes_json: self.scopes_json,
            created_at: self.created_at,
            last_used_at: self.last_used_at,
            expires_at: self.expires_at,
            revoked_at: self.revoked_at,
        }
    }

    /// The record without its secret material.
    pub fn redacted(&self) -> (r: McpTokenView)
        ensures
            r == self.safe_view(),
    {
        McpTokenView {
            id: self.id.duplicate(),
            vault_id: self.vault_id.duplicate(),
            name: self.name.clone(),
            token_prefix: self.token_prefix.clone(),
            digest_key_version: self.digest_key_version,
            scopes_json: self.scopes_json.clone(),
            created_at: self.created_at,
            last_used_at: self.last_used_at,
            expires_at: self.expires_at,
            revoked_at: self.revoked_at,
        }
    }
}

/// Configured OAuth resource-server issuer.
#[derive(Clone, PartialEq, Eq)]
pub struct OAuthIssuerRecord {
    /// Stable issuer identity.
    pub id: Id,
    /// Admin-visible name.
    pub name: String,
    /// Exact issuer claim value.
    pub issuer_url: String,
    /// Optional discovery address for a later refresh.
    pub discovery_url: Option<String>,
    /// Required audience value.
    pub audience: String,
    /// Required protected-resource value.
    pub resource: Option<String>,
    /// Cached key set used by local validation.
    pub jwks_cache_json: Option<String>,
    /// Timestamp of the cached key set.
    pub jwks_cached_at: Option<i64>,
    /// Disabled issuers cannot authorize requests.
    pub enabled: bool,
    /// Creation timestamp.
    pub created_at: i64,
    /// Last configuration update timestamp.
    pub updated_at: i64,
}

/// An issuer as stored.
#[derive(Clone, PartialEq, Eq)]
pub struct OAuthIssuerRow {
    pub id: String,
    pub name: String,
    pub issuer_url: String,
    pub discovery_url: Option<String>,
    pub audience: String,
    pub resource: Option<String>,
    pub jwks_cache_json: Option<String>,
    pub jwks_cached_at: Option<i64>,
    pub enabled: i64,
    pub created_at: i64,
    pub updated_at: i64,
}

impl OAuthIssuerRow {
    /// The record that the row holds, or why it cannot be read.
    pub open spec fn decoded(self) -> Result<OAuthIssuerRecord, StateError> {
            Ok(
                OAuthIssuerRecord {
                    id: Id { text: self.id },
                    name: self.name,
                    issuer_url: self.issuer_url,
                    discovery_url: self.discovery_url,
                    audience: self.audience,
                    resource: self.resource,
                    jwks_cache_json: self.jwks_cache_json,
                    jwks_cached_at: self.jwks_cached_at,
                    enabled: self.enabled != 0,
                    created_at: self.created_at,
                    updated_at: self.updated_at,
                },
            )
    }
}

/// Reads a stored row.
pub fn row_to_issuer(row: OAuthIssuerRow) -> (r: Result<OAuthIssuerRecord, StateError>)
    ensures
        r == row.decoded(),
{
    Ok(
        OAuthIssuerRecord {
            id: Id { text: row.id },
            name: row.name,
            issuer_url: row.issuer_url,
            discovery_url: row.discovery_url,
            audience: row.audience,
            resource: row.resource,
            jwks_cache_json: row.jwks_cache_json,
            jwks_cached_at: row.jwks_cached_at,
            enabled: row.enabled != 0,
            created_at: row.created_at,
            updated_at: row.updated_at,
        },
    )
}

/// Issuer configuration without cached key bodies.
#[derive(Clone, Debug, PartialEq, Eq)]
pub struct OAuthIssuerView {
    /// Stable issuer identity.
    pub id: Id,
    /// Admin-visible name.
    pub name: String,
    /// Exact issuer claim value.
    pub issuer_url: String,
    /// Optional discovery address for a later refresh.
    pub discovery_url: Option<String>,
    /// Required audience value.
    pub audience: String,
    /// Required protected-resource value.
    pub resource: Option<String>,
    /// Whether a key set is cached.
    pub has_jwks_cache: bool,
    /// Timestamp of the cached key set.
    pub jwks_cached_at: Option<i64>,
    /// Disabled issuers cannot authorize requests.
    pub enabled: bool,
    /// Creation timestamp.
    pub created_at: i64,
    /// Last configuration update timestamp.
    pub updated_at: i64,
}

impl OAuthIssuerRecord {
    /// The record without its secret material.
    pub open spec fn safe_view(self) -> OAuthIssuerView {
        OAuthIssuerView {
            id: self.id,
            name: self.name,
            issuer_url: self.issuer_url,
            discovery_url: self.discovery_url,
            audience: self.audience,
            resource: self.resource,
            has_jwks_cache: self.jwks_cache_json is Some,
            jwks_cached_at: self.jwks_cached_at,
            enabled: self.enabled,
            created_at: self.created_at,
            updated_at: self.updated_at,
        }
    }

    /// The record without its secret material.
    pub fn redacted(&self) -> (r: OAuthIssuerView)
        ensures
            r == self.safe_view(),
    {
        OAuthIssuerView {
            id: self.id.duplicate(),
            name: self.name.clone(),
            issuer_url: self.issuer_url.clone(),
            discovery_url: duplicate_text(&self.discovery_url),
            audience: self.audience.clone(),
            resource: duplicate_text(&self.resource),
            has_jwks_cache: self.jwks_cache_json.is_some(),
            jwks_cached_at: self.jwks_cached_at,
            enabled: self.enabled,
            created_at: self.created_at,
            updated_at: self.updated_at,
        }
    }
}

/// OAuth subject grant bound to exactly one vault.
#[derive(Clone, Debug, PartialEq, Eq)]
pub struct OAuthGrantRecord {
    /// Stable grant identity.
    pub id: Id,
    /// Issuer that authenticated the subject.
    pub issuer_id: Id,
    /// Exact token subject.
    pub subject: String,
    /// Isolation boundary.
    pub vault_id: Id,
    /// Serialized allowed scope set.
    pub scopes_json: String,
    /// Creation timestamp.
    pub created_at: i64,
    /// Last update timestamp.
    pub updated_at: i64,
    /// Explicit revocation timestamp.
    pub revoked_at: Option<i64>,
}

/// A grant as stored.
#[derive(Clone, Debug, PartialEq, Eq)]
pub struct OAuthGrantRow {
    pub id: String,
    pub issuer_id: String,
    pub subject: String,
    pub vault_id: String,
    pub scopes_json: String,
    pub created_at: i64,
    pub updated_at: i64,
    pub revoked_at: Option<i64>,
}

impl OAuthGrantRow {
    /// The record that the row holds, or why it cannot be read.
    pub open spec fn decoded(self) -> Result<OAuthGrantRecord, StateError> {
            Ok(
                OAuthGrantRecord {
                    id: Id { text: self.id },
                    issuer_id: Id { text: self.issuer_id },
                    subject: self.subject,
                    vault_id: Id { text: self.vault_id },
                    scopes_json: self.scopes_json,
                    created_at: self.created_at,
                    updated_at: self.updated_at,
                    revoked_at: self.revoked_at,
                },
            )
    }
}

/// Reads a stored row.
pub fn row_to_grant(row: OAuthGrantRow) -> (r: Result<OAuthGrantRecord, StateError>)
    ensures
        r == row.decoded(),
{
    Ok(
        OAuthGrantRecord {
            id: Id { text: row.id },
            issuer_id: Id { text: row.issuer_id },
            subject: row.subject,
            vault_id: Id { text: row.vault_id },
            scopes_json: row.scopes_json,
            created_at: row.created_at,
            updated_at: row.updated_at,
            revoked_at: row.revoked_at,
        },
    )
}

/// Checks a one-way key verifier before it is stored.
pub fn validate_key_check(key_version: u32, verification_digest: &[u8]) -> (r: Result<
    (),
    StateError,
>)
    ensures
        r == accepted_if(
            key_version != 0 && verification_digest@.len() == 32,
            "installation key check is invalid",
        ),
{
    if key_version == 0 || verification_digest.len() != 32 {
        return Err(StateError::InvalidInput("installation key check is invalid"));
    }
    Ok(())
}

/// Persist a one-way key verifier without replacing an existing value.
pub fn key_check_to_keep(existing: Option<Vec<u8>>, proposed: Vec<u8>) -> (r: Vec<u8>)
    ensures
        r == (match existing {
            Some(existing) => existing,
            None => proposed,
        }),
{
    match existing {
        Some(existing) => existing,
        None => proposed,
    }
}

/// Replace ciphertext and key metadata without changing the secret's identity,
/// purpose or owner.
pub fn update_secret_ciphertext(
    secret: Option<EncryptedSecretRecord>,
    key_version: u32,
    nonce: Vec<u8>,
    ciphertext: Vec<u8>,
    hint: Option<String>,
    now: i64,
) -> (r: Result<EncryptedSecretRecord, StateError>)
    ensures
        r == (match secret {
            Some(secret) => Ok::<EncryptedSecretRecord, StateError>(
                EncryptedSecretRecord { key_version, nonce, ciphertext, hint, updated_at: now, ..secret },
            ),
            None => invalid("secret does not exist"),
        }),
{
    match secret {
        Some(secret) => Ok(
            EncryptedSecretRecord { key_version, nonce, ciphertext, hint, updated_at: now, ..secret },
        ),
        None => Err(StateError::InvalidInput("secret does not exist")),
    }
}

/// A new admin identity.
pub fn insert_admin_user(id: Id, username: String, password_hash: String, now: i64) -> (r: AdminUserRecord)
    ensures
        r == (AdminUserRecord {
            id,
            username,
            password_hash,
            disabled: false,
            password_changed_at: now,
            created_at: now,
            updated_at: now,
        }),
{
    AdminUserRecord {
        id,
        username,
        password_hash,
        disabled: false,
        password_changed_at: now,
        created_at: now,
        updated_at: now,
    }
}

/// Create the sole first-run admin identity: only where no identity exists.
pub fn insert_first_admin_user(
    has_admin_users: bool,
    id: Id,
    username: String,
    password_hash: String,
    now: i64,
) -> (r: Option<AdminUserRecord>)
    ensures
        r == (if has_admin_users {
            None::<AdminUserRecord>
        } else {
            Some(
                (AdminUserRecord {
                    id,
                    username,
                    password_hash,
                    disabled: false,
                    password_changed_at: now,
                    created_at: now,
                    updated_at: now,
                }),
            )
        }),
{
    if has_admin_users {
        None
    } else {
        Some(insert_admin_user(id, username, password_hash, now))
    }
}

/// Replace a password hash and timestamp.
pub fn update_admin_password(user: Option<AdminUserRecord>, password_hash: String, now: i64) -> (r: Result<
    AdminUserRecord,
    StateError,
>)
    ensures
        r == (match user {
            Some(user) => Ok::<AdminUserRecord, StateError>(
                AdminUserRecord { password_hash, password_changed_at: now, updated_at: now, ..user },
            ),
            None => invalid("Admin user does not exist"),
        }),
{
    match user {
        Some(user) => Ok(
            AdminUserRecord { password_hash, password_changed_at: now, updated_at: now, ..user },
        ),
        None => Err(StateError::InvalidInput("Admin user does not exist")),
    }
}

/// The revocation time that a record keeps: the first one.
pub open spec fn first_revocation(revoked_at: Option<i64>, now: i64) -> Option<i64> {
    match revoked_at {
        Some(at) => Some(at),
        None => Some(now),
    }
}

/// The revocation time that a record keeps: the first one.
pub fn revoke(revoked_at: Option<i64>, now: i64) -> (r: Option<i64>)
    ensures
        r == first_revocation(revoked_at, now),
{
    match revoked_at {
        Some(at) => Some(at),
        None => Some(now),
    }
}

/// Revocation is final and idempotent: whatever comes later, the first
/// revocation time stays.
pub proof fn law_revocation_is_idempotent(revoked_at: Option<i64>, now: i64, later: i64)
    ensures
        first_revocation(revoked_at, now) is Some,
        first_revocation(first_revocation(revoked_at, now), later) == first_revocation(
            revoked_at,
            now,
        ),
{
}

/// Touch a session without changing its expiry policy.
pub fn touch_admin_session(session: AdminSessionRecord, last_seen_at: i64) -> (r: AdminSessionRecord)
    ensures
        r == (AdminSessionRecord { last_seen_at, ..session }),
{
    AdminSessionRecord { last_seen_at, ..session }
}

/// Revoke one session.
pub fn revoke_admin_session(session: AdminSessionRecord, now: i64) -> (r: AdminSessionRecord)
    ensures
        r == (AdminSessionRecord { revoked_at: first_revocation(session.revoked_at, now), ..session }),
{
    AdminSessionRecord { revoked_at: revoke(session.revoked_at, now), ..session }
}

/// Sessions after all sessions of a user are revoked.
pub open spec fn sessions_revoked(
    sessions: Seq<AdminSessionRecord>,
    user_id: Seq<char>,
    now: i64,
) -> Seq<AdminSessionRecord> {
    sessions.map_values(
        |session: AdminSessionRecord|
            if session.user_id@ == user_id {
                AdminSessionRecord {
                    revoked_at: first_revocation(session.revoked_at, now),
                    ..session
                }
            } else {
                session
            },
    )
}

/// Revoke every session of an admin identity, e.g. after a password change.
pub fn revoke_admin_sessions(sessions: Vec<AdminSessionRecord>, user_id: &Id, now: i64) -> (r: Vec<
    AdminSessionRecord,
>)
    ensures
        r@ == sessions_revoked(sessions@, user_id@, now),
{
    let ghost all = sessions@;
    let mut rest = sessions;
    let n: usize = rest.len();
    let mut after: Vec<AdminSessionRecord> = Vec::new();
    let mut i: usize = 0;
    assert(rest@ =~= all.skip(0));
    while i < n
        invariant
            i <= n == all.len(),
            rest@ == all.skip(i as int),
            after@ == sessions_revoked(all.take(i as int), user_id@, now),
        decreases n - i,
    {
        let session = rest.remove(0);
        if session.user_id.same(user_id) {
            after.push(revoke_admin_session(session, now));
        } else {
            after.push(session);
        }
        i += 1;
        assert(rest@ =~= all.skip(i as int));
        assert(after@ =~= sessions_revoked(all.take(i as int), user_id@, now));
    }
    assert(all.take(n as int) =~= all);
    after
}

/// After a user's sessions are revoked none of them is live, and no other
/// user's session has changed.
pub proof fn law_all_sessions_of_user_revoked(
    sessions: Seq<AdminSessionRecord>,
    user_id: Seq<char>,
    now: i64,
    i: int,
)
    requires
        0 <= i < sessions.len(),
    ensures
        sessions[i].user_id@ == user_id ==> sessions_revoked(sessions, user_id, now)[i].revoked_at
            is Some,
        sessions[i].user_id@ != user_id ==> sessions_revoked(sessions, user_id, now)[i]
            == sessions[i],
{
}

/// Insert a vault-bound WebDAV credential.
pub fn insert_webdav_credential(
    context: &VaultContext,
    id: Id,
    name: String,
    username: String,
    password_hash: String,
    permissions_json: String,
    expires_at: Option<i64>,
    now: i64,
) -> (r: WebDavCredentialRecord)
    ensures
        r == (WebDavCredentialRecord {
            id,
            vault_id: context.id,
            name,
            username,
            password_hash,
            permissions_json,
            created_at: now,
            last_used_at: None,
            expires_at,
            revoked_at: None,
        }),
{
    WebDavCredentialRecord {
        id,
        vault_id: context.id.duplicate(),
        name,
        username,
        password_hash,
        permissions_json,
        created_at: now,
        last_used_at: None,
        expires_at,
        revoked_at: None,
    }
}

/// Update non-secret WebDAV credential metadata inside one vault.
pub fn update_webdav_credential(
    context: &VaultContext,
    credential: Option<WebDavCredentialRecord>,
    name: String,
    permissions_json: String,
    expires_at: Option<i64>,
) -> (r: Result<WebDavCredentialRecord, StateError>)
    ensures
        r == (if credential is Some && credential->0.vault_id@ == context.id@ {
            Ok::<WebDavCredentialRecord, StateError>(
                (WebDavCredentialRecord { name, permissions_json, expires_at, ..credential->0 }),
            )
        } else {
            invalid("WebDAV credential does not exist")
        }),
{
    match credential {
        Some(credential) if credential.vault_id.same(&context.id) => Ok(
            WebDavCredentialRecord { name, permissions_json, expires_at, ..credential },
        ),
        _ => Err(StateError::InvalidInput("WebDAV credential does not exist")),
    }
}

/// Record a use of a WebDAV credential: only inside its vault.
pub fn touch_webdav_credential(
    context: &VaultContext,
    credential: WebDavCredentialRecord,
    last_used_at: i64,
) -> (r: WebDavCredentialRecord)
    ensures
        r == (if credential.vault_id@ == context.id@ {
            WebDavCredentialRecord { last_used_at: Some(last_used_at), ..credential }
        } else {
            credential
        }),
{
    if credential.vault_id.same(&context.id) {
        WebDavCredentialRecord { last_used_at: Some(last_used_at), ..credential }
    } else {
        credential
    }
}

/// Revoke one WebDAV credential: only inside its vault.
pub fn revoke_webdav_credential(
    context: &VaultContext,
    credential: WebDavCredentialRecord,
    now: i64,
) -> (r: WebDavCredentialRecord)
    ensures
        r == (if credential.vault_id@ == context.id@ {
            WebDavCredentialRecord {
                revoked_at: first_revocation(credential.revoked_at, now),
                ..credential
            }
        } else {
            credential
        }),
{
    if credential.vault_id.same(&context.id) {
        WebDavCredentialRecord { revoked_at: revoke(credential.revoked_at, now), ..credential }
    } else {
        credential
    }
}

impl Keyed for WebDavCredentialRecord {
    open spec fn key(self) -> SortKey {
        SortKey { first: (0 - self.created_at) as i128, second: 0, third: 0, id: self.id.text }
    }

    fn sort_key(&self) -> (k: SortKey) {
        SortKey {
            first: -(self.created_at as i128),
            second: 0,
            third: 0,
            id: self.id.text.clone(),
        }
    }
}

/// Which credentials belong to the vault.
pub open spec fn webdav_in_vault(records: Seq<WebDavCredentialRecord>, vault: Seq<char>) -> Seq<
    bool,
> {
    records.map_values(|record: WebDavCredentialRecord| record.vault_id@ == vault)
}

/// List WebDAV credential metadata of one vault, newest first and without
/// password hashes.
pub fn list_webdav_credentials(
    context: &VaultContext,
    records: &[WebDavCredentialRecord],
    limit: u32,
) -> (r: Result<Vec<WebDavCredentialView>, StateError>)
    ensures
        if !(1 <= limit <= 1000) {
            r == invalid::<Vec<WebDavCredentialView>>("WebDAV credential page is invalid")
        } else {
            r matches Ok(views) && exists|picked: Seq<usize>|
                {
                    &&& #[trigger] is_page(
                        keys(records@),
                        webdav_in_vault(records@, context.id@),
                        false,
                        limit as nat,
                        0,
                        picked,
                    )
                    &&& views@ == Seq::new(
                        picked.len(),
                        |i: int| records@[picked[i] as int].safe_view(),
                    )
                }
        },
{
    if limit == 0 || limit > 1000 {
        return Err(StateError::InvalidInput("WebDAV credential page is invalid"));
    }
    let order_keys = keys_of(records);
    let mut eligible: Vec<bool> = Vec::new();
    let mut i: usize = 0;
    while i < records.len()
        invariant
            i <= records@.len(),
            eligible@ == webdav_in_vault(records@, context.id@).take(i as int),
        decreases records@.len() - i,
    {
        eligible.push(records[i].vault_id.same(&context.id));
        i += 1;
        assert(eligible@ =~= webdav_in_vault(records@, context.id@).take(i as int));
    }
    assert(eligible@ =~= webdav_in_vault(records@, context.id@));
    let picked = page(order_keys.as_slice(), eligible.as_slice(), false, limit, 0);
    proof {
        crate::order::law_page_is_bounded(
            keys(records@),
            webdav_in_vault(records@, context.id@),
            false,
            limit as nat,
            0,
            picked@,
        );
    }
    let mut views: Vec<WebDavCredentialView> = Vec::new();
    let mut n: usize = 0;
    while n < picked.len()
        invariant
            n <= picked@.len(),
            forall|k: int| 0 <= k < picked@.len() ==> (#[trigger] picked@[k]) < records@.len(),
            views@ == Seq::new(n as nat, |k: int| records@[picked@[k] as int].safe_view()),
        decreases picked@.len() - n,
    {
        views.push(records[picked[n]].redacted());
        n += 1;
        assert(views@ =~= Seq::new(n as nat, |k: int| records@[picked@[k] as int].safe_view()));
    }
    Ok(views)
}

/// Insert vault-bound access token metadata.
pub fn insert_mcp_token(
    context: &VaultContext,
    id: Id,
    name: String,
    token_prefix: String,
    token_digest: Vec<u8>,
    digest_key_version: u32,
    scopes_json: String,
    expires_at: Option<i64>,
    now: i64,
) -> (r: McpTokenRecord)
    ensures
        r == (McpTokenRecord {
            id,
            vault_id: context.id,
            name,
            token_prefix,
            token_digest,
            digest_key_version,
            scopes_json,
            created_at: now,
            last_used_at: None,
            expires_at,
            revoked_at: None,
        }),
{
    McpTokenRecord {
        id,
        vault_id: context.id.duplicate(),
        name,
        token_prefix,
        token_digest,
        digest_key_version,
        scopes_json,
        created_at: now,
        last_used_at: None,
        expires_at,
        revoked_at: None,
    }
}

/// Record a use of an access token: only inside its vault.
pub fn touch_mcp_token(context: &VaultContext, token: McpTokenRecord, last_used_at: i64) -> (r: McpTokenRecord)
    ensures
        r == (if token.vault_id@ == context.id@ {
            McpTokenRecord { last_used_at: Some(last_used_at), ..token }
        } else {
            token
        }),
{
    if token.vault_id.same(&context.id) {
        McpTokenRecord { last_used_at: Some(last_used_at), ..token }
    } else {
        token
    }
}

/// Revoke one access token: only inside its vault.
pub fn revoke_mcp_token(context: &VaultContext, token: McpTokenRecord, now: i64) -> (r: McpTokenRecord)
    ensures
        r == (if token.vault_id@ == context.id@ {
            McpTokenRecord { revoked_at: first_revocation(token.revoked_at, now), ..token }
        } else {
            token
        }),
{
    if token.vault_id.same(&context.id) {
        McpTokenRecord { revoked_at: revoke(token.revoked_at, now), ..token }
    } else {
        token
    }
}

impl Keyed for McpTokenRecord {
    open spec fn key(self) -> SortKey {
        SortKey { first: (0 - self.created_at) as i128, second: 0, third: 0, id: self.id.text }
    }

    fn sort_key(&self) -> (k: SortKey) {
        SortKey {
            first: -(self.created_at as i128),
            second: 0,
            third: 0,
            id: self.id.text.clone(),
        }
    }
}

/// Which tokens belong to the vault.
pub open spec fn tokens_in_vault(records: Seq<McpTokenRecord>, vault: Seq<char>) -> Seq<bool> {
    records.map_values(|record: McpTokenRecord| record.vault_id@ == vault)
}

/// List vault-bound access token metadata, newest first and without token
/// digests.
pub fn list_mcp_tokens(context: &VaultContext, records: &[McpTokenRecord], limit: u32) -> (r: Result<
    Vec<McpTokenView>,
    StateError,
>)
    ensures
        if !(1 <= limit <= 1000) {
            r == invalid::<Vec<McpTokenView>>("MCP token page is invalid")
        } else {
            r matches Ok(views) && exists|picked: Seq<usize>|
                {
                    &&& #[trigger] is_page(
                        keys(records@),
                        tokens_in_vault(records@, context.id@),
                        false,
                        limit as nat,
                        0,
                        picked,
                    )
                    &&& views@ == Seq::new(
                        picked.len(),
                        |i: int| records@[picked[i] as int].safe_view(),
                    )
                }
        },
{
    if limit == 0 || limit > 1000 {
        return Err(StateError::InvalidInput("MCP token page is invalid"));
    }
    let order_keys = keys_of(records);
    let mut eligible: Vec<bool> = Vec::new();
    let mut i: usize = 0;
    while i < records.len()
        invariant
            i <= records@.len(),
            eligible@ == tokens_in_vault(records@, context.id@).take(i as int),
        decreases records@.len() - i,
    {
        eligible.push(records[i].vault_id.same(&context.id));
        i += 1;
        assert(eligible@ =~= tokens_in_vault(records@, context.id@).take(i as int));
    }
    assert(eligible@ =~= tokens_in_vault(records@, context.id@));
    let picked = page(order_keys.as_slice(), eligible.as_slice(), false, limit, 0);
    proof {
        crate::order::law_page_is_bounded(
            keys(records@),
            tokens_in_vault(records@, context.id@),
            false,
            limit as nat,
            0,
            picked@,
        );
    }
    let mut views: Vec<McpTokenView> = Vec::new();
    let mut n: usize = 0;
    while n < picked.len()
        invariant
            n <= picked@.len(),
            forall|k: int| 0 <= k < picked@.len() ==> (#[trigger] picked@[k]) < records@.len(),
            views@ == Seq::new(n as nat, |k: int| records@[picked@[k] as int].safe_view()),
        decreases picked@.len() - n,
    {
        views.push(records[picked[n]].redacted());
        n += 1;
        assert(views@ =~= Seq::new(n as nat, |k: int| records@[picked@[k] as int].safe_view()));
    }
    Ok(views)
}

/// An issuer configuration.
#[derive(Clone, PartialEq, Eq)]
pub struct IssuerConfiguration {
    pub name: String,
    pub issuer_url: String,
    pub discovery_url: Option<String>,
    pub audience: String,
    pub resource: Option<String>,
    pub jwks_cache_json: Option<String>,
    pub enabled: bool,
}

/// The issuer with the given configuration; a cached key set is stamped with
/// the time of the write.
pub open spec fn configured(
    id: Id,
    configuration: IssuerConfiguration,
    created_at: i64,
    now: i64,
) -> OAuthIssuerRecord {
    OAuthIssuerRecord {
        id,
        name: configuration.name,
        issuer_url: configuration.issuer_url,
        discovery_url: configuration.discovery_url,
        audience: configuration.audience,
        resource: configuration.resource,
        jwks_cache_json: configuration.jwks_cache_json,
        jwks_cached_at: if configuration.jwks_cache_json is Some {
            Some(now)
        } else {
            None
        },
        enabled: configuration.enabled,
        created_at,
        updated_at: now,
    }
}

fn configure(id: Id, configuration: IssuerConfiguration, created_at: i64, now: i64) -> (r: OAuthIssuerRecord)
    ensures
        r == configured(id, configuration, created_at, now),
{
    let jwks_cached_at = if configuration.jwks_cache_json.is_some() {
        Some(now)
    } else {
        None
    };
    OAuthIssuerRecord {
        id,
        name: configuration.name,
        issuer_url: configuration.issuer_url,
        discovery_url: configuration.discovery_url,
        audience: configuration.audience,
        resource: configuration.resource,
        jwks_cache_json: configuration.jwks_cache_json,
        jwks_cached_at,
        enabled: configuration.enabled,
        created_at,
        updated_at: now,
    }
}

/// Insert one issuer configuration.
pub fn insert_oauth_issuer(id: Id, configuration: IssuerConfiguration, now: i64) -> (r: OAuthIssuerRecord)
    ensures
        r == configured(id, configuration, now, now),
{
    configure(id, configuration, now, now)
}

/// Replace one issuer configuration while preserving its stable identity.
pub fn update_oauth_issuer(
    issuer: Option<OAuthIssuerRecord>,
    configuration: IssuerConfiguration,
    now: i64,
) -> (r: Result<OAuthIssuerRecord, StateError>)
    ensures
        r == (match issuer {
            Some(issuer) => Ok::<OAuthIssuerRecord, StateError>(
                configured(issuer.id, configuration, issuer.created_at, now),
            ),
            None => invalid("OAuth issuer does not exist"),
        }),
{
    match issuer {
        Some(issuer) => Ok(configure(issuer.id, configuration, issuer.created_at, now)),
        None => Err(StateError::InvalidInput("OAuth issuer does not exist")),
    }
}

/// A cached key set always carries the time at which it was stored, and a
/// timestamp never stands without one.
pub proof fn law_cached_keys_are_dated(
    id: Id,
    configuration: IssuerConfiguration,
    created_at: i64,
    now: i64,
)
    ensures
        configured(id, configuration, created_at, now).jwks_cached_at is Some <==> configured(
            id,
            configuration,
            created_at,
            now,
        ).jwks_cache_json is Some,
{
}

/// Checks the bound of a page of issuers.
pub fn validate_issuer_page(limit: u32) -> (r: Result<(), StateError>)
    ensures
        r == accepted_if(1 <= limit <= 1000, "OAuth issuer page is invalid"),
{
    if limit == 0 || limit > 1000 {
        return Err(StateError::InvalidInput("OAuth issuer page is invalid"));
    }
    Ok(())
}

/// Insert a vault-bound OAuth subject grant. A grant of the same issuer and
/// subject gets the new scopes and is no longer revoked. `existing` is the
/// stored grant with the same issuer, subject and vault.
pub fn insert_oauth_grant(
    context: &VaultContext,
    existing: Option<OAuthGrantRecord>,
    id: Id,
    issuer_id: Id,
    subject: String,
    scopes_json: String,
    now: i64,
) -> (r: OAuthGrantRecord)
    ensures
        r == (match existing {
            Some(grant) if grant.vault_id@ == context.id@ && grant.issuer_id@ == issuer_id@
                && grant.subject@ == subject@ => OAuthGrantRecord {
                scopes_json,
                revoked_at: None,
                updated_at: now,
                ..grant
            },
            _ => OAuthGrantRecord {
                id,
                issuer_id,
                subject,
                vault_id: context.id,
                scopes_json,
                created_at: now,
                updated_at: now,
                revoked_at: None,
            },
        }),
{
    match existing {
        Some(grant) if grant.vault_id.same(&context.id) && grant.issuer_id.same(&issuer_id)
            && text_eq(grant.subject.as_str(), subject.as_str()) => OAuthGrantRecord {
            scopes_json,
            revoked_at: None,
            updated_at: now,
            ..grant
        },
        _ => OAuthGrantRecord {
            id,
            issuer_id,
            subject,
            vault_id: context.id.duplicate(),
            scopes_json,
            created_at: now,
            updated_at: now,
            revoked_at: None,
        },
    }
}

/// Revoke one subject grant within its vault.
pub fn revoke_oauth_grant(context: &VaultContext, grant: Option<OAuthGrantRecord>, now: i64) -> (r: Result<
    OAuthGrantRecord,
    StateError,
>)
    ensures
        r == (if grant is Some && grant->0.vault_id@ == context.id@ {
            Ok::<OAuthGrantRecord, StateError>(
                (OAuthGrantRecord {
                    revoked_at: first_revocation(grant->0.revoked_at, now),
                    ..grant->0
                }),
            )
        } else {
            invalid("OAuth grant does not exist")
        }),
{
    match grant {
        Some(grant) if grant.vault_id.same(&context.id) => Ok(
            OAuthGrantRecord { revoked_at: revoke(grant.revoked_at, now), ..grant },
        ),
        _ => Err(StateError::InvalidInput("OAuth grant does not exist")),
    }
}

impl Keyed for OAuthGrantRecord {
    open spec fn key(self) -> SortKey {
        SortKey { first: (0 - self.created_at) as i128, second: 0, third: 0, id: self.id.text }
    }

    fn sort_key(&self) -> (k: SortKey) {
        SortKey {
            first: -(self.created_at as i128),
            second: 0,
            third: 0,
            id: self.id.text.clone(),
        }
    }
}

/// Which grants a vault's listing shows.
pub open spec fn listed_grants(
    records: Seq<OAuthGrantRecord>,
    vault: Seq<char>,
    include_revoked: bool,
) -> Seq<bool> {
    records.map_values(
        |record: OAuthGrantRecord|
            record.vault_id@ == vault && (include_revoked || record.revoked_at is None),
    )
}

/// List bounded OAuth grants of exactly one vault, newest first: the positions
/// of the page.
pub fn list_oauth_grants(
    context: &VaultContext,
    records: &[OAuthGrantRecord],
    include_revoked: bool,
    limit: u32,
) -> (r: Result<Vec<usize>, StateError>)
    ensures
        if !(1 <= limit <= 1000) {
            r == invalid::<Vec<usize>>("OAuth grant page is invalid")
        } else {
            r matches Ok(picked) && is_page(
                keys(records@),
                listed_grants(records@, context.id@, include_revoked),
                false,
                limit as nat,
                0,
                picked@,
            )
        },
{
    if limit == 0 || limit > 1000 {
        return Err(StateError::InvalidInput("OAuth grant page is invalid"));
    }
    let order_keys = keys_of(records);
    let mut eligible: Vec<bool> = Vec::new();
    let mut i: usize = 0;
    while i < records.len()
        invariant
            i <= records@.len(),
            eligible@ == listed_grants(records@, context.id@, include_revoked).take(i as int),
        decreases records@.len() - i,
    {
        let record = &records[i];
        eligible.push(
            record.vault_id.same(&context.id) && (include_revoked || record.revoked_at.is_none()),
        );
        i += 1;
        assert(eligible@ =~= listed_grants(records@, context.id@, include_revoked).take(i as int));
    }
    assert(eligible@ =~= listed_grants(records@, context.id@, include_revoked));
    Ok(page(order_keys.as_slice(), eligible.as_slice(), false, limit, 0))
}

/// What is printed of a credential does not depend on its secret material.
pub proof fn law_views_hide_secrets(
    user: AdminUserRecord,
    credential: WebDavCredentialRecord,
    token: McpTokenRecord,
    password_hash: String,
    token_digest: Vec<u8>,
)
    ensures
        (AdminUserRecord { password_hash, ..user }).safe_view() == user.safe_view(),
        (WebDavCredentialRecord { password_hash, ..credential }).safe_view()
            == credential.safe_view(),
        (McpTokenRecord { token_digest, ..token }).safe_view() == token.safe_view(),
{
}

} // verus!
