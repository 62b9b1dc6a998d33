//! Durable state of the built-in OAuth authorization server.

use vstd::prelude::*;

use crate::auth::{first_revocation, revoke};
use crate::domain::{Id, VaultContext};
use crate::error::{invalid, StateError};
use crate::rows::{find, first_index, some_row};
use crate::text::{bytes_eq, text_eq};

pub mod laws;

verus! {

/// How long an unused client registration is kept, in milliseconds.
pub const UNUSED_CLIENT_MILLIS: i64 = 86_400_000;

/// One vault-bound interactive OAuth identity.
#[derive(Clone, PartialEq, Eq)]
pub struct OAuthLocalUserRecord {
    /// Stable identity.
    pub id: Id,
    /// Isolation boundary.
    pub vault_id: Id,
    /// Login name.
    pub username: String,
    /// Password hash, never the password.
    pub password_hash: String,
    /// Serialized granted scopes.
    pub scopes_json: String,
    /// Disabled users cannot authorize clients.
    pub enabled: bool,
    /// When the password was last set.
    pub password_changed_at: i64,
    /// Creation timestamp.
    pub created_at: i64,
    /// Last update timestamp.
    pub updated_at: i64,
}

/// An interactive identity as stored.
#[derive(Clone, PartialEq, Eq)]
pub struct OAuthLocalUserRow {
    pub id: String,
    pub vault_id: String,
    pub username: String,
    pub password_hash: String,
    pub scopes_json: String,
    pub enabled: i64,
    pub password_changed_at: i64,
    pub created_at: i64,
    pub updated_at: i64,
}

impl OAuthLocalUserRow {
    /// The record that the row holds, or why it cannot be read.
    pub open spec fn decoded(self) -> Result<OAuthLocalUserRecord, StateError> {
        Ok(
            OAuthLocalUserRecord {
                id: Id { text: self.id },
                vault_id: Id { text: self.vault_id },
                username: self.username,
                password_hash: self.password_hash,
                scopes_json: self.scopes_json,
                enabled: self.enabled != 0,
                password_changed_at: self.password_changed_at,
                created_at: self.created_at,
                updated_at: self.updated_at,
            },
        )
    }
}

/// Reads a stored row.
pub fn row_to_local_user(row: OAuthLocalUserRow) -> (r: Result<OAuthLocalUserRecord, StateError>)
    ensures
        r == row.decoded(),
{
    Ok(
        OAuthLocalUserRecord {
            id: Id { text: row.id },
            vault_id: Id { text: row.vault_id },
            username: row.username,
            password_hash: row.password_hash,
            scopes_json: row.scopes_json,
            enabled: row.enabled != 0,
            password_changed_at: row.password_changed_at,
            created_at: row.created_at,
            updated_at: row.updated_at,
        },
    )
}

/// Public-client registration. No client secret is issued or stored.
#[derive(Clone, Debug, PartialEq, Eq)]
pub struct OAuthClientRecord {
    /// Public client identity.
    pub id: Id,
    /// Client-supplied display name.
    pub client_name: String,
    /// Serialized redirect addresses.
    pub redirect_uris_json: String,
    /// Serialized grant types.
    pub grant_types_json: String,
    /// Serialized response types.
    pub response_types_json: String,
    /// Token endpoint authentication: always `none`.
    pub token_endpoint_auth_method: String,
    /// Registration timestamp.
    pub created_at: i64,
    /// When the client last completed an authorization.
    pub last_used_at: Option<i64>,
    /// Explicit revocation timestamp.
    pub revoked_at: Option<i64>,
}

/// A client registration as stored.
#[derive(Clone, Debug, PartialEq, Eq)]
pub struct OAuthClientRow {
    pub id: String,
    pub client_name: String,
    pub redirect_uris_json: String,
    pub grant_types_json: String,
    pub response_types_json: String,
    pub token_endpoint_auth_method: String,
    pub created_at: i64,
    pub last_used_at: Option<i64>,
    pub revoked_at: Option<i64>,
}

impl OAuthClientRow {
    /// The record that the row holds, or why it cannot be read.
    pub open spec fn decoded(self) -> Result<OAuthClientRecord, StateError> {
        Ok(
            OAuthClientRecord {
                id: Id { text: self.id },
                client_name: self.client_name,
                redirect_uris_json: self.redirect_uris_json,
                grant_types_json: self.grant_types_json,
                response_types_json: self.response_types_json,
                token_endpoint_auth_method: self.token_endpoint_auth_method,
                created_at: self.created_at,
                last_used_at: self.last_used_at,
                revoked_at: self.revoked_at,
            },
        )
    }
}

/// Reads a stored row.
pub fn row_to_client(row: OAuthClientRow) -> (r: Result<OAuthClientRecord, StateError>)
    ensures
        r == row.decoded(),
{
    Ok(
        OAuthClientRecord {
            id: Id { text: row.id },
            client_name: row.client_name,
            redirect_uris_json: row.redirect_uris_json,
            grant_types_json: row.grant_types_json,
            response_types_json: row.response_types_json,
            token_endpoint_auth_method: row.token_endpoint_auth_method,
            created_at: row.created_at,
            last_used_at: row.last_used_at,
            revoked_at: row.revoked_at,
        },
    )
}

/// Short-lived validated authorization request. The browser receives only the
/// random handle; the store receives only its keyed digest.
#[derive(Clone, PartialEq, Eq)]
pub struct OAuthAuthorizationRequestRecord {
    /// Stable identity.
    pub id: Id,
    /// Keyed digest of the browser's handle.
    pub request_digest: Vec<u8>,
    /// Master-key version of the digest.
    pub digest_key_version: u32,
    /// Requesting client.
    pub client_id: Id,
    /// Isolation boundary.
    pub vault_id: Id,
    /// Requested resource.
    pub resource: String,
    /// Validated redirect address.
    pub redirect_uri: String,
    /// Serialized requested scopes.
    pub scopes_json: String,
    /// Opaque client state.
    pub state: Option<String>,
    /// Proof-key challenge.
    pub code_challenge: String,
    /// Creation timestamp.
    pub created_at: i64,
    /// Expiry timestamp.
    pub expires_at: i64,
    /// First completion timestamp.
    pub consumed_at: Option<i64>,
}

/// An authorization request as stored.
#[derive(Clone, PartialEq, Eq)]
pub struct OAuthAuthorizationRequestRow {
    pub id: String,
    pub request_digest: Vec<u8>,
    pub digest_key_version: i64,
    pub client_id: String,
    pub vault_id: String,
    pub resource: String,
    pub redirect_uri: String,
    pub scopes_json: String,
    pub state: Option<String>,
    pub code_challenge: String,
    pub created_at: i64,
    pub expires_at: i64,
    pub consumed_at: Option<i64>,
}

impl OAuthAuthorizationRequestRow {
    /// The record that the row holds, or why it cannot be read.
    pub open spec fn decoded(self) -> Result<OAuthAuthorizationRequestRecord, StateError> {
        if !(0 <= self.digest_key_version <= u32::MAX) {
            invalid("OAuth key version is invalid")
        } else {
            Ok(
                OAuthAuthorizationRequestRecord {
                    id: Id { text: self.id },
                    request_digest: self.request_digest,
                    digest_key_version: self.digest_key_version as u32,
                    client_id: Id { text: self.client_id },
                    vault_id: Id { text: self.vault_id },
                    resource: self.resource,
                    redirect_uri: self.redirect_uri,
                    scopes_json: self.scopes_json,
                    state: self.state,
                    code_challenge: self.code_challenge,
                    created_at: self.created_at,
                    expires_at: self.expires_at,
                    consumed_at: self.consumed_at,
                },
            )
        }
    }
}

/// Reads a stored row.
pub fn row_to_authorization_request(row: OAuthAuthorizationRequestRow) -> (r: Result<OAuthAuthorizationRequestRecord, StateError>)
    ensures
        r == row.decoded(),
{
    if row.digest_key_version < 0 || row.digest_key_version > u32::MAX as i64 {
        return Err(StateError::InvalidInput("OAuth key version is invalid"));
    }
    Ok(
        OAuthAuthorizationRequestRecord {
            id: Id { text: row.id },
            request_digest: row.request_digest,
            digest_key_version: row.digest_key_version as u32,
            client_id: Id { text: row.client_id },
            vault_id: Id { text: row.vault_id },
            resource: row.resource,
            redirect_uri: row.redirect_uri,
            scopes_json: row.scopes_json,
            state: row.state,
            code_challenge: row.code_challenge,
            created_at: row.created_at,
            expires_at: row.expires_at,
            consumed_at: row.consumed_at,
        },
    )
}

/// Single-use authorization code metadata.
#[derive(Clone, PartialEq, Eq)]
pub struct OAuthAuthorizationCodeRecord {
    /// Stable identity.
    pub id: Id,
    /// Keyed digest of the code.
    pub code_digest: Vec<u8>,
    /// Master-key version of the digest.
    pub digest_key_version: u32,
    /// Client that the code was issued to.
    pub client_id: Id,
    /// User that authorized the client.
    pub user_id: Id,
    /// Isolation boundary.
    pub vault_id: Id,
    /// Authorized resource.
    pub resource: String,
    /// Redirect address of the request.
    pub redirect_uri: String,
    /// Serialized authorized scopes.
    pub scopes_json: String,
    /// Proof-key challenge.
    pub code_challenge: String,
    /// Creation timestamp.
    pub created_at: i64,
    /// Expiry timestamp.
    pub expires_at: i64,
    /// When the code was exchanged or closed.
    pub consumed_at: Option<i64>,
}

/// An authorization code as stored.
#[derive(Clone, PartialEq, Eq)]
pub struct OAuthAuthorizationCodeRow {
    pub id: String,
    pub code_digest: Vec<u8>,
    pub digest_key_version: i64,
    pub client_id: String,
    pub user_id: String,
    pub vault_id: String,
    pub resource: String,
    pub redirect_uri: String,
    pub scopes_json: String,
    pub code_challenge: String,
    pub created_at: i64,
    pub expires_at: i64,
    pub consumed_at: Option<i64>,
}

impl OAuthAuthorizationCodeRow {
    /// The record that the row holds, or why it cannot be read.
    pub open spec fn decoded(self) -> Result<OAuthAuthorizationCodeRecord, StateError> {
        if !(0 <= self.digest_key_version <= u32::MAX) {
            invalid("OAuth key version is invalid")
        } else {
            Ok(
                OAuthAuthorizationCodeRecord {
                    id: Id { text: self.id },
                    code_digest: self.code_digest,
                    digest_key_version: self.digest_key_version as u32,
                    client_id: Id { text: self.client_id },
                    user_id: Id { text: self.user_id },
                    vault_id: Id { text: self.vault_id },
                    resource: self.resource,
                    redirect_uri: self.redirect_uri,
                    scopes_json: self.scopes_json,
                    code_challenge: self.code_challenge,
                    created_at: self.created_at,
                    expires_at: self.expires_at,
                    consumed_at: self.consumed_at,
                },
            )
        }
    }
}

/// Reads a stored row.
pub fn row_to_authorization_code(row: OAuthAuthorizationCodeRow) -> (r: Result<OAuthAuthorizationCodeRecord, StateError>)
    ensures
        r == row.decoded(),
{
    if row.digest_key_version < 0 || row.digest_key_version > u32::MAX as i64 {
        return Err(StateError::InvalidInput("OAuth key version is invalid"));
    }
    Ok(
        OAuthAuthorizationCodeRecord {
            id: Id { text: row.id },
            code_digest: row.code_digest,
            digest_key_version: row.digest_key_version as u32,
            client_id: Id { text: row.client_id },
            user_id: Id { text: row.user_id },
            vault_id: Id { text: row.vault_id },
            resource: row.resource,
            redirect_uri: row.redirect_uri,
            scopes_json: row.scopes_json,
            code_challenge: row.code_challenge,
            created_at: row.created_at,
            expires_at: row.expires_at,
            consumed_at: row.consumed_at,
        },
    )
}

/// Locally issued opaque access-token metadata.
#[derive(Clone, PartialEq, Eq)]
pub struct OAuthAccessTokenRecord {
    /// Stable identity.
    pub id: Id,
    /// Token family that is revoked as a whole.
    pub family_id: Id,
    /// Visible lookup prefix.
    pub token_prefix: String,
    /// Keyed digest of the token.
    pub token_digest: Vec<u8>,
    /// Master-key version of the digest.
    pub digest_key_version: u32,
    /// Client that the token was issued to.
    pub client_id: Id,
    /// User that authorized the client.
    pub user_id: Id,
    /// Isolation boundary.
    pub vault_id: Id,
    /// Authorized resource.
    pub resource: String,
    /// Serialized authorized scopes.
    pub scopes_json: String,
    /// Creation timestamp.
    pub created_at: i64,
    /// Expiry timestamp.
    pub expires_at: i64,
    /// Last successful verification timestamp.
    pub last_used_at: Option<i64>,
    /// Explicit revocation timestamp.
    pub revoked_at: Option<i64>,
}

/// An access token as stored.
#[derive(Clone, PartialEq, Eq)]
pub struct OAuthAccessTokenRow {
    pub id: String,
    pub family_id: String,
    pub token_prefix: String,
    pub token_digest: Vec<u8>,
    pub digest_key_version: i64,
    pub client_id: String,
    pub user_id: String,
    pub vault_id: String,
    pub resource: String,
    pub scopes_json: String,
    pub created_at: i64,
    pub expires_at: i64,
    pub last_used_at: Option<i64>,
    pub revoked_at: Option<i64>,
}

impl OAuthAccessTokenRow {
    /// The record that the row holds, or why it cannot be read.
    pub open spec fn decoded(self) -> Result<OAuthAccessTokenRecord, StateError> {
        if !(0 <= self.digest_key_version <= u32::MAX) {
            invalid("OAuth key version is invalid")
        } else {
            Ok(
                OAuthAccessTokenRecord {
                    id: Id { text: self.id },
                    family_id: Id { text: self.family_id },
                    token_prefix: self.token_prefix,
                    token_digest: self.token_digest,
                    digest_key_version: self.digest_key_version as u32,
                    client_id: Id { text: self.client_id },
                    user_id: Id { text: self.user_id },
                    vault_id: Id { text: self.vault_id },
                    resource: self.resource,
                    scopes_json: self.scopes_json,
                    created_at: self.created_at,
                    expires_at: self.expires_at,
                    last_used_at: self.last_used_at,
                    revoked_at: self.revoked_at,
                },
            )
        }
    }
}

/// Reads a stored row.
pub fn row_to_access_token(row: OAuthAccessTokenRow) -> (r: Result<OAuthAccessTokenRecord, StateError>)
    ensures
        r == row.decoded(),
{
    if row.digest_key_version < 0 || row.digest_key_version > u32::MAX as i64 {
        return Err(StateError::InvalidInput("OAuth key version is invalid"));
    }
    Ok(
        OAuthAccessTokenRecord {
            id: Id { text: row.id },
            family_id: Id { text: row.family_id },
            token_prefix: row.token_prefix,
            token_digest: row.token_digest,
            digest_key_version: row.digest_key_version as u32,
            client_id: Id { text: row.client_id },
            user_id: Id { text: row.user_id },
            vault_id: Id { text: row.vault_id },
            resource: row.resource,
            scopes_json: row.scopes_json,
            created_at: row.created_at,
            expires_at: row.expires_at,
            last_used_at: row.last_used_at,
            revoked_at: row.revoked_at,
        },
    )
}

/// Locally issued rotating refresh-token metadata.
#[derive(Clone, PartialEq, Eq)]
pub struct OAuthRefreshTokenRecord {
    /// Stable identity.
    pub id: Id,
    /// Token family that is revoked as a whole.
    pub family_id: Id,
    /// Visible lookup prefix.
    pub token_prefix: String,
    /// Keyed digest of the token.
    pub token_digest: Vec<u8>,
    /// Master-key version of the digest.
    pub digest_key_version: u32,
    /// Client that the token was issued to.
    pub client_id: Id,
    /// User that authorized the client.
    pub user_id: Id,
    /// Isolation boundary.
    pub vault_id: Id,
    /// Authorized resource.
    pub resource: String,
    /// Serialized authorized scopes.
    pub scopes_json: String,
    /// Creation timestamp.
    pub created_at: i64,
    /// Expiry timestamp.
    pub expires_at: i64,
    /// When the token was exchanged for its successor.
    pub rotated_at: Option<i64>,
    /// Explicit revocation timestamp.
    pub revoked_at: Option<i64>,
}

/// A refresh token as stored.
#[derive(Clone, PartialEq, Eq)]
pub struct OAuthRefreshTokenRow {
    pub id: String,
    pub family_id: String,
    pub token_prefix: String,
    pub token_digest: Vec<u8>,
    pub digest_key_version: i64,
    pub client_id: String,
    pub user_id: String,
    pub vault_id: String,
    pub resource: String,
    pub scopes_json: String,
    pub created_at: i64,
    pub expires_at: i64,
    pub rotated_at: Option<i64>,
    pub revoked_at: Option<i64>,
}

impl OAuthRefreshTokenRow {
    /// The record that the row holds, or why it cannot be read.
    pub open spec fn decoded(self) -> Result<OAuthRefreshTokenRecord, StateError> {
        if !(0 <= self.digest_key_version <= u32::MAX) {
            invalid("OAuth key version is invalid")
        } else {
            Ok(
                OAuthRefreshTokenRecord {
                    id: Id { text: self.id },
                    family_id: Id { text: self.family_id },
                    token_prefix: self.token_prefix,
                    token_digest: self.token_digest,
                    digest_key_version: self.digest_key_version as u32,
                    client_id: Id { text: self.client_id },
                    user_id: Id { text: self.user_id },
                    vault_id: Id { text: self.vault_id },
                    resource: self.resource,
                    scopes_json: self.scopes_json,
                    created_at: self.created_at,
                    expires_at: self.expires_at,
                    rotated_at: self.rotated_at,
                    revoked_at: self.revoked_at,
                },
            )
        }
    }
}

/// Reads a stored row.
pub fn row_to_refresh_token(row: OAuthRefreshTokenRow) -> (r: Result<OAuthRefreshTokenRecord, StateError>)
    ensures
        r == row.decoded(),
{
    if row.digest_key_version < 0 || row.digest_key_version > u32::MAX as i64 {
        return Err(StateError::InvalidInput("OAuth key version is invalid"));
    }
    Ok(
        OAuthRefreshTokenRecord {
            id: Id { text: row.id },
            family_id: Id { text: row.family_id },
            token_prefix: row.token_prefix,
            token_digest: row.token_digest,
            digest_key_version: row.digest_key_version as u32,
            client_id: Id { text: row.client_id },
            user_id: Id { text: row.user_id },
            vault_id: Id { text: row.vault_id },
            resource: row.resource,
            scopes_json: row.scopes_json,
            created_at: row.created_at,
            expires_at: row.expires_at,
            rotated_at: row.rotated_at,
            revoked_at: row.revoked_at,
        },
    )
}

/// A local user without its password hash.
#[derive(Clone, Debug, PartialEq, Eq)]
pub struct OAuthLocalUserView {
    /// Stable identity.
    pub id: Id,
    /// Isolation boundary.
    pub vault_id: Id,
    /// Login name.
    pub username: String,
    /// Serialized granted scopes.
    pub scopes_json: String,
    /// Disabled users cannot authorize clients.
    pub enabled: bool,
    /// When the password was last set.
    pub password_changed_at: i64,
    /// Creation timestamp.
    pub created_at: i64,
    /// Last update timestamp.
    pub updated_at: i64,
}

impl OAuthLocalUserRecord {
    /// The record without its secret material.
    pub open spec fn safe_view(self) -> OAuthLocalUserView {
        OAuthLocalUserView {
            id: self.id,
            vault_id: self.vault_id,
            username: self.username,
            scopes_json: self.scopes_json,
            enabled: self.enabled,
            password_changed_at: self.password_changed_at,
            created_at: self.created_at,
            updated_at: self.updated_at,
        }
    }

    /// The record without its secret material, as it may be printed.
    pub fn redacted(&self) -> (r: OAuthLocalUserView)
        ensures
            r == self.safe_view(),
    {
        OAuthLocalUserView {
            id: self.id.duplicate(),
            vault_id: self.vault_id.duplicate(),
            username: self.username.clone(),
            scopes_json: self.scopes_json.clone(),
            enabled: self.enabled,
            password_changed_at: self.password_changed_at,
            created_at: self.created_at,
            updated_at: self.updated_at,
        }
    }
}

impl OAuthAuthorizationRequestRecord {
    /// Whether the record answers for a presented digest inside a vault.
    pub open spec fn presented(
        self,
        vault: Seq<char>,
        digest: Seq<u8>,
        version: u32,
    ) -> bool {
        &&& self.vault_id@ == vault
        &&& self.request_digest@ == digest
        &&& self.digest_key_version == version
    }
}

/// Find an authorization request only inside the expected vault.
pub fn find_oauth_authorization_request(
    context: &VaultContext,
    records: &[OAuthAuthorizationRequestRecord],
    request_digest: &[u8],
    digest_key_version: u32,
) -> (r: Option<usize>)
    ensures
        match r {
            Some(i) => i < records@.len() && records@[i as int].presented(
                context.id@,
                request_digest@,
                digest_key_version,
            ),
            None => forall|k: int|
                0 <= k < records@.len() ==> !(#[trigger] records@[k]).presented(
                    context.id@,
                    request_digest@,
                    digest_key_version,
                ),
        },
        r is None ==> !some_row(
            records@,
            |row: OAuthAuthorizationRequestRecord|
                row.presented(context.id@, request_digest@, digest_key_version),
        ),
{
    let mut i: usize = 0;
    while i < records.len()
        invariant
            i <= records@.len(),
            forall|k: int|
                0 <= k < i ==> !(#[trigger] records@[k]).presented(
                    context.id@,
                    request_digest@,
                    digest_key_version,
                ),
        decreases records@.len() - i,
    {
        let record = &records[i];
        if record.vault_id.same(&context.id) && bytes_eq(
            record.request_digest.as_slice(),
            request_digest,
        ) && record.digest_key_version == digest_key_version {
            return Some(i);
        }
        i += 1;
    }
    None
}

impl OAuthAuthorizationCodeRecord {
    /// Whether the record answers for a presented digest inside a vault.
    pub open spec fn presented(
        self,
        vault: Seq<char>,
        digest: Seq<u8>,
        version: u32,
    ) -> bool {
        &&& self.vault_id@ == vault
        &&& self.code_digest@ == digest
        &&& self.digest_key_version == version
    }
}

/// Find a code digest only inside the resource's vault.
pub fn find_oauth_authorization_code(
    context: &VaultContext,
    records: &[OAuthAuthorizationCodeRecord],
    code_digest: &[u8],
    digest_key_version: u32,
) -> (r: Option<usize>)
    ensures
        match r {
            Some(i) => i < records@.len() && records@[i as int].presented(
                context.id@,
                code_digest@,
                digest_key_version,
            ),
            None => forall|k: int|
                0 <= k < records@.len() ==> !(#[trigger] records@[k]).presented(
                    context.id@,
                    code_digest@,
                    digest_key_version,
                ),
        },
        r is None ==> !some_row(
            records@,
            |row: OAuthAuthorizationCodeRecord|
                row.presented(context.id@, code_digest@, digest_key_version),
        ),
{
    let mut i: usize = 0;
    while i < records.len()
        invariant
            i <= records@.len(),
            forall|k: int|
                0 <= k < i ==> !(#[trigger] records@[k]).presented(
                    context.id@,
                    code_digest@,
                    digest_key_version,
                ),
        decreases records@.len() - i,
    {
        let record = &records[i];
        if record.vault_id.same(&context.id) && bytes_eq(
            record.code_digest.as_slice(),
            code_digest,
        ) && record.digest_key_version == digest_key_version {
            return Some(i);
        }
        i += 1;
    }
    None
}

impl OAuthAccessTokenRecord {
    /// Whether the record answers for a presented digest inside a vault.
    pub open spec fn presented(
        self,
        vault: Seq<char>, token_prefix: Seq<char>,
        digest: Seq<u8>,
        version: u32,
    ) -> bool {
        &&& self.vault_id@ == vault
        &&& self.token_prefix@ == token_prefix
        &&& self.token_digest@ == digest
        &&& self.digest_key_version == version
    }
}

/// Find a locally issued access token by prefix and keyed digest in one vault.
/// Revoked and expired rows are found too, so that a caller can fail uniformly.
pub fn find_oauth_access_token(
    context: &VaultContext,
    records: &[OAuthAccessTokenRecord],
    token_prefix: &str,
    token_digest: &[u8],
    digest_key_version: u32,
) -> (r: Option<usize>)
    ensures
        match r {
            Some(i) => i < records@.len() && records@[i as int].presented(
                context.id@, token_prefix@,
                token_digest@,
                digest_key_version,
            ),
            None => forall|k: int|
                0 <= k < records@.len() ==> !(#[trigger] records@[k]).presented(
                    context.id@, token_prefix@,
                    token_digest@,
                    digest_key_version,
                ),
        },
        r is None ==> !some_row(
            records@,
            |row: OAuthAccessTokenRecord|
                row.presented(context.id@, token_prefix@, token_digest@, digest_key_version),
        ),
{
    let mut i: usize = 0;
    while i < records.len()
        invariant
            i <= records@.len(),
            forall|k: int|
                0 <= k < i ==> !(#[trigger] records@[k]).presented(
                    context.id@, token_prefix@,
                    token_digest@,
                    digest_key_version,
                ),
        decreases records@.len() - i,
    {
        let record = &records[i];
        if record.vault_id.same(&context.id) && text_eq(record.token_prefix.as_str(), token_prefix) && bytes_eq(
            record.token_digest.as_slice(),
            token_digest,
        ) && record.digest_key_version == digest_key_version {
            return Some(i);
        }
        i += 1;
    }
    None
}

impl OAuthRefreshTokenRecord {
    /// Whether the record answers for a presented digest inside a vault.
    pub open spec fn presented(
        self,
        vault: Seq<char>, token_prefix: Seq<char>,
        digest: Seq<u8>,
        version: u32,
    ) -> bool {
        &&& self.vault_id@ == vault
        &&& self.token_prefix@ == token_prefix
        &&& self.token_digest@ == digest
        &&& self.digest_key_version == version
    }
}

/// Find a refresh token inside the exact resource vault.
pub fn find_oauth_refresh_token(
    context: &VaultContext,
    records: &[OAuthRefreshTokenRecord],
    token_prefix: &str,
    token_digest: &[u8],
    digest_key_version: u32,
) -> (r: Option<usize>)
    ensures
        match r {
            Some(i) => i < records@.len() && records@[i as int].presented(
                context.id@, token_prefix@,
                token_digest@,
                digest_key_version,
            ),
            None => forall|k: int|
                0 <= k < records@.len() ==> !(#[trigger] records@[k]).presented(
                    context.id@, token_prefix@,
                    token_digest@,
                    digest_key_version,
                ),
        },
        r is None ==> !some_row(
            records@,
            |row: OAuthRefreshTokenRecord|
                row.presented(context.id@, token_prefix@, token_digest@, digest_key_version),
        ),
{
    let mut i: usize = 0;
    while i < records.len()
        invariant
            i <= records@.len(),
            forall|k: int|
                0 <= k < i ==> !(#[trigger] records@[k]).presented(
                    context.id@, token_prefix@,
                    token_digest@,
                    digest_key_version,
                ),
        decreases records@.len() - i,
    {
        let record = &records[i];
        if record.vault_id.same(&context.id) && text_eq(record.token_prefix.as_str(), token_prefix) && bytes_eq(
            record.token_digest.as_slice(),
            token_digest,
        ) && record.digest_key_version == digest_key_version {
            return Some(i);
        }
        i += 1;
    }
    None
}

/// Secret-safe insertion material for a new authorization code.
pub struct NewOAuthAuthorizationCode {
    pub id: Id,
    pub code_digest: Vec<u8>,
    pub digest_key_version: u32,
    pub created_at: i64,
    pub expires_at: i64,
}

/// Secret-safe insertion material for a new access token.
pub struct NewOAuthAccessToken {
    pub id: Id,
    pub family_id: Id,
    pub token_prefix: String,
    pub token_digest: Vec<u8>,
    pub digest_key_version: u32,
    pub created_at: i64,
    pub expires_at: i64,
    /// Narrowed scopes for a refresh rotation; `None` inherits the grant of the
    /// rotated token. The exchange of a code always takes the code's scopes.
    pub scopes_json: Option<String>,
}

/// Secret-safe insertion material for a new refresh token.
pub struct NewOAuthRefreshToken {
    pub id: Id,
    pub family_id: Id,
    pub token_prefix: String,
    pub token_digest: Vec<u8>,
    pub digest_key_version: u32,
    pub created_at: i64,
    pub expires_at: i64,
    /// Narrowed scopes for a refresh rotation; `None` inherits the grant of the
    /// rotated token. The exchange of a code always takes the code's scopes.
    pub scopes_json: Option<String>,
}

/// Scopes of a rotated token: the narrowed ones, else those of the spent one.
pub open spec fn granted_scopes(narrowed: Option<String>, source: String) -> String {
    match narrowed {
        Some(scopes) => scopes,
        None => source,
    }
}

/// Scopes of a rotated token: the narrowed ones, else those of the spent one.
fn grant_scopes(narrowed: Option<String>, source: &String) -> (r: String)
    ensures
        r == granted_scopes(narrowed, *source),
{
    match narrowed {
        Some(scopes) => scopes,
        None => source.clone(),
    }
}

/// The one local OAuth user of a vault after its credential is set.
pub open spec fn user_set(
    existing: Option<OAuthLocalUserRecord>,
    vault: Id,
    id: Id,
    username: String,
    password_hash: String,
    scopes_json: String,
    now: i64,
) -> OAuthLocalUserRecord {
    match existing {
        Some(user) if user.vault_id@ == vault@ => OAuthLocalUserRecord {
            username,
            password_hash,
            scopes_json,
            enabled: true,
            password_changed_at: now,
            updated_at: now,
            ..user
        },
        _ => OAuthLocalUserRecord {
            id,
            vault_id: vault,
            username,
            password_hash,
            scopes_json,
            enabled: true,
            password_changed_at: now,
            created_at: now,
            updated_at: now,
        },
    }
}

/// The login of a vault: its position.
pub fn get_local_oauth_user(context: &VaultContext, users: &[OAuthLocalUserRecord]) -> (r: Option<usize>)
    ensures
        match r {
            Some(i) => i < users@.len() && first_index(
                users@,
                |row: OAuthLocalUserRecord| row.vault_id@ == context.id@,
            ) == Some(i as int),
            None => first_index(
                users@,
                |row: OAuthLocalUserRecord| row.vault_id@ == context.id@,
            ) is None,
        },
{
    let accepts = |row: &OAuthLocalUserRecord| -> (yes: bool)
        ensures
            yes == (row.vault_id@ == context.id@),
        { row.vault_id.same(&context.id) };
    find(users, accepts, Ghost(|row: OAuthLocalUserRecord| row.vault_id@ == context.id@))
}

/// Create or replace the one local OAuth user of a vault, and end everything
/// that was outstanding for that user. `existing` is the vault's stored user.
pub fn upsert_local_oauth_user(
    context: &VaultContext,
    state: AuthorizationState,
    existing: Option<OAuthLocalUserRecord>,
    id: Id,
    username: String,
    password_hash: String,
    scopes_json: String,
    now: i64,
) -> (r: (OAuthLocalUserRecord, AuthorizationState))
    ensures
        r.0 == user_set(existing, context.id, id, username, password_hash, scopes_json, now),
        user_state_revoked(state, r.1, r.0.id, context.id@, now),
{
    let user = match existing {
        Some(user) if user.vault_id.same(&context.id) => OAuthLocalUserRecord {
            username,
            password_hash,
            scopes_json,
            enabled: true,
            password_changed_at: now,
            updated_at: now,
            ..user
        },
        _ => OAuthLocalUserRecord {
            id,
            vault_id: context.id.duplicate(),
            username,
            password_hash,
            scopes_json,
            enabled: true,
            password_changed_at: now,
            created_at: now,
            updated_at: now,
        },
    };
    let after = revoke_user_state(state, &user.id, &context.id, now);
    (user, after)
}

/// Disable a vault's local OAuth user, and end everything that was outstanding
/// for that user. Where the vault has no user, there is none in the result and
/// nothing changes.
pub fn disable_local_oauth_user(
    context: &VaultContext,
    state: AuthorizationState,
    user: Option<OAuthLocalUserRecord>,
    now: i64,
) -> (r: (Option<OAuthLocalUserRecord>, AuthorizationState))
    ensures
        if user is Some && user->0.vault_id@ == context.id@ {
            &&& r.0 == Some(
                (OAuthLocalUserRecord { enabled: false, updated_at: now, ..user->0 }),
            )
            &&& user_state_revoked(state, r.1, user->0.id, context.id@, now)
        } else {
            r.0 is None && r.1 == state
        },
{
    match user {
        Some(user) if user.vault_id.same(&context.id) => {
            let after = revoke_user_state(state, &user.id, &context.id, now);
            (Some(OAuthLocalUserRecord { enabled: false, updated_at: now, ..user }), after)
        },
        _ => (None, state),
    }
}

/// Whose grants are revoked.
pub enum GrantOwner {
    /// Everything that a user authorized.
    User(Id),
    /// One replayed token family.
    Family(Id),
}

/// A row that closes when the grant behind it is revoked.
pub trait Grant: Sized {
    /// The row after the owner's grants in a vault are revoked.
    spec fn closed(self, vault: Seq<char>, owner: GrantOwner, now: i64) -> Self;

    /// Closes the row if it belongs to the owner's grants in the vault.
    fn close(self, vault: &Id, owner: &GrantOwner, now: i64) -> (r: Self)
        ensures
            r == self.closed(vault@, *owner, now),
    ;
}

impl OAuthAccessTokenRecord {
    /// Whether the token is part of the owner's grants.
    pub open spec fn owned_by(self, owner: GrantOwner) -> bool {
        match owner {
            GrantOwner::User(id) => self.user_id@ == id@,
            GrantOwner::Family(id) => self.family_id@ == id@,
        }
    }
}

impl OAuthRefreshTokenRecord {
    /// Whether the token is part of the owner's grants.
    pub open spec fn owned_by(self, owner: GrantOwner) -> bool {
        match owner {
            GrantOwner::User(id) => self.user_id@ == id@,
            GrantOwner::Family(id) => self.family_id@ == id@,
        }
    }

    /// Whether the token can be exchanged for its successor.
    pub open spec fn rotatable(self, id: Seq<char>, vault: Seq<char>, at: i64) -> bool {
        &&& self.id@ == id
        &&& self.vault_id@ == vault
        &&& self.rotated_at is None
        &&& self.revoked_at is None
        &&& self.expires_at > at
    }
}

impl OAuthAuthorizationCodeRecord {
    /// Whether the code is part of the owner's grants.
    pub open spec fn owned_by(self, owner: GrantOwner) -> bool {
        owner matches GrantOwner::User(id) && self.user_id@ == id@
    }

    /// Whether the code can be exchanged for tokens.
    pub open spec fn exchangeable(self, id: Seq<char>, vault: Seq<char>, at: i64) -> bool {
        &&& self.id@ == id
        &&& self.vault_id@ == vault
        &&& self.consumed_at is None
        &&& self.expires_at > at
    }
}

impl Grant for OAuthAccessTokenRecord {
    open spec fn closed(self, vault: Seq<char>, owner: GrantOwner, now: i64) -> Self {
        if self.vault_id@ == vault && self.owned_by(owner) {
            OAuthAccessTokenRecord { revoked_at: first_revocation(self.revoked_at, now), ..self }
        } else {
            self
        }
    }

    fn close(self, vault: &Id, owner: &GrantOwner, now: i64) -> (r: Self) {
        let owned = match owner {
            GrantOwner::User(id) => self.user_id.same(id),
            GrantOwner::Family(id) => self.family_id.same(id),
        };
        if self.vault_id.same(vault) && owned {
            OAuthAccessTokenRecord { revoked_at: revoke(self.revoked_at, now), ..self }
        } else {
            self
        }
    }
}

impl Grant for OAuthRefreshTokenRecord {
    open spec fn closed(self, vault: Seq<char>, owner: GrantOwner, now: i64) -> Self {
        if self.vault_id@ == vault && self.owned_by(owner) {
            OAuthRefreshTokenRecord { revoked_at: first_revocation(self.revoked_at, now), ..self }
        } else {
            self
        }
    }

    fn close(self, vault: &Id, owner: &GrantOwner, now: i64) -> (r: Self) {
        let owned = match owner {
            GrantOwner::User(id) => self.user_id.same(id),
            GrantOwner::Family(id) => self.family_id.same(id),
        };
        if self.vault_id.same(vault) && owned {
            OAuthRefreshTokenRecord { revoked_at: revoke(self.revoked_at, now), ..self }
        } else {
            self
        }
    }
}

impl Grant for OAuthAuthorizationCodeRecord {
    open spec fn closed(self, vault: Seq<char>, owner: GrantOwner, now: i64) -> Self {
        if self.vault_id@ == vault && self.owned_by(owner) {
            OAuthAuthorizationCodeRecord {
                consumed_at: first_revocation(self.consumed_at, now),
                ..self
            }
        } else {
            self
        }
    }

    fn close(self, vault: &Id, owner: &GrantOwner, now: i64) -> (r: Self) {
        let owned = match owner {
            GrantOwner::User(id) => self.user_id.same(id),
            GrantOwner::Family(_) => false,
        };
        if self.vault_id.same(vault) && owned {
            OAuthAuthorizationCodeRecord { consumed_at: revoke(self.consumed_at, now), ..self }
        } else {
            self
        }
    }
}

/// Rows after the owner's grants in a vault are revoked.
pub open spec fn all_closed<T: Grant>(
    rows: Seq<T>,
    vault: Seq<char>,
    owner: GrantOwner,
    now: i64,
) -> Seq<T> {
    rows.map_values(|row: T| row.closed(vault, owner, now))
}

/// Closes every row of the owner's grants in a vault.
fn close_all<T: Grant>(rows: Vec<T>, vault: &Id, owner: &GrantOwner, now: i64) -> (r: Vec<T>)
    ensures
        r@ == all_closed(rows@, vault@, *owner, now),
{
    let ghost all = rows@;
    let mut rest = rows;
    let n: usize = rest.len();
    let mut after: Vec<T> = Vec::new();
    let mut i: usize = 0;
    assert(rest@ =~= all.skip(0));
    while i < n
        invariant
            i <= n == all.len(),
            rest@ == all.skip(i as int),
            after@ == all_closed(all.take(i as int), vault@, *owner, now),
        decreases n - i,
    {
        let row = rest.remove(0);
        after.push(row.close(vault, owner, now));
        i += 1;
        assert(rest@ =~= all.skip(i as int));
        assert(after@ =~= all_closed(all.take(i as int), vault@, *owner, now));
    }
    assert(all.take(n as int) =~= all);
    after
}

/// Outstanding authorization state of a vault.
pub struct AuthorizationState {
    pub requests: Vec<OAuthAuthorizationRequestRecord>,
    pub codes: Vec<OAuthAuthorizationCodeRecord>,
    pub access: Vec<OAuthAccessTokenRecord>,
    pub refresh: Vec<OAuthRefreshTokenRecord>,
}

/// Whether a row may go: it has expired, or was closed, before the given time.
pub open spec fn unusable_before(expires_at: i64, closed_at: Option<i64>, before: i64) -> bool {
    expires_at < before || (closed_at is Some && closed_at->0 < before)
}

/// Whether a row may go: it has expired, or was closed, before the given time.
fn is_unusable_before(expires_at: i64, closed_at: Option<i64>, before: i64) -> (r: bool)
    ensures
        r == unusable_before(expires_at, closed_at, before),
{
    let closed = match closed_at {
        Some(at) => at < before,
        None => false,
    };
    expires_at < before || closed
}

/// A row that goes once it has outlived its use.
pub trait Swept: Sized {
    /// Whether a sweep with the given cutoff removes the row.
    spec fn goes(self, before: i64) -> bool;

    /// Whether a sweep with the given cutoff removes the row.
    fn is_going(&self, before: i64) -> (r: bool)
        ensures
            r == self.goes(before),
    ;
}

impl Swept for OAuthAuthorizationRequestRecord {
    open spec fn goes(self, before: i64) -> bool {
        unusable_before(self.expires_at, self.consumed_at, before)
    }

    fn is_going(&self, before: i64) -> (r: bool) {
        is_unusable_before(self.expires_at, self.consumed_at, before)
    }
}

impl Swept for OAuthAuthorizationCodeRecord {
    open spec fn goes(self, before: i64) -> bool {
        unusable_before(self.expires_at, self.consumed_at, before)
    }

    fn is_going(&self, before: i64) -> (r: bool) {
        is_unusable_before(self.expires_at, self.consumed_at, before)
    }
}

impl Swept for OAuthAccessTokenRecord {
    open spec fn goes(self, before: i64) -> bool {
        unusable_before(self.expires_at, self.revoked_at, before)
    }

    fn is_going(&self, before: i64) -> (r: bool) {
        is_unusable_before(self.expires_at, self.revoked_at, before)
    }
}

impl Swept for OAuthRefreshTokenRecord {
    open spec fn goes(self, before: i64) -> bool {
        unusable_before(self.expires_at, self.revoked_at, before)
    }

    fn is_going(&self, before: i64) -> (r: bool) {
        is_unusable_before(self.expires_at, self.revoked_at, before)
    }
}

impl Swept for OAuthClientRecord {
    /// Revoked clients go, and so do those that were registered before the
    /// cutoff and never used.
    open spec fn goes(self, before: i64) -> bool {
        self.revoked_at is Some || (self.last_used_at is None && self.created_at < before)
    }

    fn is_going(&self, before: i64) -> (r: bool) {
        self.revoked_at.is_some() || (self.last_used_at.is_none() && self.created_at < before)
    }
}

/// Rows that a sweep with the given cutoff leaves, in order.
pub open spec fn kept<T: Swept>(rows: Seq<T>, before: i64) -> Seq<T> {
    rows.filter(|row: T| !row.goes(before))
}

/// Removes the rows that have outlived their use.
fn sweep<T: Swept>(rows: Vec<T>, before: i64) -> (r: Vec<T>)
    ensures
        r@ == kept(rows@, before),
{
    let ghost all = rows@;
    let mut rest = rows;
    let n: usize = rest.len();
    let mut after: Vec<T> = Vec::new();
    let mut i: usize = 0;
    proof {
        reveal(Seq::filter);
        assert(rest@ =~= all.skip(0));
        assert(all.take(0) =~= Seq::empty());
    }
    while i < n
        invariant
            i <= n == all.len(),
            rest@ == all.skip(i as int),
            after@ == kept(all.take(i as int), before),
        decreases n - i,
    {
        let row = rest.remove(0);
        proof {
            reveal(Seq::filter);
            assert(all.take(i + 1).drop_last() =~= all.take(i as int));
            assert(all.take(i + 1).last() == row);
        }
        if !row.is_going(before) {
            after.push(row);
        }
        i += 1;
        assert(rest@ =~= all.skip(i as int));
    }
    assert(all.take(n as int) =~= all);
    after
}

/// Requests of every vault but one, in order.
pub open spec fn requests_elsewhere(
    requests: Seq<OAuthAuthorizationRequestRecord>,
    vault: Seq<char>,
) -> Seq<OAuthAuthorizationRequestRecord> {
    requests.filter(|request: OAuthAuthorizationRequestRecord| request.vault_id@ != vault)
}

/// Drops the authorization requests of one vault.
fn drop_requests(requests: Vec<OAuthAuthorizationRequestRecord>, vault: &Id) -> (r: Vec<
    OAuthAuthorizationRequestRecord,
>)
    ensures
        r@ == requests_elsewhere(requests@, vault@),
{
    let ghost all = requests@;
    let mut rest = requests;
    let n: usize = rest.len();
    let mut after: Vec<OAuthAuthorizationRequestRecord> = Vec::new();
    let mut i: usize = 0;
    proof {
        reveal(Seq::filter);
        assert(rest@ =~= all.skip(0));
        assert(all.take(0) =~= Seq::empty());
    }
    while i < n
        invariant
            i <= n == all.len(),
            rest@ == all.skip(i as int),
            after@ == requests_elsewhere(all.take(i as int), vault@),
        decreases n - i,
    {
        let request = rest.remove(0);
        proof {
            reveal(Seq::filter);
            assert(all.take(i + 1).drop_last() =~= all.take(i as int));
            assert(all.take(i + 1).last() == request);
        }
        if !request.vault_id.same(vault) {
            after.push(request);
        }
        i += 1;
        assert(rest@ =~= all.skip(i as int));
    }
    assert(all.take(n as int) =~= all);
    after
}

/// Authorization state after everything that a user of a vault had
/// outstanding is revoked.
pub open spec fn user_state_revoked(
    before: AuthorizationState,
    after: AuthorizationState,
    user_id: Id,
    vault: Seq<char>,
    now: i64,
) -> bool {
    let owner = GrantOwner::User(user_id);
    &&& after.requests@ == requests_elsewhere(before.requests@, vault)
    &&& after.codes@ == all_closed(before.codes@, vault, owner, now)
    &&& after.access@ == all_closed(before.access@, vault, owner, now)
    &&& after.refresh@ == all_closed(before.refresh@, vault, owner, now)
}

/// Revoke everything outstanding when a vault's OAuth credential changes.
/// Authorization requests belong to no user, because they are made before
/// login: all of the vault's go, so that a retry that was authenticated with
/// the old password never crosses its rotation.
pub fn revoke_user_state(
    state: AuthorizationState,
    user_id: &Id,
    vault_id: &Id,
    now: i64,
) -> (r: AuthorizationState)
    ensures
        user_state_revoked(state, r, *user_id, vault_id@, now),
{
    let owner = GrantOwner::User(user_id.duplicate());
    AuthorizationState {
        requests: drop_requests(state.requests, vault_id),
        codes: close_all(state.codes, vault_id, &owner, now),
        access: close_all(state.access, vault_id, &owner, now),
        refresh: close_all(state.refresh, vault_id, &owner, now),
    }
}

/// Authorization state after a token family of a vault is revoked.
pub open spec fn family_revoked(
    before: AuthorizationState,
    after: AuthorizationState,
    family_id: Id,
    vault: Seq<char>,
    now: i64,
) -> bool {
    let owner = GrantOwner::Family(family_id);
    &&& after.requests == before.requests
    &&& after.codes == before.codes
    &&& after.access@ == all_closed(before.access@, vault, owner, now)
    &&& after.refresh@ == all_closed(before.refresh@, vault, owner, now)
}

/// Revoke both access and refresh rows of a replayed token family.
pub fn revoke_oauth_token_family(
    context: &VaultContext,
    state: AuthorizationState,
    family_id: &Id,
    revoked_at: i64,
) -> (r: AuthorizationState)
    ensures
        family_revoked(state, r, *family_id, context.id@, revoked_at),
{
    let owner = GrantOwner::Family(family_id.duplicate());
    AuthorizationState {
        requests: state.requests,
        codes: state.codes,
        access: close_all(state.access, &context.id, &owner, revoked_at),
        refresh: close_all(state.refresh, &context.id, &owner, revoked_at),
    }
}

/// Authorization state after rows that were unusable before a time are removed.
pub open spec fn swept(before: AuthorizationState, after: AuthorizationState, cutoff: i64) -> bool {
    &&& after.requests@ == kept(before.requests@, cutoff)
    &&& after.codes@ == kept(before.codes@, cutoff)
    &&& after.access@ == kept(before.access@, cutoff)
    &&& after.refresh@ == kept(before.refresh@, cutoff)
}

/// Bounded opportunistic cleanup of rows that are already unusable.
pub fn cleanup_local_oauth(state: AuthorizationState, remove_before: i64) -> (r: AuthorizationState)
    ensures
        swept(state, r, remove_before),
{
    AuthorizationState {
        requests: sweep(state.requests, remove_before),
        codes: sweep(state.codes, remove_before),
        access: sweep(state.access, remove_before),
        refresh: sweep(state.refresh, remove_before),
    }
}

/// Registrations that were made before this time and never used are abandoned.
pub open spec fn abandoned_before(now: i64) -> i64 {
    if now - UNUSED_CLIENT_MILLIS < i64::MIN {
        i64::MIN
    } else {
        (now - UNUSED_CLIENT_MILLIS) as i64
    }
}

/// A new registration of a public client.
pub open spec fn is_registration(
    client: OAuthClientRecord,
    id: Id,
    client_name: String,
    redirect_uris_json: String,
    grant_types_json: String,
    response_types_json: String,
    now: i64,
) -> bool {
    &&& client.token_endpoint_auth_method@ == "none"@
    &&& client == (OAuthClientRecord {
        id,
        client_name,
        redirect_uris_json,
        grant_types_json,
        response_types_json,
        token_endpoint_auth_method: client.token_endpoint_auth_method,
        created_at: now,
        last_used_at: None,
        revoked_at: None,
    })
}

/// The registered client with an identity: its position.
pub fn get_oauth_client(clients: &[OAuthClientRecord], id: &Id) -> (r: Option<usize>)
    ensures
        match r {
            Some(i) => i < clients@.len() && first_index(
                clients@,
                |row: OAuthClientRecord| row.id@ == id@,
            ) == Some(i as int),
            None => first_index(clients@, |row: OAuthClientRecord| row.id@ == id@) is None,
        },
{
    let accepts = |row: &OAuthClientRecord| -> (yes: bool)
        ensures
            yes == (row.id@ == id@),
        { row.id.same(id) };
    find(clients, accepts, Ghost(|row: OAuthClientRecord| row.id@ == id@))
}

/// Register one bounded public OAuth client without issuing a secret. Revoked
/// and abandoned registrations are removed first; what is left is active and
/// counts towards the limit.
pub fn insert_oauth_client(
    clients: Vec<OAuthClientRecord>,
    id: Id,
    client_name: String,
    redirect_uris_json: String,
    grant_types_json: String,
    response_types_json: String,
    max_active_clients: u32,
    now: i64,
) -> (r: Result<Vec<OAuthClientRecord>, StateError>)
    ensures
        ({
            let active = kept(clients@, abandoned_before(now));
            if !(1 <= max_active_clients <= 10_000) {
                r == invalid::<Vec<OAuthClientRecord>>("OAuth client limit is invalid")
            } else if active.len() >= max_active_clients {
                r == invalid::<Vec<OAuthClientRecord>>("OAuth client limit was reached")
            } else {
                &&& r matches Ok(after)
                &&& after@.len() == active.len() + 1
                &&& after@.drop_last() == active
                &&& is_registration(
                    after@.last(),
                    id,
                    client_name,
                    redirect_uris_json,
                    grant_types_json,
                    response_types_json,
                    now,
                )
            }
        }),
{
    if max_active_clients == 0 || max_active_clients > 10_000 {
        return Err(StateError::InvalidInput("OAuth client limit is invalid"));
    }
    let cutoff: i64 = if now < i64::MIN + UNUSED_CLIENT_MILLIS {
        i64::MIN
    } else {
        now - UNUSED_CLIENT_MILLIS
    };
    let mut active = sweep(clients, cutoff);
    if active.len() >= max_active_clients as usize {
        return Err(StateError::InvalidInput("OAuth client limit was reached"));
    }
    let ghost before = active@;
    active.push(
        OAuthClientRecord {
            id,
            client_name,
            redirect_uris_json,
            grant_types_json,
            response_types_json,
            token_endpoint_auth_method: "none".to_owned(),
            created_at: now,
            last_used_at: None,
            revoked_at: None,
        },
    );
    assert(active@.drop_last() =~= before);
    Ok(active)
}

/// Persist one validated, short-lived authorization request handle.
pub fn insert_oauth_authorization_request(
    context: &VaultContext,
    id: Id,
    request_digest: Vec<u8>,
    digest_key_version: u32,
    client_id: Id,
    resource: String,
    redirect_uri: String,
    scopes_json: String,
    state: Option<String>,
    code_challenge: String,
    created_at: i64,
    expires_at: i64,
) -> (r: OAuthAuthorizationRequestRecord)
    ensures
        r == (OAuthAuthorizationRequestRecord {
            id,
            request_digest,
            digest_key_version,
            client_id,
            vault_id: context.id,
            resource,
            redirect_uri,
            scopes_json,
            state,
            code_challenge,
            created_at,
            expires_at,
            consumed_at: None,
        }),
{
    OAuthAuthorizationRequestRecord {
        id,
        request_digest,
        digest_key_version,
        client_id,
        vault_id: context.id.duplicate(),
        resource,
        redirect_uri,
        scopes_json,
        state,
        code_challenge,
        created_at,
        expires_at,
        consumed_at: None,
    }
}

impl OAuthLocalUserRecord {
    /// Whether the user may authorize clients of a vault.
    pub open spec fn may_authorize(self, id: Seq<char>, vault: Seq<char>) -> bool {
        self.id@ == id && self.vault_id@ == vault && self.enabled
    }
}

impl OAuthAuthorizationRequestRecord {
    /// Whether the request can still be completed.
    pub open spec fn open_at(self, id: Seq<char>, vault: Seq<char>, at: i64) -> bool {
        self.id@ == id && self.vault_id@ == vault && self.expires_at > at
    }

    /// The code that a completion of the request creates.
    pub open spec fn code(self, code: NewOAuthAuthorizationCode, user_id: Id) -> OAuthAuthorizationCodeRecord {
        OAuthAuthorizationCodeRecord {
            id: code.id,
            code_digest: code.code_digest,
            digest_key_version: code.digest_key_version,
            client_id: self.client_id,
            user_id,
            vault_id: self.vault_id,
            resource: self.resource,
            redirect_uri: self.redirect_uri,
            scopes_json: self.scopes_json,
            code_challenge: self.code_challenge,
            created_at: code.created_at,
            expires_at: code.expires_at,
            consumed_at: None,
        }
    }
}

impl OAuthClientRecord {
    /// The client after it completed an authorization.
    pub open spec fn used(self, request: OAuthAuthorizationRequestRecord, at: i64) -> OAuthClientRecord {
        if self.id@ == request.client_id@ {
            OAuthClientRecord { last_used_at: Some(at), ..self }
        } else {
            self
        }
    }
}

/// What a completed authorization request leaves behind.
pub struct CompletedRequest {
    pub request: OAuthAuthorizationRequestRecord,
    pub code: OAuthAuthorizationCodeRecord,
    pub client: OAuthClientRecord,
}

/// Record completion and create a fresh single-use code.
///
/// A still-valid interactive request may be submitted more than once: browsers
/// and reverse proxies can replay a form after the first response has been
/// committed. Each authenticated retry therefore receives its own code, while
/// `consumed_at` retains the first completion time. Codes remain strictly
/// single-use.
pub fn complete_oauth_authorization_request(
    context: &VaultContext,
    request_id: &Id,
    request: Option<OAuthAuthorizationRequestRecord>,
    user_id: &Id,
    user: &Option<OAuthLocalUserRecord>,
    client: OAuthClientRecord,
    code: NewOAuthAuthorizationCode,
    consumed_at: i64,
) -> (r: Result<CompletedRequest, StateError>)
    ensures
        r == (if !(user is Some && user->0.may_authorize(user_id@, context.id@)) {
            invalid("local OAuth user is disabled")
        } else if !(request is Some && request->0.open_at(request_id@, context.id@, consumed_at)) {
            invalid("OAuth authorization code was not created")
        } else {
            Ok::<CompletedRequest, StateError>(
                (CompletedRequest {
                    request: OAuthAuthorizationRequestRecord {
                        consumed_at: first_revocation(request->0.consumed_at, consumed_at),
                        ..request->0
                    },
                    code: request->0.code(code, *user_id),
                    client: client.used(request->0, consumed_at),
                }),
            )
        }),
{
    let allowed = match user {
        Some(user) => user.id.same(user_id) && user.vault_id.same(&context.id) && user.enabled,
        None => false,
    };
    if !allowed {
        return Err(StateError::InvalidInput("local OAuth user is disabled"));
    }
    match request {
        Some(request) if request.id.same(request_id) && request.vault_id.same(&context.id)
            && request.expires_at > consumed_at => {
            let issued = OAuthAuthorizationCodeRecord {
                id: code.id,
                code_digest: code.code_digest,
                digest_key_version: code.digest_key_version,
                client_id: request.client_id.duplicate(),
                user_id: user_id.duplicate(),
                vault_id: request.vault_id.duplicate(),
                resource: request.resource.clone(),
                redirect_uri: request.redirect_uri.clone(),
                scopes_json: request.scopes_json.clone(),
                code_challenge: request.code_challenge.clone(),
                created_at: code.created_at,
                expires_at: code.expires_at,
                consumed_at: None,
            };
            let client = if client.id.same(&request.client_id) {
                OAuthClientRecord { last_used_at: Some(consumed_at), ..client }
            } else {
                client
            };
            let completed_at = revoke(request.consumed_at, consumed_at);
            Ok(
                CompletedRequest {
                    request: OAuthAuthorizationRequestRecord { consumed_at: completed_at, ..request },
                    code: issued,
                    client,
                },
            )
        },
        _ => Err(StateError::InvalidInput("OAuth authorization code was not created")),
    }
}

impl OAuthAuthorizationCodeRecord {
    /// The access token that an exchange of the code issues.
    pub open spec fn access(self, token: NewOAuthAccessToken) -> OAuthAccessTokenRecord {
        OAuthAccessTokenRecord {
            id: token.id,
            family_id: token.family_id,
            token_prefix: token.token_prefix,
            token_digest: token.token_digest,
            digest_key_version: token.digest_key_version,
            client_id: self.client_id,
            user_id: self.user_id,
            vault_id: self.vault_id,
            resource: self.resource,
            scopes_json: self.scopes_json,
            created_at: token.created_at,
            expires_at: token.expires_at,
            last_used_at: None,
            revoked_at: None,
        }
    }

    /// The refresh token that an exchange of the code issues.
    pub open spec fn refresh(self, token: NewOAuthRefreshToken) -> OAuthRefreshTokenRecord {
        OAuthRefreshTokenRecord {
            id: token.id,
            family_id: token.family_id,
            token_prefix: token.token_prefix,
            token_digest: token.token_digest,
            digest_key_version: token.digest_key_version,
            client_id: self.client_id,
            user_id: self.user_id,
            vault_id: self.vault_id,
            resource: self.resource,
            scopes_json: self.scopes_json,
            created_at: token.created_at,
            expires_at: token.expires_at,
            rotated_at: None,
            revoked_at: None,
        }
    }
}

/// What the exchange of a code leaves behind.
pub struct ConsumedCode {
    pub code: OAuthAuthorizationCodeRecord,
    pub access: OAuthAccessTokenRecord,
    pub refresh: OAuthRefreshTokenRecord,
}

fn insert_access_from_code(code: &OAuthAuthorizationCodeRecord, token: NewOAuthAccessToken) -> (r: OAuthAccessTokenRecord)
    ensures
        r == code.access(token),
{
    OAuthAccessTokenRecord {
        id: token.id,
        family_id: token.family_id,
        token_prefix: token.token_prefix,
        token_digest: token.token_digest,
        digest_key_version: token.digest_key_version,
        client_id: code.client_id.duplicate(),
        user_id: code.user_id.duplicate(),
        vault_id: code.vault_id.duplicate(),
        resource: code.resource.clone(),
        scopes_json: code.scopes_json.clone(),
        created_at: token.created_at,
        expires_at: token.expires_at,
        last_used_at: None,
        revoked_at: None,
    }
}

fn insert_refresh_from_code(code: &OAuthAuthorizationCodeRecord, token: NewOAuthRefreshToken) -> (r: OAuthRefreshTokenRecord)
    ensures
        r == code.refresh(token),
{
    OAuthRefreshTokenRecord {
        id: token.id,
        family_id: token.family_id,
        token_prefix: token.token_prefix,
        token_digest: token.token_digest,
        digest_key_version: token.digest_key_version,
        client_id: code.client_id.duplicate(),
        user_id: code.user_id.duplicate(),
        vault_id: code.vault_id.duplicate(),
        resource: code.resource.clone(),
        scopes_json: code.scopes_json.clone(),
        created_at: token.created_at,
        expires_at: token.expires_at,
        rotated_at: None,
        revoked_at: None,
    }
}

/// Consume a code and mint one access and refresh token pair with the frozen
/// client, vault, resource and scopes of the code.
pub fn consume_oauth_code_and_insert_tokens(
    context: &VaultContext,
    code_id: &Id,
    code: Option<OAuthAuthorizationCodeRecord>,
    access: NewOAuthAccessToken,
    refresh: NewOAuthRefreshToken,
    consumed_at: i64,
) -> (r: Result<ConsumedCode, StateError>)
    ensures
        r == (if access.family_id@ != refresh.family_id@ {
            invalid("OAuth token family is invalid")
        } else if !(code is Some && code->0.exchangeable(code_id@, context.id@, consumed_at)) {
            invalid("OAuth authorization code is unavailable")
        } else {
            Ok::<ConsumedCode, StateError>(
                (ConsumedCode {
                    code: OAuthAuthorizationCodeRecord {
                        consumed_at: Some(consumed_at),
                        ..code->0
                    },
                    access: code->0.access(access),
                    refresh: code->0.refresh(refresh),
                }),
            )
        }),
{
    if !access.family_id.same(&refresh.family_id) {
        return Err(StateError::InvalidInput("OAuth token family is invalid"));
    }
    match code {
        Some(code) if code.id.same(code_id) && code.vault_id.same(&context.id)
            && code.consumed_at.is_none() && code.expires_at > consumed_at => {
            let access = insert_access_from_code(&code, access);
            let refresh = insert_refresh_from_code(&code, refresh);
            Ok(
                ConsumedCode {
                    code: OAuthAuthorizationCodeRecord { consumed_at: Some(consumed_at), ..code },
                    access,
                    refresh,
                },
            )
        },
        _ => Err(StateError::InvalidInput("OAuth authorization code is unavailable")),
    }
}

/// Record a use of an access token: only inside its vault.
pub fn touch_oauth_access_token(
    context: &VaultContext,
    token: OAuthAccessTokenRecord,
    used_at: i64,
) -> (r: OAuthAccessTokenRecord)
    ensures
        r == (if token.vault_id@ == context.id@ {
            OAuthAccessTokenRecord { last_used_at: Some(used_at), ..token }
        } else {
            token
        }),
{
    if token.vault_id.same(&context.id) {
        OAuthAccessTokenRecord { last_used_at: Some(used_at), ..token }
    } else {
        token
    }
}

impl OAuthRefreshTokenRecord {
    /// The access token that a rotation issues.
    pub open spec fn access(self, token: NewOAuthAccessToken) -> OAuthAccessTokenRecord {
        OAuthAccessTokenRecord {
            id: token.id,
            family_id: self.family_id,
            token_prefix: token.token_prefix,
            token_digest: token.token_digest,
            digest_key_version: token.digest_key_version,
            client_id: self.client_id,
            user_id: self.user_id,
            vault_id: self.vault_id,
            resource: self.resource,
            scopes_json: granted_scopes(token.scopes_json, self.scopes_json),
            created_at: token.created_at,
            expires_at: token.expires_at,
            last_used_at: None,
            revoked_at: None,
        }
    }

    /// The successor that a rotation issues. It gets a fresh idle term.
    pub open spec fn successor(self, token: NewOAuthRefreshToken) -> OAuthRefreshTokenRecord {
        OAuthRefreshTokenRecord {
            id: token.id,
            family_id: self.family_id,
            token_prefix: token.token_prefix,
            token_digest: token.token_digest,
            digest_key_version: token.digest_key_version,
            client_id: self.client_id,
            user_id: self.user_id,
            vault_id: self.vault_id,
            resource: self.resource,
            scopes_json: granted_scopes(token.scopes_json, self.scopes_json),
            created_at: token.created_at,
            expires_at: token.expires_at,
            rotated_at: None,
            revoked_at: None,
        }
    }
}

/// What a rotation leaves behind.
pub struct RotatedToken {
    pub spent: OAuthRefreshTokenRecord,
    pub access: OAuthAccessTokenRecord,
    pub refresh: OAuthRefreshTokenRecord,
}

fn insert_access_from_refresh(old: &OAuthRefreshTokenRecord, token: NewOAuthAccessToken) -> (r: Result<
    OAuthAccessTokenRecord,
    StateError,
>)
    ensures
        r == (if old.family_id@ == token.family_id@ {
            Ok::<OAuthAccessTokenRecord, StateError>(old.access(token))
        } else {
            invalid("OAuth access token was not rotated")
        }),
{
    if !old.family_id.same(&token.family_id) {
        return Err(StateError::InvalidInput("OAuth access token was not rotated"));
    }
    Ok(
        OAuthAccessTokenRecord {
            id: token.id,
            family_id: old.family_id.duplicate(),
            token_prefix: token.token_prefix,
            token_digest: token.token_digest,
            digest_key_version: token.digest_key_version,
            client_id: old.client_id.duplicate(),
            user_id: old.user_id.duplicate(),
            vault_id: old.vault_id.duplicate(),
            resource: old.resource.clone(),
            scopes_json: grant_scopes(token.scopes_json, &old.scopes_json),
            created_at: token.created_at,
            expires_at: token.expires_at,
            last_used_at: None,
            revoked_at: None,
        },
    )
}

fn insert_refresh_from_refresh(old: &OAuthRefreshTokenRecord, token: NewOAuthRefreshToken) -> (r: OAuthRefreshTokenRecord)
    ensures
        r == old.successor(token),
{
    OAuthRefreshTokenRecord {
        id: token.id,
        family_id: old.family_id.duplicate(),
        token_prefix: token.token_prefix,
        token_digest: token.token_digest,
        digest_key_version: token.digest_key_version,
        client_id: old.client_id.duplicate(),
        user_id: old.user_id.duplicate(),
        vault_id: old.vault_id.duplicate(),
        resource: old.resource.clone(),
        scopes_json: grant_scopes(token.scopes_json, &old.scopes_json),
        created_at: token.created_at,
        expires_at: token.expires_at,
        rotated_at: None,
        revoked_at: None,
    }
}

/// Rotate one refresh token and mint the next pair. A successful rotation
/// starts a new idle term: the successor expires when the caller says, not when
/// the spent token would have.
pub fn rotate_oauth_refresh_token(
    context: &VaultContext,
    old_id: &Id,
    old: Option<OAuthRefreshTokenRecord>,
    access: NewOAuthAccessToken,
    refresh: NewOAuthRefreshToken,
    rotated_at: i64,
) -> (r: Result<RotatedToken, StateError>)
    ensures
        r == (if access.family_id@ != refresh.family_id@ {
            invalid("OAuth token family is invalid")
        } else if !(old is Some && old->0.rotatable(old_id@, context.id@, rotated_at)) {
            invalid("OAuth refresh token is unavailable")
        } else if old->0.family_id@ != access.family_id@ {
            invalid("OAuth access token was not rotated")
        } else {
            Ok::<RotatedToken, StateError>(
                (RotatedToken {
                    spent: OAuthRefreshTokenRecord { rotated_at: Some(rotated_at), ..old->0 },
                    access: old->0.access(access),
                    refresh: old->0.successor(refresh),
                }),
            )
        }),
{
    if !access.family_id.same(&refresh.family_id) {
        return Err(StateError::InvalidInput("OAuth token family is invalid"));
    }
    match old {
        Some(old) if old.id.same(old_id) && old.vault_id.same(&context.id)
            && old.rotated_at.is_none() && old.revoked_at.is_none() && old.expires_at
            > rotated_at => {
            let access = match insert_access_from_refresh(&old, access) {
                Ok(access) => access,
                Err(e) => return Err(e),
            };
            let refresh = insert_refresh_from_refresh(&old, refresh);
            Ok(
                RotatedToken {
                    spent: OAuthRefreshTokenRecord { rotated_at: Some(rotated_at), ..old },
                    access,
                    refresh,
                },
            )
        },
        _ => Err(StateError::InvalidInput("OAuth refresh token is unavailable")),
    }
}

/// An authorization code is single-use: once exchanged, no later exchange at
/// any time succeeds with it.
pub proof fn law_code_is_single_use(
    code: OAuthAuthorizationCodeRecord,
    id: Seq<char>,
    vault: Seq<char>,
    at: i64,
    later: i64,
)
    requires
        code.exchangeable(id, vault, at),
    ensures
        !(OAuthAuthorizationCodeRecord { consumed_at: Some(at), ..code }).exchangeable(
            id,
            vault,
            later,
        ),
{
}

/// A completed request that is still valid can be completed again, and keeps
/// its first completion time.
pub proof fn law_completion_can_be_replayed(
    request: OAuthAuthorizationRequestRecord,
    id: Seq<char>,
    vault: Seq<char>,
    at: i64,
    later: i64,
)
    requires
        request.open_at(id, vault, later),
    ensures
        ({
            let completed = OAuthAuthorizationRequestRecord {
                consumed_at: first_revocation(request.consumed_at, at),
                ..request
            };
            &&& completed.open_at(id, vault, later)
            &&& first_revocation(completed.consumed_at, later) == completed.consumed_at
        }),
{
}

/// Codes and tokens stay bound to the vault, client, user and resource that
/// were authorized. The pair that a code is exchanged for carries the frozen
/// scopes, and so does every later pair for which none are narrowed.
pub proof fn law_grants_stay_bound(
    request: OAuthAuthorizationRequestRecord,
    new_code: NewOAuthAuthorizationCode,
    user_id: Id,
    access: NewOAuthAccessToken,
    refresh: NewOAuthRefreshToken,
    next_access: NewOAuthAccessToken,
    next_refresh: NewOAuthRefreshToken,
)
    ensures
        ({
            let code = request.code(new_code, user_id);
            let first = code.refresh(refresh);
            let second = first.successor(next_refresh);
            let bearer = first.access(next_access);
            &&& second.vault_id == request.vault_id && bearer.vault_id == request.vault_id
            &&& second.client_id == request.client_id && bearer.client_id == request.client_id
            &&& second.user_id == user_id && bearer.user_id == user_id
            &&& second.resource == request.resource && bearer.resource == request.resource
            &&& second.family_id == refresh.family_id && bearer.family_id == refresh.family_id
            &&& code.access(access).vault_id == request.vault_id
            &&& code.access(access).scopes_json == request.scopes_json
            &&& first.scopes_json == request.scopes_json
            &&& next_access.scopes_json is None ==> bearer.scopes_json == request.scopes_json
            &&& next_refresh.scopes_json is None ==> second.scopes_json == request.scopes_json
        }),
{
}

/// A spent refresh token cannot be rotated again; its successor can, for the
/// whole term that it was issued with.
pub proof fn law_rotation_moves_the_grant(
    old: OAuthRefreshTokenRecord,
    token: NewOAuthRefreshToken,
    id: Seq<char>,
    vault: Seq<char>,
    at: i64,
    later: i64,
)
    requires
        old.rotatable(id, vault, at),
    ensures
        !(OAuthRefreshTokenRecord { rotated_at: Some(at), ..old }).rotatable(id, vault, later),
        old.successor(token).rotatable(token.id@, vault, later) <==> later < token.expires_at,
{
}

/// A revoked family is dead in its vault: none of its refresh tokens rotates
/// and none of its access tokens is live. Every other row is as it was.
pub proof fn law_family_revocation_is_complete(
    before: AuthorizationState,
    after: AuthorizationState,
    family_id: Id,
    vault: Seq<char>,
    now: i64,
)
    requires
        family_revoked(before, after, family_id, vault, now),
    ensures
        after.access@.len() == before.access@.len(),
        after.refresh@.len() == before.refresh@.len(),
        forall|i: int|
            0 <= i < before.access@.len() ==> if (#[trigger] before.access@[i]).vault_id@ == vault
                && before.access@[i].family_id@ == family_id@ {
                after.access@[i].revoked_at is Some
            } else {
                after.access@[i] == before.access@[i]
            },
        forall|i: int, id: Seq<char>, at: i64|
            0 <= i < before.refresh@.len() && (#[trigger] before.refresh@[i]).vault_id@ == vault
                && before.refresh@[i].family_id@ == family_id@ ==> !#[trigger] after.refresh@[i].rotatable(
                id,
                vault,
                at,
            ),
        forall|i: int|
            0 <= i < before.refresh@.len() && !((#[trigger] before.refresh@[i]).vault_id@ == vault
                && before.refresh@[i].family_id@ == family_id@) ==> after.refresh@[i]
                == before.refresh@[i],
{
}

/// A password change ends everything that was outstanding for the vault's
/// user: no request of the vault is left, no code of the user can be
/// exchanged, no refresh token rotates and no access token is live.
pub proof fn law_credential_change_ends_grants(
    before: AuthorizationState,
    after: AuthorizationState,
    user_id: Id,
    vault: Seq<char>,
    now: i64,
)
    requires
        user_state_revoked(before, after, user_id, vault, now),
    ensures
        forall|i: int|
            0 <= i < after.requests@.len() ==> (#[trigger] after.requests@[i]).vault_id@ != vault,
        forall|i: int, id: Seq<char>, at: i64|
            0 <= i < after.codes@.len() && (#[trigger] after.codes@[i]).user_id@ == user_id@
                ==> !#[trigger] after.codes@[i].exchangeable(id, vault, at),
        forall|i: int, id: Seq<char>, at: i64|
            0 <= i < after.refresh@.len() && (#[trigger] after.refresh@[i]).user_id@ == user_id@
                ==> !#[trigger] after.refresh@[i].rotatable(id, vault, at),
        forall|i: int|
            0 <= i < after.access@.len() && (#[trigger] after.access@[i]).vault_id@ == vault
                && after.access@[i].user_id@ == user_id@ ==> after.access@[i].revoked_at is Some,
{
    lemma_requests_elsewhere(before.requests@, vault);
}

/// Cleanup removes only rows that nobody can use any more: a code that can be
/// exchanged, a refresh token that rotates and a request that is open now, and
/// an access token that is live now, all stay.
pub proof fn law_cleanup_keeps_usable_rows(
    before: AuthorizationState,
    after: AuthorizationState,
    cutoff: i64,
    now: i64,
)
    requires
        swept(before, after, cutoff),
        cutoff <= now,
    ensures
        forall|i: int, id: Seq<char>, vault: Seq<char>|
            0 <= i < before.codes@.len() && #[trigger] before.codes@[i].exchangeable(id, vault, now)
                ==> after.codes@.contains(before.codes@[i]),
        forall|i: int, id: Seq<char>, vault: Seq<char>|
            0 <= i < before.refresh@.len() && #[trigger] before.refresh@[i].rotatable(id, vault, now)
                ==> after.refresh@.contains(before.refresh@[i]),
        forall|i: int|
            0 <= i < before.access@.len() && (#[trigger] before.access@[i]).revoked_at is None
                && before.access@[i].expires_at > now ==> after.access@.contains(
                before.access@[i],
            ),
{
    assert forall|i: int, id: Seq<char>, vault: Seq<char>|
        0 <= i < before.codes@.len() && #[trigger] before.codes@[i].exchangeable(
            id,
            vault,
            now,
        ) implies after.codes@.contains(before.codes@[i]) by {
        lemma_kept_contains(before.codes@, cutoff, i);
    }
    assert forall|i: int, id: Seq<char>, vault: Seq<char>|
        0 <= i < before.refresh@.len() && #[trigger] before.refresh@[i].rotatable(
            id,
            vault,
            now,
        ) implies after.refresh@.contains(before.refresh@[i]) by {
        lemma_kept_contains(before.refresh@, cutoff, i);
    }
    assert forall|i: int|
        0 <= i < before.access@.len() && (#[trigger] before.access@[i]).revoked_at is None
            && before.access@[i].expires_at > now implies after.access@.contains(
        before.access@[i],
    ) by {
        lemma_kept_contains(before.access@, cutoff, i);
    }
}

/// A row that does not go is kept.
proof fn lemma_kept_contains<T: Swept>(rows: Seq<T>, before: i64, i: int)
    requires
        0 <= i < rows.len(),
        !rows[i].goes(before),
    ensures
        kept(rows, before).contains(rows[i]),
    decreases rows.len(),
{
    reveal(Seq::filter);
    let stays = |row: T| !row.goes(before);
    let shorter = rows.drop_last().filter(stays);
    if i == rows.len() - 1 {
        assert(kept(rows, before).last() == rows[i]);
    } else {
        lemma_kept_contains(rows.drop_last(), before, i);
        assert(rows.drop_last()[i] == rows[i]);
        let k = choose|k: int| 0 <= k < shorter.len() && shorter[k] == rows[i];
        assert(kept(rows, before)[k] == rows[i]);
    }
}

/// No row that a filter drops is left.
proof fn lemma_requests_elsewhere(
    requests: Seq<OAuthAuthorizationRequestRecord>,
    vault: Seq<char>,
)
    ensures
        forall|i: int|
            0 <= i < requests_elsewhere(requests, vault).len() ==> (
            #[trigger] requests_elsewhere(requests, vault)[i]).vault_id@ != vault,
    decreases requests.len(),
{
    reveal(Seq::filter);
    if requests.len() > 0 {
        lemma_requests_elsewhere(requests.drop_last(), vault);
    }
}

} // verus!
