//! What issuing, using, revoking and listing credentials does, in terms of the
//! stored rows.

use vstd::prelude::*;

use crate::auth::queries::{
    find_admin_session, find_admin_user_by_username, find_mcp_token, find_oauth_grant,
    find_webdav_credential, list_secrets, secret_key,
};
use crate::auth::{
    insert_admin_user, insert_first_admin_user, insert_mcp_token, insert_oauth_grant,
    insert_oauth_issuer, insert_webdav_credential, key_check_to_keep, list_mcp_tokens,
    list_oauth_grants, list_webdav_credentials, listed_grants, revoke_admin_session,
    revoke_admin_sessions, revoke_mcp_token, revoke_oauth_grant, revoke_webdav_credential,
    tokens_in_vault, touch_admin_session, touch_mcp_token, touch_webdav_credential,
    update_admin_password, update_oauth_issuer, update_secret_ciphertext, update_webdav_credential,
    validate_key_check, webdav_in_vault, AdminSessionRecord, AdminSessionView, AdminUserRecord,
    AdminUserView, EncryptedSecretRecord, IssuerConfiguration, McpTokenRecord, McpTokenView,
    OAuthGrantRecord, OAuthIssuerRecord, OAuthIssuerView, SecretView, WebDavCredentialRecord,
    WebDavCredentialView,
};
use crate::domain::{Id, VaultContext};
use crate::error::StateError;
use crate::order::laws::{is_listing, lemma_page_listing, lemma_selection_listing};
use crate::order::{is_page, keys};
use crate::rows::lemma_first_index;
use crate::text::text_before;

verus! {

/// The installation keeps the first digest that its key was checked by; a digest
/// has 32 bytes and a version that is not zero.
pub proof fn law_first_key_check_is_kept(
    existing: Option<Vec<u8>>,
    proposed: Vec<u8>,
    kept: Vec<u8>,
    version: u32,
    digest: &[u8],
    checked: Result<(), StateError>,
)
    requires
        call_ensures(key_check_to_keep, (existing, proposed), kept),
        call_ensures(validate_key_check, (version, digest), checked),
    ensures
        existing is Some ==> kept == existing->0,
        existing is None ==> kept == proposed,
        checked is Ok <==> version > 0 && digest@.len() == 32,
{
}

/// A secret that is stored takes the new sealed text whole; nothing else of it
/// changes but its time.
pub proof fn law_secrets_are_sealed_anew(
    secret: Option<EncryptedSecretRecord>,
    key_version: u32,
    nonce: Vec<u8>,
    ciphertext: Vec<u8>,
    hint: Option<String>,
    now: i64,
    r: Result<EncryptedSecretRecord, StateError>,
)
    requires
        call_ensures(
            update_secret_ciphertext,
            (secret, key_version, nonce, ciphertext, hint, now),
            r,
        ),
    ensures
        r is Ok <==> secret is Some,
        r matches Ok(after) ==> {
            &&& after.key_version == key_version
            &&& after.nonce == nonce
            &&& after.ciphertext == ciphertext
            &&& after.hint == hint
            &&& after.updated_at == now
            &&& after.id == secret->0.id
            &&& after.purpose == secret->0.purpose
            &&& after.owner_type == secret->0.owner_type
            &&& after.owner_id == secret->0.owner_id
            &&& after.created_at == secret->0.created_at
        },
{
}

/// Whether an administrator is newly set up with a name and password.
pub open spec fn is_set_up(
    user: AdminUserRecord,
    id: Id,
    username: String,
    password_hash: String,
    now: i64,
) -> bool {
    &&& user.id == id
    &&& user.username == username
    &&& user.password_hash == password_hash
    &&& !user.disabled
    &&& user.password_changed_at == now
    &&& user.created_at == now
    &&& user.updated_at == now
}

/// An administrator is set up as given; the first one only where there is none.
pub proof fn law_administrators_are_set_up_as_given(
    known: bool,
    id: Id,
    username: String,
    password_hash: String,
    now: i64,
    r: AdminUserRecord,
    first: Option<AdminUserRecord>,
)
    requires
        call_ensures(insert_admin_user, (id, username, password_hash, now), r),
        call_ensures(insert_first_admin_user, (known, id, username, password_hash, now), first),
    ensures
        is_set_up(r, id, username, password_hash, now),
        first is Some <==> !known,
        first is Some ==> is_set_up(first->0, id, username, password_hash, now),
{
}

/// A changed password is dated; the administrator stays who they are.
pub proof fn law_changed_passwords_are_dated(
    user: Option<AdminUserRecord>,
    password_hash: String,
    now: i64,
    r: Result<AdminUserRecord, StateError>,
)
    requires
        call_ensures(update_admin_password, (user, password_hash, now), r),
    ensures
        r is Ok <==> user is Some,
        r matches Ok(after) ==> {
            &&& after.password_hash == password_hash
            &&& after.password_changed_at == now
            &&& after.updated_at == now
            &&& after.id == user->0.id
            &&& after.username == user->0.username
            &&& after.disabled == user->0.disabled
            &&& after.created_at == user->0.created_at
        },
{
}

/// Whether a session is revoked, at the time of its first revocation, and is
/// otherwise unchanged.
pub open spec fn is_ended(old: AdminSessionRecord, new: AdminSessionRecord, now: i64) -> bool {
    &&& new.revoked_at == if old.revoked_at is Some {
        old.revoked_at
    } else {
        Some(now)
    }
    &&& new.id == old.id
    &&& new.user_id == old.user_id
    &&& new.token_digest == old.token_digest
    &&& new.csrf_secret_digest == old.csrf_secret_digest
    &&& new.last_seen_at == old.last_seen_at
    &&& new.expires_at == old.expires_at
}

/// A session that is seen keeps all but the time; one that is revoked stays
/// revoked since the first time; all sessions of a user are revoked together, and
/// no other one.
pub proof fn law_sessions_are_ended_by_their_user(
    session: AdminSessionRecord,
    at: i64,
    seen: AdminSessionRecord,
    ended: AdminSessionRecord,
    sessions: Vec<AdminSessionRecord>,
    user_id: &Id,
    r: Vec<AdminSessionRecord>,
)
    requires
        call_ensures(touch_admin_session, (session, at), seen),
        call_ensures(revoke_admin_session, (session, at), ended),
        call_ensures(revoke_admin_sessions, (sessions, user_id, at), r),
    ensures
        seen.last_seen_at == at,
        seen.id == session.id && seen.user_id == session.user_id && seen.revoked_at
            == session.revoked_at && seen.expires_at == session.expires_at && seen.token_digest
            == session.token_digest,
        is_ended(session, ended, at),
        r@.len() == sessions@.len(),
        forall|k: int|
            0 <= k < sessions@.len() ==> if sessions@[k].user_id.text@ == user_id.text@ {
                is_ended(sessions@[k], #[trigger] r@[k], at)
            } else {
                r@[k] == sessions@[k]
            },
{
}

/// A WebDAV credential is stored as given, in the vault, unused and valid.
pub proof fn law_credentials_are_stored_as_given(
    context: &VaultContext,
    id: Id,
    name: String,
    username: String,
    password_hash: String,
    permissions_json: String,
    expires_at: Option<i64>,
    now: i64,
    r: WebDavCredentialRecord,
)
    requires
        call_ensures(
            insert_webdav_credential,
            (
                context,
                id,
                name,
                username,
                password_hash,
                permissions_json,
                expires_at,
                now,
            ),
            r,
        ),
    ensures
        r.id == id && r.vault_id == context.id && r.name == name && r.username == username,
        r.password_hash == password_hash && r.permissions_json == permissions_json,
        r.created_at == now && r.expires_at == expires_at,
        r.last_used_at is None && r.revoked_at is None,
{
}

/// An access token is stored as given, in the vault, unused and valid.
pub proof fn law_tokens_are_stored_as_given(
    context: &VaultContext,
    id: Id,
    name: String,
    token_prefix: String,
    token_digest: Vec<u8>,
    digest_key_version: u32,
    scopes_json: String,
    expires_at: Option<i64>,
    now: i64,
    r: McpTokenRecord,
)
    requires
        call_ensures(
            insert_mcp_token,
            (
                context,
                id,
                name,
                token_prefix,
                token_digest,
                digest_key_version,
                scopes_json,
                expires_at,
                now,
            ),
            r,
        ),
    ensures
        r.id == id && r.vault_id == context.id && r.name == name,
        r.token_prefix == token_prefix && r.token_digest == token_digest,
        r.digest_key_version == digest_key_version && r.scopes_json == scopes_json,
        r.created_at == now && r.expires_at == expires_at,
        r.last_used_at is None && r.revoked_at is None,
{
}

/// In its own vault a credential is renamed, dated and revoked, once; in another
/// nothing happens to it. Its secret stays.
pub proof fn law_credentials_change_in_their_vault(
    context: &VaultContext,
    credential: WebDavCredentialRecord,
    name: String,
    permissions_json: String,
    expires_at: Option<i64>,
    at: i64,
    updated: Result<WebDavCredentialRecord, StateError>,
    used: WebDavCredentialRecord,
    revoked: WebDavCredentialRecord,
)
    requires
        call_ensures(
            update_webdav_credential,
            (context, Some(credential), name, permissions_json, expires_at),
            updated,
        ),
        call_ensures(touch_webdav_credential, (context, credential, at), used),
        call_ensures(revoke_webdav_credential, (context, credential, at), revoked),
    ensures
        updated is Ok <==> credential.vault_id.text@ == context.id.text@,
        updated matches Ok(after) ==> {
            &&& after.name == name
            &&& after.permissions_json == permissions_json
            &&& after.expires_at == expires_at
            &&& after.id == credential.id
            &&& after.username == credential.username
            &&& after.password_hash == credential.password_hash
            &&& after.revoked_at == credential.revoked_at
        },
        credential.vault_id.text@ != context.id.text@ ==> used == credential && revoked
            == credential,
        credential.vault_id.text@ == context.id.text@ ==> used.last_used_at == Some(at)
            && revoked.revoked_at == if credential.revoked_at is Some {
            credential.revoked_at
        } else {
            Some(at)
        },
        used.password_hash == credential.password_hash && used.revoked_at == credential.revoked_at
            && used.expires_at == credential.expires_at && used.id == credential.id,
        revoked.password_hash == credential.password_hash && revoked.last_used_at
            == credential.last_used_at && revoked.expires_at == credential.expires_at
            && revoked.id == credential.id,
{
}

/// In its own vault a token is dated and revoked, once; in another nothing
/// happens to it.
pub proof fn law_tokens_change_in_their_vault(
    context: &VaultContext,
    token: McpTokenRecord,
    at: i64,
    used: McpTokenRecord,
    revoked: McpTokenRecord,
)
    requires
        call_ensures(touch_mcp_token, (context, token, at), used),
        call_ensures(revoke_mcp_token, (context, token, at), revoked),
    ensures
        token.vault_id.text@ != context.id.text@ ==> used == token && revoked == token,
        token.vault_id.text@ == context.id.text@ ==> used.last_used_at == Some(at)
            && revoked.revoked_at == if token.revoked_at is Some {
            token.revoked_at
        } else {
            Some(at)
        },
        used.token_digest == token.token_digest && used.revoked_at == token.revoked_at
            && used.expires_at == token.expires_at && used.scopes_json == token.scopes_json,
        revoked.token_digest == token.token_digest && revoked.last_used_at == token.last_used_at
            && revoked.expires_at == token.expires_at && revoked.scopes_json == token.scopes_json,
{
}

/// Whether an issuer holds a configuration, with its key cache dated.
pub open spec fn is_configured(
    issuer: OAuthIssuerRecord,
    configuration: IssuerConfiguration,
    now: i64,
) -> bool {
    &&& issuer.name == configuration.name
    &&& issuer.issuer_url == configuration.issuer_url
    &&& issuer.discovery_url == configuration.discovery_url
    &&& issuer.audience == configuration.audience
    &&& issuer.resource == configuration.resource
    &&& issuer.jwks_cache_json == configuration.jwks_cache_json
    &&& issuer.jwks_cached_at is Some <==> configuration.jwks_cache_json is Some
    &&& issuer.jwks_cached_at is Some ==> issuer.jwks_cached_at->0 == now
    &&& issuer.enabled == configuration.enabled
    &&& issuer.updated_at == now
}

/// An issuer is configured as given; one that is stored keeps its identity and
/// creation.
pub proof fn law_issuers_are_configured_as_given(
    id: Id,
    issuer: Option<OAuthIssuerRecord>,
    configuration: IssuerConfiguration,
    now: i64,
    r: OAuthIssuerRecord,
    updated: Result<OAuthIssuerRecord, StateError>,
)
    requires
        call_ensures(insert_oauth_issuer, (id, configuration, now), r),
        call_ensures(update_oauth_issuer, (issuer, configuration, now), updated),
    ensures
        is_configured(r, configuration, now) && r.id == id && r.created_at == now,
        updated is Ok <==> issuer is Some,
        updated matches Ok(after) ==> is_configured(after, configuration, now) && after.id
            == issuer->0.id && after.created_at == issuer->0.created_at,
{
}

/// A grant holds the scopes given and is valid; the vault's grant for the issuer
/// and subject is renewed in its place.
pub proof fn law_grants_are_renewed_in_place(
    context: &VaultContext,
    existing: Option<OAuthGrantRecord>,
    id: Id,
    issuer_id: Id,
    subject: String,
    scopes_json: String,
    now: i64,
    r: OAuthGrantRecord,
)
    requires
        call_ensures(
            insert_oauth_grant,
            (context, existing, id, issuer_id, subject, scopes_json, now),
            r,
        ),
    ensures
        r.vault_id.text@ == context.id.text@,
        r.issuer_id.text@ == issuer_id.text@,
        r.subject@ == subject@,
        r.scopes_json == scopes_json,
        r.revoked_at is None,
        r.updated_at == now,
        ({
            let renewed = existing is Some && existing->0.vault_id.text@ == context.id.text@
                && existing->0.issuer_id.text@ == issuer_id.text@ && existing->0.subject@
                == subject@;
            &&& renewed ==> r.id == existing->0.id && r.created_at == existing->0.created_at
            &&& !renewed ==> r.id == id && r.created_at == now
        }),
{
}

/// A grant of the vault is revoked, since the first time; no other one is.
pub proof fn law_grants_are_revoked_in_their_vault(
    context: &VaultContext,
    grant: Option<OAuthGrantRecord>,
    now: i64,
    r: Result<OAuthGrantRecord, StateError>,
)
    requires
        call_ensures(revoke_oauth_grant, (context, grant, now), r),
    ensures
        r is Ok <==> grant is Some && grant->0.vault_id.text@ == context.id.text@,
        r matches Ok(after) ==> {
            &&& after.revoked_at == if grant->0.revoked_at is Some {
                grant->0.revoked_at
            } else {
                Some(now)
            }
            &&& after.id == grant->0.id
            &&& after.subject == grant->0.subject
            &&& after.scopes_json == grant->0.scopes_json
        },
{
}

/// A vault's grants are listed latest first, without the revoked ones unless they
/// are asked for.
pub proof fn law_grants_are_listed_latest_first(
    context: &VaultContext,
    records: &[OAuthGrantRecord],
    include_revoked: bool,
    limit: u32,
    r: Result<Vec<usize>, StateError>,
)
    requires
        call_ensures(list_oauth_grants, (context, records, include_revoked, limit), r),
    ensures
        r is Ok <==> 1 <= limit <= 1000,
        r matches Ok(picked) ==> is_listing(
            picked@,
            records@.len(),
            limit as nat,
            |k: int|
                records@[k].vault_id.text@ == context.id.text@ && (include_revoked
                    || records@[k].revoked_at is None),
            |a: int, b: int| records@[a].created_at >= records@[b].created_at,
        ),
{
    if let Ok(picked) = r {
        lemma_page_listing(
            keys(records@),
            listed_grants(records@, context.id@, include_revoked),
            limit as nat,
            picked@,
            |k: int|
                records@[k].vault_id.text@ == context.id.text@ && (include_revoked
                    || records@[k].revoked_at is None),
            |a: int, b: int| records@[a].created_at >= records@[b].created_at,
        );
    }
}

/// A vault's credentials are shown latest first, each with all but its secret.
pub proof fn law_credentials_are_shown_latest_first(
    context: &VaultContext,
    records: &[WebDavCredentialRecord],
    limit: u32,
    r: Result<Vec<WebDavCredentialView>, StateError>,
)
    requires
        call_ensures(list_webdav_credentials, (context, records, limit), r),
    ensures
        r is Ok <==> 1 <= limit <= 1000,
        r matches Ok(views) ==> exists|picked: Seq<usize>|
            {
                &&& picked.len() == views@.len()
                &&& #[trigger] are_credentials(picked, records@, context.id, limit as nat)
                &&& forall|i: int|
                    0 <= i < views@.len() ==> credential_is_shown(
                        records@[picked[i] as int],
                        #[trigger] views@[i],
                    )
            },
{
    if let Ok(views) = r {
        let marked = webdav_in_vault(records@, context.id@);
        let picked = choose|picked: Seq<usize>|
            {
                &&& #[trigger] is_page(keys(records@), marked, false, limit as nat, 0, picked)
                &&& views@ == Seq::new(
                    picked.len(),
                    |i: int| records@[picked[i] as int].safe_view(),
                )
            };
        let rows = records@;
        let vault = context.id;
        lemma_page_listing(
            keys(records@),
            marked,
            limit as nat,
            picked,
            |k: int| rows[k].vault_id.text@ == vault.text@,
            |a: int, b: int| rows[a].created_at >= rows[b].created_at,
        );
        assert(are_credentials(picked, rows, vault, limit as nat));
    }
}

/// Whether positions list the rows of a vault, the latest first.
pub open spec fn are_credentials(
    picked: Seq<usize>,
    records: Seq<WebDavCredentialRecord>,
    vault: Id,
    limit: nat,
) -> bool {
    is_listing(
        picked,
        records.len(),
        limit,
        |k: int| records[k].vault_id.text@ == vault.text@,
        |a: int, b: int| records[a].created_at >= records[b].created_at,
    )
}

/// Whether what is shown of a credential is all of it but its secret.
pub open spec fn credential_is_shown(
    record: WebDavCredentialRecord,
    view: WebDavCredentialView,
) -> bool {
    &&& view.id == record.id
    &&& view.vault_id == record.vault_id
    &&& view.name == record.name
    &&& view.username == record.username
    &&& view.permissions_json == record.permissions_json
    &&& view.created_at == record.created_at
    &&& view.last_used_at == record.last_used_at
    &&& view.expires_at == record.expires_at
    &&& view.revoked_at == record.revoked_at
}

/// A vault's tokens are shown latest first, each with all but its digest.
pub proof fn law_tokens_are_shown_latest_first(
    context: &VaultContext,
    records: &[McpTokenRecord],
    limit: u32,
    r: Result<Vec<McpTokenView>, StateError>,
)
    requires
        call_ensures(list_mcp_tokens, (context, records, limit), r),
    ensures
        r is Ok <==> 1 <= limit <= 1000,
        r matches Ok(views) ==> exists|picked: Seq<usize>|
            {
                &&& picked.len() == views@.len()
                &&& #[trigger] are_tokens(picked, records@, context.id, limit as nat)
                &&& forall|i: int|
                    0 <= i < views@.len() ==> token_is_shown(
                        records@[picked[i] as int],
                        #[trigger] views@[i],
                    )
            },
{
    if let Ok(views) = r {
        let marked = tokens_in_vault(records@, context.id@);
        let picked = choose|picked: Seq<usize>|
            {
                &&& #[trigger] is_page(keys(records@), marked, false, limit as nat, 0, picked)
                &&& views@ == Seq::new(
                    picked.len(),
                    |i: int| records@[picked[i] as int].safe_view(),
                )
            };
        let rows = records@;
        let vault = context.id;
        lemma_page_listing(
            keys(records@),
            marked,
            limit as nat,
            picked,
            |k: int| rows[k].vault_id.text@ == vault.text@,
            |a: int, b: int| rows[a].created_at >= rows[b].created_at,
        );
        assert(are_tokens(picked, rows, vault, limit as nat));
    }
}

/// Whether positions list the rows of a vault, the latest first.
pub open spec fn are_tokens(
    picked: Seq<usize>,
    records: Seq<McpTokenRecord>,
    vault: Id,
    limit: nat,
) -> bool {
    is_listing(
        picked,
        records.len(),
        limit,
        |k: int| records[k].vault_id.text@ == vault.text@,
        |a: int, b: int| records[a].created_at >= records[b].created_at,
    )
}

/// Whether what is shown of a token is all of it but its digest.
pub open spec fn token_is_shown(record: McpTokenRecord, view: McpTokenView) -> bool {
    &&& view.id == record.id
    &&& view.vault_id == record.vault_id
    &&& view.name == record.name
    &&& view.token_prefix == record.token_prefix
    &&& view.digest_key_version == record.digest_key_version
    &&& view.scopes_json == record.scopes_json
    &&& view.created_at == record.created_at
    &&& view.last_used_at == record.last_used_at
    &&& view.expires_at == record.expires_at
    &&& view.revoked_at == record.revoked_at
}

/// What is shown of a credential or a token is all of it but its secret.
pub proof fn law_views_show_the_rest(
    credential: &WebDavCredentialRecord,
    token: &McpTokenRecord,
    user: &AdminUserRecord,
    session: &AdminSessionRecord,
    secret: &EncryptedSecretRecord,
    issuer: &OAuthIssuerRecord,
    c: WebDavCredentialView,
    t: McpTokenView,
    u: AdminUserView,
    s: AdminSessionView,
    e: SecretView,
    i: OAuthIssuerView,
)
    requires
        call_ensures(WebDavCredentialRecord::redacted, (credential,), c),
        call_ensures(McpTokenRecord::redacted, (token,), t),
        call_ensures(AdminUserRecord::redacted, (user,), u),
        call_ensures(AdminSessionRecord::redacted, (session,), s),
        call_ensures(EncryptedSecretRecord::redacted, (secret,), e),
        call_ensures(OAuthIssuerRecord::redacted, (issuer,), i),
    ensures
        credential_is_shown(*credential, c),
        token_is_shown(*token, t),
        u.id == user.id && u.username == user.username && u.disabled == user.disabled
            && u.password_changed_at == user.password_changed_at && u.created_at == user.created_at
            && u.updated_at == user.updated_at,
        s.id == session.id && s.user_id == session.user_id && s.digest_key_version
            == session.digest_key_version && s.created_at == session.created_at && s.last_seen_at
            == session.last_seen_at && s.expires_at == session.expires_at && s.source_ip
            == session.source_ip && s.revoked_at == session.revoked_at,
        s.has_user_agent_hash <==> session.user_agent_hash is Some,
        e.id == secret.id && e.purpose == secret.purpose && e.owner_type == secret.owner_type
            && e.owner_id == secret.owner_id && e.key_version == secret.key_version && e.hint
            == secret.hint && e.created_at == secret.created_at && e.updated_at
            == secret.updated_at,
        e.has_ciphertext <==> secret.ciphertext@.len() > 0,
        issuer_is_shown(*issuer, i),
{
}

/// Whether what is shown of an issuer is all of it but the cached keys.
pub open spec fn issuer_is_shown(issuer: OAuthIssuerRecord, view: OAuthIssuerView) -> bool {
    &&& view.id == issuer.id
    &&& view.name == issuer.name
    &&& view.issuer_url == issuer.issuer_url
    &&& view.discovery_url == issuer.discovery_url
    &&& view.audience == issuer.audience
    &&& view.resource == issuer.resource
    &&& view.has_jwks_cache <==> issuer.jwks_cache_json is Some
    &&& view.jwks_cached_at == issuer.jwks_cached_at
    &&& view.enabled == issuer.enabled
    &&& view.created_at == issuer.created_at
    &&& view.updated_at == issuer.updated_at
}

/// Every secret is listed once, by identity.
pub proof fn law_secrets_are_listed_by_identity(
    secrets: &[EncryptedSecretRecord],
    picked: Vec<usize>,
)
    requires
        call_ensures(list_secrets, (secrets,), picked),
    ensures
        is_listing(
            picked@,
            secrets@.len(),
            secrets@.len(),
            |k: int| true,
            |a: int, b: int|
                secrets@[a].id.text@ == secrets@[b].id.text@ || text_before(
                    secrets@[a].id.text@,
                    secrets@[b].id.text@,
                ),
        ),
{
    lemma_selection_listing(
        secrets@.map_values(|secret: EncryptedSecretRecord| secret_key(secret)),
        secrets@.map_values(|secret: EncryptedSecretRecord| true),
        secrets@.len(),
        picked@,
        |k: int| true,
        |a: int, b: int|
            secrets@[a].id.text@ == secrets@[b].id.text@ || text_before(
                secrets@[a].id.text@,
                secrets@[b].id.text@,
            ),
    );
}

/// A name, a secret's digest or a subject finds its row, in the vault where the
/// row belongs to one, and finds it wherever there is one.
pub proof fn law_logins_find_their_row(
    context: &VaultContext,
    users: &[AdminUserRecord],
    sessions: &[AdminSessionRecord],
    credentials: &[WebDavCredentialRecord],
    tokens: &[McpTokenRecord],
    name: &str,
    digest: &[u8],
    u: Option<usize>,
    s: Option<usize>,
    c: Option<usize>,
    t: Option<usize>,
)
    requires
        call_ensures(find_admin_user_by_username, (users, name), u),
        call_ensures(find_admin_session, (sessions, digest), s),
        call_ensures(find_webdav_credential, (context, credentials, name), c),
        call_ensures(find_mcp_token, (context, tokens, name, digest), t),
    ensures
        u matches Some(i) ==> i < users@.len() && users@[i as int].username@ == name@,
        u is None ==> forall|k: int|
            0 <= k < users@.len() ==> (#[trigger] users@[k]).username@ != name@,
        s matches Some(i) ==> i < sessions@.len() && sessions@[i as int].token_digest@ == digest@,
        s is None ==> forall|k: int|
            0 <= k < sessions@.len() ==> (#[trigger] sessions@[k]).token_digest@ != digest@,
        c matches Some(i) ==> i < credentials@.len() && credentials@[i as int].username@ == name@
            && credentials@[i as int].vault_id.text@ == context.id.text@,
        c is None ==> forall|k: int|
            0 <= k < credentials@.len() ==> !((#[trigger] credentials@[k]).username@ == name@
                && credentials@[k].vault_id.text@ == context.id.text@),
        t matches Some(i) ==> i < tokens@.len() && tokens@[i as int].vault_id.text@
            == context.id.text@ && tokens@[i as int].token_prefix@ == name@
            && tokens@[i as int].token_digest@ == digest@,
        t is None ==> forall|k: int|
            0 <= k < tokens@.len() ==> !((#[trigger] tokens@[k]).vault_id.text@ == context.id.text@
                && tokens@[k].token_prefix@ == name@ && tokens@[k].token_digest@ == digest@),
{
    lemma_first_index(users@, |user: AdminUserRecord| user.username@ == name@);
    lemma_first_index(sessions@, |session: AdminSessionRecord| session.token_digest@ == digest@);
    lemma_first_index(
        credentials@,
        |record: WebDavCredentialRecord|
            record.vault_id@ == context.id@ && record.username@ == name@,
    );
    lemma_first_index(
        tokens@,
        |record: McpTokenRecord| record.presented(context.id@, name@, digest@),
    );
}

/// A grant is found by its vault, issuer and subject.
pub proof fn law_grants_find_their_subject(
    context: &VaultContext,
    grants: &[OAuthGrantRecord],
    issuer_id: &Id,
    subject: &str,
    r: Option<usize>,
)
    requires
        call_ensures(find_oauth_grant, (context, grants, issuer_id, subject), r),
    ensures
        r matches Some(i) ==> i < grants@.len() && grants@[i as int].vault_id.text@
            == context.id.text@ && grants@[i as int].issuer_id.text@ == issuer_id.text@
            && grants@[i as int].subject@ == subject@,
        r is None ==> forall|k: int|
            0 <= k < grants@.len() ==> !((#[trigger] grants@[k]).vault_id.text@ == context.id.text@
                && grants@[k].issuer_id.text@ == issuer_id.text@ && grants@[k].subject@
                == subject@),
{
    lemma_first_index(
        grants@,
        |grant: OAuthGrantRecord| grant.grants(context.id@, issuer_id@, subject@),
    );
}

} // verus!
