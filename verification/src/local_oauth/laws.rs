//! What registering, authorising, exchanging, rotating, revoking and sweeping do,
//! in terms of the stored rows.

use vstd::prelude::*;

use crate::domain::{Id, VaultContext};
use crate::error::StateError;
use crate::local_oauth::{
    abandoned_before, cleanup_local_oauth, complete_oauth_authorization_request,
    consume_oauth_code_and_insert_tokens, disable_local_oauth_user, find_oauth_access_token,
    find_oauth_authorization_code, find_oauth_authorization_request, find_oauth_refresh_token,
    get_local_oauth_user, get_oauth_client, insert_oauth_authorization_request, insert_oauth_client,
    revoke_oauth_token_family, revoke_user_state, rotate_oauth_refresh_token,
    touch_oauth_access_token, upsert_local_oauth_user, AuthorizationState, CompletedRequest,
    ConsumedCode, Grant, GrantOwner, NewOAuthAccessToken, NewOAuthAuthorizationCode, NewOAuthRefreshToken,
    OAuthAccessTokenRecord, OAuthAuthorizationCodeRecord, OAuthAuthorizationRequestRecord,
    OAuthClientRecord, OAuthLocalUserRecord, OAuthLocalUserView, OAuthRefreshTokenRecord,
    RotatedToken, Swept,
};
use crate::rows::laws::lemma_kept;
use crate::rows::{lemma_first_index, some_row};

verus! {

/// Whether an access token is a new one as issued: with the identity, digest and
/// times given, never used and not revoked.
pub open spec fn is_issued_access(row: OAuthAccessTokenRecord, token: NewOAuthAccessToken) -> bool {
    &&& row.id == token.id
    &&& row.family_id.text@ == token.family_id.text@
    &&& row.token_prefix == token.token_prefix
    &&& row.token_digest == token.token_digest
    &&& row.digest_key_version == token.digest_key_version
    &&& row.created_at == token.created_at
    &&& row.expires_at == token.expires_at
    &&& row.last_used_at is None
    &&& row.revoked_at is None
}

/// Whether a refresh token is a new one as issued: with the identity, digest and
/// times given, neither rotated nor revoked.
pub open spec fn is_issued_refresh(
    row: OAuthRefreshTokenRecord,
    token: NewOAuthRefreshToken,
) -> bool {
    &&& row.id == token.id
    &&& row.family_id.text@ == token.family_id.text@
    &&& row.token_prefix == token.token_prefix
    &&& row.token_digest == token.token_digest
    &&& row.digest_key_version == token.digest_key_version
    &&& row.created_at == token.created_at
    &&& row.expires_at == token.expires_at
    &&& row.rotated_at is None
    &&& row.revoked_at is None
}

/// A request that waits is answered by a code for what it asks, in the name of an
/// enabled user of the vault; the request is consumed and its client is used.
pub proof fn law_codes_are_bound_to_their_request(
    context: &VaultContext,
    request_id: &Id,
    request: Option<OAuthAuthorizationRequestRecord>,
    user_id: &Id,
    user: &Option<OAuthLocalUserRecord>,
    client: OAuthClientRecord,
    code: NewOAuthAuthorizationCode,
    at: i64,
    r: Result<CompletedRequest, StateError>,
)
    requires
        call_ensures(
            complete_oauth_authorization_request,
            (context, request_id, request, user_id, user, client, code, at),
            r,
        ),
    ensures
        r is Ok <==> {
            &&& user is Some
            &&& user->0.id.text@ == user_id.text@
            &&& user->0.vault_id.text@ == context.id.text@
            &&& user->0.enabled
            &&& request is Some
            &&& request->0.id.text@ == request_id.text@
            &&& request->0.vault_id.text@ == context.id.text@
            &&& at < request->0.expires_at
        },
        r matches Ok(done) ==> {
            &&& done.code.id == code.id
            &&& done.code.code_digest == code.code_digest
            &&& done.code.digest_key_version == code.digest_key_version
            &&& done.code.created_at == code.created_at
            &&& done.code.expires_at == code.expires_at
            &&& done.code.consumed_at is None
            &&& done.code.user_id == *user_id
            &&& done.code.client_id == request->0.client_id
            &&& done.code.vault_id == request->0.vault_id
            &&& done.code.resource == request->0.resource
            &&& done.code.redirect_uri == request->0.redirect_uri
            &&& done.code.scopes_json == request->0.scopes_json
            &&& done.code.code_challenge == request->0.code_challenge
            &&& done.request.id == request->0.id
            &&& done.request.request_digest == request->0.request_digest
            &&& done.request.expires_at == request->0.expires_at
            &&& request->0.consumed_at is None ==> done.request.consumed_at == Some(at)
            &&& request->0.consumed_at is Some ==> done.request.consumed_at
                == request->0.consumed_at
            &&& done.client.id == client.id
            &&& done.client.revoked_at == client.revoked_at
            &&& client.id.text@ == request->0.client_id.text@ ==> done.client.last_used_at
                == Some(at)
            &&& client.id.text@ != request->0.client_id.text@ ==> done.client == client
        },
{
}

/// A code is exchanged while it is unused and has not run out, in its vault, for
/// two tokens of one family that hold its grant; it is consumed then.
pub proof fn law_tokens_are_bound_to_their_code(
    context: &VaultContext,
    code_id: &Id,
    code: Option<OAuthAuthorizationCodeRecord>,
    access: NewOAuthAccessToken,
    refresh: NewOAuthRefreshToken,
    at: i64,
    r: Result<ConsumedCode, StateError>,
)
    requires
        call_ensures(
            consume_oauth_code_and_insert_tokens,
            (context, code_id, code, access, refresh, at),
            r,
        ),
    ensures
        r is Ok <==> {
            &&& access.family_id.text@ == refresh.family_id.text@
            &&& code is Some
            &&& code->0.id.text@ == code_id.text@
            &&& code->0.vault_id.text@ == context.id.text@
            &&& code->0.consumed_at is None
            &&& at < code->0.expires_at
        },
        r matches Ok(done) ==> {
            &&& done.code.id == code->0.id
            &&& done.code.code_digest == code->0.code_digest
            &&& done.code.consumed_at == Some(at)
            &&& is_issued_access(done.access, access)
            &&& done.access.client_id == code->0.client_id
            &&& done.access.user_id == code->0.user_id
            &&& done.access.vault_id == code->0.vault_id
            &&& done.access.resource == code->0.resource
            &&& done.access.scopes_json == code->0.scopes_json
            &&& is_issued_refresh(done.refresh, refresh)
            &&& done.refresh.client_id == code->0.client_id
            &&& done.refresh.user_id == code->0.user_id
            &&& done.refresh.vault_id == code->0.vault_id
            &&& done.refresh.resource == code->0.resource
            &&& done.refresh.scopes_json == code->0.scopes_json
        },
{
}

/// A code that was exchanged is not exchanged again, at any time and for any
/// tokens.
pub proof fn law_codes_are_exchanged_once(
    context: &VaultContext,
    code_id: &Id,
    code: Option<OAuthAuthorizationCodeRecord>,
    access: NewOAuthAccessToken,
    refresh: NewOAuthRefreshToken,
    at: i64,
    first: Result<ConsumedCode, StateError>,
    again_id: &Id,
    again_access: NewOAuthAccessToken,
    again_refresh: NewOAuthRefreshToken,
    later: i64,
    second: Result<ConsumedCode, StateError>,
)
    requires
        call_ensures(
            consume_oauth_code_and_insert_tokens,
            (context, code_id, code, access, refresh, at),
            first,
        ),
        first is Ok,
        call_ensures(
            consume_oauth_code_and_insert_tokens,
            (context, again_id, Some(first->Ok_0.code), again_access, again_refresh, later),
            second,
        ),
    ensures
        second is Err,
{
}

/// A refresh token is rotated while it is neither rotated nor revoked and has not
/// run out, in its vault and family; its successors hold its grant, with the
/// scopes narrowed where narrower ones are given.
pub proof fn law_rotation_passes_the_grant_on(
    context: &VaultContext,
    old_id: &Id,
    old: Option<OAuthRefreshTokenRecord>,
    access: NewOAuthAccessToken,
    refresh: NewOAuthRefreshToken,
    at: i64,
    r: Result<RotatedToken, StateError>,
)
    requires
        call_ensures(
            rotate_oauth_refresh_token,
            (context, old_id, old, access, refresh, at),
            r,
        ),
    ensures
        r is Ok <==> {
            &&& access.family_id.text@ == refresh.family_id.text@
            &&& old is Some
            &&& old->0.id.text@ == old_id.text@
            &&& old->0.vault_id.text@ == context.id.text@
            &&& old->0.family_id.text@ == access.family_id.text@
            &&& old->0.rotated_at is None
            &&& old->0.revoked_at is None
            &&& at < old->0.expires_at
        },
        r matches Ok(done) ==> {
            &&& done.spent.id == old->0.id
            &&& done.spent.family_id == old->0.family_id
            &&& done.spent.token_digest == old->0.token_digest
            &&& done.spent.rotated_at == Some(at)
            &&& done.spent.revoked_at is None
            &&& is_issued_access(done.access, access)
            &&& done.access.client_id == old->0.client_id
            &&& done.access.user_id == old->0.user_id
            &&& done.access.vault_id == old->0.vault_id
            &&& done.access.resource == old->0.resource
            &&& access.scopes_json is None ==> done.access.scopes_json == old->0.scopes_json
            &&& access.scopes_json is Some ==> done.access.scopes_json == access.scopes_json->0
            &&& is_issued_refresh(done.refresh, refresh)
            &&& done.refresh.client_id == old->0.client_id
            &&& done.refresh.user_id == old->0.user_id
            &&& done.refresh.vault_id == old->0.vault_id
            &&& done.refresh.resource == old->0.resource
            &&& refresh.scopes_json is None ==> done.refresh.scopes_json == old->0.scopes_json
            &&& refresh.scopes_json is Some ==> done.refresh.scopes_json == refresh.scopes_json->0
        },
{
}

/// A rotated token is not rotated again, at any time and for any tokens.
pub proof fn law_tokens_are_rotated_once(
    context: &VaultContext,
    old_id: &Id,
    old: Option<OAuthRefreshTokenRecord>,
    access: NewOAuthAccessToken,
    refresh: NewOAuthRefreshToken,
    at: i64,
    first: Result<RotatedToken, StateError>,
    again_access: NewOAuthAccessToken,
    again_refresh: NewOAuthRefreshToken,
    later: i64,
    second: Result<RotatedToken, StateError>,
)
    requires
        call_ensures(
            rotate_oauth_refresh_token,
            (context, old_id, old, access, refresh, at),
            first,
        ),
        first is Ok,
        call_ensures(
            rotate_oauth_refresh_token,
            (context, old_id, Some(first->Ok_0.spent), again_access, again_refresh, later),
            second,
        ),
    ensures
        second is Err,
{
}

/// A user's credentials are set as given, for the vault, and enabled; the row of
/// the vault's user keeps its identity and creation.
pub proof fn law_credentials_are_set_as_given(
    context: &VaultContext,
    state: AuthorizationState,
    existing: Option<OAuthLocalUserRecord>,
    id: Id,
    username: String,
    password_hash: String,
    scopes_json: String,
    now: i64,
    r: (OAuthLocalUserRecord, AuthorizationState),
)
    requires
        call_ensures(
            upsert_local_oauth_user,
            (context, state, existing, id, username, password_hash, scopes_json, now),
            r,
        ),
    ensures
        r.0.vault_id.text@ == context.id.text@,
        r.0.username == username,
        r.0.password_hash == password_hash,
        r.0.scopes_json == scopes_json,
        r.0.enabled,
        r.0.password_changed_at == now,
        r.0.updated_at == now,
        existing is Some && existing->0.vault_id.text@ == context.id.text@ ==> r.0.id
            == existing->0.id && r.0.created_at == existing->0.created_at,
        !(existing is Some && existing->0.vault_id.text@ == context.id.text@) ==> r.0.id == id
            && r.0.created_at == now,
        user_is_signed_out(state, r.1, r.0.id, context.id, now),
{
    lemma_signed_out(state, r.1, r.0.id, context.id, now);
}

/// Disabling a vault's user ends what the user was granted; a vault without one
/// changes nothing.
pub proof fn law_disabled_users_are_signed_out(
    context: &VaultContext,
    state: AuthorizationState,
    user: Option<OAuthLocalUserRecord>,
    now: i64,
    r: (Option<OAuthLocalUserRecord>, AuthorizationState),
)
    requires
        call_ensures(disable_local_oauth_user, (context, state, user, now), r),
    ensures
        user is Some && user->0.vault_id.text@ == context.id.text@ ==> {
            &&& r.0 is Some
            &&& !r.0->0.enabled
            &&& r.0->0.updated_at == now
            &&& r.0->0.id == user->0.id
            &&& r.0->0.username == user->0.username
            &&& r.0->0.password_hash == user->0.password_hash
            &&& r.0->0.scopes_json == user->0.scopes_json
            &&& r.0->0.created_at == user->0.created_at
            &&& user_is_signed_out(state, r.1, user->0.id, context.id, now)
        },
        !(user is Some && user->0.vault_id.text@ == context.id.text@) ==> r.0 is None && r.1
            == state,
{
    if user is Some && user->0.vault_id.text@ == context.id.text@ {
        lemma_signed_out(state, r.1, user->0.id, context.id, now);
    }
}

/// Signing a user out ends all of their grants in the vault.
pub proof fn law_signing_out_ends_the_grants(
    state: AuthorizationState,
    user_id: &Id,
    vault_id: &Id,
    now: i64,
    r: AuthorizationState,
)
    requires
        call_ensures(revoke_user_state, (state, user_id, vault_id, now), r),
    ensures
        user_is_signed_out(state, r, *user_id, *vault_id, now),
{
    lemma_signed_out(state, r, *user_id, *vault_id, now);
}

/// Whether no request of a vault is left and every code and token of a user in it
/// is closed, each at the time at which it was closed first; the rows of others
/// are untouched.
pub open spec fn user_is_signed_out(
    before: AuthorizationState,
    after: AuthorizationState,
    user: Id,
    vault: Id,
    now: i64,
) -> bool {
    &&& forall|request: OAuthAuthorizationRequestRecord| #[trigger]
        after.requests@.contains(request) <==> before.requests@.contains(request)
            && request.vault_id.text@ != vault.text@
    &&& after.codes@.len() == before.codes@.len()
    &&& forall|k: int|
        0 <= k < before.codes@.len() ==> {
            let (old, new) = (before.codes@[k], #[trigger] after.codes@[k]);
            let taken = old.vault_id.text@ == vault.text@ && old.user_id.text@ == user.text@;
            &&& taken && old.consumed_at is None ==> new.consumed_at == Some(now)
            &&& !taken || old.consumed_at is Some ==> new == old
            &&& new.code_digest == old.code_digest && new.expires_at == old.expires_at
        }
    &&& after.access@.len() == before.access@.len()
    &&& forall|k: int|
        0 <= k < before.access@.len() ==> {
            let (old, new) = (before.access@[k], #[trigger] after.access@[k]);
            let taken = old.vault_id.text@ == vault.text@ && old.user_id.text@ == user.text@;
            access_is_closed(old, new, taken, now)
        }
    &&& after.refresh@.len() == before.refresh@.len()
    &&& forall|k: int|
        0 <= k < before.refresh@.len() ==> {
            let (old, new) = (before.refresh@[k], #[trigger] after.refresh@[k]);
            let taken = old.vault_id.text@ == vault.text@ && old.user_id.text@ == user.text@;
            refresh_is_closed(old, new, taken, now)
        }
}

/// Whether an access token that is taken back is revoked, and another unchanged.
pub open spec fn access_is_closed(
    old: OAuthAccessTokenRecord,
    new: OAuthAccessTokenRecord,
    taken: bool,
    now: i64,
) -> bool {
    &&& taken && old.revoked_at is None ==> new.revoked_at == Some(now)
    &&& !taken || old.revoked_at is Some ==> new == old
    &&& new.id == old.id && new.token_digest == old.token_digest && new.expires_at
        == old.expires_at && new.scopes_json == old.scopes_json
}

/// Whether a refresh token that is taken back is revoked, and another unchanged.
pub open spec fn refresh_is_closed(
    old: OAuthRefreshTokenRecord,
    new: OAuthRefreshTokenRecord,
    taken: bool,
    now: i64,
) -> bool {
    &&& taken && old.revoked_at is None ==> new.revoked_at == Some(now)
    &&& !taken || old.revoked_at is Some ==> new == old
    &&& new.id == old.id && new.token_digest == old.token_digest && new.rotated_at
        == old.rotated_at && new.scopes_json == old.scopes_json
}

proof fn lemma_signed_out(
    before: AuthorizationState,
    after: AuthorizationState,
    user: Id,
    vault: Id,
    now: i64,
)
    requires
        crate::local_oauth::user_state_revoked(before, after, user, vault@, now),
    ensures
        user_is_signed_out(before, after, user, vault, now),
{
    lemma_requests_left(before.requests@, vault);
    let owner = GrantOwner::User(user);
    assert forall|k: int| 0 <= k < before.codes@.len() implies (#[trigger] after.codes@[k])
        == before.codes@[k].closed(vault@, owner, now) by {}
    assert forall|k: int| 0 <= k < before.access@.len() implies (#[trigger] after.access@[k])
        == before.access@[k].closed(vault@, owner, now) by {}
    assert forall|k: int| 0 <= k < before.refresh@.len() implies (#[trigger] after.refresh@[k])
        == before.refresh@[k].closed(vault@, owner, now) by {}
}

proof fn lemma_requests_left(requests: Seq<OAuthAuthorizationRequestRecord>, vault: Id)
    ensures
        forall|request: OAuthAuthorizationRequestRecord| #[trigger]
            crate::local_oauth::requests_elsewhere(requests, vault@).contains(request)
                <==> requests.contains(request) && request.vault_id.text@ != vault.text@,
{
    let text = vault@;
    let rule = |request: OAuthAuthorizationRequestRecord| request.vault_id@ != vault@;
    lemma_kept(requests, rule);
    assert(crate::local_oauth::requests_elsewhere(requests, vault@) == requests.filter(rule));
}

/// Revoking a family revokes its tokens in the vault, and no other token, request
/// or code.
pub proof fn law_families_are_revoked_whole(
    context: &VaultContext,
    state: AuthorizationState,
    family_id: &Id,
    at: i64,
    r: AuthorizationState,
)
    requires
        call_ensures(revoke_oauth_token_family, (context, state, family_id, at), r),
    ensures
        r.requests == state.requests,
        r.codes == state.codes,
        r.access@.len() == state.access@.len(),
        r.refresh@.len() == state.refresh@.len(),
        forall|k: int|
            0 <= k < state.access@.len() ==> {
                let old = state.access@[k];
                let taken = old.vault_id.text@ == context.id.text@ && old.family_id.text@
                    == family_id.text@;
                access_is_closed(old, #[trigger] r.access@[k], taken, at)
            },
        forall|k: int|
            0 <= k < state.refresh@.len() ==> {
                let old = state.refresh@[k];
                let taken = old.vault_id.text@ == context.id.text@ && old.family_id.text@
                    == family_id.text@;
                refresh_is_closed(old, #[trigger] r.refresh@[k], taken, at)
            },
{
    let owner = GrantOwner::Family(*family_id);
    assert forall|k: int| 0 <= k < state.access@.len() implies (#[trigger] r.access@[k])
        == state.access@[k].closed(context.id@, owner, at) by {}
    assert forall|k: int| 0 <= k < state.refresh@.len() implies (#[trigger] r.refresh@[k])
        == state.refresh@[k].closed(context.id@, owner, at) by {}
}

/// A sweep removes what ran out, or was consumed or revoked, before the cutoff,
/// and nothing else.
pub proof fn law_sweeps_remove_what_ran_out(
    state: AuthorizationState,
    before: i64,
    r: AuthorizationState,
)
    requires
        call_ensures(cleanup_local_oauth, (state, before), r),
    ensures
        forall|row: OAuthAuthorizationRequestRecord| #[trigger]
            r.requests@.contains(row) <==> state.requests@.contains(row) && before
                <= row.expires_at && (row.consumed_at is None || before <= row.consumed_at->0),
        forall|row: OAuthAuthorizationCodeRecord| #[trigger]
            r.codes@.contains(row) <==> state.codes@.contains(row) && before <= row.expires_at && (
            row.consumed_at is None || before <= row.consumed_at->0),
        forall|row: OAuthAccessTokenRecord| #[trigger]
            r.access@.contains(row) <==> state.access@.contains(row) && before <= row.expires_at
                && (row.revoked_at is None || before <= row.revoked_at->0),
        forall|row: OAuthRefreshTokenRecord| #[trigger]
            r.refresh@.contains(row) <==> state.refresh@.contains(row) && before <= row.expires_at
                && (row.revoked_at is None || before <= row.revoked_at->0),
{
    lemma_rows_kept(state.requests@, before);
    lemma_rows_kept(state.codes@, before);
    lemma_rows_kept(state.access@, before);
    lemma_rows_kept(state.refresh@, before);
}

proof fn lemma_rows_kept<T: Swept>(rows: Seq<T>, before: i64)
    ensures
        forall|row: T| #[trigger]
            crate::local_oauth::kept(rows, before).contains(row) <==> rows.contains(row)
                && !row.goes(before),
{
    let rule = |row: T| !row.goes(before);
    lemma_kept(rows, rule);
    assert(crate::local_oauth::kept(rows, before) == rows.filter(rule));
}

/// A registered client is stored as given, for public use, never used; clients
/// that were revoked, or not used within a day, make room for it, and all others
/// stay.
pub proof fn law_clients_are_registered_as_given(
    clients: Vec<OAuthClientRecord>,
    id: Id,
    client_name: String,
    redirect_uris_json: String,
    grant_types_json: String,
    response_types_json: String,
    max: u32,
    now: i64,
    r: Result<Vec<OAuthClientRecord>, StateError>,
)
    requires
        call_ensures(
            insert_oauth_client,
            (
                clients,
                id,
                client_name,
                redirect_uris_json,
                grant_types_json,
                response_types_json,
                max,
                now,
            ),
            r,
        ),
        now >= 0,
    ensures
        r matches Ok(after) ==> {
            &&& 1 <= max <= 10_000
            &&& 1 <= after@.len() <= max
            &&& after@.last().id == id
            &&& after@.last().client_name == client_name
            &&& after@.last().redirect_uris_json == redirect_uris_json
            &&& after@.last().grant_types_json == grant_types_json
            &&& after@.last().response_types_json == response_types_json
            &&& after@.last().token_endpoint_auth_method@ == "none"@
            &&& after@.last().created_at == now
            &&& after@.last().last_used_at is None
            &&& after@.last().revoked_at is None
            &&& forall|client: OAuthClientRecord| #[trigger]
                after@.drop_last().contains(client) <==> clients@.contains(client)
                    && client.revoked_at is None && (client.last_used_at is Some || now
                    - client.created_at <= 24 * 60 * 60 * 1000)
        },
        r is Err && 1 <= max <= 10_000 ==> clients@.len() >= max,
{
    lemma_rows_kept(clients@, abandoned_before(now));
    let rule = |row: OAuthClientRecord| !row.goes(abandoned_before(now));
    clients@.lemma_filter_len(rule);
    assert(crate::local_oauth::kept(clients@, abandoned_before(now)) == clients@.filter(rule));
}

/// A request is stored as it is made, in the vault, and waits.
pub proof fn law_requests_wait_as_made(
    context: &VaultContext,
    id: Id,
    request_digest: Vec<u8>,
    digest_key_version: u32,
    client_id: Id,
    resource: String,
    redirect_uri: String,
    scopes_json: String,
    state: Option<String>,
    code_challenge: String,
    created_at: i64,
    expires_at: i64,
    r: OAuthAuthorizationRequestRecord,
)
    requires
        call_ensures(
            insert_oauth_authorization_request,
            (
                context,
                id,
                request_digest,
                digest_key_version,
                client_id,
                resource,
                redirect_uri,
                scopes_json,
                state,
                code_challenge,
                created_at,
                expires_at,
            ),
            r,
        ),
    ensures
        r.id == id && r.request_digest == request_digest && r.digest_key_version
            == digest_key_version,
        r.client_id == client_id && r.vault_id == context.id && r.resource == resource,
        r.redirect_uri == redirect_uri && r.scopes_json == scopes_json && r.state == state,
        r.code_challenge == code_challenge && r.created_at == created_at,
        r.expires_at == expires_at && r.consumed_at is None,
{
}

/// A presented secret finds a row of the vault by its digest, key version and
/// prefix, and finds it wherever there is one.
pub proof fn law_secrets_find_their_row(
    context: &VaultContext,
    requests: &[OAuthAuthorizationRequestRecord],
    codes: &[OAuthAuthorizationCodeRecord],
    access: &[OAuthAccessTokenRecord],
    refresh: &[OAuthRefreshTokenRecord],
    prefix: &str,
    digest: &[u8],
    version: u32,
    q: Option<usize>,
    c: Option<usize>,
    a: Option<usize>,
    f: Option<usize>,
)
    requires
        call_ensures(find_oauth_authorization_request, (context, requests, digest, version), q),
        call_ensures(find_oauth_authorization_code, (context, codes, digest, version), c),
        call_ensures(find_oauth_access_token, (context, access, prefix, digest, version), a),
        call_ensures(find_oauth_refresh_token, (context, refresh, prefix, digest, version), f),
    ensures
        q matches Some(i) ==> i < requests@.len() && requests@[i as int].vault_id.text@
            == context.id.text@ && requests@[i as int].request_digest@ == digest@
            && requests@[i as int].digest_key_version == version,
        q is None ==> forall|k: int|
            0 <= k < requests@.len() ==> !((#[trigger] requests@[k]).vault_id.text@
                == context.id.text@ && requests@[k].request_digest@ == digest@
                && requests@[k].digest_key_version == version),
        c matches Some(i) ==> i < codes@.len() && codes@[i as int].vault_id.text@
            == context.id.text@ && codes@[i as int].code_digest@ == digest@
            && codes@[i as int].digest_key_version == version,
        c is None ==> forall|k: int|
            0 <= k < codes@.len() ==> !((#[trigger] codes@[k]).vault_id.text@ == context.id.text@
                && codes@[k].code_digest@ == digest@ && codes@[k].digest_key_version == version),
        a matches Some(i) ==> i < access@.len() && access@[i as int].vault_id.text@
            == context.id.text@ && access@[i as int].token_prefix@ == prefix@
            && access@[i as int].token_digest@ == digest@ && access@[i as int].digest_key_version
            == version,
        a is None ==> forall|k: int|
            0 <= k < access@.len() ==> !((#[trigger] access@[k]).vault_id.text@ == context.id.text@
                && access@[k].token_prefix@ == prefix@ && access@[k].token_digest@ == digest@
                && access@[k].digest_key_version == version),
        f matches Some(i) ==> i < refresh@.len() && refresh@[i as int].vault_id.text@
            == context.id.text@ && refresh@[i as int].token_prefix@ == prefix@
            && refresh@[i as int].token_digest@ == digest@ && refresh@[i as int].digest_key_version
            == version,
        f is None ==> forall|k: int|
            0 <= k < refresh@.len() ==> !((#[trigger] refresh@[k]).vault_id.text@
                == context.id.text@ && refresh@[k].token_prefix@ == prefix@
                && refresh@[k].token_digest@ == digest@ && refresh@[k].digest_key_version
                == version),
{
    if q is None {
        let rule = |row: OAuthAuthorizationRequestRecord| row.presented(context.id@, digest@, version);
        assert(!some_row(requests@, rule));
        assert forall|k: int| 0 <= k < requests@.len() implies !rule(#[trigger] requests@[k]) by {}
    }
    if c is None {
        let rule = |row: OAuthAuthorizationCodeRecord| row.presented(context.id@, digest@, version);
        assert(!some_row(codes@, rule));
        assert forall|k: int| 0 <= k < codes@.len() implies !rule(#[trigger] codes@[k]) by {}
    }
    if a is None {
        let rule = |row: OAuthAccessTokenRecord| row.presented(context.id@, prefix@, digest@, version);
        assert(!some_row(access@, rule));
        assert forall|k: int| 0 <= k < access@.len() implies !rule(#[trigger] access@[k]) by {}
    }
    if f is None {
        let rule = |row: OAuthRefreshTokenRecord| row.presented(context.id@, prefix@, digest@, version);
        assert(!some_row(refresh@, rule));
        assert forall|k: int| 0 <= k < refresh@.len() implies !rule(#[trigger] refresh@[k]) by {}
    }
}

/// A vault's user and a client are found wherever they are stored.
pub proof fn law_users_and_clients_are_found(
    context: &VaultContext,
    users: &[OAuthLocalUserRecord],
    clients: &[OAuthClientRecord],
    id: &Id,
    u: Option<usize>,
    c: Option<usize>,
)
    requires
        call_ensures(get_local_oauth_user, (context, users), u),
        call_ensures(get_oauth_client, (clients, id), c),
    ensures
        u matches Some(i) ==> i < users@.len() && users@[i as int].vault_id.text@
            == context.id.text@,
        u is None ==> forall|k: int|
            0 <= k < users@.len() ==> (#[trigger] users@[k]).vault_id.text@ != context.id.text@,
        c matches Some(i) ==> i < clients@.len() && clients@[i as int].id.text@ == id.text@,
        c is None ==> forall|k: int|
            0 <= k < clients@.len() ==> (#[trigger] clients@[k]).id.text@ != id.text@,
{
    lemma_first_index(users@, |row: OAuthLocalUserRecord| row.vault_id@ == context.id@);
    lemma_first_index(clients@, |row: OAuthClientRecord| row.id@ == id@);
}

/// Using an access token notes the time, in its vault alone; what is shown of a
/// user holds all but the password.
pub proof fn law_uses_are_noted(
    context: &VaultContext,
    token: OAuthAccessTokenRecord,
    at: i64,
    r: OAuthAccessTokenRecord,
    user: &OAuthLocalUserRecord,
    view: OAuthLocalUserView,
)
    requires
        call_ensures(touch_oauth_access_token, (context, token, at), r),
        call_ensures(OAuthLocalUserRecord::redacted, (user,), view),
    ensures
        token.vault_id.text@ == context.id.text@ ==> r.last_used_at == Some(at),
        token.vault_id.text@ != context.id.text@ ==> r == token,
        r.id == token.id && r.token_digest == token.token_digest && r.revoked_at
            == token.revoked_at && r.expires_at == token.expires_at && r.scopes_json
            == token.scopes_json,
        view.id == user.id && view.vault_id == user.vault_id && view.username == user.username,
        view.scopes_json == user.scopes_json && view.enabled == user.enabled,
        view.password_changed_at == user.password_changed_at && view.created_at
            == user.created_at && view.updated_at == user.updated_at,
{
}

} // verus!
