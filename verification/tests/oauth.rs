use mcp_vault_state::local_oauth::{
    cleanup_local_oauth, complete_oauth_authorization_request, consume_oauth_code_and_insert_tokens,
    disable_local_oauth_user, find_oauth_access_token, find_oauth_authorization_code,
    find_oauth_authorization_request, find_oauth_refresh_token, insert_oauth_authorization_request,
    get_local_oauth_user, get_oauth_client, insert_oauth_client, revoke_oauth_token_family, revoke_user_state, rotate_oauth_refresh_token,
    row_to_refresh_token, touch_oauth_access_token, upsert_local_oauth_user, AuthorizationState,
    CompletedRequest, ConsumedCode, OAuthRefreshTokenRow,
};
use mcp_vault_state::{
    Id, NewOAuthAccessToken, NewOAuthAuthorizationCode, NewOAuthRefreshToken,
    OAuthAuthorizationRequestRecord, OAuthClientRecord, OAuthLocalUserRecord,
    OAuthRefreshTokenRecord, StateError, VaultContext,
};

const DAY: i64 = 86_400_000;

fn id(text: &str) -> Id {
    Id::new(text.to_owned())
}

fn vault(name: &str) -> VaultContext {
    VaultContext { id: id(name), slug: name.to_owned(), content_root: Some(format!("/srv/{name}")) }
}

fn nothing() -> AuthorizationState {
    AuthorizationState { requests: vec![], codes: vec![], access: vec![], refresh: vec![] }
}

fn user() -> OAuthLocalUserRecord {
    upsert_local_oauth_user(
        &vault("v"),
        nothing(),
        None,
        id("user"),
        "name".to_owned(),
        "hash".to_owned(),
        "[]".to_owned(),
        1,
    )
    .0
}

fn clients(now: i64) -> Vec<OAuthClientRecord> {
    insert_oauth_client(
        vec![],
        id("client"),
        "ChatGPT".to_owned(),
        "[]".to_owned(),
        "[]".to_owned(),
        "[]".to_owned(),
        10,
        now,
    )
    .unwrap()
}

fn request() -> OAuthAuthorizationRequestRecord {
    insert_oauth_authorization_request(
        &vault("v"),
        id("request"),
        vec![1],
        1,
        id("client"),
        "https://vault.example/mcp".to_owned(),
        "https://chat.example/cb".to_owned(),
        "[\"vault:read\"]".to_owned(),
        Some("state".to_owned()),
        "challenge".to_owned(),
        10,
        100,
    )
}

fn new_code() -> NewOAuthAuthorizationCode {
    NewOAuthAuthorizationCode {
        id: id("code"),
        code_digest: vec![2],
        digest_key_version: 1,
        created_at: 20,
        expires_at: 80,
    }
}

fn access(name: &str, family: &str) -> NewOAuthAccessToken {
    NewOAuthAccessToken {
        id: id(name),
        family_id: id(family),
        token_prefix: format!("at-{name}"),
        token_digest: vec![3],
        digest_key_version: 1,
        created_at: 30,
        expires_at: 3630,
        scopes_json: None,
    }
}

fn refresh(name: &str, family: &str) -> NewOAuthRefreshToken {
    NewOAuthRefreshToken {
        id: id(name),
        family_id: id(family),
        token_prefix: format!("rt-{name}"),
        token_digest: vec![4],
        digest_key_version: 1,
        created_at: 30,
        expires_at: 180 * DAY,
        scopes_json: None,
    }
}

fn completed() -> CompletedRequest {
    complete_oauth_authorization_request(
        &vault("v"),
        &id("request"),
        Some(request()),
        &id("user"),
        &Some(user()),
        clients(1).remove(0),
        new_code(),
        20,
    )
    .unwrap()
}

fn consumed() -> ConsumedCode {
    consume_oauth_code_and_insert_tokens(
        &vault("v"),
        &id("code"),
        Some(completed().code),
        access("a1", "f"),
        refresh("r1", "f"),
        30,
    )
    .unwrap()
}

#[test]
fn a_login_freezes_the_grant_into_the_code_and_its_tokens() {
    let done = completed();
    assert_eq!(done.request.consumed_at, Some(20));
    assert_eq!(done.client.last_used_at, Some(20));
    assert_eq!(done.code.client_id, id("client"));
    assert_eq!(done.code.user_id, id("user"));
    assert_eq!(done.code.resource, "https://vault.example/mcp");
    assert_eq!(done.code.scopes_json, "[\"vault:read\"]");
    let tokens = consumed();
    assert_eq!(tokens.code.consumed_at, Some(30));
    assert_eq!(tokens.access.scopes_json, "[\"vault:read\"]");
    assert_eq!(tokens.refresh.vault_id, id("v"));
    assert_eq!(tokens.refresh.expires_at, 180 * DAY);
}

#[test]
fn an_exchange_cannot_widen_the_frozen_grant() {
    let wider = Some("[\"vault:read\",\"vault:write\"]".to_owned());
    let tokens = consume_oauth_code_and_insert_tokens(
        &vault("v"),
        &id("code"),
        Some(completed().code),
        NewOAuthAccessToken { scopes_json: wider.clone(), ..access("a1", "f") },
        NewOAuthRefreshToken { scopes_json: wider, ..refresh("r1", "f") },
        30,
    )
    .unwrap();
    assert_eq!(tokens.access.scopes_json, "[\"vault:read\"]");
    assert_eq!(tokens.refresh.scopes_json, "[\"vault:read\"]");
}

#[test]
fn a_login_can_be_repeated_while_the_request_is_valid() {
    let done = completed();
    let again = complete_oauth_authorization_request(
        &vault("v"),
        &id("request"),
        Some(done.request),
        &id("user"),
        &Some(user()),
        done.client,
        new_code(),
        50,
    )
    .unwrap();
    assert_eq!(again.request.consumed_at, Some(20));
}

#[test]
fn disabled_users_and_expired_requests_get_no_code() {
    let complete = |user: Option<OAuthLocalUserRecord>, context: &VaultContext, at: i64| {
        complete_oauth_authorization_request(
            context,
            &id("request"),
            Some(request()),
            &id("user"),
            &user,
            clients(1).remove(0),
            new_code(),
            at,
        )
        .err()
    };
    let disabled = disable_local_oauth_user(&vault("v"), nothing(), Some(user()), 5).0;
    assert!(disabled.is_some());
    let refused = Some(StateError::InvalidInput("local OAuth user is disabled"));
    assert_eq!(complete(disabled, &vault("v"), 20), refused);
    assert_eq!(complete(None, &vault("v"), 20), refused);
    assert_eq!(complete(Some(user()), &vault("w"), 20), refused);
    assert_eq!(
        complete(Some(user()), &vault("v"), 100),
        Some(StateError::InvalidInput("OAuth authorization code was not created"))
    );
}

#[test]
fn a_code_is_exchanged_once() {
    let tokens = consumed();
    let again = |code, at| {
        consume_oauth_code_and_insert_tokens(
            &vault("v"),
            &id("code"),
            code,
            access("a2", "f"),
            refresh("r2", "f"),
            at,
        )
        .err()
    };
    let gone = Some(StateError::InvalidInput("OAuth authorization code is unavailable"));
    assert_eq!(again(Some(tokens.code), 31), gone);
    assert_eq!(again(Some(completed().code), 80), gone);
    assert_eq!(again(None, 31), gone);
    let mixed = consume_oauth_code_and_insert_tokens(
        &vault("v"),
        &id("code"),
        Some(completed().code),
        access("a2", "f"),
        refresh("r2", "g"),
        31,
    );
    assert_eq!(mixed.err(), Some(StateError::InvalidInput("OAuth token family is invalid")));
}

#[test]
fn a_rotation_renews_the_idle_term_and_spends_the_old_token() {
    let old = consumed().refresh;
    let next = NewOAuthRefreshToken { expires_at: 200 * DAY, ..refresh("r2", "f") };
    let rotated = rotate_oauth_refresh_token(
        &vault("v"),
        &id("r1"),
        Some(old),
        access("a2", "f"),
        next,
        40,
    )
    .unwrap();
    assert_eq!(rotated.spent.rotated_at, Some(40));
    assert_eq!(rotated.refresh.expires_at, 200 * DAY);
    assert_eq!(rotated.refresh.scopes_json, "[\"vault:read\"]");
    assert_eq!(rotated.access.client_id, id("client"));
    let replay = rotate_oauth_refresh_token(
        &vault("v"),
        &id("r1"),
        Some(rotated.spent),
        access("a3", "f"),
        refresh("r3", "f"),
        41,
    );
    assert_eq!(
        replay.err(),
        Some(StateError::InvalidInput("OAuth refresh token is unavailable"))
    );
    let strange = rotate_oauth_refresh_token(
        &vault("v"),
        &id("r2"),
        Some(rotated.refresh),
        access("a3", "g"),
        refresh("r3", "g"),
        41,
    );
    assert_eq!(
        strange.err(),
        Some(StateError::InvalidInput("OAuth access token was not rotated"))
    );
}

fn state() -> AuthorizationState {
    let done = completed();
    let tokens = consumed();
    AuthorizationState {
        requests: vec![done.request],
        codes: vec![done.code],
        access: vec![tokens.access],
        refresh: vec![tokens.refresh],
    }
}

#[test]
fn a_family_is_revoked_as_a_whole() {
    let after = revoke_oauth_token_family(&vault("v"), state(), &id("f"), 50);
    assert_eq!(after.access[0].revoked_at, Some(50));
    assert_eq!(after.refresh[0].revoked_at, Some(50));
    let other = revoke_oauth_token_family(&vault("v"), state(), &id("g"), 50);
    assert_eq!(other.access[0].revoked_at, None);
    let foreign = revoke_oauth_token_family(&vault("w"), state(), &id("f"), 50);
    assert_eq!(foreign.refresh[0].revoked_at, None);
}

#[test]
fn a_credential_change_ends_what_the_user_was_granted() {
    let after = revoke_user_state(state(), &id("user"), &id("v"), 50);
    assert_eq!(after.codes[0].consumed_at, Some(50));
    assert_eq!(after.access[0].revoked_at, Some(50));
    assert_eq!(after.refresh[0].revoked_at, Some(50));
    let (renamed, after) = upsert_local_oauth_user(
        &vault("v"),
        state(),
        Some(user()),
        id("other"),
        "new".to_owned(),
        "hash2".to_owned(),
        "[]".to_owned(),
        9,
    );
    assert_eq!(renamed.id, id("user"));
    assert_eq!((renamed.username.as_str(), renamed.enabled), ("new", true));
    assert_eq!(renamed.redacted().username, "new");
    assert!(after.requests.is_empty());
    assert_eq!(after.codes[0].consumed_at, Some(9));
    assert_eq!(after.access[0].revoked_at, Some(9));
    assert_eq!(after.refresh[0].revoked_at, Some(9));
    let (disabled, after) = disable_local_oauth_user(&vault("v"), state(), Some(user()), 60);
    assert!(!disabled.unwrap().enabled);
    assert_eq!(after.refresh[0].revoked_at, Some(60));
    let (missing, kept) = disable_local_oauth_user(&vault("w"), state(), Some(user()), 60);
    assert!(missing.is_none());
    assert_eq!(kept.refresh[0].revoked_at, None);
}

#[test]
fn a_sweep_keeps_what_can_still_be_used() {
    let kept = cleanup_local_oauth(state(), 20);
    assert_eq!(kept.refresh.len(), 1);
    assert_eq!(kept.access.len(), 1);
    let swept = cleanup_local_oauth(state(), 5000);
    assert_eq!(swept.access.len(), 0);
    assert_eq!(swept.codes.len(), 0);
    assert_eq!(swept.requests.len(), 0);
    assert_eq!(swept.refresh.len(), 1);
}

#[test]
fn users_and_clients_are_found() {
    let foreign = OAuthLocalUserRecord { vault_id: id("w"), ..user() };
    assert_eq!(get_local_oauth_user(&vault("v"), &[foreign, user()]), Some(1));
    assert_eq!(get_local_oauth_user(&vault("x"), &[user()]), None);
    assert_eq!(get_oauth_client(&clients(1), &id("client")), Some(0));
    assert_eq!(get_oauth_client(&clients(1), &id("unknown")), None);
}

#[test]
fn abandoned_clients_make_room() {
    let register = |clients, limit, now| {
        insert_oauth_client(
            clients,
            id("second"),
            "Other".to_owned(),
            "[]".to_owned(),
            "[]".to_owned(),
            "[]".to_owned(),
            limit,
            now,
        )
    };
    assert_eq!(
        register(clients(1), 1, 2).err(),
        Some(StateError::InvalidInput("OAuth client limit was reached"))
    );
    let after = register(clients(1), 1, 2 + DAY).unwrap();
    assert_eq!(after.len(), 1);
    assert_eq!(after[0].id, id("second"));
    assert_eq!(after[0].token_endpoint_auth_method, "none");
    let used = vec![OAuthClientRecord { last_used_at: Some(1), ..clients(1).remove(0) }];
    assert!(register(used, 1, 2 + DAY).is_err());
    assert_eq!(
        register(vec![], 0, 1).err(),
        Some(StateError::InvalidInput("OAuth client limit is invalid"))
    );
}

#[test]
fn presented_secrets_are_found_in_their_vault() {
    let state = state();
    let v = vault("v");
    assert_eq!(find_oauth_authorization_request(&v, &state.requests, &[1], 1), Some(0));
    assert_eq!(find_oauth_authorization_request(&v, &state.requests, &[1], 2), None);
    assert_eq!(find_oauth_authorization_code(&v, &state.codes, &[2], 1), Some(0));
    assert_eq!(find_oauth_authorization_code(&vault("w"), &state.codes, &[2], 1), None);
    assert_eq!(find_oauth_access_token(&v, &state.access, "at-a1", &[3], 1), Some(0));
    assert_eq!(find_oauth_access_token(&v, &state.access, "at-a2", &[3], 1), None);
    assert_eq!(find_oauth_refresh_token(&v, &state.refresh, "rt-r1", &[4], 1), Some(0));
    assert_eq!(find_oauth_refresh_token(&v, &state.refresh, "rt-r1", &[5], 1), None);
    let used = touch_oauth_access_token(&v, state.access[0].clone(), 60);
    assert_eq!(used.last_used_at, Some(60));
}

#[test]
fn stored_tokens_need_a_valid_key_version() {
    let token: OAuthRefreshTokenRecord = consumed().refresh;
    let row = OAuthRefreshTokenRow {
        id: token.id.text.clone(),
        family_id: token.family_id.text.clone(),
        token_prefix: token.token_prefix.clone(),
        token_digest: token.token_digest.clone(),
        digest_key_version: 1,
        client_id: token.client_id.text.clone(),
        user_id: token.user_id.text.clone(),
        vault_id: token.vault_id.text.clone(),
        resource: token.resource.clone(),
        scopes_json: token.scopes_json.clone(),
        created_at: token.created_at,
        expires_at: token.expires_at,
        rotated_at: None,
        revoked_at: None,
    };
    assert!(row_to_refresh_token(row.clone()).ok().unwrap() == token);
    assert_eq!(
        row_to_refresh_token(OAuthRefreshTokenRow { digest_key_version: -1, ..row }).err(),
        Some(StateError::InvalidInput("OAuth key version is invalid"))
    );
}
