use mcp_vault_state::auth::queries::{
    find_admin_session, find_admin_user_by_username, find_mcp_token, find_oauth_grant,
    find_oauth_issuer, find_webdav_credential, get_admin_user, get_oauth_issuer, get_secret, list_oauth_issuers, list_secrets,
};
use mcp_vault_state::auth::{
    insert_admin_user, insert_first_admin_user, insert_mcp_token, insert_oauth_grant,
    insert_oauth_issuer, insert_webdav_credential, key_check_to_keep, list_mcp_tokens,
    list_oauth_grants, list_webdav_credentials, revoke_admin_session, revoke_admin_sessions,
    revoke_mcp_token, revoke_oauth_grant, revoke_webdav_credential, row_to_mcp, row_to_secret,
    touch_admin_session, touch_mcp_token, touch_webdav_credential, update_admin_password,
    update_oauth_issuer, update_secret_ciphertext, update_webdav_credential, validate_key_check,
    EncryptedSecretRow, IssuerConfiguration, McpTokenRow,
};
use mcp_vault_state::{
    AdminSessionRecord, EncryptedSecretRecord, Id, McpTokenRecord, OAuthGrantRecord,
    OAuthIssuerRecord, StateError, VaultContext, WebDavCredentialRecord,
};

fn id(text: &str) -> Id {
    Id::new(text.to_owned())
}

fn vault(name: &str) -> VaultContext {
    VaultContext { id: id(name), slug: name.to_owned(), content_root: Some(format!("/srv/{name}")) }
}

fn credential(name: &str, in_vault: &str, now: i64) -> WebDavCredentialRecord {
    insert_webdav_credential(
        &vault(in_vault),
        id(name),
        "Laptop".to_owned(),
        format!("user-{name}"),
        "hash".to_owned(),
        "[\"read\"]".to_owned(),
        None,
        now,
    )
}

fn token(name: &str, in_vault: &str, now: i64) -> McpTokenRecord {
    insert_mcp_token(
        &vault(in_vault),
        id(name),
        "Agent".to_owned(),
        format!("prefix-{name}"),
        vec![1, 2, 3],
        1,
        "[]".to_owned(),
        Some(99),
        now,
    )
}

fn session(name: &str, user: &str) -> AdminSessionRecord {
    AdminSessionRecord {
        id: id(name),
        user_id: id(user),
        token_digest: name.as_bytes().to_vec(),
        csrf_secret_digest: vec![9],
        digest_key_version: 1,
        created_at: 1,
        last_seen_at: 1,
        expires_at: 100,
        source_ip: None,
        user_agent_hash: Some(vec![7]),
        revoked_at: None,
    }
}

fn secret(name: &str) -> EncryptedSecretRecord {
    row_to_secret(secret_row(name)).unwrap()
}

fn secret_row(name: &str) -> EncryptedSecretRow {
    EncryptedSecretRow {
        id: name.to_owned(),
        purpose: "provider".to_owned(),
        owner_type: "provider".to_owned(),
        owner_id: None,
        key_version: 1,
        nonce: vec![1],
        ciphertext: vec![2],
        hint: Some("sk-…".to_owned()),
        created_at: 1,
        updated_at: 1,
    }
}

fn configuration(name: &str, keys: Option<&str>) -> IssuerConfiguration {
    IssuerConfiguration {
        name: name.to_owned(),
        issuer_url: format!("https://{name}.example"),
        discovery_url: None,
        audience: "vault".to_owned(),
        resource: None,
        jwks_cache_json: keys.map(|keys| keys.to_owned()),
        enabled: true,
    }
}

fn issuer(name: &str) -> OAuthIssuerRecord {
    insert_oauth_issuer(id(name), configuration(name, None), 1)
}

fn grant(name: &str, in_vault: &str, now: i64) -> OAuthGrantRecord {
    insert_oauth_grant(
        &vault(in_vault),
        None,
        id(name),
        id("issuer"),
        format!("subject-{name}"),
        "[]".to_owned(),
        now,
    )
}

#[test]
fn only_the_first_admin_is_created_by_setup() {
    let user = insert_first_admin_user(false, id("a"), "root".to_owned(), "hash".to_owned(), 5).unwrap();
    assert_eq!(user.password_changed_at, 5);
    assert!(!user.disabled);
    assert!(insert_first_admin_user(true, id("b"), "root".to_owned(), "hash".to_owned(), 5).is_none());
    assert_eq!(find_admin_user_by_username(&[user.clone()], "root"), Some(0));
    assert_eq!(find_admin_user_by_username(&[user.clone()], "Root"), None);
    assert_eq!(get_admin_user(&[user.clone()], &user.id), Some(0));
    assert_eq!(get_admin_user(&[user], &id("nobody")), None);
}

#[test]
fn a_new_password_is_dated() {
    let user = insert_admin_user(id("a"), "root".to_owned(), "old".to_owned(), 1);
    let user = update_admin_password(Some(user), "new".to_owned(), 9).unwrap();
    assert_eq!(user.password_hash, "new");
    assert_eq!((user.password_changed_at, user.updated_at, user.created_at), (9, 9, 1));
    assert!(update_admin_password(None, "new".to_owned(), 9).is_err());
}

#[test]
fn sessions_are_revoked_once() {
    let touched = touch_admin_session(session("s", "a"), 7);
    assert_eq!(touched.last_seen_at, 7);
    let revoked = revoke_admin_session(touched, 8);
    assert_eq!(revoked.revoked_at, Some(8));
    assert!(revoke_admin_session(revoked.clone(), 9) == revoked);
    let all = vec![session("s", "a"), session("t", "b"), revoke_admin_session(session("u", "a"), 2)];
    let after = revoke_admin_sessions(all, &id("a"), 5);
    assert_eq!(after[0].revoked_at, Some(5));
    assert_eq!(after[1].revoked_at, None);
    assert_eq!(after[2].revoked_at, Some(2));
    assert_eq!(find_admin_session(&after, b"t"), Some(1));
    assert_eq!(find_admin_session(&after, b"x"), None);
    let view = after[0].redacted();
    assert!(view.has_user_agent_hash);
}

#[test]
fn credentials_stay_in_their_vault() {
    let record = credential("c", "v", 1);
    assert!(touch_webdav_credential(&vault("w"), record.clone(), 5) == record);
    assert_eq!(touch_webdav_credential(&vault("v"), record.clone(), 5).last_used_at, Some(5));
    assert!(revoke_webdav_credential(&vault("w"), record.clone(), 5) == record);
    assert_eq!(revoke_webdav_credential(&vault("v"), record.clone(), 5).revoked_at, Some(5));
    let changed = update_webdav_credential(
        &vault("v"),
        Some(record.clone()),
        "Phone".to_owned(),
        "[]".to_owned(),
        Some(50),
    )
    .unwrap();
    assert_eq!((changed.name.as_str(), changed.expires_at), ("Phone", Some(50)));
    assert_eq!(changed.password_hash, "hash");
    assert!(update_webdav_credential(
        &vault("w"),
        Some(record.clone()),
        "Phone".to_owned(),
        "[]".to_owned(),
        None
    )
    .is_err());
    assert_eq!(find_webdav_credential(&vault("v"), &[record.clone()], "user-c"), Some(0));
    assert_eq!(find_webdav_credential(&vault("w"), &[record], "user-c"), None);
}

#[test]
fn listings_show_no_secret_material() {
    let records = vec![credential("a", "v", 1), credential("b", "v", 9), credential("c", "w", 5)];
    let views = list_webdav_credentials(&vault("v"), &records, 1000).unwrap();
    assert_eq!(views.len(), 2);
    assert_eq!(views[0], records[1].redacted());
    assert_eq!(views[1], records[0].redacted());
    assert_eq!(
        list_webdav_credentials(&vault("v"), &records, 0),
        Err(StateError::InvalidInput("WebDAV credential page is invalid"))
    );
    let tokens = vec![token("a", "v", 1), token("b", "v", 1), token("c", "w", 5)];
    let views = list_mcp_tokens(&vault("v"), &tokens, 1).unwrap();
    assert_eq!(views, vec![tokens[0].redacted()]);
    let other = McpTokenRecord { token_digest: vec![8], ..tokens[0].clone() };
    assert!(other.redacted() == tokens[0].redacted());
}

#[test]
fn tokens_are_found_by_prefix_and_digest_in_their_vault() {
    let tokens = vec![token("a", "v", 1)];
    assert_eq!(find_mcp_token(&vault("v"), &tokens, "prefix-a", &[1, 2, 3]), Some(0));
    assert_eq!(find_mcp_token(&vault("v"), &tokens, "prefix-a", &[1, 2, 4]), None);
    assert_eq!(find_mcp_token(&vault("v"), &tokens, "prefix-b", &[1, 2, 3]), None);
    assert_eq!(find_mcp_token(&vault("w"), &tokens, "prefix-a", &[1, 2, 3]), None);
    assert!(touch_mcp_token(&vault("w"), tokens[0].clone(), 5) == tokens[0]);
    assert_eq!(touch_mcp_token(&vault("v"), tokens[0].clone(), 5).last_used_at, Some(5));
    assert_eq!(revoke_mcp_token(&vault("v"), tokens[0].clone(), 5).revoked_at, Some(5));
}

#[test]
fn issuers_date_their_cached_keys() {
    let plain = issuer("b");
    assert_eq!(plain.jwks_cached_at, None);
    let cached = update_oauth_issuer(Some(plain), configuration("b", Some("{}")), 7).ok().unwrap();
    assert_eq!(cached.jwks_cached_at, Some(7));
    assert_eq!((cached.created_at, cached.updated_at), (1, 7));
    assert!(cached.redacted().has_jwks_cache);
    assert!(update_oauth_issuer(None, configuration("b", None), 7).is_err());
    let issuers = vec![issuer("b"), issuer("a"), OAuthIssuerRecord { id: id("0"), ..issuer("b") }];
    let shown = |limit: u32| list_oauth_issuers(&issuers, limit).unwrap();
    assert_eq!(
        shown(1000),
        vec![issuers[1].redacted(), issuers[2].redacted(), issuers[0].redacted()]
    );
    assert_eq!(shown(2), vec![issuers[1].redacted(), issuers[2].redacted()]);
    assert!(list_oauth_issuers(&[cached], 1).unwrap()[0].has_jwks_cache);
    assert_eq!(get_oauth_issuer(&issuers, &issuers[2].id), Some(2));
    assert_eq!(get_oauth_issuer(&issuers, &id("unknown")), None);
    assert_eq!(
        list_oauth_issuers(&issuers, 1001),
        Err(StateError::InvalidInput("OAuth issuer page is invalid"))
    );
    assert_eq!(find_oauth_issuer(&issuers, "https://a.example"), Some(1));
    assert_eq!(find_oauth_issuer(&issuers, "https://a.example/"), None);
}

#[test]
fn a_renewed_grant_is_no_longer_revoked() {
    let first = grant("a", "v", 1);
    let revoked = revoke_oauth_grant(&vault("v"), Some(first.clone()), 4).unwrap();
    assert_eq!(revoked.revoked_at, Some(4));
    assert!(revoke_oauth_grant(&vault("w"), Some(first.clone()), 4).is_err());
    let renewed = insert_oauth_grant(
        &vault("v"),
        Some(revoked.clone()),
        id("other"),
        id("issuer"),
        "subject-a".to_owned(),
        "[\"vault:read\"]".to_owned(),
        6,
    );
    let elsewhere = insert_oauth_grant(
        &vault("w"),
        Some(revoked.clone()),
        id("other"),
        id("issuer"),
        "subject-a".to_owned(),
        "[]".to_owned(),
        6,
    );
    assert_eq!((elsewhere.id, elsewhere.vault_id), (id("other"), id("w")));
    assert_eq!(renewed.id, id("a"));
    assert_eq!(renewed.revoked_at, None);
    assert_eq!(renewed.scopes_json, "[\"vault:read\"]");
    let grants = vec![revoked, grant("b", "v", 2), grant("c", "w", 3)];
    assert_eq!(list_oauth_grants(&vault("v"), &grants, false, 10), Ok(vec![1]));
    assert_eq!(list_oauth_grants(&vault("v"), &grants, true, 10), Ok(vec![1, 0]));
    assert_eq!(find_oauth_grant(&vault("v"), &grants, &id("issuer"), "subject-b"), Some(1));
    assert_eq!(find_oauth_grant(&vault("w"), &grants, &id("issuer"), "subject-b"), None);
}

#[test]
fn secrets_keep_their_identity() {
    let changed =
        update_secret_ciphertext(Some(secret("s")), 2, vec![5], vec![6], None, 9).ok().unwrap();
    assert_eq!(changed.id, id("s"));
    assert_eq!(changed.purpose, "provider");
    assert_eq!((changed.key_version, changed.updated_at, changed.created_at), (2, 9, 1));
    assert!(update_secret_ciphertext(None, 2, vec![], vec![], None, 9).is_err());
    assert!(changed.redacted().has_ciphertext);
    let secrets = vec![secret("b"), secret("a")];
    assert_eq!(list_secrets(&secrets), vec![1, 0]);
    assert_eq!(get_secret(&secrets, &id("b")), Some(0));
    assert_eq!(get_secret(&secrets, &id("c")), None);
    assert!(row_to_secret(EncryptedSecretRow { key_version: -1, ..secret_row("s") }).is_err());
}

#[test]
fn key_checks_are_not_replaced() {
    assert_eq!(validate_key_check(1, &[0; 32]), Ok(()));
    let refusal = Err(StateError::InvalidInput("installation key check is invalid"));
    assert_eq!(validate_key_check(0, &[0; 32]), refusal);
    assert_eq!(validate_key_check(1, &[0; 31]), refusal);
    assert_eq!(key_check_to_keep(Some(vec![1]), vec![2]), vec![1]);
    assert_eq!(key_check_to_keep(None, vec![2]), vec![2]);
}

#[test]
fn stored_tokens_are_checked() {
    let row = McpTokenRow {
        id: "t".to_owned(),
        vault_id: "v".to_owned(),
        name: "Agent".to_owned(),
        token_prefix: "p".to_owned(),
        token_digest: vec![1],
        digest_key_version: 3,
        scopes_json: "[]".to_owned(),
        created_at: 1,
        last_used_at: None,
        expires_at: None,
        revoked_at: None,
    };
    assert_eq!(row_to_mcp(row.clone()).ok().unwrap().digest_key_version, 3);
    assert!(row_to_mcp(McpTokenRow { digest_key_version: i64::MAX, ..row }).is_err());
}
