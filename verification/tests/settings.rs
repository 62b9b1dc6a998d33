use mcp_vault_state::audit::{append, list_for_vault, row_to_audit, AuditFact, AuditRow};
use mcp_vault_state::domain::{ensure_context, ensure_vault, VaultRow};
use mcp_vault_state::json::Json;
use mcp_vault_state::settings::{
    lost_update, set_system, set_vault, setting_row_to_record, validate_key, SettingRow, SettingWrite,
};
use mcp_vault_state::{
    Actor, ActorType, AuditRecord, DomainError, Id, Revision, StateError, VaultContext,
};

fn id(text: &str) -> Id {
    Id::new(text.to_owned())
}

fn vault(name: &str) -> VaultContext {
    VaultContext { id: id(name), slug: name.to_owned(), content_root: Some(format!("/srv/{name}")) }
}

fn json(text: &str) -> Json {
    Json::parse(text).unwrap()
}

fn write(key: &str) -> SettingWrite {
    SettingWrite {
        key: key.to_owned(),
        value: json("{\"on\": true}"),
        updated_by: None,
    }
}

fn row(revision: i64) -> SettingRow {
    SettingRow {
        key: "memory.enabled".to_owned(),
        value_json: "{ \"on\": false }".to_owned(),
        revision,
        updated_at: 1,
        updated_by: Some("admin".to_owned()),
    }
}

#[test]
fn settings_count_their_revisions() {
    let first = set_vault(&vault("v"), write("memory.enabled"), None, Ok(()), 5).unwrap();
    assert_eq!(first.vault_id, Some(id("v")));
    assert_eq!(first.revision, Revision::new(1));
    assert_eq!(first.value.as_str(), "{\"on\":true}");
    let next = set_system(write("memory.enabled"), Some(row(4)), Ok(()), 6).unwrap();
    assert_eq!(next.revision, Revision::new(5));
    assert_eq!(next.vault_id, None);
}

#[test]
fn unmet_preconditions_refuse_a_write() {
    let failed = DomainError::PreconditionFailed { reason: "stale" };
    assert_eq!(
        set_system(write("memory.enabled"), Some(row(4)), Err(failed.clone()), 6),
        Err(StateError::InvalidDomain(failed))
    );
    assert_eq!(
        set_system(write(""), None, Ok(()), 6),
        Err(StateError::InvalidInput("setting key is invalid"))
    );
    assert_eq!(
        set_system(write("k"), Some(row(i64::MAX)), Ok(()), 6),
        Err(StateError::InvalidDomain(DomainError::RevisionOutOfRange))
    );
    assert_eq!(validate_key(&"k".repeat(128)), Ok(()));
    assert!(validate_key(&"k".repeat(129)).is_err());
    assert_eq!(
        lost_update(),
        StateError::InvalidDomain(DomainError::PreconditionFailed {
            reason: "setting changed during update"
        })
    );
}

#[test]
fn stored_settings_are_read_back() {
    let record = setting_row_to_record(row(3), None).unwrap();
    assert_eq!(record.value.as_str(), "{\"on\":false}");
    assert_eq!(record.updated_by, Some(id("admin")));
    assert!(setting_row_to_record(row(-1), None).is_err());
    assert_eq!(
        setting_row_to_record(SettingRow { value_json: "".to_owned(), ..row(1) }, None),
        Err(StateError::Json)
    );
}

#[test]
fn calls_are_bound_to_a_registered_vault() {
    let rows = vec![VaultRow {
        id: "v".to_owned(),
        slug: "v".to_owned(),
        content_root: "/srv/v".to_owned(),
    }];
    assert_eq!(ensure_context(&vault("v"), &rows), Ok(()));
    let moved = VaultContext { content_root: Some("/srv/other".to_owned()), ..vault("v") };
    assert_eq!(
        ensure_context(&moved, &rows),
        Err(StateError::InvalidInput("Vault context is not registered"))
    );
    let odd = VaultContext { content_root: None, ..vault("v") };
    assert_eq!(
        ensure_context(&odd, &rows),
        Err(StateError::InvalidInput("Vault root must be valid UTF-8"))
    );
    assert_eq!(ensure_vault(&moved, &rows), Ok(()));
    assert_eq!(
        ensure_vault(&vault("w"), &rows),
        Err(StateError::InvalidInput("Vault is not registered"))
    );
}

fn fact(action: &str) -> AuditFact {
    AuditFact {
        request_id: None,
        source_plane: "admin".to_owned(),
        actor: Actor { actor_type: ActorType::Admin, actor_id: Some(id("admin")) },
        action: action.to_owned(),
        target_type: None,
        target_id: None,
        result: "success".to_owned(),
        metadata: json("{}"),
    }
}

fn logged(context: Option<&VaultContext>, name: &str, now: i64) -> AuditRecord {
    append(context, fact("login"), id(name), now).unwrap()
}

#[test]
fn audit_facts_are_bounded() {
    let record = logged(Some(&vault("v")), "a", 5);
    assert_eq!(record.actor_type, "admin");
    assert_eq!(record.vault_id, Some(id("v")));
    let refused = Err(StateError::InvalidInput("audit fact is invalid"));
    assert_eq!(append(None, fact(""), id("a"), 5), refused);
    assert_eq!(append(None, fact(&"x".repeat(129)), id("a"), 5), refused);
    let large = AuditFact { metadata: json(&format!("\"{}\"", "x".repeat(16384))), ..fact("login") };
    assert_eq!(append(None, large, id("a"), 5), refused);
}

#[test]
fn audit_listings_show_the_vault_and_the_installation() {
    let v = vault("v");
    let records = vec![
        logged(Some(&v), "a", 1),
        logged(None, "b", 9),
        logged(Some(&vault("w")), "c", 5),
        AuditRecord { result: "denied".to_owned(), ..logged(Some(&v), "d", 9) },
    ];
    assert_eq!(list_for_vault(&v, &records, None, None, 200, 0), Ok(vec![3, 1, 0]));
    assert_eq!(list_for_vault(&v, &records, None, Some("denied"), 200, 0), Ok(vec![3]));
    assert_eq!(list_for_vault(&v, &records, Some("logout"), None, 200, 0), Ok(vec![]));
    assert_eq!(list_for_vault(&v, &records, None, None, 1, 2), Ok(vec![0]));
    assert_eq!(
        list_for_vault(&v, &records, None, None, 0, 0),
        Err(StateError::InvalidInput("audit page is invalid"))
    );
}

#[test]
fn stored_audit_facts_are_read_back() {
    let row = AuditRow {
        id: "a".to_owned(),
        occurred_at: 1,
        request_id: None,
        vault_id: None,
        plane: "admin".to_owned(),
        actor_type: "admin".to_owned(),
        actor_id: None,
        action: "login".to_owned(),
        target_type: None,
        target_id: None,
        target_path_hash: None,
        result: "success".to_owned(),
        metadata_json: "[ ]".to_owned(),
    };
    assert_eq!(row_to_audit(row.clone()).unwrap().metadata.as_str(), "[]");
    assert_eq!(
        row_to_audit(AuditRow { metadata_json: "[".to_owned(), ..row }),
        Err(StateError::Json)
    );
}
