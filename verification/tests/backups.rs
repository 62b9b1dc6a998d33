use mcp_vault_state::backups::{
    delete, get, insert_queued, list, mark_completed, mark_failed, mark_restoring, mark_running,
    mark_validating, mark_verified, row_to_record, BackupRow,
};
use mcp_vault_state::json::Json;
use mcp_vault_state::{BackupRecord, BackupStatus, Id, StateError};

fn id(text: &str) -> Id {
    Id::new(text.to_owned())
}

fn manifest() -> Json {
    Json::parse("{\"format_version\": 1}").unwrap()
}

fn queued(name: &str, now: i64) -> BackupRecord {
    insert_queued(id(name), "/var/lib/mcp-vault/backups/test.tar", None, now).unwrap()
}

#[test]
fn backup_catalog_supports_completion_verification_and_restore_resume() {
    let record = insert_queued(
        id("first"),
        "/var/lib/mcp-vault/backups/test.tar",
        Some("admin"),
        1,
    )
    .unwrap();
    let record = mark_running(Some(record), 2).unwrap();
    let record = mark_restoring(Some(record)).unwrap();
    assert_eq!(record.status, BackupStatus::Restoring);
    let record = mark_failed(Some(record), "process_restarted", 3).unwrap();
    assert_eq!(record.status, BackupStatus::Failed);

    let completed =
        insert_queued(id("second"), "/var/lib/mcp-vault/backups/completed.tar", None, 4).unwrap();
    let completed = mark_running(Some(completed), 5).unwrap();
    let completed = mark_completed(Some(completed), manifest(), 10, 6).unwrap();
    let record = mark_verified(Some(completed), manifest(), 11).unwrap();
    assert_eq!(record.status, BackupStatus::Completed);
    assert!(record.verified_at.is_some());
    assert_eq!(record.verified_at, Some(11));
    assert_eq!(record.completed_at, Some(6));
    assert_eq!(record.manifest.unwrap().as_str(), "{\"format_version\":1}");
}

#[test]
fn transitions_out_of_order_are_refused() {
    let record = queued("one", 1);
    assert_eq!(
        mark_completed(Some(record.clone()), manifest(), 2, 2),
        Err(StateError::InvalidInput("backup is not running"))
    );
    assert_eq!(
        mark_verified(Some(record.clone()), manifest(), 2),
        Err(StateError::InvalidInput("backup is not completed"))
    );
    assert_eq!(
        mark_restoring(Some(record.clone())),
        Err(StateError::InvalidInput("backup transition is invalid"))
    );
    assert_eq!(
        delete(Some(record.clone())),
        Err(StateError::InvalidInput("backup is not deletable"))
    );
    let running = mark_running(Some(record), 2).unwrap();
    assert_eq!(
        mark_running(Some(running.clone()), 3),
        Err(StateError::InvalidInput("backup is not queued"))
    );
    assert_eq!(
        mark_validating(Some(running.clone())),
        Err(StateError::InvalidInput("backup transition is invalid"))
    );
    let failed = mark_failed(Some(running), "disk_full", 4).unwrap();
    assert_eq!(
        mark_failed(Some(failed.clone()), "again", 5),
        Err(StateError::InvalidInput("backup is not active"))
    );
    let validating = mark_validating(Some(failed.clone())).unwrap();
    assert_eq!(validating.status, BackupStatus::Validating);
    assert_eq!(validating.error, None);
    assert_eq!(delete(Some(failed)), Ok(id("one")));
    assert_eq!(mark_running(None, 1), Err(StateError::InvalidInput("backup is not queued")));
}

#[test]
fn bounds_are_checked_before_anything_is_stored() {
    assert_eq!(
        insert_queued(id("a"), "", None, 1),
        Err(StateError::InvalidInput("backup location is invalid"))
    );
    assert_eq!(
        insert_queued(id("a"), "/x\u{7}", None, 1),
        Err(StateError::InvalidInput("backup location is invalid"))
    );
    assert_eq!(
        insert_queued(id("a"), "/x", Some(""), 1),
        Err(StateError::InvalidInput("backup actor is invalid"))
    );
    let running = mark_running(Some(queued("a", 1)), 2).unwrap();
    let large = Json::parse(&format!("\"{}\"", "x".repeat(1048576))).unwrap();
    assert_eq!(
        mark_completed(Some(running.clone()), large, 1, 1),
        Err(StateError::InvalidInput("backup manifest is too large"))
    );
    assert_eq!(
        mark_failed(Some(running), &"x".repeat(257), 3),
        Err(StateError::InvalidInput("backup error is invalid"))
    );
}

#[test]
fn listing_is_newest_first() {
    let catalog = vec![queued("a", 5), queued("b", 9), queued("c", 5), queued("d", 1)];
    assert_eq!(get(&catalog, &catalog[2].id), Some(2));
    assert_eq!(get(&catalog, &id("unknown")), None);
    assert_eq!(list(&catalog, 200, 0), Ok(vec![1, 2, 0, 3]));
    assert_eq!(list(&catalog, 2, 1), Ok(vec![2, 0]));
    assert_eq!(list(&catalog, 2, 10), Ok(vec![]));
    assert_eq!(list(&catalog, 0, 0), Err(StateError::InvalidInput("backup page is invalid")));
    assert_eq!(list(&catalog, 201, 0), Err(StateError::InvalidInput("backup page is invalid")));
    assert_eq!(
        list(&catalog, 1, 1_000_001),
        Err(StateError::InvalidInput("backup page is invalid"))
    );
}

#[test]
fn stored_rows_are_read_back() {
    let row = BackupRow {
        id: "a".to_owned(),
        status: "validating".to_owned(),
        location: "/x".to_owned(),
        manifest_json: Some("{ \"b\": 1, \"a\": [] }".to_owned()),
        started_at: 1,
        completed_at: None,
        verified_at: None,
        error: None,
        created_by: None,
    };
    let record = row_to_record(row.clone()).unwrap();
    assert_eq!(record.status, BackupStatus::Validating);
    assert_eq!(record.manifest.unwrap().as_str(), "{\"a\":[],\"b\":1}");
    assert_eq!(
        row_to_record(BackupRow { status: "paused".to_owned(), ..row.clone() }),
        Err(StateError::InvalidInput("stored backup status is invalid"))
    );
    assert_eq!(
        row_to_record(BackupRow { manifest_json: Some("{".to_owned()), ..row }),
        Err(StateError::Json)
    );
}

#[test]
fn statuses_keep_their_labels() {
    for status in [
        BackupStatus::Queued,
        BackupStatus::Running,
        BackupStatus::Completed,
        BackupStatus::Failed,
        BackupStatus::Validating,
        BackupStatus::Restoring,
    ] {
        assert_eq!(BackupStatus::parse(status.as_str()), Ok(status));
    }
}
