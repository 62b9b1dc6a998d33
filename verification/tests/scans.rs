use mcp_vault_state::scans::{
    finish, row_to_checkpoint, start, update_progress, ScanCheckpointRow, ScanProgress,
};
use mcp_vault_state::{Id, ScanCheckpointRecord, ScanStatus, StateError, VaultContext, VaultPath};

fn id(text: &str) -> Id {
    Id::new(text.to_owned())
}

fn vault(name: &str) -> VaultContext {
    VaultContext { id: id(name), slug: name.to_owned(), content_root: Some(format!("/srv/{name}")) }
}

fn started(generation: &str) -> ScanCheckpointRecord {
    start(&vault("v"), None, id("c"), "reconcile", generation, 1).unwrap()
}

fn progress(entries_seen: u64) -> ScanProgress {
    ScanProgress {
        cursor_path: Some(VaultPath { text: "notes/a.md".to_owned() }),
        entries_seen,
        files_seen: 1,
        directories_seen: 2,
        changes_imported: 3,
        unsafe_entries_skipped: 4,
        missing_deletes_skipped: true,
    }
}

#[test]
fn a_new_generation_replaces_the_checkpoint_but_keeps_its_identity() {
    let first = started("g1");
    let foreign = start(&vault("w"), Some(first.clone()), id("d"), "reconcile", "g2", 5).unwrap();
    assert_eq!((foreign.id, foreign.vault_id), (id("d"), id("w")));
    let second = start(&vault("v"), Some(first), id("other"), "reconcile", "g2", 5).unwrap();
    assert_eq!(second.id, id("c"));
    assert_eq!(second.generation, "g2");
    assert_eq!(second.started_at, 5);
    assert_eq!(
        update_progress(&vault("v"), Some(second), "reconcile", "g1", progress(1), 6),
        Err(StateError::InvalidInput("scan checkpoint generation is stale"))
    );
    assert_eq!(
        start(&vault("v"), None, id("c"), "", "g", 1),
        Err(StateError::InvalidInput("scan label is invalid"))
    );
}

#[test]
fn progress_and_completion_are_recorded() {
    let running = update_progress(&vault("v"), Some(started("g")), "reconcile", "g", progress(9), 6)
        .unwrap();
    assert_eq!(running.entries_seen, 9);
    assert!(running.missing_deletes_skipped);
    assert!(update_progress(&vault("w"), Some(running.clone()), "reconcile", "g", progress(9), 6)
        .is_err());
    let done = finish(
        &vault("v"),
        Some(running),
        "reconcile",
        "g",
        ScanStatus::Failed,
        Some("disk"),
        7,
    )
    .unwrap();
    assert_eq!(done.completed_at, Some(7));
    assert_eq!(done.last_error.as_deref(), Some("disk"));
    assert_eq!(
        finish(&vault("v"), Some(done), "reconcile", "g", ScanStatus::Completed, None, 8),
        Err(StateError::InvalidInput("scan checkpoint generation is stale"))
    );
}

#[test]
fn counters_must_fit_the_store() {
    assert!(update_progress(
        &vault("v"),
        Some(started("g")),
        "reconcile",
        "g",
        progress(u64::MAX),
        6
    )
    .is_err());
}

#[test]
fn stored_checkpoints_are_read_back() {
    let row = ScanCheckpointRow {
        id: "c".to_owned(),
        vault_id: "v".to_owned(),
        scan_type: "reconcile".to_owned(),
        generation: "g".to_owned(),
        cursor_path: None,
        status: "cancelled".to_owned(),
        entries_seen: 7,
        files_seen: 0,
        directories_seen: 0,
        changes_imported: 0,
        unsafe_entries_skipped: 0,
        missing_deletes_skipped: 0,
        last_error: None,
        started_at: 1,
        updated_at: 1,
        completed_at: Some(2),
    };
    let record = row_to_checkpoint(row.clone()).unwrap();
    assert_eq!(record.status, ScanStatus::Cancelled);
    assert_eq!(record.entries_seen, 7);
    assert!(row_to_checkpoint(ScanCheckpointRow { files_seen: -1, ..row.clone() }).is_err());
    assert!(row_to_checkpoint(ScanCheckpointRow { status: "x".to_owned(), ..row }).is_err());
}

#[test]
fn scan_statuses_keep_their_labels() {
    for status in
        [ScanStatus::Running, ScanStatus::Completed, ScanStatus::Failed, ScanStatus::Cancelled]
    {
        assert_eq!(ScanStatus::parse(status.as_str()), Ok(status));
    }
}
