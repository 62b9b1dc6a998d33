use mcp_vault_state::audit::AuditRecord;
use mcp_vault_state::files::queries::{
    count_audit_entries, count_outbox_events, get_active, get_any_by_path, get_by_id, get_revision,
    list_active_entries, list_incomplete, list_recent_revisions, list_revisions,
};
use mcp_vault_state::files::{
    commit_mutation, commit_result, find_idempotency, look_up, mark_file_committed, mark_needs_review,
    mark_rolled_back, path_hash, prepare_operation, row_to_file, row_to_journal, row_to_revision,
    set_proposed_hash, stage_mutation, update_operation_payload, CommitLookup, CommittedMutation,
    FileRevisionRow, FileRow, JournalRow, MintedIds,
};
use mcp_vault_state::json::Json;
use mcp_vault_state::{
    Actor, ActorType, CommitHook, CommitHookPhase, CommitMutationInput, DomainError, EntryType,
    FileOperation, FileRecord, FileRevisionRecord, Id, IdempotencyLookup, JournalRecord,
    JournalState, NoopCommitHook, OutboxEventInput, PrepareOperationInput, Revision, StateError,
    VaultContext, VaultPath,
};

fn id(text: &str) -> Id {
    Id::new(text.to_owned())
}

fn path(text: &str) -> VaultPath {
    VaultPath { text: text.to_owned() }
}

fn vault(name: &str) -> VaultContext {
    VaultContext { id: id(name), slug: name.to_owned(), content_root: Some(format!("/srv/{name}")) }
}

fn json(text: &str) -> Json {
    Json::parse(text).unwrap()
}

fn file_row(name: &str, at: &str, revision: i64) -> FileRow {
    FileRow {
        id: name.to_owned(),
        vault_id: "v".to_owned(),
        path: at.to_owned(),
        entry_type: "file".to_owned(),
        current_revision: revision,
        content_hash: Some("sha256:00".to_owned()),
        size: 7,
        modified_at: 1,
        filesystem_identity: None,
        deleted_at: None,
        created_at: 1,
        updated_at: 1,
    }
}

fn file(name: &str, at: &str) -> FileRecord {
    row_to_file(file_row(name, at, 1)).unwrap()
}

fn mutation(file_id: &str, at: &str) -> CommitMutationInput {
    CommitMutationInput {
        operation_id: id("op"),
        file_id: id(file_id),
        entry_type: EntryType::File,
        path: path(at),
        path_before: None,
        path_after: None,
        expected_revision: None,
        require_absent: true,
        tombstone_archive_path: None,
        content_hash: Some("sha256:11".to_owned()),
        history_blob_hash: None,
        size: 9,
        modified_at: 2,
        filesystem_identity: None,
        deleted_at: None,
        operation: FileOperation::Create,
        actor: Actor { actor_type: ActorType::WebDavCredential, actor_id: Some(id("actor")) },
        source_plane: "webdav".to_owned(),
        idempotency_key: Some("key".to_owned()),
        audit_action: "file.create".to_owned(),
        audit_metadata: json("{}"),
        request_id: None,
        outbox_events: vec![OutboxEventInput {
            event_type: "file.changed".to_owned(),
            aggregate_type: "file".to_owned(),
            aggregate_id: file_id.to_owned(),
            payload: json("{}"),
        }],
    }
}

fn nothing() -> CommitLookup {
    CommitLookup { current: None, destination: None, archive_occupied: false }
}

fn minted() -> MintedIds {
    MintedIds { revision_id: id("rev"), audit_id: id("audit"), event_ids: vec![id("event")] }
}

fn prepared() -> JournalRecord {
    prepare_operation(
        &vault("v"),
        PrepareOperationInput {
            id: id("op"),
            operation: FileOperation::Create,
            source_path: None,
            destination_path: Some(path("notes/a.md")),
            prior_file_id: None,
            expected_revision: None,
            prior_hash: None,
            proposed_hash: None,
            temp_path: None,
            payload: json("{\"n\":1}"),
            idempotency_key: Some("key".to_owned()),
        },
        1,
    )
    .unwrap()
}

fn committed(input: CommitMutationInput, lookup: CommitLookup) -> Result<CommittedMutation, StateError> {
    let journal = mark_file_committed(&vault("v"), &id("op"), Some(prepared()), None, 2).unwrap();
    commit_mutation(&vault("v"), input, lookup, Some(journal), minted(), &NoopCommitHook, 5)
}

#[test]
fn a_commit_writes_the_file_its_revision_audit_and_events() {
    let done = committed(mutation("f", "notes/a.md"), nothing()).unwrap();
    assert_eq!(done.journal.state, JournalState::MetadataCommitted);
    let plan = done.plan.clone();
    assert_eq!(plan.replaces, None);
    assert_eq!(plan.file.current_revision, Revision::new(1));
    assert_eq!(plan.file.created_at, 5);
    assert_eq!(plan.revision.path_after, Some(path("notes/a.md")));
    assert_eq!(plan.revision.actor_type, "webdav_credential");
    assert_eq!(plan.audit.target_path_hash, Some(path_hash(&path("notes/a.md"))));
    assert_eq!(plan.audit.result, "success");
    assert_eq!(plan.outbox[0].id, id("event"));
    assert_eq!(plan.outbox[0].vault_id, Some(id("v")));
    let result = commit_result(done.plan);
    assert_eq!(result.file.id, id("f"));
    assert_eq!(result.revision.id, id("rev"));
}

#[test]
fn a_commit_advances_the_revision_by_one() {
    let input = CommitMutationInput {
        expected_revision: Some(Revision::new(4)),
        require_absent: false,
        operation: FileOperation::Replace,
        ..mutation("f", "notes/a.md")
    };
    let lookup = CommitLookup { current: Some(file_row("f", "notes/a.md", 4)), ..nothing() };
    let plan = committed(input, lookup).unwrap().plan;
    assert_eq!(plan.replaces, Some(Revision::new(4)));
    assert_eq!(plan.file.current_revision, Revision::new(5));
    assert_eq!(plan.file.created_at, 1);
    assert_eq!(plan.revision.path_before, Some(path("notes/a.md")));
}

fn refused(input: CommitMutationInput, lookup: CommitLookup) -> StateError {
    stage_mutation(&vault("v"), input, lookup, minted(), 5).unwrap_err()
}

fn precondition(reason: &'static str) -> StateError {
    StateError::InvalidDomain(DomainError::PreconditionFailed { reason })
}

#[test]
fn stale_writers_are_refused() {
    let input = CommitMutationInput {
        expected_revision: Some(Revision::new(3)),
        require_absent: false,
        ..mutation("f", "notes/a.md")
    };
    assert_eq!(refused(input.clone(), nothing()), precondition("entry does not exist"));
    let lookup = CommitLookup { current: Some(file_row("f", "notes/a.md", 4)), ..nothing() };
    assert_eq!(
        refused(input.clone(), lookup.clone()),
        StateError::InvalidDomain(DomainError::RevisionConflict {
            expected: Revision::new(3),
            current: Revision::new(4),
        })
    );
    let deleted = FileRow { deleted_at: Some(9), ..file_row("f", "notes/a.md", 3) };
    let lookup = CommitLookup { current: Some(deleted), ..nothing() };
    assert_eq!(refused(input.clone(), lookup.clone()), precondition("entry is deleted"));
    let restore = CommitMutationInput { operation: FileOperation::Restore, ..input };
    assert!(stage_mutation(&vault("v"), restore, lookup, minted(), 5).is_ok());
}

#[test]
fn occupied_destinations_are_refused() {
    let lookup = CommitLookup { destination: Some(file_row("g", "notes/a.md", 1)), ..nothing() };
    assert_eq!(
        refused(mutation("f", "notes/a.md"), lookup),
        precondition("destination already exists")
    );
    let lookup = CommitLookup { current: Some(file_row("f", "notes/a.md", 1)), ..nothing() };
    assert_eq!(refused(mutation("f", "notes/a.md"), lookup), precondition("entry already exists"));
}

#[test]
fn tombstones_are_archived_explicitly() {
    let tomb = FileRow { deleted_at: Some(3), ..file_row("old", "notes/a.md", 2) };
    let lookup = CommitLookup { destination: Some(tomb), ..nothing() };
    assert_eq!(
        refused(mutation("f", "notes/a.md"), lookup.clone()),
        StateError::InvalidInput("destination tombstone must be reused explicitly")
    );
    let input = CommitMutationInput {
        tombstone_archive_path: Some(path(".trash/old")),
        ..mutation("f", "notes/a.md")
    };
    assert_eq!(
        refused(input.clone(), nothing()),
        StateError::InvalidInput("tombstone archive was requested without a destination")
    );
    assert_eq!(
        refused(input.clone(), CommitLookup { archive_occupied: true, ..lookup.clone() }),
        StateError::InvalidInput("tombstone archive path is already occupied")
    );
    let live = CommitLookup { destination: Some(file_row("f", "notes/a.md", 1)), ..nothing() };
    assert_eq!(
        refused(input.clone(), live),
        StateError::InvalidInput("tombstone archive target is not a prior destination")
    );
    let plan = stage_mutation(&vault("v"), input, lookup, minted(), 5).unwrap();
    let archived = plan.archived.unwrap();
    assert_eq!(archived.id, id("old"));
    assert_eq!(archived.path, path(".trash/old"));
}

#[test]
fn impossible_writes_are_refused() {
    let input = CommitMutationInput { operation: FileOperation::Move, ..mutation("f", "notes/a.md") };
    assert_eq!(refused(input, nothing()), StateError::InvalidInput("move file entry is missing"));
    let input = CommitMutationInput { size: u64::MAX, ..mutation("f", "notes/a.md") };
    assert_eq!(refused(input, nothing()), StateError::InvalidInput("file size is too large"));
    let input = CommitMutationInput { require_absent: false, ..mutation("f", "notes/a.md") };
    let lookup = CommitLookup { current: Some(file_row("f", "notes/a.md", i64::MAX)), ..nothing() };
    assert_eq!(
        refused(input, lookup),
        StateError::InvalidDomain(DomainError::RevisionOutOfRange)
    );
    let mut input = mutation("f", "notes/a.md");
    input.outbox_events[0].event_type = String::new();
    assert_eq!(
        refused(input, nothing()),
        StateError::InvalidInput("outbox event identity is invalid")
    );
}

struct StopAt(CommitHookPhase);

impl CommitHook for StopAt {
    fn on_phase(&self, phase: CommitHookPhase) -> Result<(), StateError> {
        if phase == self.0 {
            Err(StateError::CommitHook("stopped"))
        } else {
            Ok(())
        }
    }
}

#[test]
fn a_hook_can_only_stop_a_commit() {
    for phase in [CommitHookPhase::MetadataTransactionStarted, CommitHookPhase::OutboxInserted] {
        let journal = mark_file_committed(&vault("v"), &id("op"), Some(prepared()), None, 2).unwrap();
        let stopped = commit_mutation(
            &vault("v"),
            mutation("f", "notes/a.md"),
            nothing(),
            Some(journal),
            minted(),
            &StopAt(phase),
            5,
        );
        assert_eq!(stopped, Err(StateError::CommitHook("stopped")));
    }
    let early = commit_mutation(
        &vault("v"),
        mutation("f", "notes/a.md"),
        nothing(),
        Some(prepared()),
        minted(),
        &NoopCommitHook,
        5,
    );
    assert_eq!(early, Err(StateError::InvalidInput("journal is not file-committed")));
}

#[test]
fn the_journal_moves_through_its_states() {
    let journal = prepared();
    assert_eq!(journal.state, JournalState::Prepared);
    let hashed = set_proposed_hash(&vault("v"), &id("op"), Some(journal.clone()), "sha256:aa", 2).unwrap();
    assert_eq!(hashed.proposed_hash.as_deref(), Some("sha256:aa"));
    let done = mark_file_committed(&vault("v"), &id("op"), Some(hashed.clone()), None, 3).unwrap();
    assert_eq!(done.state, JournalState::FileCommitted);
    assert_eq!(done.proposed_hash.as_deref(), Some("sha256:aa"));
    assert!(mark_file_committed(&vault("v"), &id("op"), Some(done.clone()), None, 4).is_err());
    let rewritten = update_operation_payload(
        &vault("v"),
        &id("op"),
        Some(journal.clone()),
        json("{\"n\":2}"),
        Some("sha256:bb"),
        4,
    )
    .unwrap();
    assert_eq!(rewritten.payload.as_str(), "{\"n\":2}");
    let rolled = mark_rolled_back(&vault("v"), &id("op"), Some(journal.clone()), Some("io"), 5).unwrap();
    assert_eq!(rolled.state, JournalState::RolledBack);
    assert_eq!(rolled.error.as_deref(), Some("io"));
    assert!(mark_rolled_back(&vault("v"), &id("op"), Some(rolled), None, 6).is_err());
    let review = mark_needs_review(&vault("v"), &id("op"), Some(done), "unclear", 6).unwrap();
    assert_eq!(review.state, JournalState::NeedsReview);
    assert!(mark_needs_review(&vault("v"), &id("op"), None, "unclear", 6).is_err());
    assert_eq!(
        mark_file_committed(&vault("w"), &id("op"), Some(journal.clone()), None, 7),
        Err(StateError::InvalidInput("journal is not prepared"))
    );
    assert_eq!(
        mark_rolled_back(&vault("v"), &id("other"), Some(journal), None, 7),
        Err(StateError::InvalidInput("journal is already terminal"))
    );
}

#[test]
fn idempotent_requests_are_recognized() {
    let v = vault("v");
    assert_eq!(find_idempotency(&v, "key", vec![], vec![], vec![]), Ok(None));
    assert_eq!(
        find_idempotency(&v, "", vec![], vec![], vec![]),
        Err(StateError::InvalidInput("idempotency key is invalid"))
    );
    let foreign = JournalRecord { vault_id: id("w"), ..prepared() };
    let journals = vec![foreign, prepared()];
    assert_eq!(
        find_idempotency(&v, "key", journals.clone(), vec![], vec![]),
        Ok(Some(IdempotencyLookup::InFlight {
            operation_id: id("op"),
            state: JournalState::Prepared,
            payload: json("{\"n\":1}"),
        }))
    );
    assert_eq!(find_idempotency(&v, "other", journals.clone(), vec![], vec![]), Ok(None));
    let plan = committed(mutation("f", "notes/a.md"), nothing()).unwrap().plan;
    let revisions = vec![plan.revision.clone()];
    assert_eq!(
        find_idempotency(&v, "key", journals.clone(), revisions.clone(), vec![file("g", "x.md")]),
        Err(StateError::InvalidInput("revision file entry is missing"))
    );
    assert_eq!(
        find_idempotency(
            &v,
            "key",
            journals,
            revisions,
            vec![file("g", "x.md"), plan.file.clone()]
        ),
        Ok(Some(IdempotencyLookup::Committed {
            payload: json("{\"n\":1}"),
            file: plan.file,
            revision: plan.revision,
        }))
    );
}

fn stored(file_id: &str, vault_id: &str, at: &str) -> FileRow {
    FileRow {
        id: file_id.to_owned(),
        vault_id: vault_id.to_owned(),
        path: at.to_owned(),
        entry_type: "file".to_owned(),
        current_revision: 1,
        content_hash: None,
        size: 0,
        modified_at: 0,
        filesystem_identity: None,
        deleted_at: None,
        created_at: 0,
        updated_at: 0,
    }
}

#[test]
fn a_commit_reads_only_rows_of_its_vault() {
    let rows = [
        stored("f", "w", "notes/a.md"),
        stored("f", "v", "notes/old.md"),
        stored("g", "v", "notes/a.md"),
        stored("h", "w", "archive/a.md"),
    ];
    let mut input = mutation("f", "notes/a.md");
    input.tombstone_archive_path = Some(path("archive/a.md"));
    let found = look_up(&vault("v"), &input, &rows);
    assert_eq!(found.current, Some(rows[1].clone()));
    assert_eq!(found.destination, Some(rows[2].clone()));
    assert!(!found.archive_occupied);
    let elsewhere = look_up(&vault("w"), &input, &rows);
    assert_eq!(elsewhere.current, Some(rows[0].clone()));
    assert_eq!(elsewhere.destination, Some(rows[0].clone()));
    assert!(elsewhere.archive_occupied);
    assert_eq!(look_up(&vault("x"), &input, &rows), nothing());
}

#[test]
fn entries_are_found_and_listed_in_their_vault() {
    let files = vec![
        file("a", "notes/b.md"),
        FileRecord { deleted_at: Some(3), ..file("b", "notes/a.md") },
        FileRecord { vault_id: id("w"), ..file("c", "notes/c.md") },
        file("d", "Notes/z.md"),
    ];
    let v = vault("v");
    assert_eq!(list_active_entries(&v, &files), vec![3, 0]);
    assert_eq!(get_active(&v, &files, &path("notes/b.md")), Some(0));
    assert_eq!(get_active(&v, &files, &path("notes/a.md")), None);
    assert_eq!(get_any_by_path(&v, &files, &path("notes/a.md")), Some(1));
    assert_eq!(get_any_by_path(&v, &files, &path("notes/c.md")), None);
    assert_eq!(get_by_id(&v, &files, &id("b")), Some(1));
    assert_eq!(get_by_id(&v, &files, &id("c")), None);
}

fn revision(name: &str, file_id: &str, number: i64, created_at: i64) -> FileRevisionRecord {
    row_to_revision(FileRevisionRow {
        id: name.to_owned(),
        vault_id: "v".to_owned(),
        file_id: file_id.to_owned(),
        revision: number,
        operation: "replace".to_owned(),
        path_before: None,
        path_after: Some("notes/a.md".to_owned()),
        content_hash: None,
        history_blob_hash: None,
        size: Some(4),
        actor_type: "system".to_owned(),
        actor_id: None,
        source_plane: "system".to_owned(),
        idempotency_key: None,
        created_at,
    })
    .unwrap()
}

#[test]
fn revisions_are_listed() {
    let revisions = vec![
        revision("r2", "f", 2, 20),
        revision("r1", "f", 1, 10),
        revision("q1", "g", 1, 15),
        FileRevisionRecord { vault_id: id("w"), ..revision("x1", "f", 9, 30) },
    ];
    let v = vault("v");
    assert_eq!(list_revisions(&v, &revisions, &id("f")), vec![1, 0]);
    assert_eq!(list_recent_revisions(&v, &revisions, 2), Ok(vec![0, 2]));
    assert_eq!(
        list_recent_revisions(&v, &revisions, 201),
        Err(StateError::InvalidInput("recent revision limit must be between 1 and 200"))
    );
    let revision = |number: u64| get_revision(&v, &revisions, &id("f"), Revision::new(number));
    assert_eq!(revision(1), Ok(Some(1)));
    assert_eq!(revision(9), Ok(None));
    assert_eq!(revision(i64::MAX as u64), Ok(None));
    assert_eq!(
        revision(i64::MAX as u64 + 1),
        Err(StateError::InvalidDomain(DomainError::RevisionOutOfRange))
    );
}

#[test]
fn unfinished_operations_are_listed_oldest_first() {
    let a = JournalRecord { id: id("a"), created_at: 9, ..prepared() };
    let b = JournalRecord { id: id("b"), created_at: 3, ..prepared() };
    let over = mark_rolled_back(&vault("v"), &id("op"), Some(prepared()), None, 5).unwrap();
    let foreign = JournalRecord { vault_id: id("w"), ..prepared() };
    assert_eq!(list_incomplete(&vault("v"), &[a, b, over, foreign]), vec![1, 0]);
}

#[test]
fn facts_about_a_file_are_counted() {
    let plan = committed(mutation("f", "notes/a.md"), nothing()).unwrap().plan;
    let foreign = AuditRecord { vault_id: Some(id("w")), ..plan.audit.clone() };
    assert_eq!(count_audit_entries(&vault("v"), &[plan.audit.clone(), foreign], "f"), 1);
    assert_eq!(count_audit_entries(&vault("v"), &[plan.audit], "g"), 0);
    assert_eq!(count_outbox_events(&vault("v"), &plan.outbox, "f"), 1);
    assert_eq!(count_outbox_events(&vault("w"), &plan.outbox, "f"), 0);
}

#[test]
fn paths_are_hashed_for_the_audit() {
    assert_eq!(
        path_hash(&path("notes/a.md")),
        "b33a8099b01219568f1660eb604d897c0ac5db4fdd84c142337f129d5a0fca4d"
    );
    assert_ne!(path_hash(&path("a")), path_hash(&path("b")));
}

#[test]
fn stored_rows_are_checked() {
    assert_eq!(file("a", "x").size, 7);
    assert!(row_to_file(FileRow { size: -1, ..file_row("a", "x", 1) }).is_err());
    assert!(row_to_file(FileRow { current_revision: -1, ..file_row("a", "x", 1) }).is_err());
    assert!(row_to_file(FileRow { entry_type: "link".to_owned(), ..file_row("a", "x", 1) }).is_err());
    let row = JournalRow {
        id: "op".to_owned(),
        vault_id: "v".to_owned(),
        operation: "external_change".to_owned(),
        state: "needs_review".to_owned(),
        source_path: None,
        destination_path: None,
        prior_file_id: None,
        expected_revision: Some(2),
        prior_hash: None,
        proposed_hash: None,
        temp_path: None,
        payload_json: "{ }".to_owned(),
        idempotency_key: None,
        created_at: 1,
        updated_at: 1,
        error: None,
    };
    let record = row_to_journal(row.clone()).unwrap();
    assert_eq!(record.operation, FileOperation::ExternalChange);
    assert_eq!(record.expected_revision, Some(Revision::new(2)));
    assert!(row_to_journal(JournalRow { state: "lost".to_owned(), ..row.clone() }).is_err());
    assert!(row_to_journal(JournalRow { expected_revision: Some(-1), ..row }).is_err());
}

#[test]
fn labels_are_read_back() {
    for value in [EntryType::File, EntryType::Directory] {
        assert_eq!(EntryType::parse(value.as_str()), Ok(value));
    }
    for value in [
        FileOperation::Create,
        FileOperation::Replace,
        FileOperation::Patch,
        FileOperation::Append,
        FileOperation::Move,
        FileOperation::Copy,
        FileOperation::Delete,
        FileOperation::Restore,
        FileOperation::ExternalChange,
    ] {
        assert_eq!(FileOperation::parse(value.as_str()), Ok(value));
    }
    for value in [
        JournalState::Prepared,
        JournalState::FileCommitted,
        JournalState::MetadataCommitted,
        JournalState::RolledBack,
        JournalState::NeedsReview,
    ] {
        assert_eq!(JournalState::parse(value.as_str()), Ok(value));
    }
}
