use mcp_vault_state::current_memory::formal::{
    contribution_count, contribution_owner, contribution_semantic_hash, contributions,
    enable_formal_if_covered, fill_semantic_hash, formal_document, formal_documents,
    formal_sources, prepare_formal_operation, show_formal_sources, support_current,
    FormalMemoryDocument, FormalMemoryOperation, FormalMemorySupport, FormalSourceRewrite,
    ScoreTexts,
};
use mcp_vault_state::current_memory::formal_commit::{
    commit_formal_operation, ensure_no_formal_source_rewrite, finish_formal_operation,
    formal_operation_committed, restore_formal_document, OperationState,
};
use mcp_vault_state::current_memory::maintenance::{
    checkpoint_dedup_inputs, checkpoint_sentence_scan, dedup_input_fingerprint,
    dedup_inputs_covered, equivalence_rewrite, fingerprint_entries, finish_formal_pair,
    finish_new_dedup_contribution,
    formal_examined, formal_identity_reserved, formal_scan_cursor, formal_status,
    formal_vector_stamp, has_dedup_work, new_dedup_contributions, pending_formal_pairs,
    queue_formal_pairs, record_sentence_checked, save_equivalence_rewrite,
    save_formal_scan_cursor, sentence_scan_cursor, set_dedup_phase, set_formal_status,
    source_ids_after, start_formal_pair, DedupProgress, ExaminedInput, ItemHash, KeptRewrite,
    MaintenanceRow, PairCandidate, PairQueue,
};
use mcp_vault_state::current_memory::note_sets::NoteMemoryState;
use mcp_vault_state::current_memory::StoredItem;
use mcp_vault_state::files::{row_to_file, FileRow};
use mcp_vault_state::json::Json;
use mcp_vault_state::{
    CurrentMemoryBundle, CurrentMemoryOwnership, CurrentMemoryRecord, CurrentMemorySourceRecord,
    EmbeddingRecord, FileRecord, Id, MemoryNoteSetRecord, Revision, Score, StateError, VaultContext, VaultPath,
};

fn id(text: &str) -> Id {
    Id::new(text.to_owned())
}

fn path(text: &str) -> VaultPath {
    VaultPath { text: text.to_owned() }
}

fn vault(name: &str) -> VaultContext {
    VaultContext { id: id(name), slug: name.to_owned(), content_root: Some(format!("/srv/{name}")) }
}

fn score(value: f64) -> Score {
    Score { bits: value.to_bits() }
}

fn file(name: &str, at: &str, revision: i64, hash: &str) -> FileRecord {
    row_to_file(FileRow {
        id: name.to_owned(),
        vault_id: "v".to_owned(),
        path: at.to_owned(),
        entry_type: "file".to_owned(),
        current_revision: revision,
        content_hash: Some(hash.to_owned()),
        size: 1,
        modified_at: 1,
        filesystem_identity: None,
        deleted_at: None,
        created_at: 1,
        updated_at: 1,
    })
    .unwrap()
}

fn files() -> Vec<FileRecord> {
    vec![
        file("explicit", "_mcp-vault/memory/explicit.md", 1, "sha256:e"),
        file("canonical", "_mcp-vault/memory/set.md", 1, "sha256:c"),
        file("note", "notes/a.md", 4, "sha256:n"),
    ]
}

fn explicit(name: &str) -> CurrentMemoryRecord {
    CurrentMemoryRecord {
        id: id(name),
        vault_id: id("v"),
        ownership: CurrentMemoryOwnership::Explicit,
        note_set_id: None,
        ordinal: None,
        kind: Some("fact".to_owned()),
        content: format!("Content {name}"),
        normalized_content: format!("content {name}"),
        content_hash: format!("hash-{name}"),
        importance: Some(score(0.5)),
        confidence: Some(score(0.9)),
        origin: "agent".to_owned(),
        revision: Revision::new(1),
        canonical_file_id: Some(id("explicit")),
        canonical_path: Some(path("_mcp-vault/memory/explicit.md")),
        canonical_revision: Some(Revision::new(1)),
        valid_from: None,
        valid_to: None,
        tags: vec!["Rust".to_owned()],
        entities: vec!["Ada".to_owned()],
        metadata: Json::parse("{}").unwrap(),
        created_at: 1,
        updated_at: 1,
        last_recalled_at: None,
        recall_count: 0,
    }
}

fn assertion(name: &str, memory: &str) -> CurrentMemorySourceRecord {
    CurrentMemorySourceRecord {
        id: id(name),
        vault_id: id("v"),
        memory_id: id(memory),
        source_type: "explicit_agent".to_owned(),
        note_file_id: None,
        note_path: None,
        note_revision: None,
        source_content_hash: None,
        heading_path: vec![],
        start_line: None,
        end_line: None,
        excerpt_hash: None,
        actor_id: Some("agent".to_owned()),
        created_at: 1,
    }
}

fn derived(name: &str) -> CurrentMemoryBundle {
    CurrentMemoryBundle {
        memory: CurrentMemoryRecord {
            ownership: CurrentMemoryOwnership::NoteDerived,
            note_set_id: Some(id("set")),
            ordinal: Some(0),
            canonical_file_id: None,
            canonical_path: None,
            canonical_revision: None,
            ..explicit(name)
        },
        sources: vec![CurrentMemorySourceRecord {
            source_type: "note".to_owned(),
            note_file_id: Some(id("note")),
            note_path: Some(path("notes/a.md")),
            note_revision: Some(Revision::new(4)),
            source_content_hash: Some("sha256:n".to_owned()),
            ..assertion("s", name)
        }],
        note_set: None,
    }
}

fn set(revision: u64) -> MemoryNoteSetRecord {
    MemoryNoteSetRecord {
        id: id("set"),
        vault_id: id("v"),
        source_file_id: id("note"),
        source_path: path("notes/a.md"),
        source_content_hash: "sha256:n".to_owned(),
        source_revision: Revision::new(4),
        set_revision: Revision::new(revision),
        extraction_paused: false,
        canonical_file_id: id("canonical"),
        canonical_path: path("_mcp-vault/memory/set.md"),
        canonical_revision: Revision::new(1),
        profile_hash: "profile".to_owned(),
        prompt_version: "1".to_owned(),
        provider_id: None,
        model_id: None,
        created_at: 1,
        updated_at: 1,
    }
}

fn scores() -> ScoreTexts {
    ScoreTexts { importance: "0.5".to_owned(), confidence: "0.9".to_owned() }
}

fn item(name: &str) -> StoredItem {
    let CurrentMemoryBundle { memory, sources, .. } = derived(name);
    StoredItem { memory, sources }
}

fn support(name: &str) -> FormalMemorySupport {
    FormalMemorySupport {
        contribution_id: id(name),
        source_file_id: id("note"),
        source_hash: "sha256:n".to_owned(),
        semantic_hash: contribution_semantic_hash(&item(name).memory, &scores()),
    }
}

fn document(name: &str, supports: &[&str]) -> FormalMemoryDocument {
    FormalMemoryDocument {
        memory: CurrentMemoryRecord { note_set_id: None, ordinal: None, ..derived(name).memory },
        supports: supports.iter().map(|name| support(name)).collect(),
    }
}

fn operation(before: Vec<FormalMemoryDocument>, after: Vec<FormalMemoryDocument>) -> FormalMemoryOperation {
    FormalMemoryOperation {
        id: "op".to_owned(),
        before,
        after,
        source_rewrites: vec![],
        forgotten: vec![],
    }
}

#[test]
fn the_proposition_is_hashed_exactly() {
    let memory = CurrentMemoryRecord {
        content: "A \"b\"".to_owned(),
        kind: None,
        importance: None,
        valid_from: Some(-3),
        ..item("a").memory
    };
    let texts = ScoreTexts { importance: "null".to_owned(), confidence: "0.9".to_owned() };
    // sha256 of ["A \"b\"",null,null,0.9,-3,null,["Rust"],["Ada"],{}]
    assert_eq!(
        contribution_semantic_hash(&memory, &texts),
        "sha256:de3ef4ef867583887584c7666d55f18e22bb7ffceb2084616c04b594aeac18f9"
    );
    let other = CurrentMemoryRecord { normalized_content: "x".to_owned(), ..memory.clone() };
    assert_eq!(
        contribution_semantic_hash(&other, &texts),
        contribution_semantic_hash(&memory, &texts)
    );
    let tagged = CurrentMemoryRecord { tags: vec![], ..memory.clone() };
    assert_ne!(
        contribution_semantic_hash(&tagged, &texts),
        contribution_semantic_hash(&memory, &texts)
    );
}

#[test]
fn contributions_are_walked_page_by_page() {
    let items = vec![item("c"), item("a"), item("b")];
    let sets = vec![set(1)];
    let walk = |after: Option<&str>, limit: u32| {
        contributions(&vault("v"), &items, &sets, &files(), after, limit)
    };
    assert_eq!(walk(None, 2), Ok(vec![1, 2]));
    assert_eq!(walk(Some("b"), 2), Ok(vec![0]));
    assert_eq!(walk(Some("c"), 2), Ok(vec![]));
    assert!(walk(None, 0).is_err());
    assert_eq!(contribution_count(&vault("v"), &items, &sets, &files()), 3);
    assert_eq!(contribution_count(&vault("v"), &items, &sets, &[]), 0);
}

#[test]
fn supports_hold_while_their_proposition_does() {
    let items = vec![item("a")];
    let sets = vec![set(1)];
    let holds = |items: &[StoredItem], support: &FormalMemorySupport, files: &[FileRecord]| {
        support_current(&vault("v"), items, &sets, files, support, &scores())
    };
    assert!(holds(&items, &support("a"), &files()));
    assert!(!holds(&items, &support("b"), &files()));
    assert!(!holds(&items, &support("a"), &[]));
    let mut reworded = items.clone();
    reworded[0].memory.content = "Other".to_owned();
    assert!(!holds(&reworded, &support("a"), &files()));
    let elsewhere = FormalMemorySupport { source_file_id: id("other"), ..support("a") };
    assert!(!holds(&items, &elsewhere, &files()));
    let supports = vec![support("a"), support("b"), elsewhere];
    assert_eq!(formal_sources(&supports, &[true, true, true]), vec![0, 2]);
    assert_eq!(formal_sources(&supports, &[false, true, false]), vec![1]);
}

#[test]
fn formal_objects_are_enabled_when_everything_is_adopted() {
    let items = vec![item("a"), item("b")];
    let sets = vec![set(1)];
    let attempt = |adopted: &[Id], enabled: bool| {
        enable_formal_if_covered(
            &vault("v"),
            &items,
            &sets,
            &files(),
            adopted,
            enabled,
            vec![id("a"), id("f1"), id("b"), id("x")],
            &[id("x"), id("f1")],
        )
    };
    let early = attempt(&[id("a")], false);
    assert!(!early.covered && !early.enabled);
    assert_eq!(early.indexed.len(), 4);
    let done = attempt(&[id("b"), id("a")], false);
    assert!(done.covered && done.enabled);
    // Hidden contributions leave the text index.
    assert_eq!(done.indexed, vec![id("f1"), id("x")]);
    // Formal reads stay on once they are on.
    let later = attempt(&[id("a")], true);
    assert!(!later.covered && later.enabled);
}

#[test]
fn a_publication_replaces_what_it_started_from() {
    let documents = vec![document("f1", &["a"]), document("f2", &["b"])];
    let op = operation(documents.clone(), vec![document("f3", &["a", "b"])]);
    let prepare = |reserved: Vec<Id>, operations: Vec<OperationState>| {
        prepare_formal_operation(&vault("v"), &op, &documents, &[set(1)], reserved, operations)
    };
    let prepared = prepare(vec![id("f1")], vec![]).unwrap();
    assert_eq!(prepared.reserved, vec![id("f1"), id("f3")]);
    assert_eq!(prepared.operations, vec![in_flight("op")]);
    // An identity that was ever used and a second operation are refused.
    assert!(matches!(prepare(vec![id("f3")], vec![]), Err(StateError::Database(_))));
    assert!(matches!(prepare(vec![], prepared.operations), Err(StateError::Database(_))));
    let elsewhere = OperationState { vault_id: id("w"), ..in_flight("op") };
    assert_eq!(prepare(vec![], vec![elsewhere]).unwrap().operations.len(), 2);
    let state = || NoteMemoryState { items: vec![item("a"), item("b")], sets: vec![set(1)], snapshots: vec![] };
    let done = commit_formal_operation(
        &vault("v"),
        vec![in_flight("op")],
        state(),
        documents.clone(),
        op.clone(),
        9,
    )
    .ok()
    .unwrap();
    assert_eq!(done.operations, vec![OperationState { committed: true, ..in_flight("op") }]);
    assert!(formal_operation_committed(&vault("v"), &done.operations));
    assert_eq!(done.documents.len(), 1);
    assert_eq!(done.documents[0].memory.id, id("f3"));
    assert_eq!(contribution_owner(&vault("v"), &done.documents, &id("b")), Some(0));
    assert_eq!(formal_document(&vault("v"), &done.documents, &id("f1")), None);
    let other = commit_formal_operation(
        &vault("v"),
        vec![in_flight("another")],
        state(),
        documents,
        op,
        9,
    );
    assert_eq!(other.err(), Some(StateError::Conflict));
}

#[test]
fn supports_are_not_taken_from_other_objects() {
    let documents = vec![document("f1", &["a"]), document("f2", &["b"])];
    let op = operation(vec![documents[0].clone()], vec![document("f3", &["a", "b"])]);
    assert_eq!(
        prepare_formal_operation(&vault("v"), &op, &documents, &[], vec![], vec![]),
        Err(StateError::Conflict)
    );
    let mut stale = documents[0].clone();
    stale.memory.revision = Revision::new(7);
    let op = operation(vec![stale], vec![]);
    assert_eq!(
        prepare_formal_operation(&vault("v"), &op, &documents, &[], vec![], vec![]),
        Err(StateError::Conflict)
    );
    let op = operation(vec![], vec![document("x", &[]); 257]);
    assert_eq!(
        prepare_formal_operation(&vault("v"), &op, &documents, &[], vec![], vec![]),
        Err(StateError::InvalidInput("formal operation exceeds bound"))
    );
    assert_eq!(
        prepare_formal_operation(
            &vault("w"),
            &operation(vec![], vec![document("x", &[])]),
            &[],
            &[],
            vec![],
            vec![],
        ),
        Err(StateError::InvalidInput("formal ownership scope is invalid"))
    );
}

#[test]
fn source_rewrites_go_with_the_publication() {
    let rewrite = FormalSourceRewrite {
        expected_revision: Revision::new(1),
        set: MemoryNoteSetRecord { extraction_paused: true, ..set(2) },
        items: vec![derived("b")],
    };
    let op = FormalMemoryOperation {
        source_rewrites: vec![rewrite.clone()],
        ..operation(vec![document("f1", &["a"])], vec![])
    };
    let state = NoteMemoryState {
        items: vec![item("a"), item("b")],
        sets: vec![set(1)],
        snapshots: vec![],
    };
    let done = commit_formal_operation(
        &vault("v"),
        vec![in_flight("op")],
        state,
        vec![document("f1", &["a"])],
        op.clone(),
        9,
    )
    .ok()
    .unwrap();
    assert_eq!(done.state.items.len(), 1);
    assert_eq!(done.state.items[0].memory.id, id("b"));
    assert!(done.state.sets[0].extraction_paused);
    assert_eq!(done.documents.len(), 0);
    assert!(ensure_no_formal_source_rewrite(&Some(op.clone()), &id("note")).is_err());
    assert_eq!(ensure_no_formal_source_rewrite(&Some(op), &id("other")), Ok(()));
    assert_eq!(ensure_no_formal_source_rewrite(&None, &id("note")), Ok(()));
}

#[test]
fn formal_objects_are_restored_without_rebinding() {
    let restored =
        restore_formal_document(&vault("v"), vec![], vec![id("a")], document("f1", &["b", "a"]))
            .unwrap();
    assert_eq!(restored.reserved, vec![id("a"), id("f1"), id("b")]);
    let kept = restored.documents;
    assert_eq!(kept.len(), 1);
    assert_eq!(
        restore_formal_document(&vault("v"), kept.clone(), vec![], document("f2", &["a"])),
        Err(StateError::Conflict)
    );
    assert_eq!(
        restore_formal_document(&vault("w"), kept.clone(), vec![], document("f2", &[])),
        Err(StateError::InvalidInput("formal scope is invalid"))
    );
    assert_eq!(formal_documents(&vault("v"), &kept, None, 10), Ok(vec![0]));
    assert_eq!(formal_documents(&vault("v"), &kept, Some("f1"), 10), Ok(vec![]));
}

fn in_flight(name: &str) -> OperationState {
    OperationState { vault_id: id("v"), operation_id: name.to_owned(), committed: false }
}

fn candidate(key: &str) -> PairCandidate {
    PairCandidate { key: key.to_owned(), left: id("a"), right: id(key) }
}

#[test]
fn pairs_take_turns() {
    let queue =
        PairQueue { pairs: vec![], new_inputs: vec![id("a"), id("z")], examined: vec![] };
    let queue = queue_formal_pairs(
        &vault("v"),
        queue,
        &id("a"),
        "seen".to_owned(),
        vec![candidate("x"), candidate("y")],
    );
    assert!(formal_examined(&vault("v"), &queue.examined, &id("a"), "seen"));
    assert!(!formal_examined(&vault("v"), &queue.examined, &id("a"), "changed"));
    assert!(!formal_examined(&vault("w"), &queue.examined, &id("a"), "seen"));
    assert_eq!(queue.new_inputs, vec![id("z")]);
    assert_eq!(queue.pairs[0].priority, 1);
    let again = queue_formal_pairs(
        &vault("v"),
        queue,
        &id("b"),
        "seen".to_owned(),
        vec![candidate("x"), candidate("w")],
    );
    assert_eq!(again.examined.len(), 2);
    assert_eq!(again.pairs.len(), 3);
    assert_eq!((again.pairs[0].priority, again.pairs[2].priority), (1, 0));
    assert_eq!(pending_formal_pairs(&vault("v"), &again.pairs, 10), Ok(vec![0, 1, 2]));
    let tried = start_formal_pair(&vault("v"), again.pairs, "x").unwrap();
    assert_eq!(pending_formal_pairs(&vault("v"), &tried, 10), Ok(vec![1, 2, 0]));
    let tried = start_formal_pair(&vault("v"), tried, "y").unwrap();
    assert_eq!(pending_formal_pairs(&vault("v"), &tried, 10), Ok(vec![2, 0, 1]));
    assert!(start_formal_pair(&vault("v"), tried.clone(), "none").is_none());
    let done = finish_formal_pair(&vault("v"), tried, "w");
    assert_eq!(pending_formal_pairs(&vault("v"), &done, 10), Ok(vec![0, 1]));
    let status = formal_status(&vault("v"), None, None, &done, true);
    assert_eq!((status.pending_pairs, status.checked_pairs), (2, 1));
    assert_eq!((status.status.as_str(), status.phase.as_str()), ("pending", "pending"));
    assert!(has_dedup_work(&vault("v"), &[], &[], false, &done));
    assert!(!has_dedup_work(&vault("w"), &[item("a")], &[], false, &done));
}

#[test]
fn covered_inputs_need_no_new_pass() {
    let row = Some(MaintenanceRow {
        status: "covered_candidates".to_owned(),
        fingerprint: "f".to_owned(),
        retry_at: 0,
        cursor: String::new(),
    });
    let covered = |fingerprint: &str, new_inputs: &[Id], operation: bool| {
        dedup_inputs_covered(&vault("v"), &row, fingerprint, &[], new_inputs, operation)
    };
    assert!(covered("f", &[], false));
    assert!(!covered("g", &[], false));
    assert!(!covered("f", &[id("a")], false));
    assert!(!covered("f", &[], true));
    assert_eq!(finish_new_dedup_contribution(vec![id("a"), id("b")], &id("a")), vec![id("b")]);
}

#[test]
fn maintenance_is_recorded_piece_by_piece() {
    let row = MaintenanceRow {
        status: "waiting".to_owned(),
        fingerprint: String::new(),
        retry_at: 7,
        cursor: String::new(),
    };
    let row = save_formal_scan_cursor(row, Some(id("m")));
    assert_eq!(formal_scan_cursor(Some(row.cursor.clone())), Some(id("m")));
    let row = checkpoint_dedup_inputs(Some(row), "f".to_owned()).unwrap();
    assert_eq!(checkpoint_dedup_inputs(None, "f".to_owned()), None);
    assert_eq!((row.status.as_str(), row.retry_at, row.cursor.as_str()), ("waiting", 7, "m"));
    let row = set_formal_status(row, "covered_candidates".to_owned(), 0);
    assert_eq!((row.fingerprint.as_str(), row.cursor.as_str()), ("f", "m"));
    assert!(dedup_inputs_covered(&vault("v"), &Some(row.clone()), "f", &[], &[], false));
    let row = save_formal_scan_cursor(row, None);
    assert_eq!(formal_scan_cursor(Some(row.cursor)), None);

    let progress = DedupProgress {
        phase: "pending".to_owned(),
        sentence_checked: 2,
        sentence_cursor: None,
    };
    assert_eq!(sentence_scan_cursor(Some(progress.clone())), None);
    assert_eq!(sentence_scan_cursor(None), None);
    let progress = checkpoint_sentence_scan(progress, Some(id("m")));
    let progress = set_dedup_phase(progress, "sentences".to_owned());
    let progress = record_sentence_checked(Some(progress)).unwrap();
    assert_eq!(record_sentence_checked(None), None);
    assert_eq!((progress.phase.as_str(), progress.sentence_checked), ("sentences", 3));
    assert_eq!(sentence_scan_cursor(Some(progress)), Some(id("m")));
}

#[test]
fn examined_inputs_and_reserved_identities_are_remembered() {
    let examined = [ExaminedInput {
        vault_id: id("v"),
        contribution_id: id("a"),
        fingerprint: "f".to_owned(),
    }];
    assert!(formal_examined(&vault("v"), &examined, &id("a"), "f"));
    assert!(!formal_examined(&vault("v"), &examined, &id("a"), "g"));
    assert!(!formal_examined(&vault("w"), &examined, &id("a"), "f"));
    assert!(formal_identity_reserved(&[id("a")], &id("a")));
    assert!(!formal_identity_reserved(&[id("a")], &id("b")));
    let kept = [KeptRewrite {
        vault_id: id("v"),
        input_hash: "h".to_owned(),
        content: "text".to_owned(),
    }];
    assert_eq!(equivalence_rewrite(&vault("v"), &kept, "h"), Some(0));
    assert_eq!(equivalence_rewrite(&vault("v"), &kept, "i"), None);
    assert_eq!(equivalence_rewrite(&vault("w"), &kept, "h"), None);
}

#[test]
fn a_finished_publication_leaves() {
    let row = OperationState {
        vault_id: id("v"),
        operation_id: "op".to_owned(),
        committed: true,
    };
    assert!(formal_operation_committed(&vault("v"), &[row.clone()]));
    assert!(!formal_operation_committed(&vault("w"), &[row.clone()]));
    let open = OperationState { committed: false, ..row.clone() };
    assert!(!formal_operation_committed(&vault("v"), &[open]));
    let rows = finish_formal_operation(&vault("v"), vec![row.clone()], "other");
    assert_eq!(rows, vec![row.clone()]);
    assert!(finish_formal_operation(&vault("v"), vec![row], "op").is_empty());
}

#[test]
fn fingerprints_separate_their_entries() {
    let entries = |values: &[&str]| values.iter().map(|value| value.to_string()).collect::<Vec<_>>();
    assert_ne!(
        fingerprint_entries("p", &entries(&["ab", "c"])),
        fingerprint_entries("p", &entries(&["a", "bc"]))
    );
    // sha256 of the profile and two entries, each ended by a zero byte
    assert_eq!(
        fingerprint_entries("p", &entries(&["a", "b"])),
        "sha256:6c28a36419dffb70df3f51246db514148c81875cee8013f916909b6d2b1ac354"
    );
    assert_eq!(formal_vector_stamp(&[]), "0:0");
    assert_eq!(formal_vector_stamp(&[3, 9, 5]), "3:9");
}

fn vector(name: &str, object_type: &str) -> EmbeddingRecord {
    EmbeddingRecord {
        id: id(name),
        vault_id: id("v"),
        object_type: object_type.to_owned(),
        object_id: "a".to_owned(),
        chunk_key: "0".to_owned(),
        provider_id: id("p"),
        model_id: id("m"),
        dimension: 3,
        content_hash: "hash".to_owned(),
        vector_backend_key: name.to_owned(),
        created_at: 1,
        updated_at: -7,
    }
}

#[test]
fn fingerprints_cover_the_rows_of_a_vault() {
    let hash = |name: &str, ownership: CurrentMemoryOwnership| ItemHash {
        vault_id: id("v"),
        id: id(name),
        ownership,
        semantic_hash: "h\"1".to_owned(),
    };
    let items = vec![
        hash("x", CurrentMemoryOwnership::Explicit),
        hash("a", CurrentMemoryOwnership::NoteDerived),
    ];
    let mut formal = document("f1", &["a"]);
    formal.memory.content_hash = "hash-f1".to_owned();
    let vectors = vec![vector("e1", "memory"), vector("e2", "note")];
    // sha256 of the profile and of the four entries in their order:
    // the formal object, the contribution, the source and the vector
    assert_eq!(
        dedup_input_fingerprint(
            &vault("v"), "p", &[set(1)], &files(), &items, &[formal.clone()], &vectors,
        ),
        "sha256:6ab8538eda604b460a79c0b6cc7b57f14023b45de534337076d4917ceb4411b5"
    );
    // sha256 of the profile alone
    assert_eq!(
        dedup_input_fingerprint(
            &vault("w"), "p", &[set(1)], &files(), &items, &[formal], &vectors,
        ),
        "sha256:148de9c5a7a44d19e56cd9ae1a554bf67847afb0c58f6e12fa29ac7ddfca9940"
    );
    // a paused set whose files are gone
    let paused = MemoryNoteSetRecord { extraction_paused: true, ..set(1) };
    assert_eq!(
        dedup_input_fingerprint(&vault("v"), "p", &[paused], &[], &[], &[], &[]),
        "sha256:1937783cfbd8fa2a8d0712fe83ee1f49d67c487b2cb7ac0275b8706f9e14ffd6"
    );
}

#[test]
fn supports_are_shown_by_contribution() {
    let documents = vec![document("f1", &["b", "c", "a"])];
    let shown = formal_document(&vault("v"), &documents, &id("f1")).unwrap();
    assert_eq!(shown.at, 0);
    assert_eq!(shown.supports, vec![2, 0, 1]);
}

#[test]
fn formal_sources_carry_the_identity_of_the_object() {
    let items = vec![item("b"), item("a")];
    let supports = vec![support("a"), support("b")];
    let rows = show_formal_sources(
        &vault("v"),
        &id("f1"),
        &items,
        &files(),
        &supports,
        &[true, true],
    );
    assert_eq!(rows.len(), items[1].sources.len());
    assert!(rows.len() > 0);
    for row in &rows {
        assert_eq!(row.memory_id, id("f1"));
        assert_eq!(row.note_path, Some(path("notes/a.md")));
    }
    assert_eq!(rows[0].id, items[1].sources[0].id);
    let hidden =
        show_formal_sources(&vault("v"), &id("f1"), &items, &files(), &supports, &[false, false]);
    assert!(hidden.is_empty());
    let gone =
        show_formal_sources(&vault("v"), &id("f1"), &[], &files(), &supports, &[true, true]);
    assert!(gone.is_empty());
}

#[test]
fn an_empty_proposition_key_is_filled_in() {
    let memory = item("a").memory;
    let filled = fill_semantic_hash(String::new(), &memory, &scores());
    assert_eq!(filled, contribution_semantic_hash(&memory, &scores()));
    assert_eq!(filled.len(), 71);
    assert_eq!(fill_semantic_hash("kept".to_owned(), &memory, &scores()), "kept");
}

#[test]
fn rewrites_keep_their_first_answer() {
    assert_eq!(save_equivalence_rewrite(None, "new".to_owned()), Ok("new".to_owned()));
    assert_eq!(
        save_equivalence_rewrite(Some("old".to_owned()), "new".to_owned()),
        Ok("old".to_owned())
    );
    assert_eq!(
        save_equivalence_rewrite(None, "x".repeat(65_537)),
        Err(StateError::InvalidInput("rewrite exceeds bound"))
    );
}

#[test]
fn cursors_walk_sources_and_inputs() {
    let other = MemoryNoteSetRecord { id: id("set2"), source_file_id: id("a-note"), ..set(1) };
    let sets = vec![set(1), other];
    assert_eq!(source_ids_after(&vault("v"), &sets, None, 10), Ok(vec![1, 0]));
    assert_eq!(source_ids_after(&vault("v"), &sets, Some("a-note"), 10), Ok(vec![0]));
    let inputs = vec!["b".to_owned(), "a".to_owned()];
    assert_eq!(new_dedup_contributions(&inputs, 1), Ok(vec![1]));
    assert_eq!(formal_scan_cursor(None), None);
    assert_eq!(formal_scan_cursor(Some(String::new())), None);
    assert_eq!(formal_scan_cursor(Some("m".to_owned())), Some(id("m")));
}
