use mcp_vault_state::current_memory::migration::{
    finish_migration, migration_preflight, preflighted, LegacyClass, LegacyDigestRow, LegacyMemory,
    LegacySource,
};
use mcp_vault_state::current_memory::note_sets::{
    delete_note_item_and_pause, delete_note_set_projection, get_note_set, get_note_set_by_source,
    mark_recalled, move_note_set_source, prepare_note_set_snapshot, publish_note_set,
    reject_note_set_snapshot, restore_note_set_projection, resume_note_extraction, NoteMemoryState,
};
use mcp_vault_state::current_memory::publish::{
    delete_explicit_projection, explicit_idempotency, publish_explicit, release_reservation,
    reserve_explicit, restore_explicit_projection, ExplicitClaim,
};
use mcp_vault_state::current_memory::reads::{
    counts, get, get_unchecked, item_text, list, list_note_set_items, list_sources,
    prepared_note_set_snapshot, search_fts, search_terms, TextHit,
};
use mcp_vault_state::current_memory::{
    row_to_item, validate_current_bundle, validate_snapshot, CurrentMemoryRow, StoredItem,
};
use mcp_vault_state::files::{row_to_file, FileRow};
use mcp_vault_state::json::Json;
use mcp_vault_state::{
    CurrentMemoryBundle, CurrentMemoryFilter, CurrentMemoryOwnership, CurrentMemoryRecord,
    CurrentMemorySourceRecord, FileRecord, Id, MemoryNoteSetRecord, MemoryNoteSetSnapshotRecord,
    Revision, Score, StateError, VaultContext, VaultPath,
};

fn id(text: &str) -> Id {
    Id::new(text.to_owned())
}

fn path(text: &str) -> VaultPath {
    VaultPath { text: text.to_owned() }
}

fn vault(name: &str) -> VaultContext {
    VaultContext { id: id(name), slug: name.to_owned(), content_root: Some(format!("/srv/{name}")) }
}

fn score(value: f64) -> Score {
    Score { bits: value.to_bits() }
}

fn file(name: &str, at: &str, revision: i64, hash: &str) -> FileRecord {
    row_to_file(FileRow {
        id: name.to_owned(),
        vault_id: "v".to_owned(),
        path: at.to_owned(),
        entry_type: "file".to_owned(),
        current_revision: revision,
        content_hash: Some(hash.to_owned()),
        size: 1,
        modified_at: 1,
        filesystem_identity: None,
        deleted_at: None,
        created_at: 1,
        updated_at: 1,
    })
    .unwrap()
}

fn files() -> Vec<FileRecord> {
    vec![
        file("explicit", "_mcp-vault/memory/explicit.md", 1, "sha256:e"),
        file("canonical", "_mcp-vault/memory/set.md", 1, "sha256:c"),
        file("note", "notes/a.md", 4, "sha256:n"),
    ]
}

fn explicit(name: &str) -> CurrentMemoryRecord {
    CurrentMemoryRecord {
        id: id(name),
        vault_id: id("v"),
        ownership: CurrentMemoryOwnership::Explicit,
        note_set_id: None,
        ordinal: None,
        kind: Some("fact".to_owned()),
        content: format!("Content {name}"),
        normalized_content: format!("content {name}"),
        content_hash: format!("hash-{name}"),
        importance: Some(score(0.5)),
        confidence: Some(score(0.9)),
        origin: "agent".to_owned(),
        revision: Revision::new(1),
        canonical_file_id: Some(id("explicit")),
        canonical_path: Some(path("_mcp-vault/memory/explicit.md")),
        canonical_revision: Some(Revision::new(1)),
        valid_from: None,
        valid_to: None,
        tags: vec!["Rust".to_owned()],
        entities: vec!["Ada".to_owned()],
        metadata: Json::parse("{}").unwrap(),
        created_at: 1,
        updated_at: 1,
        last_recalled_at: None,
        recall_count: 0,
    }
}

fn assertion(name: &str, memory: &str) -> CurrentMemorySourceRecord {
    CurrentMemorySourceRecord {
        id: id(name),
        vault_id: id("v"),
        memory_id: id(memory),
        source_type: "explicit_agent".to_owned(),
        note_file_id: None,
        note_path: None,
        note_revision: None,
        source_content_hash: None,
        heading_path: vec![],
        start_line: None,
        end_line: None,
        excerpt_hash: None,
        actor_id: Some("agent".to_owned()),
        created_at: 1,
    }
}

fn bundle(name: &str) -> CurrentMemoryBundle {
    CurrentMemoryBundle {
        memory: explicit(name),
        sources: vec![assertion("s", name)],
        note_set: None,
    }
}

fn derived(name: &str) -> CurrentMemoryBundle {
    CurrentMemoryBundle {
        memory: CurrentMemoryRecord {
            ownership: CurrentMemoryOwnership::NoteDerived,
            note_set_id: Some(id("set")),
            ordinal: Some(0),
            canonical_file_id: None,
            canonical_path: None,
            canonical_revision: None,
            ..explicit(name)
        },
        sources: vec![CurrentMemorySourceRecord {
            source_type: "note".to_owned(),
            note_file_id: Some(id("note")),
            note_path: Some(path("notes/a.md")),
            note_revision: Some(Revision::new(4)),
            source_content_hash: Some("sha256:n".to_owned()),
            ..assertion("s", name)
        }],
        note_set: None,
    }
}

fn set(revision: u64) -> MemoryNoteSetRecord {
    MemoryNoteSetRecord {
        id: id("set"),
        vault_id: id("v"),
        source_file_id: id("note"),
        source_path: path("notes/a.md"),
        source_content_hash: "sha256:n".to_owned(),
        source_revision: Revision::new(4),
        set_revision: Revision::new(revision),
        extraction_paused: false,
        canonical_file_id: id("canonical"),
        canonical_path: path("_mcp-vault/memory/set.md"),
        canonical_revision: Revision::new(1),
        profile_hash: "profile".to_owned(),
        prompt_version: "1".to_owned(),
        provider_id: None,
        model_id: None,
        created_at: 1,
        updated_at: 1,
    }
}

fn proposal(expected: Option<u64>) -> MemoryNoteSetSnapshotRecord {
    MemoryNoteSetSnapshotRecord {
        id: id("snapshot"),
        vault_id: id("v"),
        note_set_id: id("set"),
        source_file_id: id("note"),
        source_path: path("notes/a.md"),
        source_content_hash: "sha256:n".to_owned(),
        source_revision: Revision::new(4),
        expected_set_revision: expected.map(Revision::new),
        proposed_set_revision: Revision::new(expected.map_or(1, |revision| revision + 1)),
        extraction_paused: false,
        items: Json::parse("[]").unwrap(),
        canonical_bytes_hash: "sha256:c".to_owned(),
        canonical_path: path("_mcp-vault/memory/set.md"),
        profile_hash: "profile".to_owned(),
        prompt_version: "1".to_owned(),
        provider_id: id("p"),
        model_id: id("m"),
        status: "prepared".to_owned(),
        created_at: 1,
        applied_at: None,
    }
}

fn published() -> NoteMemoryState {
    let snapshots = prepare_note_set_snapshot(&vault("v"), vec![], proposal(None)).unwrap();
    let state = NoteMemoryState { items: vec![], sets: vec![], snapshots };
    publish_note_set(
        &vault("v"),
        state,
        &files(),
        &id("snapshot"),
        set(1),
        vec![derived("a"), derived("b")],
        9,
    )
    .ok()
    .unwrap()
}

fn open() -> CurrentMemoryFilter {
    CurrentMemoryFilter {
        kinds: vec![],
        ownership: vec![],
        tag: None,
        entity: None,
        source_path: None,
        valid_at: None,
        min_importance: None,
    }
}

#[test]
fn a_published_explicit_item_is_readable_at_once() {
    let done = publish_explicit(
        &vault("v"),
        vec![],
        vec![],
        &files(),
        bundle("x"),
        None,
        Some(("key".to_owned(), "hash".to_owned())),
    )
    .ok()
    .unwrap();
    let claim = done.claim.unwrap();
    assert_eq!(claim.memory_id, id("x"));
    assert_eq!(get(&vault("v"), &done.items, &[], &files(), &id("x")), Some(0));
    assert_eq!(get(&vault("w"), &done.items, &[], &files(), &id("x")), None);
    assert_eq!(explicit_idempotency(&vault("v"), &[claim.clone()], "key"), Ok(Some(0)));
    assert_eq!(release_reservation(vec![claim.clone()], &claim).len(), 0);
    // Without its canonical file the item is hidden, though still stored.
    assert_eq!(get(&vault("v"), &done.items, &[], &[], &id("x")), None);
    assert_eq!(get_unchecked(&vault("v"), &done.items, &id("x")), Some(0));
}

#[test]
fn a_publication_ends_its_reservation() {
    let reserved = |key: &str| ExplicitClaim {
        vault_id: id("v"),
        idempotency_key: key.to_owned(),
        request_hash: "hash".to_owned(),
        memory_id: id("x"),
        created_at: 1,
    };
    let done = publish_explicit(
        &vault("v"),
        vec![],
        vec![reserved("key"), reserved("other")],
        &files(),
        bundle("x"),
        None,
        Some(("key".to_owned(), "hash".to_owned())),
    )
    .ok()
    .unwrap();
    assert_eq!(done.claim.unwrap().idempotency_key, "key");
    assert_eq!(done.reservations, vec![reserved("other")]);
}

#[test]
fn a_source_has_one_recoverable_proposal() {
    let held = prepare_note_set_snapshot(&vault("v"), vec![], proposal(None)).unwrap();
    let second = MemoryNoteSetSnapshotRecord { id: id("second"), ..proposal(None) };
    assert!(matches!(
        prepare_note_set_snapshot(&vault("v"), held.clone(), second.clone()),
        Err(StateError::Database(_))
    ));
    let closed = reject_note_set_snapshot(&vault("v"), held, &id("snapshot")).unwrap();
    assert_eq!(prepare_note_set_snapshot(&vault("v"), closed, second).unwrap().len(), 2);
}

#[test]
fn stale_explicit_writers_are_refused() {
    let first = publish_explicit(&vault("v"), vec![], vec![], &files(), bundle("x"), None, None).ok().unwrap();
    let next = CurrentMemoryBundle {
        memory: CurrentMemoryRecord { revision: Revision::new(2), ..explicit("x") },
        ..bundle("x")
    };
    assert_eq!(
        publish_explicit(&vault("v"), first.items.clone(), vec![], &files(), next.clone(), None, None).err(),
        Some(StateError::Conflict)
    );
    let after = publish_explicit(
        &vault("v"),
        first.items,
        vec![],
        &files(),
        next,
        Some(Revision::new(1)),
        None,
    )
    .ok()
    .unwrap();
    assert_eq!(after.items.len(), 1);
    assert_eq!(after.items[0].memory.revision, Revision::new(2));
    assert_eq!(
        delete_explicit_projection(&vault("v"), after.items.clone(), &id("x"), Revision::new(1)),
        Err(StateError::Conflict)
    );
    assert_eq!(
        delete_explicit_projection(&vault("v"), after.items, &id("x"), Revision::new(2)),
        Ok(vec![])
    );
}

#[test]
fn broken_items_are_refused() {
    let check = |bundle: CurrentMemoryBundle| validate_current_bundle(&vault("v"), &bundle);
    assert_eq!(check(bundle("x")), Ok(()));
    let blank = CurrentMemoryRecord { content: "\u{3000}".to_owned(), ..explicit("x") };
    assert_eq!(
        check(CurrentMemoryBundle { memory: blank, ..bundle("x") }),
        Err(StateError::InvalidInput("current-memory bundle is invalid"))
    );
    let loud = CurrentMemoryRecord { importance: Some(score(1.5)), ..explicit("x") };
    assert_eq!(
        check(CurrentMemoryBundle { memory: loud, ..bundle("x") }),
        Err(StateError::InvalidInput("current-memory metadata is invalid"))
    );
    let empty_term =
        CurrentMemoryRecord { valid_from: Some(5), valid_to: Some(5), ..explicit("x") };
    assert!(check(CurrentMemoryBundle { memory: empty_term, ..bundle("x") }).is_err());
    let stray = CurrentMemoryBundle { sources: vec![assertion("s", "other")], ..bundle("x") };
    assert_eq!(
        check(stray),
        Err(StateError::InvalidInput("current-memory provenance is invalid"))
    );
    let reused = publish_explicit(
        &vault("v"),
        vec![],
        vec![],
        &files(),
        bundle("x"),
        None,
        Some((" ".to_owned(), "hash".to_owned())),
    );
    assert_eq!(
        reused.err(),
        Some(StateError::InvalidInput("current-memory idempotency input is invalid"))
    );
}

#[test]
fn a_projection_is_restored_from_its_file() {
    let restored =
        restore_explicit_projection(&vault("v"), vec![], &files(), bundle("x")).unwrap();
    assert_eq!(restored.len(), 1);
    assert!(restore_explicit_projection(&vault("v"), vec![], &[], bundle("x")).is_err());
}

#[test]
fn reservations_bind_a_key_to_one_request() {
    let first = reserve_explicit("key", "hash", None, id("x"), 5).unwrap();
    assert_eq!((first.memory_id.clone(), first.created_at), (id("x"), 5));
    let again = reserve_explicit("key", "hash", Some(first.clone()), id("y"), 9);
    assert_eq!(again, Ok(first.clone()));
    assert_eq!(
        reserve_explicit("key", "other", Some(first), id("y"), 9),
        Err(StateError::Conflict)
    );
    assert_eq!(
        reserve_explicit("", "hash", None, id("y"), 9),
        Err(StateError::InvalidInput("current-memory reservation input is invalid"))
    );
}

#[test]
fn a_published_set_replaces_what_its_source_had() {
    let state = published();
    assert_eq!(state.items.len(), 2);
    assert_eq!(state.snapshots[0].status, "applied");
    assert_eq!(state.snapshots[0].applied_at, Some(9));
    assert_eq!(get_note_set(&vault("v"), &state.sets, &id("set")), Some(0));
    assert_eq!(get_note_set_by_source(&vault("v"), &state.sets, &id("note")), Some(0));
    let next = NoteMemoryState {
        snapshots: vec![proposal(Some(1))],
        items: state.items,
        sets: state.sets,
    };
    let after = publish_note_set(
        &vault("v"),
        next,
        &files(),
        &id("snapshot"),
        set(2),
        vec![derived("c")],
        10,
    )
    .ok()
    .unwrap();
    assert_eq!(after.items.len(), 1);
    assert_eq!(after.items[0].memory.id, id("c"));
    assert_eq!(after.sets[0].set_revision, Revision::new(2));
}

#[test]
fn a_set_is_published_only_as_prepared() {
    let publish = |snapshots, set, files: &[FileRecord]| {
        publish_note_set(
            &vault("v"),
            NoteMemoryState { items: vec![], sets: vec![], snapshots },
            files,
            &id("snapshot"),
            set,
            vec![derived("a")],
            9,
        )
        .err()
    };
    assert_eq!(publish(vec![], set(1), &files()), Some(StateError::Conflict));
    assert_eq!(publish(vec![proposal(Some(1))], set(2), &files()), Some(StateError::Conflict));
    assert_eq!(publish(vec![proposal(None)], set(2), &files()), Some(StateError::Conflict));
    let mut changed = files();
    changed[2].content_hash = Some("sha256:other".to_owned());
    assert_eq!(publish(vec![proposal(None)], set(1), &changed), Some(StateError::Conflict));
    assert_eq!(publish(vec![proposal(None)], set(1), &files()), None);
    let skipping = MemoryNoteSetSnapshotRecord {
        proposed_set_revision: Revision::new(3),
        ..proposal(Some(1))
    };
    assert_eq!(
        validate_snapshot(&vault("v"), &skipping),
        Err(StateError::InvalidInput("memory note-set snapshot is invalid"))
    );
}

#[test]
fn rejected_proposals_do_not_wait() {
    let waiting = vec![proposal(None)];
    assert_eq!(prepared_note_set_snapshot(&vault("v"), &waiting, &id("note")), Some(0));
    let rejected = reject_note_set_snapshot(&vault("v"), waiting.clone(), &id("snapshot")).unwrap();
    assert_eq!(prepared_note_set_snapshot(&vault("v"), &rejected, &id("note")), None);
    assert!(reject_note_set_snapshot(&vault("v"), rejected, &id("snapshot")).is_none());
    assert!(reject_note_set_snapshot(&vault("w"), waiting, &id("snapshot")).is_none());
}

#[test]
fn changed_notes_hide_their_items_and_moved_ones_do_not() {
    let state = published();
    let readable =
        |files: &[FileRecord]| get(&vault("v"), &state.items, &state.sets, files, &id("a")).is_some();
    assert!(readable(&files()));
    let mut moved = files();
    moved[2].path = path("archive/a.md");
    moved[2].current_revision = Revision::new(5);
    assert!(readable(&moved));
    assert_eq!(
        list_sources(&state.items[0], &moved),
        vec![(0, Some(path("archive/a.md")))]
    );
    let mut edited = files();
    edited[2].content_hash = Some("sha256:edited".to_owned());
    assert!(!readable(&edited));
    let mut deleted = files();
    deleted[2].deleted_at = Some(9);
    assert!(!readable(&deleted));
    let mut rewritten = files();
    rewritten[1].current_revision = Revision::new(2);
    assert!(!readable(&rewritten));
}

#[test]
fn a_deleted_item_pauses_its_source_until_resumed() {
    let state = published();
    let paused = MemoryNoteSetRecord { extraction_paused: true, ..set(2) };
    assert_eq!(
        delete_note_item_and_pause(
            &vault("v"),
            state.items.clone(),
            state.sets.clone(),
            &files(),
            &id("a"),
            Revision::new(1),
            set(2),
        )
        .err(),
        Some(StateError::InvalidInput("manual note-memory deletion must pause extraction"))
    );
    let after = delete_note_item_and_pause(
        &vault("v"),
        state.items,
        state.sets,
        &files(),
        &id("a"),
        Revision::new(1),
        paused,
    )
    .ok()
    .unwrap();
    assert_eq!(after.items.len(), 1);
    assert!(after.sets[0].extraction_paused);
    let tally = counts(&vault("v"), &after.items, &after.sets, &files());
    assert_eq!((tally.total, tally.note_derived, tally.paused_sources), (1, 1, 1));
    let resumed =
        resume_note_extraction(&vault("v"), after.sets.clone(), &files(), set(3), Revision::new(2))
            .unwrap();
    assert!(!resumed[0].extraction_paused);
    assert_eq!(
        resume_note_extraction(&vault("v"), resumed, &files(), set(4), Revision::new(3)),
        Err(StateError::Conflict)
    );
    assert_eq!(
        delete_note_set_projection(
            &vault("v"),
            after.items.clone(),
            after.sets.clone(),
            &id("note"),
            Revision::new(1)
        )
        .err(),
        Some(StateError::Conflict)
    );
    let gone = delete_note_set_projection(
        &vault("v"),
        after.items,
        after.sets,
        &id("note"),
        Revision::new(2),
    )
    .ok()
    .unwrap();
    assert_eq!((gone.items.len(), gone.sets.len()), (0, 0));
}

#[test]
fn a_moved_source_keeps_its_coverage() {
    let state = published();
    let mut moved = files();
    moved[2].path = path("archive/a.md");
    let updated = MemoryNoteSetRecord { source_path: path("archive/a.md"), ..set(2) };
    let after =
        move_note_set_source(&vault("v"), state.sets.clone(), &moved, updated, Revision::new(1))
            .unwrap();
    assert_eq!(after[0].source_path, path("archive/a.md"));
    let other = MemoryNoteSetRecord { source_content_hash: "sha256:x".to_owned(), ..set(2) };
    assert!(move_note_set_source(&vault("v"), state.sets, &moved, other, Revision::new(1)).is_err());
}

#[test]
fn a_set_is_restored_from_its_files() {
    let state = NoteMemoryState { items: vec![], sets: vec![], snapshots: vec![] };
    let after = restore_note_set_projection(
        &vault("v"),
        state,
        &files(),
        set(4),
        vec![CurrentMemoryBundle { note_set: Some(set(4)), ..derived("a") }],
        9,
    )
    .ok()
    .unwrap();
    assert_eq!(after.sets[0].set_revision, Revision::new(4));
    assert_eq!(after.items.len(), 1);
}

fn mixed() -> Vec<StoredItem> {
    let mut items = published().items;
    items.extend(
        publish_explicit(&vault("v"), vec![], vec![], &files(), bundle("x"), None, None).ok().unwrap().items,
    );
    items[2].memory.updated_at = 7;
    items[2].memory.importance = Some(score(0.8));
    items
}

#[test]
fn current_listings_filter_by_every_field() {
    let items = mixed();
    let sets = published().sets;
    let shown = |filter: CurrentMemoryFilter| {
        list(&vault("v"), &items, &sets, &files(), &filter, 10, 0).unwrap()
    };
    assert_eq!(shown(open()).len(), 3);
    assert_eq!(
        shown(CurrentMemoryFilter {
            ownership: vec![CurrentMemoryOwnership::Explicit],
            ..open()
        }),
        vec![2]
    );
    assert_eq!(shown(CurrentMemoryFilter { kinds: vec!["rule".to_owned()], ..open() }).len(), 0);
    assert_eq!(shown(CurrentMemoryFilter { tag: Some("RUST".to_owned()), ..open() }).len(), 3);
    assert_eq!(shown(CurrentMemoryFilter { entity: Some("Bob".to_owned()), ..open() }).len(), 0);
    assert_eq!(
        shown(CurrentMemoryFilter { min_importance: Some(score(0.7)), ..open() }),
        vec![2]
    );
    assert_eq!(list(&vault("v"), &items, &sets, &[], &open(), 10, 0), Ok(vec![]));
    assert!(list(&vault("v"), &items, &sets, &files(), &open(), 0, 0).is_err());
    assert_eq!(list_note_set_items(&vault("v"), &items, &sets, &id("set")).unwrap().len(), 2);
    assert_eq!(
        list_note_set_items(&vault("v"), &items, &sets, &id("gone")),
        Err(StateError::Conflict)
    );
    assert_eq!(
        list_note_set_items(&vault("w"), &items, &sets, &id("set")),
        Err(StateError::Conflict)
    );
    // Only spaces are trimmed from labels: a tab is part of one.
    assert_eq!(shown(CurrentMemoryFilter { tag: Some(" rust ".to_owned()), ..open() }).len(), 3);
    assert_eq!(shown(CurrentMemoryFilter { tag: Some("\trust".to_owned()), ..open() }).len(), 0);
}

#[test]
fn current_searches_find_readable_items() {
    let items = mixed();
    let sets = published().sets;
    let hits = vec![
        TextHit { memory_id: id("a"), rank: score(-1.0) },
        TextHit { memory_id: id("x"), rank: score(-2.0) },
    ];
    assert_eq!(
        search_fts(&vault("v"), &items, &sets, &files(), "content", &hits, &open(), 10),
        Ok(vec![1, 0])
    );
    assert_eq!(
        search_fts(&vault("v"), &items, &sets, &[], "content", &hits, &open(), 10),
        Ok(vec![])
    );
    let found = search_terms(
        &vault("v"),
        &items,
        &sets,
        &files(),
        &["ada".to_owned()],
        &[],
        &open(),
        10,
    );
    assert_eq!(found.unwrap().len(), 3);
    // Asked-for terms are folded whole, stored ones only in their ASCII letters.
    let mut named = mixed();
    named[0].memory.tags = vec!["\u{c9}COLE".to_owned()];
    named[1].memory.tags = vec![" \u{e9}COLE ".to_owned()];
    let asked = |tag: &str| {
        let tags = [tag.to_owned()];
        search_terms(&vault("v"), &named, &sets, &files(), &[], &tags, &open(), 10).unwrap()
    };
    assert_eq!(asked("\u{e9}cole"), vec![1]);
    assert_eq!(asked("\u{c9}cole"), vec![1]);
    let tag = Some("\u{e9}cole".to_owned());
    let shown =
        list(&vault("v"), &named, &sets, &files(), &CurrentMemoryFilter { tag, ..open() }, 10, 0);
    assert_eq!(shown.unwrap().len(), 2);
    let text = item_text(&items[2].memory);
    assert_eq!(text.entities, "Ada");
    assert_eq!(text.tags, "Rust");
    assert_eq!(text.search_terms, "content rust ada");
}

#[test]
fn recalls_are_counted() {
    let items = mixed();
    let after = mark_recalled(&vault("v"), items.clone(), &[id("a"), id("x")], 50);
    assert_eq!(after[0].memory.recall_count, 1);
    assert_eq!(after[1], items[1]);
    assert_eq!(after[2].memory.last_recalled_at, Some(50));
    assert_eq!(mark_recalled(&vault("w"), items.clone(), &[id("a")], 50), items);
}

#[test]
fn stored_items_are_checked() {
    let row = CurrentMemoryRow {
        id: "x".to_owned(),
        vault_id: "v".to_owned(),
        ownership: "explicit".to_owned(),
        note_set_id: None,
        ordinal: None,
        kind: None,
        content: "c".to_owned(),
        normalized_content: "c".to_owned(),
        content_hash: "h".to_owned(),
        importance: None,
        confidence: None,
        origin: "agent".to_owned(),
        revision: 1,
        canonical_file_id: None,
        canonical_path: None,
        canonical_revision: None,
        valid_from: None,
        valid_to: None,
        tags_json: "[\"a\"]".to_owned(),
        entities_json: "[]".to_owned(),
        metadata_json: "{ }".to_owned(),
        created_at: 1,
        updated_at: 1,
        last_recalled_at: None,
        recall_count: 2,
    };
    let item = row_to_item(row.clone()).unwrap();
    assert_eq!(item.tags, vec!["a".to_owned()]);
    assert_eq!(item.recall_count, 2);
    assert!(row_to_item(CurrentMemoryRow { ownership: "x".to_owned(), ..row.clone() }).is_err());
    assert!(row_to_item(CurrentMemoryRow { revision: -1, ..row.clone() }).is_err());
    assert_eq!(
        row_to_item(CurrentMemoryRow { tags_json: "[1]".to_owned(), ..row }),
        Err(StateError::Json)
    );
}

fn legacy(name: &str, status: &str, kinds: &[&str]) -> LegacyMemory {
    LegacyMemory {
        id: name.to_owned(),
        status: status.to_owned(),
        sources: kinds
            .iter()
            .map(|kind| LegacySource {
                source_type: kind.to_string(),
                note_file_id: (*kind == "note").then_some("f".to_owned()),
                note_path: None,
                note_revision: None,
            })
            .collect(),
    }
}

#[test]
fn every_legacy_memory_falls_into_one_class() {
    assert_eq!(legacy("a", "stale", &["note"]).classify(), LegacyClass::Historical);
    assert_eq!(legacy("b", "active", &["explicit_agent"]).classify(), LegacyClass::SafeExplicit);
    assert_eq!(legacy("c", "active", &["note"]).classify(), LegacyClass::NoteDerived);
    assert_eq!(legacy("d", "active", &["note", "explicit_admin"]).classify(), LegacyClass::Mixed);
    assert_eq!(legacy("e", "active", &["dream"]).classify(), LegacyClass::Unsupported);
    let memories = vec![
        legacy("a", "stale", &["note"]),
        legacy("b", "active", &["explicit_agent"]),
        legacy("c", "active", &["note"]),
        legacy("d", "active", &["note", "explicit_admin"]),
        legacy("e", "active", &["dream"]),
    ];
    let rows = vec![LegacyDigestRow {
        record_kind: "memory".to_owned(),
        record_key: "a".to_owned(),
        record_json: "{}".to_owned(),
    }];
    let report = migration_preflight(&memories, &rows);
    assert_eq!(report.legacy_total, 5);
    assert_eq!(
        report.historical
            + report.safe_explicit
            + report.note_derived
            + report.mixed_source
            + report.unsupported,
        5
    );
    assert_eq!(report.mixed_source_ids, vec!["d".to_owned()]);
    assert_eq!(report.unsupported_ids, vec!["e".to_owned()]);
    let value: serde_json::Value = serde_json::from_str(&report.to_json()).unwrap();
    assert_eq!(value["legacy_total"], 5);
    let value: serde_json::Value = serde_json::from_str(&report.to_stored_json()).unwrap();
    assert_eq!(value["content_included"], false);
    let other = migration_preflight(&memories, &[]);
    assert_ne!(other.classified_state_hash, report.classified_state_hash);
    assert_ne!(other.fingerprint(), report.fingerprint());
    let state = preflighted(&report, 5).unwrap();
    assert_eq!(state.status, "preflighted");
    let done = finish_migration(Some(state), true, "{}".to_owned(), 9).ok().unwrap();
    assert_eq!((done.status.as_str(), done.completed_at), ("completed", Some(9)));
    assert!(finish_migration(None, true, "{}".to_owned(), 9).is_err());
}
