use mcp_vault_state::json::Json;
use mcp_vault_state::memory::{
    counts, decide_candidate, delete_memory_projection, find_by_content_hash, get_by_canonical_path,
    get_candidate, get_candidate_by_fingerprint, get_idempotency, get_memory, insert_candidate, list_candidates,
    list_memories, list_relations, list_sources, mark_recalled, memory_ids_for_source, memory_text,
    get_bundle, normalize_term, put_idempotency, recent_memories, replace_bundle, replace_relations, search_fts,
    search_terms, set_status, upsert_diagnostic, MemoryState, MemoryTextHit,
    StoredMemory,
};
use mcp_vault_state::{
    Id, MemoryBundle, MemoryCandidateRecord, MemoryFilter, MemoryRecord, MemoryRelationRecord,
    MemorySourceRecord, Revision, Score, StateError, VaultContext, VaultPath,
};

fn id(text: &str) -> Id {
    Id::new(text.to_owned())
}

fn vault(name: &str) -> VaultContext {
    VaultContext { id: id(name), slug: name.to_owned(), content_root: Some(format!("/srv/{name}")) }
}

fn score(value: f64) -> Score {
    Score { bits: value.to_bits() }
}

fn path(text: &str) -> VaultPath {
    VaultPath { text: text.to_owned() }
}

fn record(name: &str, updated_at: i64) -> MemoryRecord {
    MemoryRecord {
        id: id(name),
        vault_id: id("v"),
        memory_type: "fact".to_owned(),
        status: "active".to_owned(),
        content: format!("content {name}"),
        normalized_content: format!("content {name}"),
        content_hash: format!("hash-{name}"),
        importance: score(0.5),
        confidence: score(0.9),
        origin: "agent".to_owned(),
        revision: Revision::new(1),
        canonical_file_id: None,
        canonical_path: Some(path(&format!("_mcp-vault/memory/{name}.md"))),
        canonical_revision: None,
        valid_from: None,
        valid_to: None,
        extraction: Json::parse("{}").unwrap(),
        created_at: 1,
        updated_at,
        last_recalled_at: None,
        recall_count: 0,
    }
}

fn source(name: &str, file: &str) -> MemorySourceRecord {
    MemorySourceRecord {
        id: id(name),
        vault_id: id("v"),
        memory_id: id("placeholder"),
        source_type: "note".to_owned(),
        note_file_id: Some(id(file)),
        note_path: Some(path("notes/a.md")),
        note_revision: Some(Revision::new(3)),
        heading_path: vec!["Plan".to_owned()],
        start_line: Some(1),
        end_line: Some(2),
        excerpt_hash: None,
        actor_id: None,
        created_at: 4,
    }
}

fn relation(name: &str, from: &str, to: &str, kind: &str) -> MemoryRelationRecord {
    MemoryRelationRecord {
        id: id(name),
        vault_id: id("v"),
        source_memory_id: id(from),
        target_memory_id: id(to),
        relation_type: kind.to_owned(),
        confidence: score(1.0),
        created_at: 1,
    }
}

fn bundle(name: &str, updated_at: i64) -> MemoryBundle {
    MemoryBundle {
        memory: record(name, updated_at),
        sources: vec![MemorySourceRecord { memory_id: id(name), ..source("s", "f") }],
        entities: vec!["Ada Lovelace".to_owned()],
        tags: vec!["Rust".to_owned(), "Plan".to_owned()],
        relations: vec![],
    }
}

fn empty() -> MemoryState {
    MemoryState { memories: vec![], relations: vec![] }
}

fn stored(names: &[(&str, i64)]) -> MemoryState {
    let mut state = empty();
    for (name, updated_at) in names {
        state = replace_bundle(&vault("v"), state, bundle(name, *updated_at), None, false, *updated_at)
            .ok()
            .unwrap();
    }
    state
}

fn all() -> MemoryFilter {
    MemoryFilter {
        statuses: vec![],
        memory_types: vec![],
        tag: None,
        entity: None,
        source_path: None,
        valid_at: None,
        min_importance: None,
    }
}

#[test]
fn a_replacement_advances_by_one() {
    let state = stored(&[("a", 5)]);
    assert_eq!(state.memories[0].memory.revision, Revision::new(1));
    let after = replace_bundle(
        &vault("v"),
        state,
        bundle("a", 7),
        Some(Revision::new(1)),
        false,
        7,
    )
    .ok()
    .unwrap();
    assert_eq!(after.memories.len(), 1);
    assert_eq!(after.memories[0].memory.revision, Revision::new(2));
    let stale =
        replace_bundle(&vault("v"), after, bundle("a", 8), Some(Revision::new(1)), false, 8);
    assert_eq!(stale.err(), Some(StateError::InvalidInput("memory revision conflict")));
}

#[test]
fn broken_bundles_are_refused() {
    let put = |bundle: MemoryBundle| replace_bundle(&vault("v"), empty(), bundle, None, false, 1).err();
    let blank = MemoryRecord { content: "  ".to_owned(), ..record("a", 1) };
    assert!(put(MemoryBundle { memory: blank, ..bundle("a", 1) }).is_some());
    let loud = MemoryRecord { importance: score(1.5), ..record("a", 1) };
    assert!(put(MemoryBundle { memory: loud, ..bundle("a", 1) }).is_some());
    let foreign = MemoryRecord { vault_id: id("w"), ..record("a", 1) };
    assert!(put(MemoryBundle { memory: foreign, ..bundle("a", 1) }).is_some());
    assert!(put(bundle("a", 1)).is_none());
}

#[test]
fn listings_filter_by_every_field() {
    let mut state = stored(&[("a", 5), ("b", 9)]);
    state.memories[1].memory.status = "stale".to_owned();
    state.memories[1].memory.importance = score(0.8);
    state.memories[1].memory.valid_to = Some(100);
    let list = |filter: MemoryFilter| {
        list_memories(&vault("v"), &state.memories, &filter, 10, 0).unwrap()
    };
    assert_eq!(list(all()), vec![1, 0]);
    assert_eq!(list(MemoryFilter { statuses: vec!["active".to_owned()], ..all() }), vec![0]);
    assert_eq!(list(MemoryFilter { memory_types: vec!["rule".to_owned()], ..all() }), Vec::<usize>::new());
    assert_eq!(list(MemoryFilter { tag: Some("RUST".to_owned()), ..all() }), vec![1, 0]);
    assert_eq!(list(MemoryFilter { entity: Some("nobody".to_owned()), ..all() }), Vec::<usize>::new());
    assert_eq!(list(MemoryFilter { source_path: Some("notes/".to_owned()), ..all() }), vec![1, 0]);
    assert_eq!(list(MemoryFilter { source_path: Some("other/".to_owned()), ..all() }), Vec::<usize>::new());
    assert_eq!(list(MemoryFilter { valid_at: Some(500), ..all() }), vec![0]);
    assert_eq!(list(MemoryFilter { min_importance: Some(score(0.6)), ..all() }), vec![1]);
    assert_eq!(list_memories(&vault("w"), &state.memories, &all(), 10, 0), Ok(vec![]));
    assert!(list_memories(&vault("v"), &state.memories, &all(), 201, 0).is_err());
    assert_eq!(recent_memories(&vault("v"), &state.memories, &all(), 1), Ok(vec![1]));
}

#[test]
fn searches_find_by_text_and_by_terms() {
    let state = stored(&[("a", 5), ("b", 9)]);
    let hits = vec![
        MemoryTextHit { memory_id: id("a"), rank: score(-2.0) },
        MemoryTextHit { memory_id: id("b"), rank: score(-1.0) },
    ];
    assert_eq!(search_fts(&vault("v"), &state.memories, "content", &hits, &all(), 10), Ok(vec![0, 1]));
    assert!(search_fts(&vault("v"), &state.memories, "", &hits, &all(), 10).is_err());
    let terms = |entities: &[&str], tags: &[&str]| {
        let own = |values: &[&str]| values.iter().map(|value| value.to_string()).collect::<Vec<_>>();
        search_terms(&vault("v"), &state.memories, &own(entities), &own(tags), &all(), 10)
    };
    assert_eq!(terms(&["ada lovelace"], &[]).unwrap().len(), 2);
    assert_eq!(terms(&[], &["PLAN"]).unwrap().len(), 2);
    assert_eq!(terms(&["nobody"], &["nothing"]), Ok(vec![]));
}

#[test]
fn memories_are_looked_up() {
    let state = stored(&[("a", 5), ("b", 9)]);
    let v = vault("v");
    assert_eq!(get_memory(&v, &state.memories, &id("b")), Some(1));
    assert_eq!(get_memory(&vault("w"), &state.memories, &id("b")), None);
    assert_eq!(
        get_by_canonical_path(&v, &state.memories, &path("_mcp-vault/memory/a.md")),
        Some(0)
    );
    assert_eq!(
        find_by_content_hash(&v, &state.memories, "hash-b", &["active".to_owned()]),
        vec![1]
    );
    assert_eq!(
        find_by_content_hash(&v, &state.memories, "hash-b", &["stale".to_owned()]),
        Vec::<usize>::new()
    );
    assert_eq!(memory_ids_for_source(&v, &state.memories, &id("f")), ["a", "b"]);
    assert_eq!(memory_ids_for_source(&v, &state.memories, &id("g")).len(), 0);
    assert_eq!(list_sources(&state.memories[0]), vec![0]);
    let text = memory_text(&state.memories[0]);
    assert_eq!(text.entities, "ada lovelace");
    assert_eq!(text.tags, "rust plan");
    assert_eq!(normalize_term("  Ada  LOVELACE "), "ada  lovelace");
}

#[test]
fn statuses_are_recorded() {
    let memory = record("a", 1);
    let change = |vault_id: &str, memory_id: &str, status: &str, expected: Option<u64>| {
        set_status(
            &vault(vault_id),
            &id(memory_id),
            Some(memory.clone()),
            status.to_owned(),
            expected.map(Revision::new),
            9,
        )
    };
    let stale = change("v", "a", "stale", Some(1)).unwrap();
    assert_eq!((stale.status.as_str(), stale.revision), ("stale", Revision::new(2)));
    assert_eq!(
        change("v", "a", "lost", None),
        Err(StateError::InvalidInput("memory status is invalid"))
    );
    assert_eq!(
        change("v", "a", "stale", Some(5)),
        Err(StateError::InvalidInput("memory revision conflict"))
    );
    for (vault_id, memory_id) in [("w", "a"), ("v", "b")] {
        assert_eq!(
            change(vault_id, memory_id, "stale", None),
            Err(StateError::InvalidInput("memory does not exist"))
        );
    }
    assert!(set_status(&vault("v"), &id("a"), None, "stale".to_owned(), None, 9).is_err());
}

#[test]
fn recalls_are_counted_for_the_listed_memories() {
    let kept = |memory_id: &str| StoredMemory {
        memory: record(memory_id, 1),
        sources: vec![],
        entities: vec![],
        tags: vec![],
    };
    let memories = vec![kept("a"), kept("b")];
    let after =
        mark_recalled(&vault("v"), memories.clone(), &[id("a"), id("x"), id("a")], 9).unwrap();
    assert_eq!((after[0].memory.recall_count, after[0].memory.last_recalled_at), (2, Some(9)));
    assert_eq!(after[1], memories[1]);
    assert_eq!(mark_recalled(&vault("w"), memories.clone(), &[id("a")], 9), Ok(memories.clone()));
    let many: Vec<Id> = (0..201).map(|n| id(&n.to_string())).collect();
    assert_eq!(
        mark_recalled(&vault("v"), memories, &many, 9),
        Err(StateError::InvalidInput("too many recall statistics"))
    );
}

#[test]
fn relations_are_replaced_and_listed() {
    let state = stored(&[("a", 5), ("b", 9), ("c", 9)]);
    let related = replace_relations(
        &vault("v"),
        state,
        &id("a"),
        vec![
            relation("1", "a", "c", "supports"),
            relation("2", "a", "b", "supports"),
            relation("3", "a", "b", "refines"),
        ],
    )
    .ok()
    .unwrap();
    assert_eq!(list_relations(&vault("v"), &related.relations, &id("a")), vec![2, 1, 0]);
    assert_eq!(list_relations(&vault("w"), &related.relations, &id("a")), Vec::<usize>::new());
    let fewer =
        replace_relations(&vault("v"), related, &id("a"), vec![relation("4", "a", "b", "supports")])
            .ok()
            .unwrap();
    assert_eq!(fewer.relations.len(), 1);
    let wrong = replace_relations(&vault("v"), fewer, &id("a"), vec![relation("5", "b", "a", "supports")]);
    assert!(wrong.is_err());
}

#[test]
fn a_bundle_is_read_back_in_its_order() {
    let given = MemoryBundle {
        sources: vec![
            MemorySourceRecord { memory_id: id("a"), ..source("t", "f") },
            MemorySourceRecord { memory_id: id("a"), ..source("s", "f") },
            MemorySourceRecord { memory_id: id("a"), created_at: 2, ..source("u", "f") },
        ],
        entities: vec!["zoe".to_owned(), " ADA".to_owned(), "bob".to_owned(), " ".to_owned()],
        tags: vec!["Rust".to_owned(), "plan".to_owned()],
        relations: vec![
            relation("1", "a", "b", "supports"),
            relation("2", "a", "b", "refines"),
        ],
        ..bundle("a", 5)
    };
    let state =
        replace_bundle(&vault("v"), stored(&[("b", 3)]), given.clone(), None, false, 5)
            .ok()
            .unwrap();
    let read = get_bundle(&vault("v"), &state, &id("a")).unwrap();
    assert_eq!(read.memory, given.memory);
    let names: Vec<&str> = read.sources.iter().map(|row| row.id.as_str()).collect();
    assert_eq!(names, ["u", "s", "t"]);
    assert_eq!(read.sources[1].heading_path, ["Plan"]);
    assert_eq!(read.entities, [" ADA", "bob", "zoe"]);
    assert_eq!(read.tags, ["plan", "Rust"]);
    assert_eq!(read.relations, vec![given.relations[1].clone(), given.relations[0].clone()]);
    assert!(get_bundle(&vault("v"), &state, &id("b")).unwrap().relations.is_empty());
    assert!(get_bundle(&vault("v"), &state, &id("c")).is_none());
    assert!(get_bundle(&vault("w"), &state, &id("a")).is_none());
}

#[test]
fn projections_are_deleted_in_their_vault() {
    let state = stored(&[("a", 5)]);
    assert!(delete_memory_projection(&vault("w"), state.memories.clone(), &id("a")).is_err());
    let left: Vec<StoredMemory> =
        delete_memory_projection(&vault("v"), state.memories, &id("a")).unwrap();
    assert_eq!(left.len(), 0);
}

fn candidate(name: &str, fingerprint: &str) -> MemoryCandidateRecord {
    MemoryCandidateRecord {
        id: id(name),
        vault_id: id("v"),
        source_file_id: id("f"),
        source_path: path("notes/a.md"),
        source_revision: Revision::new(1),
        candidate: Json::parse("{}").unwrap(),
        content_hash: "hash".to_owned(),
        extraction_fingerprint: fingerprint.to_owned(),
        confidence: score(0.5),
        importance: score(0.5),
        decision: None,
        decision_reason: None,
        created_at: 1,
        reviewed_at: None,
    }
}

#[test]
fn candidates_are_admitted_once_and_decided() {
    let v = vault("v");
    let (held, at) = insert_candidate(&v, vec![], candidate("a", "p")).unwrap();
    assert_eq!(at, 0);
    let (held, at) = insert_candidate(&v, held, candidate("b", "p")).unwrap();
    assert_eq!((held.len(), at), (1, 0));
    let (held, at) = insert_candidate(&v, held, candidate("c", "q")).unwrap();
    assert_eq!((held.len(), at), (2, 1));
    assert_eq!(get_candidate_by_fingerprint(&v, &held, "q"), Some(1));
    assert_eq!(list_candidates(&v, &held, None, 10, 0).unwrap().len(), 2);
    assert_eq!(get_candidate(&v, &held, &held[1].id), Some(1));
    assert_eq!(get_candidate(&vault("w"), &held, &held[1].id), None);
    let done =
        decide_candidate(&v, Some(held[0].clone()), "rejected".to_owned(), None, 9).unwrap();
    assert_eq!(done.reviewed_at, Some(9));
    assert!(decide_candidate(&v, Some(held[0].clone()), "maybe".to_owned(), None, 9).is_err());
    assert!(decide_candidate(&vault("w"), Some(held[0].clone()), "rejected".to_owned(), None, 9)
        .is_err());
    let state = stored(&[("a", 5)]);
    let tally = counts(&v, &state.memories, &[done, held[1].clone()]);
    assert_eq!((tally.total, tally.active, tally.candidate), (1, 1, 1));
}

#[test]
fn idempotency_keys_keep_their_first_answer() {
    let v = vault("v");
    let put = |records, memory: &str| {
        put_idempotency(
            &v,
            records,
            "key".to_owned(),
            "hash".to_owned(),
            id(memory),
            "created".to_owned(),
            1,
        )
    };
    let first = put(vec![], "a");
    let again = put(first.clone(), "b");
    assert_eq!(get_idempotency(&v, &again, "key"), Some(0));
    assert_eq!(again.len(), 1);
    assert_eq!(get_idempotency(&vault("w"), &again, "key"), None);
}

#[test]
fn diagnostics_are_keyed_by_path() {
    let first = upsert_diagnostic(&vault("v"), None, path("a.md"), "bad".to_owned(), 1);
    let next =
        upsert_diagnostic(&vault("v"), Some(first.clone()), path("a.md"), "worse".to_owned(), 2);
    assert_eq!(next.id, first.id);
    assert_eq!((next.code.as_str(), next.updated_at), ("worse", 2));
    let other = upsert_diagnostic(&vault("v"), Some(first), path("b.md"), "bad".to_owned(), 3);
    assert_eq!((other.id.as_str(), other.path.as_str()), ("v:b.md", "b.md"));
}
