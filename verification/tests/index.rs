use mcp_vault_state::files::{row_to_file, FileRow};
use mcp_vault_state::index::queries::{
    get_note_embedding_source, get_note_for_retrieval, list_node_notes, list_note_embedding_sources,
    quote, related_notes, search_notes, NoteHit, NoteSearchFilter,
};
use mcp_vault_state::index::{
    clear_vault, list_nodes, remove_note, replace_knowledge_map, replace_note, row_to_status, status,
    IndexState, IndexStatusRow, StoredNote,
};
use mcp_vault_state::json::Json;
use mcp_vault_state::{
    FileRecord, HeadingProjectionInput, Id, IndexMembershipProjectionInput,
    IndexNodeProjectionInput, IndexStatusRecord, LinkProjectionInput, NoteProjectionInput, Revision,
    Score, StateError, TagProjectionInput, VaultContext, VaultPath,
};

fn id(text: &str) -> Id {
    Id::new(text.to_owned())
}

fn path(text: &str) -> VaultPath {
    VaultPath { text: text.to_owned() }
}

fn vault(name: &str) -> VaultContext {
    VaultContext { id: id(name), slug: name.to_owned(), content_root: Some(format!("/srv/{name}")) }
}

fn score(value: f64) -> Score {
    Score { bits: value.to_bits() }
}

fn note(file: &str) -> NoteProjectionInput {
    NoteProjectionInput {
        file_id: id(file),
        vault_id: id("v"),
        path: path(&format!("notes/{file}.md")),
        revision: Revision::new(1),
        title: Some(file.to_uppercase()),
        aliases_json: "[]".to_owned(),
        frontmatter_json: "{}".to_owned(),
        plain_text: format!("text of {file}"),
        first_paragraph: None,
        language: None,
        word_count: 3,
        analyzed_content_hash: "sha256:00".to_owned(),
        analyzer_version: 1,
        fts_aliases: String::new(),
        fts_tags: String::new(),
        fts_headings: String::new(),
    }
}

fn tag(name: &str) -> TagProjectionInput {
    TagProjectionInput {
        tag: name.to_owned(),
        normalized_tag: name.to_lowercase(),
        source: "body".to_owned(),
    }
}

fn link(name: &str, target: Option<&str>) -> LinkProjectionInput {
    LinkProjectionInput {
        id: name.to_owned(),
        target_text: "target".to_owned(),
        target_file_id: target.map(id),
        target_heading: None,
        link_type: "wiki".to_owned(),
        ordinal: 0,
    }
}

fn put(notes: Vec<StoredNote>, file: &str, tags: &[&str], links: Vec<LinkProjectionInput>, now: i64) -> Vec<StoredNote> {
    let tags = tags.iter().map(|name| tag(name)).collect();
    replace_note(&vault("v"), notes, note(file), vec![], tags, links, now).unwrap()
}

/// Notes a, b, c and d: a links to b, c shares a tag with a, d stands alone.
fn notes() -> Vec<StoredNote> {
    let notes = put(vec![], "a", &["Rust"], vec![link("l1", Some("b"))], 1);
    let notes = put(notes, "b", &[], vec![], 2);
    let notes = put(notes, "c", &["rust", "plan"], vec![], 3);
    put(notes, "d", &[], vec![], 4)
}

fn file(name: &str) -> FileRecord {
    row_to_file(FileRow {
        id: name.to_owned(),
        vault_id: "v".to_owned(),
        path: format!("notes/{name}.md"),
        entry_type: "file".to_owned(),
        current_revision: 1,
        content_hash: None,
        size: 1,
        modified_at: 1,
        filesystem_identity: None,
        deleted_at: None,
        created_at: 1,
        updated_at: 1,
    })
    .unwrap()
}

fn files() -> Vec<FileRecord> {
    ["a", "b", "c", "d"].iter().map(|name| file(name)).collect()
}

fn node(name: &str, parent: Option<&str>, sort: &str) -> IndexNodeProjectionInput {
    IndexNodeProjectionInput {
        id: name.to_owned(),
        parent_id: parent.map(|parent| parent.to_owned()),
        node_type: "topic".to_owned(),
        stable_key: format!("key-{name}"),
        title: name.to_owned(),
        summary: None,
        source_type: "deterministic".to_owned(),
        source_ref: None,
        confidence: None,
        sort_key: sort.to_owned(),
        content_version: "1".to_owned(),
        created_at: 1,
        updated_at: 1,
    }
}

fn member(node: &str, file: &str, relevance: f64) -> IndexMembershipProjectionInput {
    IndexMembershipProjectionInput {
        node_id: node.to_owned(),
        file_id: id(file),
        relevance: score(relevance),
        source_type: "deterministic".to_owned(),
    }
}

fn coverage(revision: u64) -> IndexStatusRecord {
    IndexStatusRecord {
        vault_id: id("v"),
        index_revision: Revision::new(revision),
        indexed_entries: 4,
        indexed_notes: 4,
        indexed_bytes: 40,
        analyzer_version: 1,
        coverage: Json::parse("{}").unwrap(),
        last_rebuilt_at: Some(5),
        last_error: None,
    }
}

fn mapped() -> IndexState {
    let state = IndexState { notes: notes(), nodes: vec![], memberships: vec![], statuses: vec![] };
    replace_knowledge_map(
        &vault("v"),
        state,
        vec![node("root", None, "b"), node("top", None, "a"), node("child", Some("root"), "a")],
        vec![member("root", "a", 0.5), member("root", "c", 0.9), member("child", "b", 1.0)],
        coverage(1),
    )
    .unwrap()
}

#[test]
fn a_replaced_note_keeps_its_creation_time() {
    let after = put(notes(), "a", &[], vec![], 9);
    assert_eq!(after.len(), 4);
    assert_eq!((after[0].created_at, after[0].updated_at), (1, 9));
    assert_eq!(after[0].links.len(), 0);
    let foreign = NoteProjectionInput { vault_id: id("w"), ..note("x") };
    assert_eq!(
        replace_note(&vault("v"), vec![], foreign, vec![], vec![], vec![], 1),
        Err(StateError::InvalidInput("note projection Vault does not match context"))
    );
    let wordy = NoteProjectionInput { word_count: u64::MAX, ..note("x") };
    assert_eq!(
        replace_note(&vault("v"), vec![], wordy, vec![], vec![], vec![], 1),
        Err(StateError::InvalidInput("word count overflow"))
    );
    let heading = HeadingProjectionInput {
        id: "h".to_owned(),
        ordinal: 0,
        level: 1,
        heading_path_json: "[]".to_owned(),
        title: "H".to_owned(),
        start_byte: u64::MAX,
        end_byte: None,
    };
    assert_eq!(
        replace_note(&vault("v"), vec![], note("x"), vec![heading], vec![], vec![], 1),
        Err(StateError::InvalidInput("heading byte offset overflow"))
    );
}

#[test]
fn the_map_is_replaced_as_a_whole() {
    let state = mapped();
    assert_eq!(status(&vault("v"), &state.statuses), Some(0));
    assert_eq!(status(&vault("w"), &state.statuses), None);
    let top = list_nodes(&vault("v"), &state.nodes, &state.memberships, None, 10, 0).unwrap();
    let keys: Vec<&str> = top.iter().map(|node| node.stable_key.as_str()).collect();
    assert_eq!(keys, ["key-top", "key-root"]);
    assert_eq!(top[1].member_count, 2);
    let below =
        list_nodes(&vault("v"), &state.nodes, &state.memberships, Some("key-root"), 10, 0).unwrap();
    assert_eq!(below.len(), 1);
    assert_eq!(below[0].parent_key.as_deref(), Some("key-root"));
    let again =
        replace_knowledge_map(&vault("v"), state, vec![node("n", None, "a")], vec![], coverage(2))
            .unwrap();
    assert_eq!(again.nodes.len(), 1);
    assert_eq!(again.memberships.len(), 0);
    assert_eq!(again.statuses.len(), 1);
    assert_eq!(again.statuses[0].index_revision, Revision::new(2));
    let foreign = IndexStatusRecord { vault_id: id("w"), ..coverage(3) };
    assert_eq!(
        replace_knowledge_map(&vault("v"), again, vec![], vec![], foreign).err(),
        Some(StateError::InvalidInput("index status Vault does not match context"))
    );
}

#[test]
fn notes_of_a_node_come_by_relevance() {
    let state = mapped();
    let list = |key: &str| {
        list_node_notes(
            &vault("v"),
            &state.notes,
            &state.nodes,
            &state.memberships,
            &files(),
            key,
            10,
            0,
        )
    };
    assert_eq!(list("key-root"), Ok(vec![2, 0]));
    assert_eq!(list("key-none"), Ok(vec![]));
}

#[test]
fn removed_notes_are_gone_with_what_hangs_on_them() {
    let after = remove_note(&vault("v"), mapped(), &id("a"));
    assert_eq!(after.notes.len(), 3);
    assert!(after.memberships.iter().all(|stored| stored.membership.file_id != id("a")));
    let same = remove_note(&vault("w"), mapped(), &id("a"));
    assert_eq!(same.notes.len(), 4);
    let empty = clear_vault(&vault("v"), mapped());
    assert_eq!((empty.notes.len(), empty.nodes.len(), empty.memberships.len()), (0, 0, 0));
}

#[test]
fn links_and_tags_relate_notes_both_ways() {
    let found = |file: &str| related_notes(&vault("v"), &notes(), &files(), &id(file), 10, 0);
    assert_eq!(found("a"), Ok(vec![(1, 2), (2, 1)]));
    assert_eq!(found("b"), Ok(vec![(0, 2)]));
    assert_eq!(found("d"), Ok(vec![]));
    assert_eq!(
        related_notes(&vault("v"), &notes(), &files(), &id("a"), 101, 0),
        Err(StateError::InvalidInput("index query page is invalid"))
    );
}

fn search(filter: NoteSearchFilter, query: &str, limit: u32) -> Result<Vec<usize>, StateError> {
    let state = mapped();
    let hits = vec![
        NoteHit { file_id: id("a"), rank: score(-1.0) },
        NoteHit { file_id: id("c"), rank: score(-3.0) },
        NoteHit { file_id: id("d"), rank: score(-1.0) },
    ];
    search_notes(
        &vault("v"),
        &state.notes,
        &state.nodes,
        &state.memberships,
        &files(),
        query,
        &hits,
        &filter,
        limit,
        0,
    )
}

fn open() -> NoteSearchFilter {
    NoteSearchFilter {
        path_prefix: None,
        tags: vec![],
        topic_keys: vec![],
        modified_after: None,
        modified_before: None,
    }
}

#[test]
fn searches_rank_and_filter() {
    assert_eq!(search(open(), "text", 10), Ok(vec![2, 0, 3]));
    assert_eq!(search(open(), "text", 1), Ok(vec![2]));
    let tagged = NoteSearchFilter { tags: vec!["rust".to_owned()], ..open() };
    assert_eq!(search(tagged, "text", 10), Ok(vec![2, 0]));
    let topic = NoteSearchFilter { topic_keys: vec!["key-root".to_owned()], ..open() };
    assert_eq!(search(topic, "text", 10), Ok(vec![2, 0]));
    let late = NoteSearchFilter { modified_after: Some(4), ..open() };
    assert_eq!(search(late, "text", 10), Ok(vec![3]));
    let early = NoteSearchFilter { modified_before: Some(1), ..open() };
    assert_eq!(search(early, "text", 10), Ok(vec![0]));
    let elsewhere = NoteSearchFilter { path_prefix: Some("other/".to_owned()), ..open() };
    assert_eq!(search(elsewhere, "text", 10), Ok(vec![]));
    assert_eq!(search(open(), "", 10), Err(StateError::InvalidInput("FTS query is invalid")));
}

#[test]
fn notes_are_read_for_retrieval_and_embedding() {
    let state = mapped();
    let found = get_note_for_retrieval(
        &vault("v"),
        &state.notes,
        &state.nodes,
        &state.memberships,
        &files(),
        &id("b"),
    )
    .unwrap();
    assert_eq!(found.backlink_count, 1);
    assert_eq!(found.topic_ids, vec!["key-child".to_owned()]);
    assert_eq!(found.snippet, "text of b");
    let source = get_note_embedding_source(&vault("v"), &state.notes, &id("a")).unwrap();
    assert_eq!(source.plain_text, "text of a");
    assert!(get_note_embedding_source(&vault("w"), &state.notes, &id("a")).is_none());
    assert_eq!(
        list_note_embedding_sources(&vault("v"), &state.notes, 2, 1),
        Ok(vec![1, 2])
    );
    assert_eq!(quote(&"字".repeat(300)), "字".repeat(280));
}

#[test]
fn stored_statuses_are_checked() {
    let row = IndexStatusRow {
        vault_id: "v".to_owned(),
        index_revision: 1,
        indexed_entries: 4,
        indexed_notes: 4,
        indexed_bytes: 40,
        analyzer_version: 1,
        coverage_json: "{ }".to_owned(),
        last_rebuilt_at: Some(5),
        last_error: None,
    };
    assert_eq!(row_to_status(row.clone()), Ok(coverage(1)));
    assert!(row_to_status(IndexStatusRow { indexed_notes: -1, ..row.clone() }).is_err());
    assert_eq!(
        row_to_status(IndexStatusRow { coverage_json: "{".to_owned(), ..row }),
        Err(StateError::Json)
    );
}
