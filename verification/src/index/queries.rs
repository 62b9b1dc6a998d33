//! Browsing and searching indexed notes.

use vstd::prelude::*;

use crate::domain::{duplicate_optional, duplicate_text, Id, VaultContext, VaultPath};
use crate::error::{accepted_if, invalid, StateError};
use crate::files::FileRecord;
use crate::index::{
    is_member, is_node, is_note, note_put, validate_page, HeadingProjectionInput,
    LinkProjectionInput, NoteEmbeddingSourceRecord, NoteLinkRecord, NoteSearchRecord,
    StoredMembership, StoredNode, StoredNote, TagProjectionInput, MAX_QUERY_LIMIT, SNIPPET_CHARS,
};
use crate::order::{
    count_before, is_order, is_page, is_sorted_form, keys, keys_of, names_before, page, sort_texts,
    sorted_order, Keyed, SortKey,
};
use crate::rows::{
    any, count, count_rows, find, first_index, first_row, lemma_filter_drops, lemma_first_index,
    lemma_push_keeps_others, lemma_put_is_found, lemma_update_keeps_others, marks, some_row,
};
use crate::score::Score;
use crate::text::{byte_len, bytes_of, chars_of, concat, is_like, like, text_eq, text_of};

verus! {

impl Keyed for TagProjectionInput {
    /// Tags are shown by their normalized form.
    open spec fn key(self) -> SortKey {
        SortKey { first: 0, second: 0, third: 0, id: self.normalized_tag }
    }

    fn sort_key(&self) -> (k: SortKey) {
        SortKey { first: 0, second: 0, third: 0, id: self.normalized_tag.clone() }
    }
}

impl Keyed for HeadingProjectionInput {
    /// Headings are shown in source order.
    open spec fn key(self) -> SortKey {
        SortKey { first: self.ordinal as i128, second: 0, third: 0, id: self.id }
    }

    fn sort_key(&self) -> (k: SortKey) {
        SortKey { first: self.ordinal as i128, second: 0, third: 0, id: self.id.clone() }
    }
}

impl Keyed for LinkProjectionInput {
    /// Links are shown in source order.
    open spec fn key(self) -> SortKey {
        SortKey { first: self.ordinal as i128, second: 0, third: 0, id: self.id }
    }

    fn sort_key(&self) -> (k: SortKey) {
        SortKey { first: self.ordinal as i128, second: 0, third: 0, id: self.id.clone() }
    }
}

/// Whether `shown` holds the tags of a note in their order.
pub open spec fn shows_tags(tags: Seq<TagProjectionInput>, shown: Seq<String>) -> bool {
    exists|order: Seq<usize>|
        {
            &&& #[trigger] is_order(keys(tags), order)
            &&& shown == Seq::new(order.len(), |k: int| tags[order[k] as int].tag)
        }
}

/// Whether `shown` holds the heading titles of a note in source order.
pub open spec fn shows_headings(headings: Seq<HeadingProjectionInput>, shown: Seq<String>) -> bool {
    exists|order: Seq<usize>|
        {
            &&& #[trigger] is_order(keys(headings), order)
            &&& shown == Seq::new(order.len(), |k: int| headings[order[k] as int].title)
        }
}

/// What a summary shows of a link.
pub open spec fn link_record(link: LinkProjectionInput, source: Id) -> NoteLinkRecord {
    NoteLinkRecord {
        id: link.id,
        source_file_id: source,
        target_text: link.target_text,
        target_file_id: link.target_file_id,
        target_heading: link.target_heading,
        link_type: link.link_type,
        ordinal: link.ordinal,
    }
}

/// Whether `shown` holds the links of a note in source order.
pub open spec fn shows_links(links: Seq<LinkProjectionInput>, source: Id, shown: Seq<NoteLinkRecord>) -> bool {
    exists|order: Seq<usize>|
        {
            &&& #[trigger] is_order(keys(links), order)
            &&& shown == Seq::new(order.len(), |k: int| link_record(links[order[k] as int], source))
        }
}

/// Tags of a note in their order.
fn show_tags(tags: &[TagProjectionInput]) -> (r: Vec<String>)
    ensures
        shows_tags(tags@, r@),
{
    let order_keys = keys_of(tags);
    let order = sorted_order(order_keys.as_slice());
    let mut shown: Vec<String> = Vec::new();
    let mut i: usize = 0;
    while i < order.len()
        invariant
            i <= order@.len(),
            is_order(keys(tags@), order@),
            shown@ == Seq::new(i as nat, |k: int| tags@[order@[k] as int].tag),
        decreases order@.len() - i,
    {
        shown.push(tags[order[i]].tag.clone());
        i += 1;
        assert(shown@ =~= Seq::new(i as nat, |k: int| tags@[order@[k] as int].tag));
    }
    shown
}

/// Heading titles of a note in source order.
fn show_headings(headings: &[HeadingProjectionInput]) -> (r: Vec<String>)
    ensures
        shows_headings(headings@, r@),
{
    let order_keys = keys_of(headings);
    let order = sorted_order(order_keys.as_slice());
    let mut shown: Vec<String> = Vec::new();
    let mut i: usize = 0;
    while i < order.len()
        invariant
            i <= order@.len(),
            is_order(keys(headings@), order@),
            shown@ == Seq::new(i as nat, |k: int| headings@[order@[k] as int].title),
        decreases order@.len() - i,
    {
        shown.push(headings[order[i]].title.clone());
        i += 1;
        assert(shown@ =~= Seq::new(i as nat, |k: int| headings@[order@[k] as int].title));
    }
    shown
}

/// Links of a note in source order.
fn show_links(links: &[LinkProjectionInput], source: &Id) -> (r: Vec<NoteLinkRecord>)
    ensures
        shows_links(links@, *source, r@),
{
    let order_keys = keys_of(links);
    let order = sorted_order(order_keys.as_slice());
    let mut shown: Vec<NoteLinkRecord> = Vec::new();
    let mut i: usize = 0;
    while i < order.len()
        invariant
            i <= order@.len(),
            is_order(keys(links@), order@),
            shown@ == Seq::new(i as nat, |k: int| link_record(links@[order@[k] as int], *source)),
        decreases order@.len() - i,
    {
        let link = &links[order[i]];
        shown.push(
            NoteLinkRecord {
                id: link.id.clone(),
                source_file_id: source.duplicate(),
                target_text: link.target_text.clone(),
                target_file_id: duplicate_optional(&link.target_file_id),
                target_heading: duplicate_text(&link.target_heading),
                link_type: link.link_type.clone(),
                ordinal: link.ordinal,
            },
        );
        i += 1;
        assert(shown@ =~= Seq::new(
            i as nat,
            |k: int| link_record(links@[order@[k] as int], *source),
        ));
    }
    shown
}

/// Whether a node is a topic that summaries name.
pub open spec fn topic_type(node_type: Seq<char>) -> bool {
    node_type == "topic"@ || node_type == "manual_topic"@ || node_type == "tag"@
}

/// The topic that a membership of a file stands for, if it is one.
pub open spec fn topic_of(
    membership: StoredMembership,
    nodes: Seq<StoredNode>,
    vault: Seq<char>,
    file: Seq<char>,
) -> Option<String> {
    if !is_member(membership, vault, file) {
        None
    } else {
        match first_row(
            nodes,
            |node: StoredNode| is_node(node, vault, membership.membership.node_id@),
        ) {
            Some(node) => if topic_type(node.node.node_type@) {
                Some(node.node.stable_key)
            } else {
                None
            },
            None => None,
        }
    }
}

/// Topics of a file, in the order of its memberships.
pub open spec fn topics_of(
    memberships: Seq<StoredMembership>,
    nodes: Seq<StoredNode>,
    vault: Seq<char>,
    file: Seq<char>,
) -> Seq<String>
    decreases memberships.len(),
{
    if memberships.len() == 0 {
        Seq::empty()
    } else {
        let before = topics_of(memberships.drop_last(), nodes, vault, file);
        match topic_of(memberships.last(), nodes, vault, file) {
            Some(topic) => before.push(topic),
            None => before,
        }
    }
}

/// Topics of a file, in the order of its memberships.
fn collect_topics(
    memberships: &[StoredMembership],
    nodes: &[StoredNode],
    vault: &Id,
    file: &Id,
) -> (r: Vec<String>)
    ensures
        r@ == topics_of(memberships@, nodes@, vault@, file@),
{
    let mut topics: Vec<String> = Vec::new();
    let mut i: usize = 0;
    assert(memberships@.take(0) =~= Seq::empty());
    while i < memberships.len()
        invariant
            i <= memberships@.len(),
            topics@ == topics_of(memberships@.take(i as int), nodes@, vault@, file@),
        decreases memberships@.len() - i,
    {
        let stored = &memberships[i];
        proof {
            assert(memberships@.take(i + 1).drop_last() =~= memberships@.take(i as int));
            assert(memberships@.take(i + 1).last() == memberships@[i as int]);
        }
        if stored.vault_id.same(vault) && stored.membership.file_id.same(file) {
            let accepts = |node: &StoredNode| -> (yes: bool)
                ensures
                    yes == is_node(*node, vault@, stored.membership.node_id@),
                {
                    node.vault_id.same(vault) && text_eq(
                        node.node.id.as_str(),
                        stored.membership.node_id.as_str(),
                    )
                };
            match find(
                nodes,
                accepts,
                Ghost(|node: StoredNode| is_node(node, vault@, stored.membership.node_id@)),
            ) {
                Some(k) => {
                    let kind = nodes[k].node.node_type.as_str();
                    if text_eq(kind, "topic") || text_eq(kind, "manual_topic") || text_eq(
                        kind,
                        "tag",
                    ) {
                        topics.push(nodes[k].node.stable_key.clone());
                    }
                },
                None => {},
            }
        }
        i += 1;
    }
    assert(memberships@.take(i as int) =~= memberships@);
    topics
}

/// Whether a link of a note leads to a file.
pub open spec fn leads_to(link: LinkProjectionInput, file: Seq<char>) -> bool {
    link.target_file_id is Some && link.target_file_id->0@ == file
}

/// Whether a link of a note leads to a file.
fn is_leading_to(link: &LinkProjectionInput, file: &Id) -> (r: bool)
    ensures
        r == leads_to(*link, file@),
{
    match &link.target_file_id {
        Some(target) => target.same(file),
        None => false,
    }
}

/// Number of links in a vault's notes that lead to a file.
pub open spec fn backlinks(notes: Seq<StoredNote>, vault: Seq<char>, file: Seq<char>) -> nat
    decreases notes.len(),
{
    if notes.len() == 0 {
        0
    } else {
        backlinks(notes.drop_last(), vault, file) + if notes.last().note.vault_id@ == vault {
            count(notes.last().links@, |link: LinkProjectionInput| leads_to(link, file))
        } else {
            0
        }
    }
}

/// Number of links in a vault's notes that lead to a file; the largest count
/// where there are more.
fn count_backlinks(notes: &[StoredNote], vault: &Id, file: &Id) -> (r: u64)
    ensures
        backlinks(notes@, vault@, file@) <= u64::MAX ==> r == backlinks(notes@, vault@, file@),
        backlinks(notes@, vault@, file@) > u64::MAX ==> r == u64::MAX,
{
    let mut total: u64 = 0;
    let mut i: usize = 0;
    assert(notes@.take(0) =~= Seq::empty());
    while i < notes.len()
        invariant
            i <= notes@.len(),
            backlinks(notes@.take(i as int), vault@, file@) <= u64::MAX ==> total == backlinks(
                notes@.take(i as int),
                vault@,
                file@,
            ),
            backlinks(notes@.take(i as int), vault@, file@) > u64::MAX ==> total == u64::MAX,
        decreases notes@.len() - i,
    {
        proof {
            assert(notes@.take(i + 1).drop_last() =~= notes@.take(i as int));
            assert(notes@.take(i + 1).last() == notes@[i as int]);
        }
        if notes[i].note.vault_id.same(vault) {
            let accepts = |link: &LinkProjectionInput| -> (yes: bool)
                ensures
                    yes == leads_to(*link, file@),
                { is_leading_to(link, file) };
            let n: usize = count_rows(
                notes[i].links.as_slice(),
                accepts,
                Ghost(|link: LinkProjectionInput| leads_to(link, file@)),
            );
            total = total.saturating_add(n as u64);
        }
        i += 1;
    }
    assert(notes@.take(i as int) =~= notes@);
    total
}

/// Whether a summary is that of a note.
pub open spec fn summarizes(
    record: NoteSearchRecord,
    stored: StoredNote,
    notes: Seq<StoredNote>,
    nodes: Seq<StoredNode>,
    memberships: Seq<StoredMembership>,
    vault: Seq<char>,
) -> bool {
    &&& record.file_id == stored.note.file_id
    &&& record.revision == stored.note.revision
    &&& record.title == stored.note.title
    &&& record.updated_at == stored.updated_at
    &&& shows_tags(stored.tags@, record.tags@)
    &&& is_sorted_form(
        topics_of(memberships, nodes, vault, stored.note.file_id@),
        record.topic_ids@,
    )
    &&& shows_headings(stored.headings@, record.headings@)
    &&& shows_links(stored.links@, stored.note.file_id, record.outgoing_links@)
    &&& record.backlink_count == if backlinks(notes, vault, stored.note.file_id@) > u64::MAX {
        u64::MAX as nat
    } else {
        backlinks(notes, vault, stored.note.file_id@)
    }
}

/// Summary of one indexed note, with the path where its file is now.
pub fn row_to_search(
    context: &VaultContext,
    stored: &StoredNote,
    notes: &[StoredNote],
    nodes: &[StoredNode],
    memberships: &[StoredMembership],
    path: VaultPath,
    snippet: String,
    score: Option<Score>,
) -> (r: NoteSearchRecord)
    ensures
        summarizes(r, *stored, notes@, nodes@, memberships@, context.id@),
        r.path == path,
        r.snippet == snippet,
        r.score == score,
{
    let topics = collect_topics(memberships, nodes, &context.id, &stored.note.file_id);
    NoteSearchRecord {
        file_id: stored.note.file_id.duplicate(),
        path,
        revision: stored.note.revision,
        title: duplicate_text(&stored.note.title),
        updated_at: stored.updated_at,
        snippet,
        score,
        tags: show_tags(stored.tags.as_slice()),
        topic_ids: sort_texts(topics.as_slice()),
        headings: show_headings(stored.headings.as_slice()),
        outgoing_links: show_links(stored.links.as_slice(), &stored.note.file_id),
        backlink_count: count_backlinks(notes, &context.id, &stored.note.file_id),
    }
}

/// The opening of a text that a summary quotes.
pub open spec fn quoted(text: Seq<char>) -> Seq<char> {
    if text.len() > SNIPPET_CHARS {
        text.take(SNIPPET_CHARS as int)
    } else {
        text
    }
}

/// The opening of a text that a summary quotes.
pub fn quote(text: &str) -> (r: String)
    ensures
        r@ == quoted(text@),
{
    let chars = chars_of(text);
    let n: usize = if chars.len() > SNIPPET_CHARS {
        SNIPPET_CHARS
    } else {
        chars.len()
    };
    let r = text_of(chars.as_slice(), 0, n);
    assert(r@ =~= quoted(text@));
    r
}

/// Whether a file is the live one behind a note.
pub open spec fn is_live_file(file: FileRecord, vault: Seq<char>, id: Seq<char>) -> bool {
    file.vault_id@ == vault && file.id@ == id && file.deleted_at is None
}

/// Where the file of a note is now, if it is live.
pub open spec fn live_path(files: Seq<FileRecord>, vault: Seq<char>, id: Seq<char>) -> Option<VaultPath> {
    match first_row(files, |file: FileRecord| is_live_file(file, vault, id)) {
        Some(file) => Some(file.path),
        None => None,
    }
}

/// Where the file of a note is now, if it is live.
pub fn find_live_path(files: &[FileRecord], vault: &Id, id: &Id) -> (r: Option<VaultPath>)
    ensures
        r == live_path(files@, vault@, id@),
{
    let accepts = |file: &FileRecord| -> (yes: bool)
        ensures
            yes == is_live_file(*file, vault@, id@),
        { file.vault_id.same(vault) && file.id.same(id) && file.deleted_at.is_none() };
    match find(files, accepts, Ghost(|file: FileRecord| is_live_file(file, vault@, id@))) {
        Some(i) => Some(files[i].path.duplicate()),
        None => None,
    }
}

/// The path that orders a note: where its file is now, else where it was
/// analyzed.
pub open spec fn ordering_path(note: StoredNote, files: Seq<FileRecord>, vault: Seq<char>) -> String {
    match live_path(files, vault, note.note.file_id@) {
        Some(path) => path.text,
        None => note.note.path.text,
    }
}

/// Paths that order notes.
pub open spec fn ordering_paths(notes: Seq<StoredNote>, files: Seq<FileRecord>, vault: Seq<char>) -> Seq<
    String,
> {
    notes.map_values(|note: StoredNote| ordering_path(note, files, vault))
}

/// Paths that order notes.
fn collect_paths(notes: &[StoredNote], files: &[FileRecord], vault: &Id) -> (r: Vec<String>)
    ensures
        r@ == ordering_paths(notes@, files@, vault@),
{
    let mut paths: Vec<String> = Vec::new();
    let mut i: usize = 0;
    while i < notes.len()
        invariant
            i <= notes@.len(),
            paths@ == ordering_paths(notes@, files@, vault@).take(i as int),
        decreases notes@.len() - i,
    {
        let path = match find_live_path(files, vault, &notes[i].note.file_id) {
            Some(path) => path.text,
            None => notes[i].note.path.text.clone(),
        };
        paths.push(path);
        i += 1;
        assert(paths@ =~= ordering_paths(notes@, files@, vault@).take(i as int));
    }
    assert(paths@ =~= ordering_paths(notes@, files@, vault@));
    paths
}

/// Order of notes: by a number, then by path, then by file identity.
pub open spec fn ranked_keys(firsts: Seq<int>, paths: Seq<String>, notes: Seq<StoredNote>) -> Seq<SortKey> {
    Seq::new(
        notes.len(),
        |i: int|
            SortKey {
                first: firsts[i] as i128,
                second: names_before(paths, paths[i]@) as i128,
                third: 0,
                id: notes[i].note.file_id.text,
            },
    )
}

/// Keys that order notes by a number, then by path, then by file identity.
fn rank_notes(firsts: &[i128], paths: &[String], notes: &[StoredNote]) -> (r: Vec<SortKey>)
    requires
        firsts@.len() == notes@.len(),
        paths@.len() == notes@.len(),
    ensures
        r@ == ranked_keys(firsts@.map_values(|first: i128| first as int), paths@, notes@),
{
    let ghost numbers = firsts@.map_values(|first: i128| first as int);
    let mut out: Vec<SortKey> = Vec::new();
    let mut i: usize = 0;
    while i < notes.len()
        invariant
            i <= notes@.len(),
            firsts@.len() == notes@.len(),
            paths@.len() == notes@.len(),
            numbers == firsts@.map_values(|first: i128| first as int),
            out@ == ranked_keys(numbers, paths@, notes@).take(i as int),
        decreases notes@.len() - i,
    {
        let rank: usize = count_before(paths, paths[i].as_str());
        out.push(
            SortKey {
                first: firsts[i],
                second: rank as i128,
                third: 0,
                id: notes[i].note.file_id.text.clone(),
            },
        );
        i += 1;
        assert(out@ =~= ranked_keys(numbers, paths@, notes@).take(i as int));
    }
    assert(out@ =~= ranked_keys(numbers, paths@, notes@));
    out
}

/// Whether a membership puts a file under a node with a key.
pub open spec fn puts_under(
    membership: StoredMembership,
    nodes: Seq<StoredNode>,
    vault: Seq<char>,
    file: Seq<char>,
    stable_key: Seq<char>,
) -> bool {
    &&& is_member(membership, vault, file)
    &&& some_row(
        nodes,
        |node: StoredNode|
            is_node(node, vault, membership.membership.node_id@) && node.node.stable_key@
                == stable_key,
    )
}

/// The membership that puts a note under a node with a key, if there is one.
pub open spec fn membership_under(
    note: StoredNote,
    nodes: Seq<StoredNode>,
    memberships: Seq<StoredMembership>,
    vault: Seq<char>,
    stable_key: Seq<char>,
) -> Option<StoredMembership> {
    first_row(
        memberships,
        |membership: StoredMembership|
            puts_under(membership, nodes, vault, note.note.file_id@, stable_key),
    )
}

/// The position of the membership that puts a note under a node with a key.
fn find_membership(
    note: &StoredNote,
    nodes: &[StoredNode],
    memberships: &[StoredMembership],
    vault: &Id,
    stable_key: &str,
) -> (r: Option<usize>)
    ensures
        match r {
            Some(i) => i < memberships@.len() && membership_under(
                *note,
                nodes@,
                memberships@,
                vault@,
                stable_key@,
            ) == Some(memberships@[i as int]),
            None => membership_under(*note, nodes@, memberships@, vault@, stable_key@) is None,
        },
{
    let file = &note.note.file_id;
    let accepts = |stored: &StoredMembership| -> (yes: bool)
        ensures
            yes == puts_under(*stored, nodes@, vault@, file@, stable_key@),
        {
            let node_id = stored.membership.node_id.as_str();
            let matching = |node: &StoredNode| -> (yes: bool)
                ensures
                    yes == (is_node(*node, vault@, node_id@) && node.node.stable_key@
                        == stable_key@),
                {
                    node.vault_id.same(vault) && text_eq(node.node.id.as_str(), node_id)
                        && text_eq(node.node.stable_key.as_str(), stable_key)
                };
            let under = any(
                nodes,
                matching,
                Ghost(
                    |node: StoredNode|
                        is_node(node, vault@, stored.membership.node_id@) && node.node.stable_key@
                            == stable_key@,
                ),
            );
            under && stored.vault_id.same(vault) && stored.membership.file_id.same(file)
        };
    find(
        memberships,
        accepts,
        Ghost(
            |membership: StoredMembership|
                puts_under(membership, nodes@, vault@, note.note.file_id@, stable_key@),
        ),
    )
}

/// Whether a note of the vault is live and under a node with a key.
pub open spec fn under_node(
    note: StoredNote,
    nodes: Seq<StoredNode>,
    memberships: Seq<StoredMembership>,
    files: Seq<FileRecord>,
    vault: Seq<char>,
    stable_key: Seq<char>,
) -> bool {
    &&& note.note.vault_id@ == vault
    &&& live_path(files, vault, note.note.file_id@) is Some
    &&& membership_under(note, nodes, memberships, vault, stable_key) is Some
}

/// Number that orders a note under a node: the most relevant first.
pub open spec fn relevance_first(
    note: StoredNote,
    nodes: Seq<StoredNode>,
    memberships: Seq<StoredMembership>,
    vault: Seq<char>,
    stable_key: Seq<char>,
) -> int {
    match membership_under(note, nodes, memberships, vault, stable_key) {
        Some(stored) => -stored.membership.relevance.rank(),
        None => 0,
    }
}

/// Numbers that order notes under a node.
pub open spec fn relevances(
    notes: Seq<StoredNote>,
    nodes: Seq<StoredNode>,
    memberships: Seq<StoredMembership>,
    vault: Seq<char>,
    stable_key: Seq<char>,
) -> Seq<int> {
    notes.map_values(
        |note: StoredNote| relevance_first(note, nodes, memberships, vault, stable_key),
    )
}

/// Positions of the notes directly under one knowledge-map node: the most
/// relevant first, then by path and file identity.
pub fn list_node_notes(
    context: &VaultContext,
    notes: &[StoredNote],
    nodes: &[StoredNode],
    memberships: &[StoredMembership],
    files: &[FileRecord],
    stable_key: &str,
    limit: u32,
    offset: u32,
) -> (r: Result<Vec<usize>, StateError>)
    ensures
        if !(1 <= limit <= MAX_QUERY_LIMIT && offset <= 1_000_000) {
            r == invalid::<Vec<usize>>("index query page is invalid")
        } else {
            r matches Ok(picked) && is_page(
                ranked_keys(
                    relevances(notes@, nodes@, memberships@, context.id@, stable_key@),
                    ordering_paths(notes@, files@, context.id@),
                    notes@,
                ),
                notes@.map_values(
                    |note: StoredNote|
                        under_node(
                            note,
                            nodes@,
                            memberships@,
                            files@,
                            context.id@,
                            stable_key@,
                        ),
                ),
                false,
                limit as nat,
                offset as nat,
                picked@,
            )
        },
{
    match validate_page(limit, offset) {
        Ok(()) => {},
        Err(error) => return Err(error),
    }
    let accepts = |note: &StoredNote| -> (yes: bool)
        ensures
            yes == under_node(
                *note,
                nodes@,
                memberships@,
                files@,
                context.id@,
                stable_key@,
            ),
        {
            note.note.vault_id.same(&context.id) && find_live_path(
                files,
                &context.id,
                &note.note.file_id,
            ).is_some() && find_membership(
                note,
                nodes,
                memberships,
                &context.id,
                stable_key,
            ).is_some()
        };
    let eligible = marks(
        notes,
        accepts,
        Ghost(
            |note: StoredNote|
                under_node(note, nodes@, memberships@, files@, context.id@, stable_key@),
        ),
    );
    let ghost wanted = relevances(notes@, nodes@, memberships@, context.id@, stable_key@);
    let mut firsts: Vec<i128> = Vec::new();
    let mut i: usize = 0;
    while i < notes.len()
        invariant
            i <= notes@.len(),
            wanted == relevances(notes@, nodes@, memberships@, context.id@, stable_key@),
            firsts@.len() == i,
            forall|k: int| 0 <= k < i ==> #[trigger] firsts@[k] == wanted[k],
        decreases notes@.len() - i,
    {
        let first: i128 = match find_membership(
            &notes[i],
            nodes,
            memberships,
            &context.id,
            stable_key,
        ) {
            Some(k) => -memberships[k].membership.relevance.order(),
            None => 0,
        };
        firsts.push(first);
        i += 1;
    }
    assert(firsts@.map_values(|first: i128| first as int) =~= wanted);
    let paths = collect_paths(notes, files, &context.id);
    let order_keys = rank_notes(firsts.as_slice(), paths.as_slice(), notes);
    Ok(page(order_keys.as_slice(), eligible.as_slice(), false, limit, offset))
}

/// Number of pairs of equal tags of two notes.
pub open spec fn shared_tags(a: Seq<TagProjectionInput>, b: Seq<TagProjectionInput>) -> nat
    decreases a.len(),
{
    if a.len() == 0 {
        0
    } else {
        shared_tags(a.drop_last(), b) + count(
            b,
            |tag: TagProjectionInput| tag.normalized_tag@ == a.last().normalized_tag@,
        )
    }
}

/// Number of pairs of equal tags of two notes; the largest count where there
/// are more.
fn count_shared(a: &[TagProjectionInput], b: &[TagProjectionInput]) -> (r: u64)
    ensures
        shared_tags(a@, b@) <= u64::MAX ==> r == shared_tags(a@, b@),
        shared_tags(a@, b@) > u64::MAX ==> r == u64::MAX,
{
    let mut total: u64 = 0;
    let mut i: usize = 0;
    assert(a@.take(0) =~= Seq::empty());
    while i < a.len()
        invariant
            i <= a@.len(),
            shared_tags(a@.take(i as int), b@) <= u64::MAX ==> total == shared_tags(
                a@.take(i as int),
                b@,
            ),
            shared_tags(a@.take(i as int), b@) > u64::MAX ==> total == u64::MAX,
        decreases a@.len() - i,
    {
        proof {
            assert(a@.take(i + 1).drop_last() =~= a@.take(i as int));
            assert(a@.take(i + 1).last() == a@[i as int]);
        }
        let own = a[i].normalized_tag.as_str();
        let accepts = |tag: &TagProjectionInput| -> (yes: bool)
            ensures
                yes == (tag.normalized_tag@ == own@),
            { text_eq(tag.normalized_tag.as_str(), own) };
        let n: usize = count_rows(
            b,
            accepts,
            Ghost(
                |tag: TagProjectionInput| tag.normalized_tag@ == a@[i as int].normalized_tag@,
            ),
        );
        total = total.saturating_add(n as u64);
        i += 1;
    }
    assert(a@.take(i as int) =~= a@);
    total
}

/// Whether a note of the vault links to a file.
pub open spec fn links_to(note: StoredNote, vault: Seq<char>, file: Seq<char>) -> bool {
    note.note.vault_id@ == vault && some_row(
        note.links@,
        |link: LinkProjectionInput| leads_to(link, file),
    )
}

/// Whether a note of the vault links to a file.
fn is_linking_to(note: &StoredNote, vault: &Id, file: &Id) -> (r: bool)
    ensures
        r == links_to(*note, vault@, file@),
{
    let accepts = |link: &LinkProjectionInput| -> (yes: bool)
        ensures
            yes == leads_to(*link, file@),
        { is_leading_to(link, file) };
    let linked = any(
        note.links.as_slice(),
        accepts,
        Ghost(|link: LinkProjectionInput| leads_to(link, file@)),
    );
    linked && note.note.vault_id.same(vault)
}

/// How closely a candidate is related to a file: equal tags, and two for a
/// direct link in either direction.
pub open spec fn relation_score(
    candidate: StoredNote,
    notes: Seq<StoredNote>,
    vault: Seq<char>,
    file: Seq<char>,
) -> nat {
    tag_score(candidate, notes, vault, file) + if directly_linked(candidate, notes, vault, file) {
        2nat
    } else {
        0nat
    }
}

/// Pairs of equal tags of a candidate and a file's note.
pub open spec fn tag_score(
    candidate: StoredNote,
    notes: Seq<StoredNote>,
    vault: Seq<char>,
    file: Seq<char>,
) -> nat {
    match first_row(notes, |note: StoredNote| is_note(note, vault, file)) {
        Some(source) => shared_tags(source.tags@, candidate.tags@),
        None => 0,
    }
}

/// Whether a candidate and a file's note link to each other in one direction
/// or the other.
pub open spec fn directly_linked(
    candidate: StoredNote,
    notes: Seq<StoredNote>,
    vault: Seq<char>,
    file: Seq<char>,
) -> bool {
    links_to(candidate, vault, file) || match first_row(
        notes,
        |note: StoredNote| is_note(note, vault, file),
    ) {
        Some(source) => links_to(source, vault, candidate.note.file_id@),
        None => false,
    }
}

/// Whether a note is related to a file: another live note of the vault that
/// shares a tag or is linked.
pub open spec fn related(
    candidate: StoredNote,
    notes: Seq<StoredNote>,
    files: Seq<FileRecord>,
    vault: Seq<char>,
    file: Seq<char>,
) -> bool {
    &&& candidate.note.vault_id@ == vault
    &&& candidate.note.file_id@ != file
    &&& live_path(files, vault, candidate.note.file_id@) is Some
    &&& tag_score(candidate, notes, vault, file) > 0 || directly_linked(
        candidate,
        notes,
        vault,
        file,
    )
}

/// The score that orders a note: tag counts beyond the largest number count as
/// that number.
pub open spec fn capped_score(tags: nat, linked: bool) -> int {
    (if tags > u64::MAX {
        u64::MAX as int
    } else {
        tags as int
    }) + if linked {
        2int
    } else {
        0int
    }
}

/// Numbers that order related notes: the closest first.
pub open spec fn closeness(notes: Seq<StoredNote>, vault: Seq<char>, file: Seq<char>) -> Seq<int> {
    notes.map_values(
        |note: StoredNote|
            -capped_score(
                tag_score(note, notes, vault, file),
                directly_linked(note, notes, vault, file),
            ),
    )
}

/// Whether `scores` tell of each note its tag score, capped at the largest
/// number, and whether it is linked with a file.
pub open spec fn scored(
    notes: Seq<StoredNote>,
    vault: Seq<char>,
    file: Seq<char>,
    scores: Seq<(u64, bool)>,
) -> bool {
    forall|i: int|
        0 <= i < scores.len() ==> {
            &&& (#[trigger] scores[i]).1 == directly_linked(notes[i], notes, vault, file)
            &&& scores[i].0 == capped_score(tag_score(notes[i], notes, vault, file), false)
        }
}

/// How closely each note is related to a file.
fn score_notes(notes: &[StoredNote], vault: &Id, file: &Id) -> (r: Vec<(u64, bool)>)
    ensures
        r@.len() == notes@.len(),
        scored(notes@, vault@, file@, r@),
{
    let accepts = |note: &StoredNote| -> (yes: bool)
        ensures
            yes == is_note(*note, vault@, file@),
        { note.note.vault_id.same(vault) && note.note.file_id.same(file) };
    let source = find(notes, accepts, Ghost(|note: StoredNote| is_note(note, vault@, file@)));
    let mut scores: Vec<(u64, bool)> = Vec::new();
    let mut i: usize = 0;
    while i < notes.len()
        invariant
            i <= notes@.len(),
            match source {
                Some(k) => k < notes@.len() && first_index(
                    notes@,
                    |note: StoredNote| is_note(note, vault@, file@),
                ) == Some(k as int),
                None => first_index(
                    notes@,
                    |note: StoredNote| is_note(note, vault@, file@),
                ) is None,
            },
            scores@.len() == i,
            scored(notes@, vault@, file@, scores@),
        decreases notes@.len() - i,
    {
        let candidate = &notes[i];
        let (shared, linked_from) = match source {
            Some(k) => (
                count_shared(notes[k].tags.as_slice(), candidate.tags.as_slice()),
                is_linking_to(&notes[k], vault, &candidate.note.file_id),
            ),
            None => (0, false),
        };
        let linked = is_linking_to(candidate, vault, file) || linked_from;
        scores.push((shared, linked));
        i += 1;
    }
    scores
}

/// Positions of the notes related to a file, with their scores: the closest
/// first, then by path and file identity.
pub fn related_notes(
    context: &VaultContext,
    notes: &[StoredNote],
    files: &[FileRecord],
    file_id: &Id,
    limit: u32,
    offset: u32,
) -> (r: Result<Vec<(usize, u64)>, StateError>)
    ensures
        if !(1 <= limit <= MAX_QUERY_LIMIT && offset <= 1_000_000) {
            r == invalid::<Vec<(usize, u64)>>("index query page is invalid")
        } else {
            &&& r matches Ok(found)
            &&& is_page(
                ranked_keys(
                    closeness(notes@, context.id@, file_id@),
                    ordering_paths(notes@, files@, context.id@),
                    notes@,
                ),
                notes@.map_values(
                    |note: StoredNote| related(note, notes@, files@, context.id@, file_id@),
                ),
                false,
                limit as nat,
                offset as nat,
                found@.map_values(|entry: (usize, u64)| entry.0),
            )
            &&& forall|k: int|
                0 <= k < found@.len() && relation_score(
                    notes@[(#[trigger] found@[k]).0 as int],
                    notes@,
                    context.id@,
                    file_id@,
                ) <= u64::MAX ==> found@[k].1 == relation_score(
                    notes@[found@[k].0 as int],
                    notes@,
                    context.id@,
                    file_id@,
                )
        },
{
    match validate_page(limit, offset) {
        Ok(()) => {},
        Err(error) => return Err(error),
    }
    let scores = score_notes(notes, &context.id, file_id);
    let ghost wanted = closeness(notes@, context.id@, file_id@);
    let ghost rule = |note: StoredNote| related(note, notes@, files@, context.id@, file_id@);
    let mut eligible: Vec<bool> = Vec::new();
    let mut firsts: Vec<i128> = Vec::new();
    let mut i: usize = 0;
    while i < notes.len()
        invariant
            i <= notes@.len(),
            scores@.len() == notes@.len(),
            wanted == closeness(notes@, context.id@, file_id@),
            rule == (|note: StoredNote| related(note, notes@, files@, context.id@, file_id@)),
            firsts@.len() == i,
            forall|k: int| 0 <= k < i ==> #[trigger] firsts@[k] == wanted[k],
            eligible@ == notes@.take(i as int).map_values(rule),
            scored(notes@, context.id@, file_id@, scores@),
        decreases notes@.len() - i,
    {
        let (shared, linked) = scores[i];
        assert(scores@[i as int].1 == directly_linked(
            notes@[i as int],
            notes@,
            context.id@,
            file_id@,
        ));
        let bonus: i128 = if linked {
            2
        } else {
            0
        };
        firsts.push(-(shared as i128 + bonus));
        let candidate = &notes[i];
        let shown = candidate.note.vault_id.same(&context.id) && !candidate.note.file_id.same(
            file_id,
        ) && find_live_path(files, &context.id, &candidate.note.file_id).is_some() && (shared > 0
            || linked);
        eligible.push(shown);
        i += 1;
        assert(eligible@ =~= notes@.take(i as int).map_values(rule));
    }
    assert(notes@.take(i as int) =~= notes@);
    assert(firsts@.map_values(|first: i128| first as int) =~= wanted);
    let paths = collect_paths(notes, files, &context.id);
    let order_keys = rank_notes(firsts.as_slice(), paths.as_slice(), notes);
    let picked = page(order_keys.as_slice(), eligible.as_slice(), false, limit, offset);
    proof {
        crate::order::law_page_is_bounded(
            order_keys@,
            eligible@,
            false,
            limit as nat,
            offset as nat,
            picked@,
        );
    }
    let mut found: Vec<(usize, u64)> = Vec::new();
    let mut n: usize = 0;
    while n < picked.len()
        invariant
            n <= picked@.len(),
            scores@.len() == notes@.len(),
            forall|k: int| 0 <= k < picked@.len() ==> (#[trigger] picked@[k]) < notes@.len(),
            scored(notes@, context.id@, file_id@, scores@),
            found@.map_values(|entry: (usize, u64)| entry.0) == picked@.take(n as int),
            found@.len() == n,
            forall|k: int|
                0 <= k < n && relation_score(
                    notes@[(#[trigger] found@[k]).0 as int],
                    notes@,
                    context.id@,
                    file_id@,
                ) <= u64::MAX ==> found@[k].1 == relation_score(
                    notes@[found@[k].0 as int],
                    notes@,
                    context.id@,
                    file_id@,
                ),
        decreases picked@.len() - n,
    {
        let at: usize = picked[n];
        let (shared, linked) = scores[at];
        assert(scores@[at as int].1 == directly_linked(
            notes@[at as int],
            notes@,
            context.id@,
            file_id@,
        ));
        let bonus: u64 = if linked {
            2
        } else {
            0
        };
        found.push((at, shared.saturating_add(bonus)));
        n += 1;
        assert(found@.map_values(|entry: (usize, u64)| entry.0) =~= picked@.take(n as int));
    }
    assert(picked@.take(n as int) =~= picked@);
    Ok(found)
}

/// Positions of one page of a vault's notes by path and file identity, for
/// bounded semantic embedding work.
pub fn list_note_embedding_sources(
    context: &VaultContext,
    notes: &[StoredNote],
    limit: u32,
    offset: u32,
) -> (r: Result<Vec<usize>, StateError>)
    ensures
        if !(1 <= limit <= MAX_QUERY_LIMIT && offset <= 1_000_000) {
            r == invalid::<Vec<usize>>("index query page is invalid")
        } else {
            r matches Ok(picked) && is_page(
                ranked_keys(
                    notes@.map_values(|note: StoredNote| 0int),
                    notes@.map_values(|note: StoredNote| note.note.path.text),
                    notes@,
                ),
                notes@.map_values(|note: StoredNote| note.note.vault_id@ == context.id@),
                false,
                limit as nat,
                offset as nat,
                picked@,
            )
        },
{
    match validate_page(limit, offset) {
        Ok(()) => {},
        Err(error) => return Err(error),
    }
    let accepts = |note: &StoredNote| -> (yes: bool)
        ensures
            yes == (note.note.vault_id@ == context.id@),
        { note.note.vault_id.same(&context.id) };
    let eligible = marks(
        notes,
        accepts,
        Ghost(|note: StoredNote| note.note.vault_id@ == context.id@),
    );
    let mut firsts: Vec<i128> = Vec::new();
    let mut paths: Vec<String> = Vec::new();
    let ghost wanted = notes@.map_values(|note: StoredNote| note.note.path.text);
    let mut i: usize = 0;
    while i < notes.len()
        invariant
            i <= notes@.len(),
            wanted == notes@.map_values(|note: StoredNote| note.note.path.text),
            firsts@.len() == i,
            forall|k: int| 0 <= k < i ==> #[trigger] firsts@[k] == 0,
            paths@ == wanted.take(i as int),
        decreases notes@.len() - i,
    {
        firsts.push(0);
        paths.push(notes[i].note.path.text.clone());
        i += 1;
        assert(paths@ =~= wanted.take(i as int));
    }
    assert(paths@ =~= wanted);
    assert(firsts@.map_values(|first: i128| first as int) =~= notes@.map_values(
        |note: StoredNote| 0int,
    ));
    let order_keys = rank_notes(firsts.as_slice(), paths.as_slice(), notes);
    Ok(page(order_keys.as_slice(), eligible.as_slice(), false, limit, offset))
}

/// Text of one note that semantic embeddings are made from.
pub fn note_embedding_source(stored: &StoredNote) -> (r: NoteEmbeddingSourceRecord)
    ensures
        r.file_id == stored.note.file_id,
        r.path == stored.note.path,
        r.revision == stored.note.revision,
        r.title == stored.note.title,
        shows_headings(stored.headings@, r.headings@),
        r.plain_text == stored.note.plain_text,
        r.analyzed_content_hash == stored.note.analyzed_content_hash,
{
    NoteEmbeddingSourceRecord {
        file_id: stored.note.file_id.duplicate(),
        path: stored.note.path.duplicate(),
        revision: stored.note.revision,
        title: duplicate_text(&stored.note.title),
        headings: show_headings(stored.headings.as_slice()),
        plain_text: stored.note.plain_text.clone(),
        analyzed_content_hash: stored.note.analyzed_content_hash.clone(),
    }
}

/// The position of a note by its file identity.
pub fn find_note(context: &VaultContext, notes: &[StoredNote], file_id: &Id) -> (r: Option<usize>)
    ensures
        match r {
            Some(i) => i < notes@.len() && first_index(
                notes@,
                |note: StoredNote| is_note(note, context.id@, file_id@),
            ) == Some(i as int),
            None => first_index(
                notes@,
                |note: StoredNote| is_note(note, context.id@, file_id@),
            ) is None,
        },
{
    let accepts = |note: &StoredNote| -> (yes: bool)
        ensures
            yes == is_note(*note, context.id@, file_id@),
        { note.note.vault_id.same(&context.id) && note.note.file_id.same(file_id) };
    find(notes, accepts, Ghost(|note: StoredNote| is_note(note, context.id@, file_id@)))
}

/// Resolve one current note projection by stable file identity.
pub fn get_note_embedding_source(context: &VaultContext, notes: &[StoredNote], file_id: &Id) -> (r: Option<
    NoteEmbeddingSourceRecord,
>)
    ensures
        match first_row(notes@, |note: StoredNote| is_note(note, context.id@, file_id@)) {
            Some(note) => r matches Some(source) && source.file_id == note.note.file_id
                && source.path == note.note.path && source.revision == note.note.revision
                && source.title == note.note.title && shows_headings(
                note.headings@,
                source.headings@,
            ) && source.plain_text == note.note.plain_text && source.analyzed_content_hash
                == note.note.analyzed_content_hash,
            None => r is None,
        },
{
    match find_note(context, notes, file_id) {
        Some(i) => Some(note_embedding_source(&notes[i])),
        None => None,
    }
}

/// Return one indexed note as a bounded retrieval cue: only while its file is
/// live.
pub fn get_note_for_retrieval(
    context: &VaultContext,
    notes: &[StoredNote],
    nodes: &[StoredNode],
    memberships: &[StoredMembership],
    files: &[FileRecord],
    file_id: &Id,
) -> (r: Option<NoteSearchRecord>)
    ensures
        match first_row(notes@, |note: StoredNote| is_note(note, context.id@, file_id@)) {
            Some(note) => match live_path(files@, context.id@, file_id@) {
                Some(path) => r matches Some(record) && summarizes(
                    record,
                    note,
                    notes@,
                    nodes@,
                    memberships@,
                    context.id@,
                ) && record.path == path && record.snippet@ == quoted(note.note.plain_text@)
                    && record.score is None,
                None => r is None,
            },
            None => r is None,
        },
{
    match find_note(context, notes, file_id) {
        Some(i) => match find_live_path(files, &context.id, file_id) {
            Some(path) => {
                let snippet = quote(notes[i].note.plain_text.as_str());
                Some(
                    row_to_search(
                        context,
                        &notes[i],
                        notes,
                        nodes,
                        memberships,
                        path,
                        snippet,
                        None,
                    ),
                )
            },
            None => None,
        },
        None => None,
    }
}

/// One answer of the full-text index.
#[derive(Clone, Debug, PartialEq, Eq)]
pub struct NoteHit {
    /// Note that the query matched.
    pub file_id: Id,
    /// Raw relevance rank; lower is better.
    pub rank: Score,
}

/// What a note search asks for beside its query.
pub struct NoteSearchFilter {
    /// Opening of the path, in which `%` stands for any text and `_` for any
    /// one character.
    pub path_prefix: Option<String>,
    /// Normalized tags that a note must all have.
    pub tags: Vec<String>,
    /// Keys of nodes that a note must all be under.
    pub topic_keys: Vec<String>,
    /// Earliest modification.
    pub modified_after: Option<i64>,
    /// Latest modification.
    pub modified_before: Option<i64>,
}

/// Whether a note has a normalized tag.
pub open spec fn has_tag(note: StoredNote, tag: Seq<char>) -> bool {
    some_row(note.tags@, |own: TagProjectionInput| own.normalized_tag@ == tag)
}

impl NoteSearchFilter {
    /// Whether a live note of the vault passes.
    pub open spec fn admits(
        self,
        note: StoredNote,
        nodes: Seq<StoredNode>,
        memberships: Seq<StoredMembership>,
        files: Seq<FileRecord>,
        vault: Seq<char>,
    ) -> bool {
        let path = live_path(files, vault, note.note.file_id@);
        &&& path is Some
        &&& self.path_prefix is Some ==> like(path->0@, self.path_prefix->0@ + "%"@)
        &&& !some_row(self.tags@, |tag: String| !has_tag(note, tag@))
        &&& !some_row(
            self.topic_keys@,
            |key: String| membership_under(note, nodes, memberships, vault, key@) is None,
        )
        &&& self.modified_after is Some ==> note.updated_at >= self.modified_after->0
        &&& self.modified_before is Some ==> note.updated_at <= self.modified_before->0
    }

    /// Whether a live note of the vault passes.
    pub fn is_admitting(
        &self,
        note: &StoredNote,
        nodes: &[StoredNode],
        memberships: &[StoredMembership],
        files: &[FileRecord],
        vault: &Id,
    ) -> (r: bool)
        ensures
            r == self.admits(*note, nodes@, memberships@, files@, vault@),
    {
        let path = match find_live_path(files, vault, &note.note.file_id) {
            Some(path) => path,
            None => return false,
        };
        let path_ok = match &self.path_prefix {
            Some(prefix) => {
                let pattern = concat(prefix.as_str(), "%");
                is_like(path.as_str(), pattern.as_str())
            },
            None => true,
        };
        let lacks_tag = |tag: &String| -> (yes: bool)
            ensures
                yes == !has_tag(*note, tag@),
            {
                let same = |own: &TagProjectionInput| -> (yes: bool)
                    ensures
                        yes == (own.normalized_tag@ == tag@),
                    { text_eq(own.normalized_tag.as_str(), tag.as_str()) };
                !any(
                    note.tags.as_slice(),
                    same,
                    Ghost(|own: TagProjectionInput| own.normalized_tag@ == tag@),
                )
            };
        let tags_missing = any(
            self.tags.as_slice(),
            lacks_tag,
            Ghost(|tag: String| !has_tag(*note, tag@)),
        );
        let lacks_topic = |key: &String| -> (yes: bool)
            ensures
                yes == (membership_under(*note, nodes@, memberships@, vault@, key@) is None),
            { find_membership(note, nodes, memberships, vault, key.as_str()).is_none() };
        let topics_missing = any(
            self.topic_keys.as_slice(),
            lacks_topic,
            Ghost(
                |key: String|
                    membership_under(*note, nodes@, memberships@, vault@, key@) is None,
            ),
        );
        let after_ok = match self.modified_after {
            Some(at) => note.updated_at >= at,
            None => true,
        };
        let before_ok = match self.modified_before {
            Some(at) => note.updated_at <= at,
            None => true,
        };
        path_ok && !tags_missing && !topics_missing && after_ok && before_ok
    }
}

/// Rank of a note among the answers of the index, if it is among them.
pub open spec fn hit_rank(hits: Seq<NoteHit>, note: StoredNote) -> Option<Score> {
    match first_row(hits, |hit: NoteHit| hit.file_id@ == note.note.file_id@) {
        Some(hit) => Some(hit.rank),
        None => None,
    }
}

/// Rank of a note among the answers of the index, if it is among them.
fn find_rank(hits: &[NoteHit], note: &StoredNote) -> (r: Option<Score>)
    ensures
        r == hit_rank(hits@, *note),
{
    let file = &note.note.file_id;
    let accepts = |hit: &NoteHit| -> (yes: bool)
        ensures
            yes == (hit.file_id@ == file@),
        { hit.file_id.same(file) };
    match find(hits, accepts, Ghost(|hit: NoteHit| hit.file_id@ == note.note.file_id@)) {
        Some(i) => Some(hits[i].rank),
        None => None,
    }
}

/// Numbers that order search results: the best rank first.
pub open spec fn ranks(notes: Seq<StoredNote>, hits: Seq<NoteHit>) -> Seq<int> {
    notes.map_values(
        |note: StoredNote|
            match hit_rank(hits, note) {
                Some(rank) => rank.rank(),
                None => 0,
            },
    )
}

/// Positions of the notes that a search finds: the best rank first, then by
/// path and file identity. `hits` are what the full-text index answered to the
/// query in this vault.
pub fn search_notes(
    context: &VaultContext,
    notes: &[StoredNote],
    nodes: &[StoredNode],
    memberships: &[StoredMembership],
    files: &[FileRecord],
    fts_query: &str,
    hits: &[NoteHit],
    filter: &NoteSearchFilter,
    limit: u32,
    offset: u32,
) -> (r: Result<Vec<usize>, StateError>)
    ensures
        if !(1 <= limit <= MAX_QUERY_LIMIT && offset <= 1_000_000) {
            r == invalid::<Vec<usize>>("index query page is invalid")
        } else if !(1 <= byte_len(fts_query@) <= 4096) {
            r == invalid::<Vec<usize>>("FTS query is invalid")
        } else {
            r matches Ok(picked) && is_page(
                ranked_keys(
                    ranks(notes@, hits@),
                    ordering_paths(notes@, files@, context.id@),
                    notes@,
                ),
                notes@.map_values(
                    |note: StoredNote|
                        note.note.vault_id@ == context.id@ && hit_rank(hits@, note) is Some
                            && filter.admits(note, nodes@, memberships@, files@, context.id@),
                ),
                false,
                limit as nat,
                offset as nat,
                picked@,
            )
        },
{
    match validate_search(fts_query, limit, offset) {
        Ok(()) => {},
        Err(error) => return Err(error),
    }
    let accepts = |note: &StoredNote| -> (yes: bool)
        ensures
            yes == (note.note.vault_id@ == context.id@ && hit_rank(hits@, *note) is Some
                && filter.admits(*note, nodes@, memberships@, files@, context.id@)),
        {
            note.note.vault_id.same(&context.id) && find_rank(hits, note).is_some()
                && filter.is_admitting(note, nodes, memberships, files, &context.id)
        };
    let eligible = marks(
        notes,
        accepts,
        Ghost(
            |note: StoredNote|
                note.note.vault_id@ == context.id@ && hit_rank(hits@, note) is Some
                    && filter.admits(note, nodes@, memberships@, files@, context.id@),
        ),
    );
    let ghost wanted = ranks(notes@, hits@);
    let mut firsts: Vec<i128> = Vec::new();
    let mut i: usize = 0;
    while i < notes.len()
        invariant
            i <= notes@.len(),
            wanted == ranks(notes@, hits@),
            firsts@.len() == i,
            forall|k: int| 0 <= k < i ==> #[trigger] firsts@[k] == wanted[k],
        decreases notes@.len() - i,
    {
        let first: i128 = match find_rank(hits, &notes[i]) {
            Some(rank) => rank.order(),
            None => 0,
        };
        firsts.push(first);
        i += 1;
    }
    assert(firsts@.map_values(|first: i128| first as int) =~= wanted);
    let paths = collect_paths(notes, files, &context.id);
    let order_keys = rank_notes(firsts.as_slice(), paths.as_slice(), notes);
    Ok(page(order_keys.as_slice(), eligible.as_slice(), false, limit, offset))
}

/// Checks the bounds of a search.
pub fn validate_search(fts_query: &str, limit: u32, offset: u32) -> (r: Result<(), StateError>)
    ensures
        r == (if !(1 <= limit <= MAX_QUERY_LIMIT && offset <= 1_000_000) {
            invalid("index query page is invalid")
        } else {
            accepted_if(1 <= byte_len(fts_query@) <= 4096, "FTS query is invalid")
        }),
{
    match validate_page(limit, offset) {
        Ok(()) => {},
        Err(error) => return Err(error),
    }
    let n: usize = bytes_of(fts_query);
    if n == 0 || n > 4096 {
        return Err(StateError::InvalidInput("FTS query is invalid"));
    }
    Ok(())
}

/// A removed note is found by nothing: it is gone from the notes and from every
/// membership.
pub proof fn law_removed_notes_are_gone(
    before: crate::index::IndexState,
    after: crate::index::IndexState,
    vault: Seq<char>,
    file: Seq<char>,
)
    requires
        crate::index::note_removed(before, after, vault, file),
    ensures
        !some_row(after.notes@, |note: StoredNote| is_note(note, vault, file)),
        !some_row(
            after.memberships@,
            |membership: StoredMembership| is_member(membership, vault, file),
        ),
{
    lemma_filter_drops(before.notes@, |note: StoredNote| is_note(note, vault, file));
    lemma_filter_drops(
        before.memberships@,
        |membership: StoredMembership| is_member(membership, vault, file),
    );
    let other_note = |note: StoredNote| !is_note(note, vault, file);
    let other_member = |membership: StoredMembership| !is_member(membership, vault, file);
    let note_rule = |note: StoredNote| is_note(note, vault, file);
    let member_rule = |membership: StoredMembership| is_member(membership, vault, file);
    assert(other_note =~= |note: StoredNote| !note_rule(note));
    assert(other_member =~= |membership: StoredMembership| !member_rule(membership));
}

/// A replaced note is read back as it was given, and no other note changes.
pub proof fn law_replaced_note_is_read_back(
    notes: Seq<StoredNote>,
    new: StoredNote,
    vault: Seq<char>,
    other: Seq<char>,
)
    requires
        new.note.vault_id@ == vault,
        other != new.note.file_id@,
    ensures
        ({
            let after = note_put(notes, new);
            let found = first_row(
                after,
                |note: StoredNote| note.note.file_id@ == new.note.file_id@,
            );
            &&& found is Some
            &&& found->0 == (StoredNote { created_at: found->0.created_at, ..new })
            &&& first_row(after, |note: StoredNote| is_note(note, vault, other)) == first_row(
                notes,
                |note: StoredNote| is_note(note, vault, other),
            )
        }),
{
    let own = |note: StoredNote| note.note.file_id@ == new.note.file_id@;
    let foreign = |note: StoredNote| is_note(note, vault, other);
    lemma_first_index(notes, own);
    match first_index(notes, own) {
        Some(i) => {
            let row = StoredNote { created_at: notes[i].created_at, ..new };
            lemma_put_is_found(notes, own, row);
            lemma_update_keeps_others(notes, i, row, foreign);
        },
        None => {
            lemma_put_is_found(notes, own, new);
            lemma_push_keeps_others(notes, new, foreign);
        },
    }
}

/// A direct link counts in both directions: where one note is linked to
/// another, the other is linked to it.
pub proof fn law_links_relate_both_ways(notes: Seq<StoredNote>, vault: Seq<char>, i: int, j: int)
    requires
        0 <= i < notes.len(),
        0 <= j < notes.len(),
        is_note(notes[i], vault, notes[i].note.file_id@),
        is_note(notes[j], vault, notes[j].note.file_id@),
        first_index(
            notes,
            |note: StoredNote| is_note(note, vault, notes[i].note.file_id@),
        ) == Some(i),
        first_index(
            notes,
            |note: StoredNote| is_note(note, vault, notes[j].note.file_id@),
        ) == Some(j),
    ensures
        directly_linked(notes[j], notes, vault, notes[i].note.file_id@) <==> directly_linked(
            notes[i],
            notes,
            vault,
            notes[j].note.file_id@,
        ),
{
}

} // verus!
