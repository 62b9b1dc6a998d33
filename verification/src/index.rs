//! Vault-scoped Markdown and knowledge-map projections.
//!
//! The projection is rebuildable and never replaces canonical vault files.

use vstd::prelude::*;

use crate::domain::{
    duplicate_text, id_of, stored_id, DomainError, Id, Revision, VaultContext, VaultPath,
};
use crate::error::{accepted_if, invalid, StateError};
use crate::json::{compact_json, Json};
use crate::order::{count_before, is_page, names_before, page, SortKey};
use crate::rows::{any, count, count_rows, find, first_index, first_row, keep, marks, some_row};
use crate::score::Score;
use crate::text::text_eq;

pub mod laws;
pub mod queries;

verus! {

/// Most rows that one page shows.
pub const MAX_QUERY_LIMIT: u32 = 100;

/// Most characters of a note that a summary quotes.
pub const SNIPPET_CHARS: usize = 280;

/// Derived-index coverage and status of a vault.
#[derive(Clone, Debug, PartialEq, Eq)]
pub struct IndexStatusRecord {
    /// Owning vault.
    pub vault_id: Id,
    /// Monotonic derived projection revision.
    pub index_revision: Revision,
    /// Active filesystem entries considered.
    pub indexed_entries: u64,
    /// Markdown notes successfully analyzed.
    pub indexed_notes: u64,
    /// Canonical bytes analyzed.
    pub indexed_bytes: u64,
    /// Analyzer version.
    pub analyzer_version: u32,
    /// Coverage and degradation details.
    pub coverage: Json,
    /// Last successful full rebuild timestamp.
    pub last_rebuilt_at: Option<i64>,
    /// Safe error code from the last failed operation.
    pub last_error: Option<String>,
}

/// Index status as stored.
#[derive(Clone, Debug, PartialEq, Eq)]
pub struct IndexStatusRow {
    pub vault_id: String,
    pub index_revision: i64,
    pub indexed_entries: i64,
    pub indexed_notes: i64,
    pub indexed_bytes: i64,
    pub analyzer_version: i64,
    pub coverage_json: String,
    pub last_rebuilt_at: Option<i64>,
    pub last_error: Option<String>,
}

impl IndexStatusRow {
    /// Why the row cannot be read, if it cannot.
    pub open spec fn decode_error(self) -> Option<StateError> {
        if self.index_revision < 0 {
            Some(StateError::InvalidDomain(DomainError::RevisionOutOfRange))
        } else if self.indexed_entries < 0 {
            Some(StateError::InvalidInput("indexed entry count is invalid"))
        } else if self.indexed_notes < 0 {
            Some(StateError::InvalidInput("indexed note count is invalid"))
        } else if self.indexed_bytes < 0 {
            Some(StateError::InvalidInput("indexed byte count is invalid"))
        } else if !(0 <= self.analyzer_version <= u32::MAX) {
            Some(StateError::InvalidInput("analyzer version is invalid"))
        } else if compact_json(self.coverage_json@) is None {
            Some(StateError::Json)
        } else {
            None
        }
    }

    /// The record that the row holds.
    pub open spec fn record(self, coverage: Json) -> IndexStatusRecord {
        IndexStatusRecord {
            vault_id: Id { text: self.vault_id },
            index_revision: Revision { value: self.index_revision as u64 },
            indexed_entries: self.indexed_entries as u64,
            indexed_notes: self.indexed_notes as u64,
            indexed_bytes: self.indexed_bytes as u64,
            analyzer_version: self.analyzer_version as u32,
            coverage,
            last_rebuilt_at: self.last_rebuilt_at,
            last_error: self.last_error,
        }
    }

    /// Whether the documents of a record are those of the row.
    pub open spec fn holds_documents(self, coverage: Json) -> bool {
        &&& Some(coverage@) == compact_json(self.coverage_json@)
    }
}

/// Reads a stored row.
pub fn row_to_status(row: IndexStatusRow) -> (r: Result<IndexStatusRecord, StateError>)
    ensures
        match row.decode_error() {
            Some(error) => r == Err::<IndexStatusRecord, StateError>(error),
            None => r matches Ok(record) && record == row.record(record.coverage)
                && row.holds_documents(record.coverage),
        },
{
    let index_revision = match Revision::from_stored(row.index_revision) {
        Ok(revision) => revision,
        Err(error) => return Err(StateError::InvalidDomain(error)),
    };
    if row.indexed_entries < 0 {
        return Err(StateError::InvalidInput("indexed entry count is invalid"));
    }
    if row.indexed_notes < 0 {
        return Err(StateError::InvalidInput("indexed note count is invalid"));
    }
    if row.indexed_bytes < 0 {
        return Err(StateError::InvalidInput("indexed byte count is invalid"));
    }
    if row.analyzer_version < 0 || row.analyzer_version > u32::MAX as i64 {
        return Err(StateError::InvalidInput("analyzer version is invalid"));
    }
    let coverage = match Json::parse(row.coverage_json.as_str()) {
        Ok(document) => document,
        Err(error) => return Err(error),
    };
    Ok(
        IndexStatusRecord {
            vault_id: Id { text: row.vault_id },
            index_revision,
            indexed_entries: row.indexed_entries as u64,
            indexed_notes: row.indexed_notes as u64,
            indexed_bytes: row.indexed_bytes as u64,
            analyzer_version: row.analyzer_version as u32,
            coverage,
            last_rebuilt_at: row.last_rebuilt_at,
            last_error: row.last_error,
        },
    )
}

/// One deterministic knowledge-map node returned by queries.
#[derive(Clone, Debug, PartialEq, Eq)]
pub struct IndexNodeRecord {
    /// Stable external node key.
    pub stable_key: String,
    /// Optional parent stable key.
    pub parent_key: Option<String>,
    /// Node type.
    pub node_type: String,
    /// Display title.
    pub title: String,
    /// Optional summary.
    pub summary: Option<String>,
    /// Projection source.
    pub source_type: String,
    /// Stable sibling sort key.
    pub sort_key: String,
    /// Number of direct note memberships.
    pub member_count: u64,
}

/// A knowledge-map node as a query answers it.
#[derive(Clone, Debug, PartialEq, Eq)]
pub struct IndexNodeRow {
    pub stable_key: String,
    pub parent_key: Option<String>,
    pub node_type: String,
    pub title: String,
    pub summary: Option<String>,
    pub source_type: String,
    pub sort_key: String,
    pub member_count: i64,
}

impl IndexNodeRow {
    /// Why the row cannot be read, if it cannot.
    pub open spec fn decode_error(self) -> Option<StateError> {
        if self.member_count < 0 {
            Some(StateError::InvalidInput("index member count is invalid"))
        } else {
            None
        }
    }

    /// The record that the row holds.
    pub open spec fn record(self) -> IndexNodeRecord {
        IndexNodeRecord {
            stable_key: self.stable_key,
            parent_key: self.parent_key,
            node_type: self.node_type,
            title: self.title,
            summary: self.summary,
            source_type: self.source_type,
            sort_key: self.sort_key,
            member_count: self.member_count as u64,
        }
    }
}

/// Reads a stored row.
pub fn row_to_node(row: IndexNodeRow) -> (r: Result<IndexNodeRecord, StateError>)
    ensures
        match row.decode_error() {
            Some(error) => r == Err::<IndexNodeRecord, StateError>(error),
            None => r == Ok::<IndexNodeRecord, StateError>(row.record()),
        },
{
    if row.member_count < 0 {
        return Err(StateError::InvalidInput("index member count is invalid"));
    }
    Ok(
        IndexNodeRecord {
            stable_key: row.stable_key,
            parent_key: row.parent_key,
            node_type: row.node_type,
            title: row.title,
            summary: row.summary,
            source_type: row.source_type,
            sort_key: row.sort_key,
            member_count: row.member_count as u64,
        },
    )
}

/// One link projection returned with an indexed note summary.
#[derive(Clone, Debug, PartialEq, Eq)]
pub struct NoteLinkRecord {
    /// Stable link row identity.
    pub id: String,
    /// Source file identity.
    pub source_file_id: Id,
    /// Target text as written in the source.
    pub target_text: String,
    /// Proven target file identity, when available.
    pub target_file_id: Option<Id>,
    /// Optional target heading.
    pub target_heading: Option<String>,
    /// Markdown, wikilink, or embed.
    pub link_type: String,
    /// Source-order link ordinal.
    pub ordinal: u32,
}

/// A link as stored.
#[derive(Clone, Debug, PartialEq, Eq)]
pub struct NoteLinkRow {
    pub id: String,
    pub source_file_id: String,
    pub target_text: String,
    pub target_file_id: Option<String>,
    pub target_heading: Option<String>,
    pub link_type: String,
    pub ordinal: i64,
}

impl NoteLinkRow {
    /// Why the row cannot be read, if it cannot.
    pub open spec fn decode_error(self) -> Option<StateError> {
        if !(0 <= self.ordinal <= u32::MAX) {
            Some(StateError::InvalidInput("link ordinal is invalid"))
        } else {
            None
        }
    }

    /// The record that the row holds.
    pub open spec fn record(self) -> NoteLinkRecord {
        NoteLinkRecord {
            id: self.id,
            source_file_id: Id { text: self.source_file_id },
            target_text: self.target_text,
            target_file_id: id_of(self.target_file_id),
            target_heading: self.target_heading,
            link_type: self.link_type,
            ordinal: self.ordinal as u32,
        }
    }
}

/// Reads a stored row.
pub fn row_to_link(row: NoteLinkRow) -> (r: Result<NoteLinkRecord, StateError>)
    ensures
        match row.decode_error() {
            Some(error) => r == Err::<NoteLinkRecord, StateError>(error),
            None => r == Ok::<NoteLinkRecord, StateError>(row.record()),
        },
{
    if row.ordinal < 0 || row.ordinal > u32::MAX as i64 {
        return Err(StateError::InvalidInput("link ordinal is invalid"));
    }
    Ok(
        NoteLinkRecord {
            id: row.id,
            source_file_id: Id { text: row.source_file_id },
            target_text: row.target_text,
            target_file_id: stored_id(row.target_file_id),
            target_heading: row.target_heading,
            link_type: row.link_type,
            ordinal: row.ordinal as u32,
        },
    )
}

/// Parsed note metadata to persist as a derived projection.
#[derive(Clone, Debug, PartialEq, Eq)]
pub struct NoteProjectionInput {
    /// Stable file identity.
    pub file_id: Id,
    /// Owning vault.
    pub vault_id: Id,
    /// Vault-relative Markdown path.
    pub path: VaultPath,
    /// Canonical file revision analyzed.
    pub revision: Revision,
    /// Note title, when one can be derived.
    pub title: Option<String>,
    /// JSON array of aliases.
    pub aliases_json: String,
    /// Bounded frontmatter JSON object.
    pub frontmatter_json: String,
    /// Plain text projection used by full-text search and snippets.
    pub plain_text: String,
    /// First paragraph, when present.
    pub first_paragraph: Option<String>,
    /// Optional language hint.
    pub language: Option<String>,
    /// Approximate Unicode word count.
    pub word_count: u64,
    /// Canonical content hash used to detect stale analysis.
    pub analyzed_content_hash: String,
    /// Analyzer schema version.
    pub analyzer_version: u32,
    /// Aliases as a compact text field.
    pub fts_aliases: String,
    /// Tags as a compact text field.
    pub fts_tags: String,
    /// Heading titles as a compact text field.
    pub fts_headings: String,
}

/// One heading in a note projection.
#[derive(Clone, Debug, PartialEq, Eq)]
pub struct HeadingProjectionInput {
    /// Stable deterministic row identity.
    pub id: String,
    /// Heading ordinal in source order.
    pub ordinal: u32,
    /// Markdown heading level.
    pub level: u8,
    /// JSON array of ancestor heading titles.
    pub heading_path_json: String,
    /// Heading title.
    pub title: String,
    /// Inclusive source start byte.
    pub start_byte: u64,
    /// Exclusive source end byte, when known.
    pub end_byte: Option<u64>,
}

/// One tag extracted outside code spans or blocks.
#[derive(Clone, Debug, PartialEq, Eq)]
pub struct TagProjectionInput {
    /// Display-preserving tag text.
    pub tag: String,
    /// Case-folded, search-normalized tag.
    pub normalized_tag: String,
    /// Frontmatter or inline source.
    pub source: String,
}

/// One Markdown or Obsidian link.
#[derive(Clone, Debug, PartialEq, Eq)]
pub struct LinkProjectionInput {
    /// Stable deterministic row identity.
    pub id: String,
    /// Target text as written by the author.
    pub target_text: String,
    /// Resolved target file identity, when proven.
    pub target_file_id: Option<Id>,
    /// Optional heading target.
    pub target_heading: Option<String>,
    /// Markdown, wikilink, or embed.
    pub link_type: String,
    /// Link ordinal in source order.
    pub ordinal: u32,
}

/// One deterministic knowledge-map node.
#[derive(Clone, Debug, PartialEq, Eq)]
pub struct IndexNodeProjectionInput {
    /// Stable row identity scoped by vault.
    pub id: String,
    /// Optional parent row identity.
    pub parent_id: Option<String>,
    /// Root, folder, manual topic, or tag.
    pub node_type: String,
    /// Stable external node key returned to clients.
    pub stable_key: String,
    /// Display title.
    pub title: String,
    /// Optional deterministic summary.
    pub summary: Option<String>,
    /// Projection source category.
    pub source_type: String,
    /// Optional source path or configuration reference.
    pub source_ref: Option<String>,
    /// Deterministic relevance or confidence.
    pub confidence: Option<Score>,
    /// Stable sibling ordering key.
    pub sort_key: String,
    /// Input content version.
    pub content_version: String,
    /// Created timestamp for a projection node.
    pub created_at: i64,
    /// Last update timestamp.
    pub updated_at: i64,
}

/// Membership of a note in a knowledge-map node.
#[derive(Clone, Debug, PartialEq, Eq)]
pub struct IndexMembershipProjectionInput {
    /// Row identity of the node.
    pub node_id: String,
    /// Stable file identity.
    pub file_id: Id,
    /// Relevance within the node.
    pub relevance: Score,
    /// Folder, tag, or taxonomy source.
    pub source_type: String,
}

/// One note summary returned by browse and search queries.
#[derive(Clone, Debug, PartialEq, Eq)]
pub struct NoteSearchRecord {
    /// Stable file identity.
    pub file_id: Id,
    /// Vault-relative path.
    pub path: VaultPath,
    /// Canonical revision analyzed.
    pub revision: Revision,
    /// Optional title.
    pub title: Option<String>,
    /// Modified timestamp from the note projection.
    pub updated_at: i64,
    /// Bounded source snippet.
    pub snippet: String,
    /// Rank where available.
    pub score: Option<Score>,
    /// Tags associated with the note.
    pub tags: Vec<String>,
    /// Stable knowledge-map topics associated with the note.
    pub topic_ids: Vec<String>,
    /// Heading title and anchor candidates.
    pub headings: Vec<String>,
    /// Outgoing Markdown and Obsidian links.
    pub outgoing_links: Vec<NoteLinkRecord>,
    /// Number of indexed incoming links.
    pub backlink_count: u64,
}

/// Current rebuildable note text used to derive semantic embedding chunks.
#[derive(Clone, Debug, PartialEq, Eq)]
pub struct NoteEmbeddingSourceRecord {
    /// Stable canonical file identity.
    pub file_id: Id,
    /// Current vault-relative path.
    pub path: VaultPath,
    /// Canonical revision represented by this projection.
    pub revision: Revision,
    /// Optional note title.
    pub title: Option<String>,
    /// Ordered heading titles used as compact semantic context.
    pub headings: Vec<String>,
    /// Plain-text projection derived from canonical Markdown.
    pub plain_text: String,
    /// Canonical content hash analyzed into this projection.
    pub analyzed_content_hash: String,
}

/// A note with all of its subordinate projections, as the store keeps them.
#[derive(Clone, Debug, PartialEq, Eq)]
pub struct StoredNote {
    pub note: NoteProjectionInput,
    pub headings: Vec<HeadingProjectionInput>,
    pub tags: Vec<TagProjectionInput>,
    pub links: Vec<LinkProjectionInput>,
    pub created_at: i64,
    pub updated_at: i64,
}

/// A knowledge-map node of a vault.
#[derive(Clone, Debug, PartialEq, Eq)]
pub struct StoredNode {
    pub vault_id: Id,
    pub node: IndexNodeProjectionInput,
}

/// A membership in a knowledge map of a vault.
#[derive(Clone, Debug, PartialEq, Eq)]
pub struct StoredMembership {
    pub vault_id: Id,
    pub membership: IndexMembershipProjectionInput,
}

/// All derived rows.
pub struct IndexState {
    pub notes: Vec<StoredNote>,
    pub nodes: Vec<StoredNode>,
    pub memberships: Vec<StoredMembership>,
    pub statuses: Vec<IndexStatusRecord>,
}

/// Checks that a projection belongs to the vault of the call.
pub fn ensure_note_context(context: &VaultContext, note: &NoteProjectionInput) -> (r: Result<
    (),
    StateError,
>)
    ensures
        r == accepted_if(
            note.vault_id@ == context.id@,
            "note projection Vault does not match context",
        ),
{
    if !note.vault_id.same(&context.id) {
        return Err(StateError::InvalidInput("note projection Vault does not match context"));
    }
    Ok(())
}

/// Checks the bounds of a page.
pub fn validate_page(limit: u32, offset: u32) -> (r: Result<(), StateError>)
    ensures
        r == accepted_if(
            1 <= limit <= MAX_QUERY_LIMIT && offset <= 1_000_000,
            "index query page is invalid",
        ),
{
    if limit == 0 || limit > MAX_QUERY_LIMIT || offset > 1_000_000 {
        return Err(StateError::InvalidInput("index query page is invalid"));
    }
    Ok(())
}

/// Whether the byte range of a heading does not fit its columns.
pub open spec fn heading_overflows(heading: HeadingProjectionInput) -> bool {
    heading.start_byte > i64::MAX || (heading.end_byte is Some && heading.end_byte->0 > i64::MAX)
}

/// Why a note cannot be stored, if it cannot.
pub open spec fn note_fault(
    note: NoteProjectionInput,
    headings: Seq<HeadingProjectionInput>,
    vault: Seq<char>,
) -> Option<StateError> {
    if note.vault_id@ != vault {
        Some(StateError::InvalidInput("note projection Vault does not match context"))
    } else if !note.revision.storable() {
        Some(StateError::InvalidDomain(DomainError::RevisionOutOfRange))
    } else if note.word_count > i64::MAX {
        Some(StateError::InvalidInput("word count overflow"))
    } else if some_row(headings, |heading: HeadingProjectionInput| heading_overflows(heading)) {
        Some(StateError::InvalidInput("heading byte offset overflow"))
    } else {
        None
    }
}

/// Notes after one is replaced: it keeps its creation time, and everything
/// else is new.
pub open spec fn note_put(notes: Seq<StoredNote>, new: StoredNote) -> Seq<StoredNote> {
    match first_index(
        notes,
        |stored: StoredNote| stored.note.file_id@ == new.note.file_id@,
    ) {
        Some(i) => notes.update(i, StoredNote { created_at: notes[i].created_at, ..new }),
        None => notes.push(new),
    }
}

/// Replace one note and all of its subordinate projections in one step.
pub fn replace_note(
    context: &VaultContext,
    notes: Vec<StoredNote>,
    note: NoteProjectionInput,
    headings: Vec<HeadingProjectionInput>,
    tags: Vec<TagProjectionInput>,
    links: Vec<LinkProjectionInput>,
    now: i64,
) -> (r: Result<Vec<StoredNote>, StateError>)
    ensures
        match note_fault(note, headings@, context.id@) {
            Some(error) => r == Err::<Vec<StoredNote>, StateError>(error),
            None => r matches Ok(after) && after@ == note_put(
                notes@,
                StoredNote { note, headings, tags, links, created_at: now, updated_at: now },
            ),
        },
{
    match ensure_note_context(context, &note) {
        Ok(()) => {},
        Err(error) => return Err(error),
    }
    match note.revision.as_i64() {
        Ok(_) => {},
        Err(error) => return Err(StateError::InvalidDomain(error)),
    }
    if note.word_count > i64::MAX as u64 {
        return Err(StateError::InvalidInput("word count overflow"));
    }
    let overflows = |heading: &HeadingProjectionInput| -> (yes: bool)
        ensures
            yes == heading_overflows(*heading),
        {
            let end = match heading.end_byte {
                Some(end) => end > i64::MAX as u64,
                None => false,
            };
            heading.start_byte > i64::MAX as u64 || end
        };
    if any(
        headings.as_slice(),
        overflows,
        Ghost(|heading: HeadingProjectionInput| heading_overflows(heading)),
    ) {
        return Err(StateError::InvalidInput("heading byte offset overflow"));
    }
    let at = {
        let id = &note.file_id;
        let accepts = |stored: &StoredNote| -> (yes: bool)
            ensures
                yes == (stored.note.file_id@ == id@),
            { stored.note.file_id.same(id) };
        find(
            notes.as_slice(),
            accepts,
            Ghost(|stored: StoredNote| stored.note.file_id@ == note.file_id@),
        )
    };
    let mut notes = notes;
    match at {
        Some(i) => {
            let created_at: i64 = notes[i].created_at;
            notes.set(
                i,
                StoredNote { note, headings, tags, links, created_at, updated_at: now },
            );
        },
        None => {
            notes.push(
                StoredNote { note, headings, tags, links, created_at: now, updated_at: now },
            );
        },
    }
    Ok(notes)
}

/// Whether a note is the projection of a file of the vault.
pub open spec fn is_note(stored: StoredNote, vault: Seq<char>, file: Seq<char>) -> bool {
    stored.note.vault_id@ == vault && stored.note.file_id@ == file
}

/// Whether a membership is that of a file of the vault.
pub open spec fn is_member(stored: StoredMembership, vault: Seq<char>, file: Seq<char>) -> bool {
    stored.vault_id@ == vault && stored.membership.file_id@ == file
}

/// Derived rows without those of one file.
pub open spec fn note_removed(
    before: IndexState,
    after: IndexState,
    vault: Seq<char>,
    file: Seq<char>,
) -> bool {
    &&& after.notes@ == before.notes@.filter(|stored: StoredNote| !is_note(stored, vault, file))
    &&& after.memberships@ == before.memberships@.filter(
        |stored: StoredMembership| !is_member(stored, vault, file),
    )
    &&& after.nodes == before.nodes
    &&& after.statuses == before.statuses
}

/// Remove one file's derived rows without touching canonical state: its
/// headings, tags, outgoing links and text go with the note.
pub fn remove_note(context: &VaultContext, state: IndexState, file_id: &Id) -> (r: IndexState)
    ensures
        note_removed(state, r, context.id@, file_id@),
{
    let other_note = |stored: &StoredNote| -> (yes: bool)
        ensures
            yes == !is_note(*stored, context.id@, file_id@),
        { !(stored.note.vault_id.same(&context.id) && stored.note.file_id.same(file_id)) };
    let other_member = |stored: &StoredMembership| -> (yes: bool)
        ensures
            yes == !is_member(*stored, context.id@, file_id@),
        { !(stored.vault_id.same(&context.id) && stored.membership.file_id.same(file_id)) };
    IndexState {
        notes: keep(
            state.notes,
            other_note,
            Ghost(|stored: StoredNote| !is_note(stored, context.id@, file_id@)),
        ),
        memberships: keep(
            state.memberships,
            other_member,
            Ghost(|stored: StoredMembership| !is_member(stored, context.id@, file_id@)),
        ),
        nodes: state.nodes,
        statuses: state.statuses,
    }
}

/// Why a knowledge map is refused, if it is.
pub open spec fn map_fault(status: IndexStatusRecord, vault: Seq<char>) -> Option<StateError> {
    if status.vault_id@ != vault {
        Some(StateError::InvalidInput("index status Vault does not match context"))
    } else if !status.index_revision.storable() {
        Some(StateError::InvalidDomain(DomainError::RevisionOutOfRange))
    } else if status.indexed_entries > i64::MAX {
        Some(StateError::InvalidInput("indexed entry count overflow"))
    } else if status.indexed_notes > i64::MAX {
        Some(StateError::InvalidInput("indexed note count overflow"))
    } else if status.indexed_bytes > i64::MAX {
        Some(StateError::InvalidInput("indexed byte count overflow"))
    } else {
        None
    }
}

/// Nodes of a vault.
pub open spec fn bound_nodes(nodes: Seq<IndexNodeProjectionInput>, vault: Id) -> Seq<StoredNode> {
    nodes.map_values(|node: IndexNodeProjectionInput| StoredNode { vault_id: vault, node })
}

/// Memberships of a vault.
pub open spec fn bound_memberships(
    memberships: Seq<IndexMembershipProjectionInput>,
    vault: Id,
) -> Seq<StoredMembership> {
    memberships.map_values(
        |membership: IndexMembershipProjectionInput|
            StoredMembership { vault_id: vault, membership },
    )
}

/// Derived rows after the knowledge map of a vault is replaced.
pub open spec fn map_replaced(
    before: IndexState,
    after: IndexState,
    vault: Id,
    nodes: Seq<IndexNodeProjectionInput>,
    memberships: Seq<IndexMembershipProjectionInput>,
    status: IndexStatusRecord,
) -> bool {
    &&& after.notes == before.notes
    &&& after.nodes@ == before.nodes@.filter(|stored: StoredNode| stored.vault_id@ != vault@)
        + bound_nodes(nodes, vault)
    &&& after.memberships@ == before.memberships@.filter(
        |stored: StoredMembership| stored.vault_id@ != vault@,
    ) + bound_memberships(memberships, vault)
    &&& after.statuses@ == before.statuses@.filter(
        |stored: IndexStatusRecord| stored.vault_id@ != vault@,
    ).push(status)
}

/// Binds nodes to a vault.
fn bind_nodes(nodes: Vec<IndexNodeProjectionInput>, vault: &Id) -> (r: Vec<StoredNode>)
    ensures
        r@ == bound_nodes(nodes@, *vault),
{
    let ghost all = nodes@;
    let mut rest = nodes;
    let n: usize = rest.len();
    let mut out: Vec<StoredNode> = Vec::new();
    let mut i: usize = 0;
    assert(rest@ =~= all.skip(0));
    while i < n
        invariant
            i <= n == all.len(),
            rest@ == all.skip(i as int),
            out@ == bound_nodes(all.take(i as int), *vault),
        decreases n - i,
    {
        let node = rest.remove(0);
        out.push(StoredNode { vault_id: vault.duplicate(), node });
        i += 1;
        assert(rest@ =~= all.skip(i as int));
        assert(out@ =~= bound_nodes(all.take(i as int), *vault));
    }
    assert(all.take(n as int) =~= all);
    out
}

/// Binds memberships to a vault.
fn bind_memberships(memberships: Vec<IndexMembershipProjectionInput>, vault: &Id) -> (r: Vec<
    StoredMembership,
>)
    ensures
        r@ == bound_memberships(memberships@, *vault),
{
    let ghost all = memberships@;
    let mut rest = memberships;
    let n: usize = rest.len();
    let mut out: Vec<StoredMembership> = Vec::new();
    let mut i: usize = 0;
    assert(rest@ =~= all.skip(0));
    while i < n
        invariant
            i <= n == all.len(),
            rest@ == all.skip(i as int),
            out@ == bound_memberships(all.take(i as int), *vault),
        decreases n - i,
    {
        let membership = rest.remove(0);
        out.push(StoredMembership { vault_id: vault.duplicate(), membership });
        i += 1;
        assert(rest@ =~= all.skip(i as int));
        assert(out@ =~= bound_memberships(all.take(i as int), *vault));
    }
    assert(all.take(n as int) =~= all);
    out
}

/// Replace a vault's whole deterministic knowledge map and its coverage status.
pub fn replace_knowledge_map(
    context: &VaultContext,
    state: IndexState,
    nodes: Vec<IndexNodeProjectionInput>,
    memberships: Vec<IndexMembershipProjectionInput>,
    status: IndexStatusRecord,
) -> (r: Result<IndexState, StateError>)
    ensures
        match map_fault(status, context.id@) {
            Some(error) => r == Err::<IndexState, StateError>(error),
            None => r matches Ok(after) && map_replaced(
                state,
                after,
                context.id,
                nodes@,
                memberships@,
                status,
            ),
        },
{
    if !status.vault_id.same(&context.id) {
        return Err(StateError::InvalidInput("index status Vault does not match context"));
    }
    match status.index_revision.as_i64() {
        Ok(_) => {},
        Err(error) => return Err(StateError::InvalidDomain(error)),
    }
    if status.indexed_entries > i64::MAX as u64 {
        return Err(StateError::InvalidInput("indexed entry count overflow"));
    }
    if status.indexed_notes > i64::MAX as u64 {
        return Err(StateError::InvalidInput("indexed note count overflow"));
    }
    if status.indexed_bytes > i64::MAX as u64 {
        return Err(StateError::InvalidInput("indexed byte count overflow"));
    }
    let cleared = clear_map(context, state);
    let mut all_nodes = cleared.nodes;
    let mut new_nodes = bind_nodes(nodes, &context.id);
    all_nodes.append(&mut new_nodes);
    let mut all_memberships = cleared.memberships;
    let mut new_memberships = bind_memberships(memberships, &context.id);
    all_memberships.append(&mut new_memberships);
    let mut statuses = cleared.statuses;
    statuses.push(status);
    Ok(
        IndexState {
            notes: cleared.notes,
            nodes: all_nodes,
            memberships: all_memberships,
            statuses,
        },
    )
}

/// Derived rows without the knowledge map of a vault.
pub open spec fn map_cleared(before: IndexState, after: IndexState, vault: Seq<char>) -> bool {
    &&& after.notes == before.notes
    &&& after.nodes@ == before.nodes@.filter(|stored: StoredNode| stored.vault_id@ != vault)
    &&& after.memberships@ == before.memberships@.filter(
        |stored: StoredMembership| stored.vault_id@ != vault,
    )
    &&& after.statuses@ == before.statuses@.filter(
        |stored: IndexStatusRecord| stored.vault_id@ != vault,
    )
}

/// Removes the knowledge map of a vault.
fn clear_map(context: &VaultContext, state: IndexState) -> (r: IndexState)
    ensures
        map_cleared(state, r, context.id@),
{
    let other_node = |stored: &StoredNode| -> (yes: bool)
        ensures
            yes == (stored.vault_id@ != context.id@),
        { !stored.vault_id.same(&context.id) };
    let other_member = |stored: &StoredMembership| -> (yes: bool)
        ensures
            yes == (stored.vault_id@ != context.id@),
        { !stored.vault_id.same(&context.id) };
    let other_status = |stored: &IndexStatusRecord| -> (yes: bool)
        ensures
            yes == (stored.vault_id@ != context.id@),
        { !stored.vault_id.same(&context.id) };
    IndexState {
        notes: state.notes,
        nodes: keep(
            state.nodes,
            other_node,
            Ghost(|stored: StoredNode| stored.vault_id@ != context.id@),
        ),
        memberships: keep(
            state.memberships,
            other_member,
            Ghost(|stored: StoredMembership| stored.vault_id@ != context.id@),
        ),
        statuses: keep(
            state.statuses,
            other_status,
            Ghost(|stored: IndexStatusRecord| stored.vault_id@ != context.id@),
        ),
    }
}

/// Delete all derived rows for one vault before a rebuild.
pub fn clear_vault(context: &VaultContext, state: IndexState) -> (r: IndexState)
    ensures
        r.notes@ == state.notes@.filter(
            |stored: StoredNote| stored.note.vault_id@ != context.id@,
        ),
        r.nodes@ == state.nodes@.filter(|stored: StoredNode| stored.vault_id@ != context.id@),
        r.memberships@ == state.memberships@.filter(
            |stored: StoredMembership| stored.vault_id@ != context.id@,
        ),
        r.statuses@ == state.statuses@.filter(
            |stored: IndexStatusRecord| stored.vault_id@ != context.id@,
        ),
{
    let cleared = clear_map(context, state);
    let other_note = |stored: &StoredNote| -> (yes: bool)
        ensures
            yes == (stored.note.vault_id@ != context.id@),
        { !stored.note.vault_id.same(&context.id) };
    IndexState {
        notes: keep(
            cleared.notes,
            other_note,
            Ghost(|stored: StoredNote| stored.note.vault_id@ != context.id@),
        ),
        nodes: cleared.nodes,
        memberships: cleared.memberships,
        statuses: cleared.statuses,
    }
}

/// The position of the latest status for a vault.
pub fn status(context: &VaultContext, statuses: &[IndexStatusRecord]) -> (r: Option<usize>)
    ensures
        match r {
            Some(i) => i < statuses@.len() && first_index(
                statuses@,
                |stored: IndexStatusRecord| stored.vault_id@ == context.id@,
            ) == Some(i as int),
            None => first_index(
                statuses@,
                |stored: IndexStatusRecord| stored.vault_id@ == context.id@,
            ) is None,
        },
{
    let accepts = |stored: &IndexStatusRecord| -> (yes: bool)
        ensures
            yes == (stored.vault_id@ == context.id@),
        { stored.vault_id.same(&context.id) };
    find(
        statuses,
        accepts,
        Ghost(|stored: IndexStatusRecord| stored.vault_id@ == context.id@),
    )
}

/// Whether this is the node with a row identity in a vault.
pub open spec fn is_node(stored: StoredNode, vault: Seq<char>, id: Seq<char>) -> bool {
    stored.vault_id@ == vault && stored.node.id@ == id
}

/// The parent of a node, where it has one.
pub open spec fn parent_of(nodes: Seq<StoredNode>, node: StoredNode, vault: Seq<char>) -> Option<
    StoredNode,
> {
    match node.node.parent_id {
        Some(id) => first_row(nodes, |stored: StoredNode| is_node(stored, vault, id@)),
        None => None,
    }
}

/// The position of a node's parent.
fn find_parent(nodes: &[StoredNode], node: &StoredNode, vault: &Id) -> (r: Option<usize>)
    ensures
        match r {
            Some(i) => i < nodes@.len() && parent_of(nodes@, *node, vault@) == Some(
                nodes@[i as int],
            ),
            None => parent_of(nodes@, *node, vault@) is None,
        },
{
    match &node.node.parent_id {
        Some(id) => {
            let accepts = |stored: &StoredNode| -> (yes: bool)
                ensures
                    yes == is_node(*stored, vault@, id@),
                { stored.vault_id.same(vault) && text_eq(stored.node.id.as_str(), id.as_str()) };
            find(nodes, accepts, Ghost(|stored: StoredNode| is_node(stored, vault@, id@)))
        },
        None => None,
    }
}

/// Whether a node is listed under a parent: under the node with that key, or
/// at the top where no key is given.
pub open spec fn listed_under(
    nodes: Seq<StoredNode>,
    node: StoredNode,
    vault: Seq<char>,
    parent_key: Option<&str>,
) -> bool {
    &&& node.vault_id@ == vault
    &&& match parent_key {
        Some(key) => parent_of(nodes, node, vault) is Some && parent_of(
            nodes,
            node,
            vault,
        )->0.node.stable_key@ == key@,
        None => node.node.parent_id is None,
    }
}

/// Sort keys of nodes.
pub open spec fn node_names(nodes: Seq<StoredNode>) -> Seq<String> {
    nodes.map_values(|stored: StoredNode| stored.node.sort_key)
}

/// Where a node stands among its siblings: by sort key, then by row identity.
pub open spec fn node_key(nodes: Seq<StoredNode>, i: int) -> SortKey {
    SortKey {
        first: names_before(node_names(nodes), nodes[i].node.sort_key@) as i128,
        second: 0,
        third: 0,
        id: nodes[i].node.id,
    }
}

/// Where nodes stand among their siblings.
pub open spec fn node_keys(nodes: Seq<StoredNode>) -> Seq<SortKey> {
    Seq::new(nodes.len(), |i: int| node_key(nodes, i))
}

/// Which nodes are listed under a parent.
pub open spec fn nodes_under(nodes: Seq<StoredNode>, vault: Seq<char>, parent_key: Option<&str>) -> Seq<
    bool,
> {
    nodes.map_values(|stored: StoredNode| listed_under(nodes, stored, vault, parent_key))
}

/// Number of a node's direct memberships.
pub open spec fn member_count(memberships: Seq<StoredMembership>, node: StoredNode) -> nat {
    count(
        memberships,
        |stored: StoredMembership|
            stored.vault_id@ == node.vault_id@ && stored.membership.node_id@ == node.node.id@,
    )
}

/// What a listing shows of a node.
pub open spec fn node_record(
    nodes: Seq<StoredNode>,
    memberships: Seq<StoredMembership>,
    vault: Seq<char>,
    stored: StoredNode,
) -> IndexNodeRecord {
    IndexNodeRecord {
        stable_key: stored.node.stable_key,
        parent_key: match parent_of(nodes, stored, vault) {
            Some(parent) => Some(parent.node.stable_key),
            None => None,
        },
        node_type: stored.node.node_type,
        title: stored.node.title,
        summary: stored.node.summary,
        source_type: stored.node.source_type,
        sort_key: stored.node.sort_key,
        member_count: member_count(memberships, stored) as u64,
    }
}

/// Sort keys of all nodes.
fn names_of_nodes(nodes: &[StoredNode]) -> (r: Vec<String>)
    ensures
        r@ == node_names(nodes@),
{
    let mut names: Vec<String> = Vec::new();
    let mut i: usize = 0;
    while i < nodes.len()
        invariant
            i <= nodes@.len(),
            names@ == node_names(nodes@).take(i as int),
        decreases nodes@.len() - i,
    {
        names.push(nodes[i].node.sort_key.clone());
        i += 1;
        assert(names@ =~= node_names(nodes@).take(i as int));
    }
    assert(names@ =~= node_names(nodes@));
    names
}

/// List deterministic map nodes under an optional stable parent key.
pub fn list_nodes(
    context: &VaultContext,
    nodes: &[StoredNode],
    memberships: &[StoredMembership],
    parent_key: Option<&str>,
    limit: u32,
    offset: u32,
) -> (r: Result<Vec<IndexNodeRecord>, StateError>)
    ensures
        if !(1 <= limit <= MAX_QUERY_LIMIT && offset <= 1_000_000) {
            r == invalid::<Vec<IndexNodeRecord>>("index query page is invalid")
        } else {
            r matches Ok(records) && exists|picked: Seq<usize>|
                {
                    &&& #[trigger] is_page(
                        node_keys(nodes@),
                        nodes_under(nodes@, context.id@, parent_key),
                        false,
                        limit as nat,
                        offset as nat,
                        picked,
                    )
                    &&& records@ == Seq::new(
                        picked.len(),
                        |k: int|
                            node_record(
                                nodes@,
                                memberships@,
                                context.id@,
                                nodes@[picked[k] as int],
                            ),
                    )
                }
        },
{
    match validate_page(limit, offset) {
        Ok(()) => {},
        Err(error) => return Err(error),
    }
    let accepts = |stored: &StoredNode| -> (yes: bool)
        ensures
            yes == listed_under(nodes@, *stored, context.id@, parent_key),
        {
            let placed = match parent_key {
                Some(key) => match find_parent(nodes, stored, &context.id) {
                    Some(i) => text_eq(nodes[i].node.stable_key.as_str(), key),
                    None => false,
                },
                None => stored.node.parent_id.is_none(),
            };
            placed && stored.vault_id.same(&context.id)
        };
    let eligible = marks(
        nodes,
        accepts,
        Ghost(|stored: StoredNode| listed_under(nodes@, stored, context.id@, parent_key)),
    );
    assert(eligible@ =~= nodes_under(nodes@, context.id@, parent_key));
    let names = names_of_nodes(nodes);
    let mut order_keys: Vec<SortKey> = Vec::new();
    let ghost wanted = node_keys(nodes@);
    let mut i: usize = 0;
    while i < nodes.len()
        invariant
            i <= nodes@.len(),
            names@ == node_names(nodes@),
            wanted == node_keys(nodes@),
            order_keys@ == wanted.take(i as int),
        decreases nodes@.len() - i,
    {
        let rank: usize = count_before(names.as_slice(), nodes[i].node.sort_key.as_str());
        order_keys.push(
            SortKey { first: rank as i128, second: 0, third: 0, id: nodes[i].node.id.clone() },
        );
        i += 1;
        assert(order_keys@ =~= wanted.take(i as int));
    }
    assert(order_keys@ =~= wanted);
    let picked = page(order_keys.as_slice(), eligible.as_slice(), false, limit, offset);
    assert(is_page(
        node_keys(nodes@),
        nodes_under(nodes@, context.id@, parent_key),
        false,
        limit as nat,
        offset as nat,
        picked@,
    ));
    proof {
        crate::order::law_page_is_bounded(
            wanted,
            eligible@,
            false,
            limit as nat,
            offset as nat,
            picked@,
        );
    }
    let mut records: Vec<IndexNodeRecord> = Vec::new();
    let mut n: usize = 0;
    while n < picked.len()
        invariant
            n <= picked@.len(),
            forall|k: int| 0 <= k < picked@.len() ==> (#[trigger] picked@[k]) < nodes@.len(),
            records@ == Seq::new(
                n as nat,
                |k: int|
                    node_record(nodes@, memberships@, context.id@, nodes@[picked@[k] as int]),
            ),
        decreases picked@.len() - n,
    {
        let stored = &nodes[picked[n]];
        let parent_key = match find_parent(nodes, stored, &context.id) {
            Some(i) => Some(nodes[i].node.stable_key.clone()),
            None => None,
        };
        let member = |other: &StoredMembership| -> (yes: bool)
            ensures
                yes == (other.vault_id@ == stored.vault_id@ && other.membership.node_id@
                    == stored.node.id@),
            {
                other.vault_id.same(&stored.vault_id) && text_eq(
                    other.membership.node_id.as_str(),
                    stored.node.id.as_str(),
                )
            };
        let members: usize = count_rows(
            memberships,
            member,
            Ghost(
                |other: StoredMembership|
                    other.vault_id@ == stored.vault_id@ && other.membership.node_id@
                        == stored.node.id@,
            ),
        );
        records.push(
            IndexNodeRecord {
                stable_key: stored.node.stable_key.clone(),
                parent_key,
                node_type: stored.node.node_type.clone(),
                title: stored.node.title.clone(),
                summary: duplicate_text(&stored.node.summary),
                source_type: stored.node.source_type.clone(),
                sort_key: stored.node.sort_key.clone(),
                member_count: members as u64,
            },
        );
        n += 1;
        assert(records@ =~= Seq::new(
            n as nat,
            |k: int| node_record(nodes@, memberships@, context.id@, nodes@[picked@[k] as int]),
        ));
    }
    Ok(records)
}

} // verus!
