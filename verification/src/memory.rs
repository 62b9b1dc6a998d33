//! Vault-scoped durable memory projections and candidate state.
//!
//! Canonical memory Markdown is written elsewhere. This module decides about
//! the operational projection and its rebuildable search metadata.

use vstd::prelude::*;

use crate::background::{number_of, stored_number};
use crate::current_memory::checked;
use crate::domain::{
    duplicate_optional, duplicate_path, duplicate_text, id_of, path_of, stored_id, stored_path,
    DomainError, Id, Revision, VaultContext, VaultPath,
};
use crate::error::{accepted_if, invalid, StateError};
use crate::files::{revision_of, stored_revision};
use crate::json::{compact_json, json_strings, parse_strings, Json};
use crate::order::{
    count_before, is_order, is_page, is_selection, keys, keys_of, names_before, page, select,
    sorted_order, Keyed, SortKey,
};
use crate::rows::{
    any, count, count_rows, each, find, first_index, first_row, is_positions, keep,
    lemma_filter_drops, lemma_first_index, lemma_push_keeps_others, lemma_put_is_found,
    lemma_update_keeps_others, marks, positions, some_row,
};
use crate::score::Score;
use crate::search::{lowercase_chars, lowercased};
use crate::text::{
    ascending, blank, byte_len, bytes_of, copy_texts, has_prefix, insert_sorted, is_blank,
    is_listed, join, joined, label_ok, is_label, listed, starts_with, text_eq, texts, trim, trimmed,
};

pub mod laws;

verus! {

/// Most memories that one page shows.
pub const MAX_MEMORY_LIMIT: u32 = 200;

/// Most candidates that one page shows.
pub const MAX_CANDIDATE_LIMIT: u32 = 200;

/// Durable memory projection metadata.
#[derive(Clone, Debug, PartialEq, Eq)]
pub struct MemoryRecord {
    /// Stable memory identity.
    pub id: Id,
    /// Isolation boundary.
    pub vault_id: Id,
    /// Initial memory type.
    pub memory_type: String,
    /// Candidate, active, superseded, stale, archived, rejected or quarantined.
    pub status: String,
    /// Atomic proposition body.
    pub content: String,
    /// Deterministically normalized proposition.
    pub normalized_content: String,
    /// SHA-256 identity of normalized content.
    pub content_hash: String,
    /// Owner-supplied importance.
    pub importance: Score,
    /// Evidence or model confidence.
    pub confidence: Score,
    /// Explicit, extracted, imported, or direct Markdown origin.
    pub origin: String,
    /// Optimistic memory metadata revision.
    pub revision: Revision,
    /// Canonical managed file identity.
    pub canonical_file_id: Option<Id>,
    /// Canonical managed Markdown path.
    pub canonical_path: Option<VaultPath>,
    /// Current canonical file revision.
    pub canonical_revision: Option<Revision>,
    /// Temporal start.
    pub valid_from: Option<i64>,
    /// Temporal end.
    pub valid_to: Option<i64>,
    /// Provider, prompt and pipeline metadata, never logged by default.
    pub extraction: Json,
    /// Creation time.
    pub created_at: i64,
    /// Last metadata update.
    pub updated_at: i64,
    /// Last successful recall.
    pub last_recalled_at: Option<i64>,
    /// Number of successful recalls.
    pub recall_count: u64,
}

/// A memory as stored.
#[derive(Clone, Debug, PartialEq, Eq)]
pub struct MemoryRow {
    pub id: String,
    pub vault_id: String,
    pub memory_type: String,
    pub status: String,
    pub content: String,
    pub normalized_content: String,
    pub content_hash: String,
    pub importance: Score,
    pub confidence: Score,
    pub origin: String,
    pub revision: i64,
    pub canonical_file_id: Option<String>,
    pub canonical_path: Option<String>,
    pub canonical_revision: Option<i64>,
    pub valid_from: Option<i64>,
    pub valid_to: Option<i64>,
    pub extraction_json: String,
    pub created_at: i64,
    pub updated_at: i64,
    pub last_recalled_at: Option<i64>,
    pub recall_count: i64,
}

impl MemoryRow {
    /// Why the row cannot be read, if it cannot.
    pub open spec fn decode_error(self) -> Option<StateError> {
        if self.revision < 0 {
            Some(StateError::InvalidDomain(DomainError::RevisionOutOfRange))
        } else if self.canonical_revision is Some && self.canonical_revision->0 < 0 {
            Some(StateError::InvalidDomain(DomainError::RevisionOutOfRange))
        } else if compact_json(self.extraction_json@) is None {
            Some(StateError::Json)
        } else if self.recall_count < 0 {
            Some(StateError::InvalidInput("memory recall count is invalid"))
        } else {
            None
        }
    }

    /// The record that the row holds.
    pub open spec fn record(self, extraction: Json) -> MemoryRecord {
        MemoryRecord {
            id: Id { text: self.id },
            vault_id: Id { text: self.vault_id },
            memory_type: self.memory_type,
            status: self.status,
            content: self.content,
            normalized_content: self.normalized_content,
            content_hash: self.content_hash,
            importance: self.importance,
            confidence: self.confidence,
            origin: self.origin,
            revision: Revision { value: self.revision as u64 },
            canonical_file_id: id_of(self.canonical_file_id),
            canonical_path: path_of(self.canonical_path),
            canonical_revision: revision_of(self.canonical_revision),
            valid_from: self.valid_from,
            valid_to: self.valid_to,
            extraction,
            created_at: self.created_at,
            updated_at: self.updated_at,
            last_recalled_at: self.last_recalled_at,
            recall_count: self.recall_count as u64,
        }
    }

    /// Whether the documents of a record are those of the row.
    pub open spec fn holds_documents(self, extraction: Json) -> bool {
        &&& Some(extraction@) == compact_json(self.extraction_json@)
    }
}

/// Reads a stored row.
pub fn row_to_memory(row: MemoryRow) -> (r: Result<MemoryRecord, StateError>)
    ensures
        match row.decode_error() {
            Some(error) => r == Err::<MemoryRecord, StateError>(error),
            None => r matches Ok(record) && record == row.record(record.extraction)
                && row.holds_documents(record.extraction),
        },
{
    let revision = match Revision::from_stored(row.revision) {
        Ok(revision) => revision,
        Err(error) => return Err(StateError::InvalidDomain(error)),
    };
    let canonical_revision = match stored_revision(row.canonical_revision) {
        Ok(revision) => revision,
        Err(error) => return Err(error),
    };
    let extraction = match Json::parse(row.extraction_json.as_str()) {
        Ok(document) => document,
        Err(error) => return Err(error),
    };
    if row.recall_count < 0 {
        return Err(StateError::InvalidInput("memory recall count is invalid"));
    }
    Ok(
        MemoryRecord {
            id: Id { text: row.id },
            vault_id: Id { text: row.vault_id },
            memory_type: row.memory_type,
            status: row.status,
            content: row.content,
            normalized_content: row.normalized_content,
            content_hash: row.content_hash,
            importance: row.importance,
            confidence: row.confidence,
            origin: row.origin,
            revision,
            canonical_file_id: stored_id(row.canonical_file_id),
            canonical_path: stored_path(row.canonical_path),
            canonical_revision,
            valid_from: row.valid_from,
            valid_to: row.valid_to,
            extraction,
            created_at: row.created_at,
            updated_at: row.updated_at,
            last_recalled_at: row.last_recalled_at,
            recall_count: row.recall_count as u64,
        },
    )
}

/// Provenance for one durable memory.
#[derive(Clone, Debug, PartialEq, Eq)]
pub struct MemorySourceRecord {
    /// Stable source identity.
    pub id: Id,
    /// Isolation boundary.
    pub vault_id: Id,
    /// Owning memory.
    pub memory_id: Id,
    /// Note, explicit agent, admin, Markdown, or import.
    pub source_type: String,
    /// Source note identity when known.
    pub note_file_id: Option<Id>,
    /// Source note path when known.
    pub note_path: Option<VaultPath>,
    /// Source revision when known.
    pub note_revision: Option<Revision>,
    /// Heading path anchor.
    pub heading_path: Vec<String>,
    /// Inclusive source line.
    pub start_line: Option<u32>,
    /// Inclusive source end line.
    pub end_line: Option<u32>,
    /// Hash of a bounded source excerpt.
    pub excerpt_hash: Option<String>,
    /// Redacted actor identity.
    pub actor_id: Option<String>,
    /// Creation time.
    pub created_at: i64,
}

/// A provenance row as stored.
#[derive(Clone, Debug, PartialEq, Eq)]
pub struct SourceRow {
    pub id: String,
    pub vault_id: String,
    pub memory_id: String,
    pub source_type: String,
    pub note_file_id: Option<String>,
    pub note_path: Option<String>,
    pub note_revision: Option<i64>,
    pub heading_path_json: String,
    pub start_line: Option<i64>,
    pub end_line: Option<i64>,
    pub excerpt_hash: Option<String>,
    pub actor_id: Option<String>,
    pub created_at: i64,
}

impl SourceRow {
    /// Why the row cannot be read, if it cannot.
    pub open spec fn decode_error(self) -> Option<StateError> {
        if self.note_revision is Some && self.note_revision->0 < 0 {
            Some(StateError::InvalidDomain(DomainError::RevisionOutOfRange))
        } else if json_strings(self.heading_path_json@) is None {
            Some(StateError::Json)
        } else if self.start_line is Some && !(0 <= self.start_line->0 <= u32::MAX) {
            Some(StateError::InvalidInput("source line is invalid"))
        } else if self.end_line is Some && !(0 <= self.end_line->0 <= u32::MAX) {
            Some(StateError::InvalidInput("source line is invalid"))
        } else {
            None
        }
    }

    /// The record that the row holds.
    pub open spec fn record(self, heading_path: Vec<String>) -> MemorySourceRecord {
        MemorySourceRecord {
            id: Id { text: self.id },
            vault_id: Id { text: self.vault_id },
            memory_id: Id { text: self.memory_id },
            source_type: self.source_type,
            note_file_id: id_of(self.note_file_id),
            note_path: path_of(self.note_path),
            note_revision: revision_of(self.note_revision),
            heading_path,
            start_line: number_of(self.start_line),
            end_line: number_of(self.end_line),
            excerpt_hash: self.excerpt_hash,
            actor_id: self.actor_id,
            created_at: self.created_at,
        }
    }

    /// Whether the documents of a record are those of the row.
    pub open spec fn holds_documents(self, heading_path: Vec<String>) -> bool {
        &&& Some(texts(heading_path@)) == json_strings(self.heading_path_json@)
    }
}

/// Reads a stored row.
pub fn row_to_source(row: SourceRow) -> (r: Result<MemorySourceRecord, StateError>)
    ensures
        match row.decode_error() {
            Some(error) => r == Err::<MemorySourceRecord, StateError>(error),
            None => r matches Ok(record) && record == row.record(record.heading_path)
                && row.holds_documents(record.heading_path),
        },
{
    let note_revision = match stored_revision(row.note_revision) {
        Ok(revision) => revision,
        Err(error) => return Err(error),
    };
    let heading_path = match parse_strings(row.heading_path_json.as_str()) {
        Ok(values) => values,
        Err(error) => return Err(error),
    };
    let start_line = match stored_number(row.start_line, "source line is invalid") {
        Ok(number) => number,
        Err(error) => return Err(error),
    };
    let end_line = match stored_number(row.end_line, "source line is invalid") {
        Ok(number) => number,
        Err(error) => return Err(error),
    };
    Ok(
        MemorySourceRecord {
            id: Id { text: row.id },
            vault_id: Id { text: row.vault_id },
            memory_id: Id { text: row.memory_id },
            source_type: row.source_type,
            note_file_id: stored_id(row.note_file_id),
            note_path: stored_path(row.note_path),
            note_revision,
            heading_path,
            start_line,
            end_line,
            excerpt_hash: row.excerpt_hash,
            actor_id: row.actor_id,
            created_at: row.created_at,
        },
    )
}

/// One relation between two memories in one vault.
#[derive(Clone, Debug, PartialEq, Eq)]
pub struct MemoryRelationRecord {
    /// Stable relation identity.
    pub id: Id,
    /// Isolation boundary.
    pub vault_id: Id,
    /// Source memory.
    pub source_memory_id: Id,
    /// Target memory.
    pub target_memory_id: Id,
    /// Supersedes, supports, contradicts, refines, related_to or derived_from.
    pub relation_type: String,
    /// Relation confidence.
    pub confidence: Score,
    /// Creation time.
    pub created_at: i64,
}

/// A validated automatic extraction candidate.
#[derive(Clone, Debug, PartialEq, Eq)]
pub struct MemoryCandidateRecord {
    /// Stable candidate identity.
    pub id: Id,
    /// Isolation boundary.
    pub vault_id: Id,
    /// Source note identity.
    pub source_file_id: Id,
    /// Source note path at extraction time.
    pub source_path: VaultPath,
    /// Source revision at extraction time.
    pub source_revision: Revision,
    /// Structured candidate proposal without raw note body.
    pub candidate: Json,
    /// Candidate proposition hash.
    pub content_hash: String,
    /// Deterministic source, pipeline and candidate fingerprint.
    pub extraction_fingerprint: String,
    /// Candidate confidence.
    pub confidence: Score,
    /// Candidate importance.
    pub importance: Score,
    /// Decision about the candidate.
    pub decision: Option<String>,
    /// Redacted reason of the decision.
    pub decision_reason: Option<String>,
    /// Creation time.
    pub created_at: i64,
    /// Time of the decision.
    pub reviewed_at: Option<i64>,
}

/// A candidate as stored.
#[derive(Clone, Debug, PartialEq, Eq)]
pub struct CandidateRow {
    pub id: String,
    pub vault_id: String,
    pub source_file_id: String,
    pub source_path: String,
    pub source_revision: i64,
    pub candidate_json: String,
    pub content_hash: String,
    pub extraction_fingerprint: String,
    pub confidence: Score,
    pub importance: Score,
    pub decision: Option<String>,
    pub decision_reason: Option<String>,
    pub created_at: i64,
    pub reviewed_at: Option<i64>,
}

impl CandidateRow {
    /// Why the row cannot be read, if it cannot.
    pub open spec fn decode_error(self) -> Option<StateError> {
        if self.source_revision < 0 {
            Some(StateError::InvalidDomain(DomainError::RevisionOutOfRange))
        } else if compact_json(self.candidate_json@) is None {
            Some(StateError::Json)
        } else {
            None
        }
    }

    /// The record that the row holds.
    pub open spec fn record(self, candidate: Json) -> MemoryCandidateRecord {
        MemoryCandidateRecord {
            id: Id { text: self.id },
            vault_id: Id { text: self.vault_id },
            source_file_id: Id { text: self.source_file_id },
            source_path: VaultPath { text: self.source_path },
            source_revision: Revision { value: self.source_revision as u64 },
            candidate,
            content_hash: self.content_hash,
            extraction_fingerprint: self.extraction_fingerprint,
            confidence: self.confidence,
            importance: self.importance,
            decision: self.decision,
            decision_reason: self.decision_reason,
            created_at: self.created_at,
            reviewed_at: self.reviewed_at,
        }
    }

    /// Whether the documents of a record are those of the row.
    pub open spec fn holds_documents(self, candidate: Json) -> bool {
        &&& Some(candidate@) == compact_json(self.candidate_json@)
    }
}

/// Reads a stored row.
pub fn row_to_candidate(row: CandidateRow) -> (r: Result<MemoryCandidateRecord, StateError>)
    ensures
        match row.decode_error() {
            Some(error) => r == Err::<MemoryCandidateRecord, StateError>(error),
            None => r matches Ok(record) && record == row.record(record.candidate)
                && row.holds_documents(record.candidate),
        },
{
    let source_revision = match Revision::from_stored(row.source_revision) {
        Ok(revision) => revision,
        Err(error) => return Err(StateError::InvalidDomain(error)),
    };
    let candidate = match Json::parse(row.candidate_json.as_str()) {
        Ok(document) => document,
        Err(error) => return Err(error),
    };
    Ok(
        MemoryCandidateRecord {
            id: Id { text: row.id },
            vault_id: Id { text: row.vault_id },
            source_file_id: Id { text: row.source_file_id },
            source_path: VaultPath { text: row.source_path },
            source_revision,
            candidate,
            content_hash: row.content_hash,
            extraction_fingerprint: row.extraction_fingerprint,
            confidence: row.confidence,
            importance: row.importance,
            decision: row.decision,
            decision_reason: row.decision_reason,
            created_at: row.created_at,
            reviewed_at: row.reviewed_at,
        },
    )
}

/// A memory plus its sourced projections.
#[derive(Clone, Debug, PartialEq, Eq)]
pub struct MemoryBundle {
    /// Memory row.
    pub memory: MemoryRecord,
    /// Provenance sources.
    pub sources: Vec<MemorySourceRecord>,
    /// Normalized entities.
    pub entities: Vec<String>,
    /// Display tags.
    pub tags: Vec<String>,
    /// Memory relations.
    pub relations: Vec<MemoryRelationRecord>,
}

/// A memory with the rows that belong to it alone, as the store keeps them.
#[derive(Clone, Debug, PartialEq, Eq)]
pub struct StoredMemory {
    pub memory: MemoryRecord,
    pub sources: Vec<MemorySourceRecord>,
    pub entities: Vec<String>,
    pub tags: Vec<String>,
}

impl StoredMemory {
    /// Whether this is the memory with the given identity in a vault.
    pub open spec fn is(self, vault: Seq<char>, id: Seq<char>) -> bool {
        self.memory.vault_id@ == vault && self.memory.id@ == id
    }

    /// Whether this is the memory with the given identity in a vault.
    pub fn is_memory(&self, vault: &Id, id: &Id) -> (r: bool)
        ensures
            r == self.is(vault@, id@),
    {
        self.memory.vault_id.same(vault) && self.memory.id.same(id)
    }
}

/// The form in which legacy tags and entities are compared: without surrounding
/// white space, every character in lower case.
pub open spec fn normal_term(text: Seq<char>) -> Seq<char> {
    lowercased(trimmed(text))
}

/// The form in which legacy tags and entities are compared.
pub fn normalize_term(value: &str) -> (r: String)
    ensures
        r@ == normal_term(value@),
{
    let core = trim(value);
    lowercase_chars(core.as_str())
}

/// Why a score is refused, if it is.
pub fn validate_score(value: Score) -> (r: Result<(), StateError>)
    ensures
        r == accepted_if(value.in_unit(), "memory score is invalid"),
{
    if !value.is_unit() {
        return Err(StateError::InvalidInput("memory score is invalid"));
    }
    Ok(())
}

/// Checks the bounds of a page.
pub fn validate_page(limit: u32, offset: u32, max: u32) -> (r: Result<(), StateError>)
    ensures
        r == accepted_if(
            1 <= limit <= max && offset <= 1_000_000,
            "memory query page is invalid",
        ),
{
    if limit == 0 || limit > max || offset > 1_000_000 {
        return Err(StateError::InvalidInput("memory query page is invalid"));
    }
    Ok(())
}

impl MemoryBundle {
    /// Why the bundle is refused, if it is. `root_path` tells whether its
    /// canonical path is the vault's root.
    pub open spec fn fault(self, vault: Seq<char>, root_path: bool) -> Option<StateError> {
        if self.memory.vault_id@ != vault || blank(self.memory.content@) || byte_len(
            self.memory.content@,
        ) > 65_536 || byte_len(self.memory.normalized_content@) > 65_536 || root_path {
            Some(StateError::InvalidInput("memory projection is invalid"))
        } else if !self.memory.importance.in_unit() || !self.memory.confidence.in_unit() {
            Some(StateError::InvalidInput("memory score is invalid"))
        } else {
            None
        }
    }
}

/// Checks a memory projection.
pub fn validate_bundle(context: &VaultContext, bundle: &MemoryBundle, root_path: bool) -> (r: Result<
    (),
    StateError,
>)
    ensures
        r == checked(bundle.fault(context.id@, root_path)),
{
    let memory = &bundle.memory;
    if !memory.vault_id.same(&context.id) || is_blank(memory.content.as_str()) || bytes_of(
        memory.content.as_str(),
    ) > 65_536 || bytes_of(memory.normalized_content.as_str()) > 65_536 || root_path {
        return Err(StateError::InvalidInput("memory projection is invalid"));
    }
    match validate_score(memory.importance) {
        Ok(()) => {},
        Err(error) => return Err(error),
    }
    validate_score(memory.confidence)
}

impl MemorySourceRecord {
    /// Whether the provenance may be stored for a vault.
    pub open spec fn acceptable(self, vault: Seq<char>) -> bool {
        &&& self.vault_id@ == vault
        &&& self.heading_path@.len() <= 32
        &&& forall|i: int|
            0 <= i < self.heading_path@.len() ==> label_ok((#[trigger] self.heading_path@[i])@, 512)
    }
}

/// Checks a provenance row.
pub fn validate_source(context: &VaultContext, source: &MemorySourceRecord) -> (r: Result<
    (),
    StateError,
>)
    ensures
        r == accepted_if(source.acceptable(context.id@), "memory source is invalid"),
{
    if !source.vault_id.same(&context.id) || source.heading_path.len() > 32 {
        return Err(StateError::InvalidInput("memory source is invalid"));
    }
    let mut i: usize = 0;
    while i < source.heading_path.len()
        invariant
            i <= source.heading_path@.len(),
            forall|k: int|
                0 <= k < i ==> label_ok((#[trigger] source.heading_path@[k])@, 512),
        decreases source.heading_path@.len() - i,
    {
        if !is_label(source.heading_path[i].as_str(), 512) {
            return Err(StateError::InvalidInput("memory source is invalid"));
        }
        i += 1;
    }
    Ok(())
}

/// Why a provenance row cannot be stored, if it cannot.
pub open spec fn source_fault(source: MemorySourceRecord, vault: Seq<char>) -> Option<StateError> {
    if !source.acceptable(vault) {
        Some(StateError::InvalidInput("memory source is invalid"))
    } else if source.note_revision is Some && !source.note_revision->0.storable() {
        Some(StateError::InvalidDomain(DomainError::RevisionOutOfRange))
    } else {
        None
    }
}

/// The first provenance row that cannot be stored, if any.
pub open spec fn sources_fault(sources: Seq<MemorySourceRecord>, vault: Seq<char>) -> Option<StateError>
    decreases sources.len(),
{
    if sources.len() == 0 {
        None
    } else {
        match sources_fault(sources.drop_last(), vault) {
            Some(error) => Some(error),
            None => source_fault(sources.last(), vault),
        }
    }
}

/// A fault of the first rows is a fault of all.
proof fn lemma_sources_fault(sources: Seq<MemorySourceRecord>, n: int, vault: Seq<char>)
    requires
        0 <= n <= sources.len(),
    ensures
        sources_fault(sources.take(n), vault) is Some ==> sources_fault(sources, vault)
            == sources_fault(sources.take(n), vault),
    decreases sources.len(),
{
    if n < sources.len() {
        lemma_sources_fault(sources.drop_last(), n, vault);
        assert(sources.drop_last().take(n) =~= sources.take(n));
    } else {
        assert(sources.take(n) =~= sources);
    }
}

/// Checks provenance rows.
fn check_sources(context: &VaultContext, sources: &[MemorySourceRecord]) -> (r: Result<(), StateError>)
    ensures
        r == checked(sources_fault(sources@, context.id@)),
{
    let mut i: usize = 0;
    while i < sources.len()
        invariant
            i <= sources@.len(),
            sources_fault(sources@.take(i as int), context.id@) is None,
        decreases sources@.len() - i,
    {
        proof {
            assert(sources@.take(i + 1).drop_last() =~= sources@.take(i as int));
            assert(sources@.take(i + 1).last() == sources@[i as int]);
            lemma_sources_fault(sources@, i + 1, context.id@);
        }
        match validate_source(context, &sources[i]) {
            Ok(()) => {},
            Err(error) => return Err(error),
        }
        match sources[i].note_revision {
            Some(revision) => match revision.as_i64() {
                Ok(_) => {},
                Err(error) => return Err(StateError::InvalidDomain(error)),
            },
            None => {},
        }
        i += 1;
    }
    assert(sources@.take(i as int) =~= sources@);
    Ok(())
}

/// Terms whose compared form is not empty, in order.
pub open spec fn kept_terms(values: Seq<String>) -> Seq<String> {
    values.filter(|value: String| normal_term(value@).len() > 0)
}

/// Keeps the terms whose compared form is not empty.
fn keep_terms(values: Vec<String>) -> (r: Vec<String>)
    ensures
        r@ == kept_terms(values@),
{
    let accepts = |value: &String| -> (yes: bool)
        ensures
            yes == (normal_term(value@).len() > 0),
        {
            let form = normalize_term(value.as_str());
            !form.as_str().is_empty()
        };
    keep(values, accepts, Ghost(|value: String| normal_term(value@).len() > 0))
}

/// Compared forms of the terms that have one, joined by spaces.
pub open spec fn joined_terms(values: Seq<String>) -> Seq<char> {
    joined(kept_terms(values).map_values(|value: String| normal_term(value@)), " "@)
}

/// Compared forms of the terms that have one, joined by spaces.
fn join_terms(values: &[String]) -> (r: String)
    ensures
        r@ == joined_terms(values@),
{
    let mut forms: Vec<String> = Vec::new();
    let mut i: usize = 0;
    let ghost rule = |value: String| normal_term(value@).len() > 0;
    let ghost form_of = |value: String| normal_term(value@);
    proof {
        reveal(Seq::filter);
        assert(values@.take(0) =~= Seq::empty());
        assert(texts(forms@) =~= values@.take(0).filter(rule).map_values(form_of));
    }
    while i < values.len()
        invariant
            i <= values@.len(),
            rule == (|value: String| normal_term(value@).len() > 0),
            form_of == (|value: String| normal_term(value@)),
            texts(forms@) == values@.take(i as int).filter(rule).map_values(form_of),
        decreases values@.len() - i,
    {
        let form = normalize_term(values[i].as_str());
        proof {
            reveal(Seq::filter);
            assert(values@.take(i + 1).drop_last() =~= values@.take(i as int));
            assert(values@.take(i + 1).last() == values@[i as int]);
        }
        let ghost shorter = values@.take(i as int).filter(rule);
        let ghost before = texts(forms@);
        let empty = form.as_str().is_empty();
        if !empty {
            forms.push(form);
            assert(texts(forms@) =~= before.push(form@));
            assert(shorter.push(values@[i as int]).map_values(form_of) =~= shorter.map_values(
                form_of,
            ).push(normal_term(values@[i as int]@)));
        }
        i += 1;
        assert(texts(forms@) =~= values@.take(i as int).filter(rule).map_values(form_of));
    }
    assert(values@.take(i as int) =~= values@);
    join(forms.as_slice(), " ")
}

/// What the full-text index holds of a memory, beside its content.
pub struct MemoryText {
    pub entities: String,
    pub tags: String,
}

/// What the full-text index holds of a memory, beside its content.
pub fn memory_text(stored: &StoredMemory) -> (r: MemoryText)
    ensures
        r.entities@ == joined_terms(stored.entities@),
        r.tags@ == joined_terms(stored.tags@),
{
    MemoryText {
        entities: join_terms(stored.entities.as_slice()),
        tags: join_terms(stored.tags.as_slice()),
    }
}

/// Memories and the relations between them.
pub struct MemoryState {
    pub memories: Vec<StoredMemory>,
    pub relations: Vec<MemoryRelationRecord>,
}

/// The revision that a replacement gets: one above the stored one, else the one
/// that it brings; and the error if there is none.
pub open spec fn next_revision(
    current: Option<StoredMemory>,
    expected: Option<Revision>,
    proposed: Revision,
) -> Result<Revision, StateError> {
    let stored_revision = match current {
        Some(current) => Some(current.memory.revision),
        None => None,
    };
    if expected is Some && stored_revision != expected {
        invalid("memory revision conflict")
    } else {
        match stored_revision {
            Some(revision) => match revision.successor() {
                Some(next) => Ok(next),
                None => Err(StateError::InvalidDomain(DomainError::RevisionOutOfRange)),
            },
            None => if proposed.value < 1 {
                invalid("memory revision is invalid")
            } else {
                Ok(proposed)
            },
        }
    }
}

/// The revision that a replacement gets.
fn choose_revision(current: Option<&StoredMemory>, expected: Option<Revision>, proposed: Revision) -> (r: Result<
    Revision,
    StateError,
>)
    ensures
        r == next_revision(
            match current {
                Some(current) => Some(*current),
                None => None,
            },
            expected,
            proposed,
        ),
{
    match (current, expected) {
        (Some(current), Some(expected)) => {
            if current.memory.revision.value != expected.value {
                return Err(StateError::InvalidInput("memory revision conflict"));
            }
        },
        (None, Some(_)) => return Err(StateError::InvalidInput("memory revision conflict")),
        _ => {},
    }
    match current {
        Some(current) => match current.memory.revision.next() {
            Ok(next) => Ok(next),
            Err(error) => Err(StateError::InvalidDomain(error)),
        },
        None => {
            if proposed.value < 1 {
                return Err(StateError::InvalidInput("memory revision is invalid"));
            }
            Ok(proposed)
        },
    }
}

/// Why a memory row cannot be stored, if it cannot.
pub open spec fn row_fault(revision: Revision, memory: MemoryRecord) -> Option<StateError> {
    if !revision.storable() || (memory.canonical_revision is Some
        && !memory.canonical_revision->0.storable()) {
        Some(StateError::InvalidDomain(DomainError::RevisionOutOfRange))
    } else if memory.recall_count > i64::MAX {
        Some(StateError::InvalidInput("memory recall count exceeds SQLite range"))
    } else {
        None
    }
}

/// Checks that a memory row fits its columns.
fn check_row(revision: Revision, memory: &MemoryRecord) -> (r: Result<(), StateError>)
    ensures
        r == checked(row_fault(revision, *memory)),
{
    match revision.as_i64() {
        Ok(_) => {},
        Err(error) => return Err(StateError::InvalidDomain(error)),
    }
    match memory.canonical_revision {
        Some(revision) => match revision.as_i64() {
            Ok(_) => {},
            Err(error) => return Err(StateError::InvalidDomain(error)),
        },
        None => {},
    }
    if memory.recall_count > i64::MAX as u64 {
        return Err(StateError::InvalidInput("memory recall count exceeds SQLite range"));
    }
    Ok(())
}

/// Why a replacement is refused, if it is.
pub open spec fn replacement_fault(
    state: MemoryState,
    vault: Seq<char>,
    bundle: MemoryBundle,
    expected: Option<Revision>,
    root_path: bool,
) -> Option<StateError> {
    let current = first_row(
        state.memories@,
        |stored: StoredMemory| stored.is(vault, bundle.memory.id@),
    );
    let revision = next_revision(current, expected, bundle.memory.revision);
    if let Some(error) = bundle.fault(vault, root_path) {
        Some(error)
    } else if let Err(error) = revision {
        Some(error)
    } else if let Some(error) = row_fault(revision->Ok_0, bundle.memory) {
        Some(error)
    } else if let Some(error) = sources_fault(bundle.sources@, vault) {
        Some(error)
    } else if some_row(
        bundle.relations@,
        |relation: MemoryRelationRecord| relation.vault_id@ != vault,
    ) {
        Some(StateError::InvalidInput("memory relation Vault does not match context"))
    } else {
        None
    }
}

/// Provenance rows as they are stored with a memory.
pub open spec fn stored_sources(sources: Seq<MemorySourceRecord>, memory_id: Id) -> Seq<
    MemorySourceRecord,
> {
    sources.map_values(
        |source: MemorySourceRecord| MemorySourceRecord { memory_id, ..source },
    )
}

/// Binds provenance rows to a memory.
fn bind_sources(sources: Vec<MemorySourceRecord>, memory_id: &Id) -> (r: Vec<MemorySourceRecord>)
    ensures
        r@ == stored_sources(sources@, *memory_id),
{
    let bind = |source: MemorySourceRecord| -> (next: MemorySourceRecord)
        ensures
            next == (MemorySourceRecord { memory_id: *memory_id, ..source }),
        { MemorySourceRecord { memory_id: memory_id.duplicate(), ..source } };
    crate::rows::change(
        sources,
        bind,
        Ghost(|source: MemorySourceRecord| MemorySourceRecord { memory_id: *memory_id, ..source }),
    )
}

/// Whether a stored memory is what a replacement leaves.
pub open spec fn replaced_as(
    after: StoredMemory,
    bundle: MemoryBundle,
    current: Option<StoredMemory>,
    revision: Revision,
    now: i64,
) -> bool {
    &&& after.memory == (MemoryRecord {
        revision,
        updated_at: now,
        created_at: match current {
            Some(current) => current.memory.created_at,
            None => bundle.memory.created_at,
        },
        ..bundle.memory
    })
    &&& after.sources@ == stored_sources(bundle.sources@, bundle.memory.id)
    &&& after.entities@ == kept_terms(bundle.entities@)
    &&& after.tags@ == kept_terms(bundle.tags@)
}

/// Whether a bundle's memory was stored in the place of the vault's memory with
/// its identity, or behind all others.
pub open spec fn memories_replaced(
    before: Seq<StoredMemory>,
    after: Seq<StoredMemory>,
    vault: Seq<char>,
    bundle: MemoryBundle,
    revision: Revision,
    now: i64,
) -> bool {
    let rule = |stored: StoredMemory| stored.is(vault, bundle.memory.id@);
    let current = first_row(before, rule);
    match first_index(before, rule) {
        Some(i) => after.len() == before.len() && replaced_as(
            after[i],
            bundle,
            current,
            revision,
            now,
        ) && after == before.update(i, after[i]),
        None => after.len() == before.len() + 1 && replaced_as(
            after.last(),
            bundle,
            current,
            revision,
            now,
        ) && after == before.push(after.last()),
    }
}

/// Relations after the outgoing ones of a memory are replaced.
pub open spec fn relations_replaced(
    relations: Seq<MemoryRelationRecord>,
    vault: Seq<char>,
    id: Seq<char>,
    new: Seq<MemoryRelationRecord>,
) -> Seq<MemoryRelationRecord> {
    relations.filter(starts_elsewhere(vault, id)) + new
}

/// The rule that picks the relations that do not start at a memory.
pub open spec fn starts_elsewhere(vault: Seq<char>, id: Seq<char>) -> spec_fn(
    MemoryRelationRecord,
) -> bool {
    |relation: MemoryRelationRecord|
        !(relation.vault_id@ == vault && relation.source_memory_id@ == id)
}

/// Replaces the outgoing relations of a memory.
fn put_relations(
    relations: Vec<MemoryRelationRecord>,
    vault: &Id,
    id: &Id,
    new: Vec<MemoryRelationRecord>,
) -> (r: Vec<MemoryRelationRecord>)
    ensures
        r@ == relations_replaced(relations@, vault@, id@, new@),
{
    let accepts = |relation: &MemoryRelationRecord| -> (yes: bool)
        ensures
            yes == !(relation.vault_id@ == vault@ && relation.source_memory_id@ == id@),
        { !(relation.vault_id.same(vault) && relation.source_memory_id.same(id)) };
    let mut kept = keep(
        relations,
        accepts,
        Ghost(starts_elsewhere(vault@, id@)),
    );
    let mut tail = new;
    kept.append(&mut tail);
    kept
}

/// The position of one memory.
pub fn get_memory(context: &VaultContext, memories: &[StoredMemory], memory_id: &Id) -> (r: Option<
    usize,
>)
    ensures
        match r {
            Some(i) => i < memories@.len() && first_index(
                memories@,
                |stored: StoredMemory| stored.is(context.id@, memory_id@),
            ) == Some(i as int),
            None => first_index(
                memories@,
                |stored: StoredMemory| stored.is(context.id@, memory_id@),
            ) is None,
        },
{
    let accepts = |stored: &StoredMemory| -> (yes: bool)
        ensures
            yes == stored.is(context.id@, memory_id@),
        { stored.is_memory(&context.id, memory_id) };
    find(
        memories,
        accepts,
        Ghost(|stored: StoredMemory| stored.is(context.id@, memory_id@)),
    )
}

/// Insert or update one complete memory projection in one step. `root_path`
/// tells whether the bundle's canonical path is the vault's root. Where a
/// memory is stored, the replacement gets the next revision and keeps the
/// creation time.
pub fn replace_bundle(
    context: &VaultContext,
    state: MemoryState,
    bundle: MemoryBundle,
    expected_revision: Option<Revision>,
    root_path: bool,
    now: i64,
) -> (r: Result<MemoryState, StateError>)
    ensures
        match replacement_fault(state, context.id@, bundle, expected_revision, root_path) {
            Some(error) => r == Err::<MemoryState, StateError>(error),
            None => {
                let revision = next_revision(
                    first_row(
                        state.memories@,
                        |stored: StoredMemory| stored.is(context.id@, bundle.memory.id@),
                    ),
                    expected_revision,
                    bundle.memory.revision,
                )->Ok_0;
                &&& r matches Ok(after)
                &&& after.relations@ == relations_replaced(
                    state.relations@,
                    context.id@,
                    bundle.memory.id@,
                    bundle.relations@,
                )
                &&& memories_replaced(
                    state.memories@,
                    after.memories@,
                    context.id@,
                    bundle,
                    revision,
                    now,
                )
            },
        },
{
    match validate_bundle(context, &bundle, root_path) {
        Ok(()) => {},
        Err(error) => return Err(error),
    }
    let at = get_memory(context, state.memories.as_slice(), &bundle.memory.id);
    let current: Option<&StoredMemory> = match at {
        Some(i) => Some(&state.memories[i]),
        None => None,
    };
    let revision = match choose_revision(current, expected_revision, bundle.memory.revision) {
        Ok(revision) => revision,
        Err(error) => return Err(error),
    };
    let created_at: i64 = match current {
        Some(current) => current.memory.created_at,
        None => bundle.memory.created_at,
    };
    match check_row(revision, &bundle.memory) {
        Ok(()) => {},
        Err(error) => return Err(error),
    }
    match check_sources(context, bundle.sources.as_slice()) {
        Ok(()) => {},
        Err(error) => return Err(error),
    }
    let foreign = |relation: &MemoryRelationRecord| -> (yes: bool)
        ensures
            yes == (relation.vault_id@ != context.id@),
        { !relation.vault_id.same(&context.id) };
    if any(
        bundle.relations.as_slice(),
        foreign,
        Ghost(|relation: MemoryRelationRecord| relation.vault_id@ != context.id@),
    ) {
        return Err(StateError::InvalidInput("memory relation Vault does not match context"));
    }
    let MemoryBundle { memory, sources, entities, tags, relations } = bundle;
    let MemoryState { memories: old_memories, relations: old_relations } = state;
    let relations = put_relations(old_relations, &context.id, &memory.id, relations);
    let sources = bind_sources(sources, &memory.id);
    let stored = StoredMemory {
        memory: MemoryRecord { revision, updated_at: now, created_at, ..memory },
        sources,
        entities: keep_terms(entities),
        tags: keep_terms(tags),
    };
    let mut memories = old_memories;
    match at {
        Some(i) => {
            memories.set(i, stored);
        },
        None => {
            memories.push(stored);
        },
    }
    Ok(MemoryState { memories, relations })
}

/// The position of the memory with a canonical managed path.
pub fn get_by_canonical_path(context: &VaultContext, memories: &[StoredMemory], path: &VaultPath) -> (r: Option<
    usize,
>)
    ensures
        match r {
            Some(i) => i < memories@.len() && first_index(
                memories@,
                |stored: StoredMemory|
                    stored.memory.vault_id@ == context.id@ && stored.memory.canonical_path is Some
                        && stored.memory.canonical_path->0@ == path@,
            ) == Some(i as int),
            None => first_index(
                memories@,
                |stored: StoredMemory|
                    stored.memory.vault_id@ == context.id@ && stored.memory.canonical_path is Some
                        && stored.memory.canonical_path->0@ == path@,
            ) is None,
        },
{
    let accepts = |stored: &StoredMemory| -> (yes: bool)
        ensures
            yes == (stored.memory.vault_id@ == context.id@ && stored.memory.canonical_path is Some
                && stored.memory.canonical_path->0@ == path@),
        {
            let here = match &stored.memory.canonical_path {
                Some(own) => own.same(path),
                None => false,
            };
            here && stored.memory.vault_id.same(&context.id)
        };
    find(
        memories,
        accepts,
        Ghost(
            |stored: StoredMemory|
                stored.memory.vault_id@ == context.id@ && stored.memory.canonical_path is Some
                    && stored.memory.canonical_path->0@ == path@,
        ),
    )
}

/// Positions of the memories with one exact content hash, in selected statuses
/// where any are given.
pub fn find_by_content_hash(
    context: &VaultContext,
    memories: &[StoredMemory],
    content_hash: &str,
    statuses: &[String],
) -> (r: Vec<usize>)
    ensures
        is_positions(
            memories@.map_values(
                |stored: StoredMemory|
                    stored.memory.vault_id@ == context.id@ && stored.memory.content_hash@
                        == content_hash@ && (statuses@.len() == 0 || listed(
                        statuses@,
                        stored.memory.status@,
                    )),
            ),
            r@,
        ),
{
    let accepts = |stored: &StoredMemory| -> (yes: bool)
        ensures
            yes == (stored.memory.vault_id@ == context.id@ && stored.memory.content_hash@
                == content_hash@ && (statuses@.len() == 0 || listed(
                statuses@,
                stored.memory.status@,
            ))),
        {
            stored.memory.vault_id.same(&context.id) && text_eq(
                stored.memory.content_hash.as_str(),
                content_hash,
            ) && (statuses.len() == 0 || is_listed(statuses, stored.memory.status.as_str()))
        };
    let marked = marks(
        memories,
        accepts,
        Ghost(
            |stored: StoredMemory|
                stored.memory.vault_id@ == context.id@ && stored.memory.content_hash@
                    == content_hash@ && (statuses@.len() == 0 || listed(
                    statuses@,
                    stored.memory.status@,
                )),
        ),
    );
    positions(marked.as_slice())
}

/// Bounded filters shared by list, lexical, and metadata recall pools.
#[derive(Clone, Debug, PartialEq, Eq)]
pub struct MemoryFilter {
    /// Allowed lifecycle statuses.
    pub statuses: Vec<String>,
    /// Allowed memory types.
    pub memory_types: Vec<String>,
    /// Optional normalized tag.
    pub tag: Option<String>,
    /// Optional normalized entity.
    pub entity: Option<String>,
    /// Optional source path prefix.
    pub source_path: Option<String>,
    /// Optional point-in-time validity check.
    pub valid_at: Option<i64>,
    /// Minimum importance.
    pub min_importance: Option<Score>,
}

impl Default for MemoryFilter {
    /// The filter that lets every memory pass.
    fn default() -> (r: MemoryFilter)
        ensures
            r.statuses@.len() == 0,
            r.memory_types@.len() == 0,
            r.tag is None,
            r.entity is None,
            r.source_path is None,
            r.valid_at is None,
            r.min_importance is None,
    {
        MemoryFilter {
            statuses: Vec::new(),
            memory_types: Vec::new(),
            tag: None,
            entity: None,
            source_path: None,
            valid_at: None,
            min_importance: None,
        }
    }
}

/// Whether one of the stored terms has the compared form.
pub open spec fn has_form(stored: Seq<String>, form: Seq<char>) -> bool {
    some_row(stored, |term: String| normal_term(term@) == form)
}

/// Whether one of the stored terms has the compared form.
fn contains_form(stored: &[String], form: &str) -> (r: bool)
    ensures
        r == has_form(stored@, form@),
{
    let accepts = |term: &String| -> (yes: bool)
        ensures
            yes == (normal_term(term@) == form@),
        {
            let own = normalize_term(term.as_str());
            text_eq(own.as_str(), form)
        };
    any(stored, accepts, Ghost(|term: String| normal_term(term@) == form@))
}

impl MemoryFilter {
    /// Whether a memory passes the filter.
    pub open spec fn admits(self, stored: StoredMemory) -> bool {
        let memory = stored.memory;
        &&& self.statuses@.len() == 0 || listed(self.statuses@, memory.status@)
        &&& self.memory_types@.len() == 0 || listed(self.memory_types@, memory.memory_type@)
        &&& self.tag is Some ==> has_form(stored.tags@, normal_term(self.tag->0@))
        &&& self.entity is Some ==> has_form(stored.entities@, normal_term(self.entity->0@))
        &&& self.source_path is Some ==> some_row(
            stored.sources@,
            |source: MemorySourceRecord|
                source.note_path is Some && has_prefix(source.note_path->0@, self.source_path->0@),
        )
        &&& self.valid_at is Some ==> (memory.valid_from is None || memory.valid_from->0
            <= self.valid_at->0) && (memory.valid_to is None || memory.valid_to->0
            > self.valid_at->0)
        &&& self.min_importance is Some ==> memory.importance.at_least(self.min_importance->0)
    }

    /// Whether a memory passes the filter.
    pub fn is_admitting(&self, stored: &StoredMemory) -> (r: bool)
        ensures
            r == self.admits(*stored),
    {
        let memory = &stored.memory;
        let status_ok = self.statuses.len() == 0 || is_listed(
            self.statuses.as_slice(),
            memory.status.as_str(),
        );
        let type_ok = self.memory_types.len() == 0 || is_listed(
            self.memory_types.as_slice(),
            memory.memory_type.as_str(),
        );
        let tag_ok = match &self.tag {
            Some(tag) => {
                let form = normalize_term(tag.as_str());
                contains_form(stored.tags.as_slice(), form.as_str())
            },
            None => true,
        };
        let entity_ok = match &self.entity {
            Some(entity) => {
                let form = normalize_term(entity.as_str());
                contains_form(stored.entities.as_slice(), form.as_str())
            },
            None => true,
        };
        let source_ok = match &self.source_path {
            Some(path) => {
                let below = |source: &MemorySourceRecord| -> (yes: bool)
                    ensures
                        yes == (source.note_path is Some && has_prefix(
                            source.note_path->0@,
                            path@,
                        )),
                    {
                        match &source.note_path {
                            Some(own) => starts_with(own.as_str(), path.as_str()),
                            None => false,
                        }
                    };
                any(
                    stored.sources.as_slice(),
                    below,
                    Ghost(
                        |source: MemorySourceRecord|
                            source.note_path is Some && has_prefix(
                                source.note_path->0@,
                                self.source_path->0@,
                            ),
                    ),
                )
            },
            None => true,
        };
        let valid_ok = match self.valid_at {
            Some(at) => {
                let begun = match memory.valid_from {
                    Some(from) => from <= at,
                    None => true,
                };
                let lasting = match memory.valid_to {
                    Some(to) => to > at,
                    None => true,
                };
                begun && lasting
            },
            None => true,
        };
        let importance_ok = match self.min_importance {
            Some(least) => memory.importance.is_at_least(least),
            None => true,
        };
        status_ok && type_ok && tag_ok && entity_ok && source_ok && valid_ok && importance_ok
    }
}

impl Keyed for StoredMemory {
    /// Latest update first, then by identity.
    open spec fn key(self) -> SortKey {
        SortKey {
            first: (0 - self.memory.updated_at) as i128,
            second: 0,
            third: 0,
            id: self.memory.id.text,
        }
    }

    fn sort_key(&self) -> (k: SortKey) {
        SortKey {
            first: -(self.memory.updated_at as i128),
            second: 0,
            third: 0,
            id: self.memory.id.text.clone(),
        }
    }
}

/// Which memories a listing shows.
pub open spec fn shown(memories: Seq<StoredMemory>, vault: Seq<char>, filter: MemoryFilter) -> Seq<bool> {
    memories.map_values(
        |stored: StoredMemory| stored.memory.vault_id@ == vault && filter.admits(stored),
    )
}

/// Marks the memories that a listing shows.
fn mark_shown(context: &VaultContext, memories: &[StoredMemory], filter: &MemoryFilter) -> (r: Vec<bool>)
    ensures
        r@ == shown(memories@, context.id@, *filter),
{
    let accepts = |stored: &StoredMemory| -> (yes: bool)
        ensures
            yes == (stored.memory.vault_id@ == context.id@ && filter.admits(*stored)),
        { stored.memory.vault_id.same(&context.id) && filter.is_admitting(stored) };
    marks(
        memories,
        accepts,
        Ghost(
            |stored: StoredMemory|
                stored.memory.vault_id@ == context.id@ && filter.admits(stored),
        ),
    )
}

/// Positions of one page of memories that pass a filter, latest update first.
pub fn list_memories(
    context: &VaultContext,
    memories: &[StoredMemory],
    filter: &MemoryFilter,
    limit: u32,
    offset: u32,
) -> (r: Result<Vec<usize>, StateError>)
    ensures
        if !(1 <= limit <= MAX_MEMORY_LIMIT && offset <= 1_000_000) {
            r == invalid::<Vec<usize>>("memory query page is invalid")
        } else {
            r matches Ok(picked) && is_page(
                keys(memories@),
                shown(memories@, context.id@, *filter),
                false,
                limit as nat,
                offset as nat,
                picked@,
            )
        },
{
    match validate_page(limit, offset, MAX_MEMORY_LIMIT) {
        Ok(()) => {},
        Err(error) => return Err(error),
    }
    let eligible = mark_shown(context, memories, filter);
    let order_keys = keys_of(memories);
    Ok(page(order_keys.as_slice(), eligible.as_slice(), false, limit, offset))
}

/// Positions of recent memories for continuity boosts.
pub fn recent_memories(
    context: &VaultContext,
    memories: &[StoredMemory],
    filter: &MemoryFilter,
    limit: u32,
) -> (r: Result<Vec<usize>, StateError>)
    ensures
        if !(1 <= limit <= MAX_MEMORY_LIMIT) {
            r == invalid::<Vec<usize>>("memory query page is invalid")
        } else {
            r matches Ok(picked) && is_page(
                keys(memories@),
                shown(memories@, context.id@, *filter),
                false,
                limit as nat,
                0,
                picked@,
            )
        },
{
    list_memories(context, memories, filter, limit, 0)
}

/// One answer of the full-text index.
#[derive(Clone, Debug, PartialEq, Eq)]
pub struct MemoryTextHit {
    /// Memory that the query matched.
    pub memory_id: Id,
    /// Raw relevance rank; lower is better.
    pub rank: Score,
}

impl Keyed for MemoryTextHit {
    /// Best rank first, then by identity.
    open spec fn key(self) -> SortKey {
        SortKey { first: self.rank.rank() as i128, second: 0, third: 0, id: self.memory_id.text }
    }

    fn sort_key(&self) -> (k: SortKey) {
        SortKey {
            first: self.rank.order(),
            second: 0,
            third: 0,
            id: self.memory_id.text.clone(),
        }
    }
}

/// Which answers belong to memories of the vault that pass the filter.
pub open spec fn hits_shown(
    hits: Seq<MemoryTextHit>,
    memories: Seq<StoredMemory>,
    vault: Seq<char>,
    filter: MemoryFilter,
) -> Seq<bool> {
    hits.map_values(
        |hit: MemoryTextHit|
            some_row(
                memories,
                |stored: StoredMemory|
                    stored.is(vault, hit.memory_id@) && filter.admits(stored),
            ),
    )
}

/// Checks a query for the full-text index.
pub fn validate_fts_query(fts_query: &str, limit: u32) -> (r: Result<(), StateError>)
    ensures
        r == (if !(1 <= limit <= MAX_MEMORY_LIMIT) {
            invalid("memory query page is invalid")
        } else {
            accepted_if(1 <= byte_len(fts_query@) <= 4096, "memory FTS query is invalid")
        }),
{
    match validate_page(limit, 0, MAX_MEMORY_LIMIT) {
        Ok(()) => {},
        Err(error) => return Err(error),
    }
    let n: usize = bytes_of(fts_query);
    if n == 0 || n > 4096 {
        return Err(StateError::InvalidInput("memory FTS query is invalid"));
    }
    Ok(())
}

/// Positions among the hits of those that are shown, best rank first. `hits`
/// are what the full-text index answered to the query in this vault.
pub fn search_fts(
    context: &VaultContext,
    memories: &[StoredMemory],
    fts_query: &str,
    hits: &[MemoryTextHit],
    filter: &MemoryFilter,
    limit: u32,
) -> (r: Result<Vec<usize>, StateError>)
    ensures
        if !(1 <= limit <= MAX_MEMORY_LIMIT) {
            r == invalid::<Vec<usize>>("memory query page is invalid")
        } else if !(1 <= byte_len(fts_query@) <= 4096) {
            r == invalid::<Vec<usize>>("memory FTS query is invalid")
        } else {
            r matches Ok(picked) && is_page(
                keys(hits@),
                hits_shown(hits@, memories@, context.id@, *filter),
                false,
                limit as nat,
                0,
                picked@,
            )
        },
{
    match validate_fts_query(fts_query, limit) {
        Ok(()) => {},
        Err(error) => return Err(error),
    }
    let accepts = |hit: &MemoryTextHit| -> (yes: bool)
        ensures
            yes == some_row(
                memories@,
                |stored: StoredMemory|
                    stored.is(context.id@, hit.memory_id@) && filter.admits(stored),
            ),
        {
            let matching = |stored: &StoredMemory| -> (yes: bool)
                ensures
                    yes == (stored.is(context.id@, hit.memory_id@) && filter.admits(*stored)),
                {
                    stored.is_memory(&context.id, &hit.memory_id) && filter.is_admitting(stored)
                };
            any(
                memories,
                matching,
                Ghost(
                    |stored: StoredMemory|
                        stored.is(context.id@, hit.memory_id@) && filter.admits(stored),
                ),
            )
        };
    let eligible = marks(
        hits,
        accepts,
        Ghost(
            |hit: MemoryTextHit|
                some_row(
                    memories@,
                    |stored: StoredMemory|
                        stored.is(context.id@, hit.memory_id@) && filter.admits(stored),
                ),
        ),
    );
    assert(eligible@ =~= hits_shown(hits@, memories@, context.id@, *filter));
    let order_keys = keys_of(hits);
    Ok(page(order_keys.as_slice(), eligible.as_slice(), false, limit, 0))
}

/// Whether one of the stored terms is asked for.
pub open spec fn asked_for(stored: Seq<String>, wanted: Seq<String>) -> bool {
    some_row(
        wanted,
        |value: String| normal_term(value@).len() > 0 && has_form(stored, normal_term(value@)),
    )
}

/// Whether one of the stored terms is asked for.
fn is_asked_for(stored: &[String], wanted: &[String]) -> (r: bool)
    ensures
        r == asked_for(stored@, wanted@),
{
    let accepts = |value: &String| -> (yes: bool)
        ensures
            yes == (normal_term(value@).len() > 0 && has_form(stored@, normal_term(value@))),
        {
            let form = normalize_term(value.as_str());
            !form.as_str().is_empty() && contains_form(stored, form.as_str())
        };
    any(
        wanted,
        accepts,
        Ghost(
            |value: String|
                normal_term(value@).len() > 0 && has_form(stored@, normal_term(value@)),
        ),
    )
}

/// Where a memory stands in a term search: most important first, then the
/// latest update, then by identity.
pub open spec fn term_key(stored: StoredMemory) -> SortKey {
    SortKey {
        first: (0 - stored.memory.importance.rank()) as i128,
        second: (0 - stored.memory.updated_at) as i128,
        third: 0,
        id: stored.memory.id.text,
    }
}

/// Which memories mention one of the entities or tags.
pub open spec fn mentioning(
    memories: Seq<StoredMemory>,
    vault: Seq<char>,
    entities: Seq<String>,
    tags: Seq<String>,
    filter: MemoryFilter,
) -> Seq<bool> {
    memories.map_values(
        |stored: StoredMemory|
            stored.memory.vault_id@ == vault && (asked_for(stored.entities@, entities)
                || asked_for(stored.tags@, tags)) && filter.admits(stored),
    )
}

/// Positions of the memories that mention one of the entities or tags.
pub fn search_terms(
    context: &VaultContext,
    memories: &[StoredMemory],
    entities: &[String],
    tags: &[String],
    filter: &MemoryFilter,
    limit: u32,
) -> (r: Result<Vec<usize>, StateError>)
    ensures
        if !(1 <= limit <= MAX_MEMORY_LIMIT) {
            r == invalid::<Vec<usize>>("memory query page is invalid")
        } else {
            r matches Ok(picked) && is_page(
                memories@.map_values(|stored: StoredMemory| term_key(stored)),
                mentioning(memories@, context.id@, entities@, tags@, *filter),
                false,
                limit as nat,
                0,
                picked@,
            )
        },
{
    match validate_page(limit, 0, MAX_MEMORY_LIMIT) {
        Ok(()) => {},
        Err(error) => return Err(error),
    }
    let accepts = |stored: &StoredMemory| -> (yes: bool)
        ensures
            yes == (stored.memory.vault_id@ == context.id@ && (asked_for(
                stored.entities@,
                entities@,
            ) || asked_for(stored.tags@, tags@)) && filter.admits(*stored)),
        {
            let named = is_asked_for(stored.entities.as_slice(), entities) || is_asked_for(
                stored.tags.as_slice(),
                tags,
            );
            stored.memory.vault_id.same(&context.id) && named && filter.is_admitting(stored)
        };
    let eligible = marks(
        memories,
        accepts,
        Ghost(
            |stored: StoredMemory|
                stored.memory.vault_id@ == context.id@ && (asked_for(stored.entities@, entities@)
                    || asked_for(stored.tags@, tags@)) && filter.admits(stored),
        ),
    );
    let mut order_keys: Vec<SortKey> = Vec::new();
    let mut i: usize = 0;
    while i < memories.len()
        invariant
            i <= memories@.len(),
            order_keys@ == memories@.take(i as int).map_values(
                |stored: StoredMemory| term_key(stored),
            ),
        decreases memories@.len() - i,
    {
        let memory = &memories[i].memory;
        let first: i128 = -memory.importance.order();
        let second: i128 = -(memory.updated_at as i128);
        order_keys.push(SortKey { first, second, third: 0, id: memory.id.text.clone() });
        i += 1;
        assert(order_keys@ =~= memories@.take(i as int).map_values(
            |stored: StoredMemory| term_key(stored),
        ));
    }
    assert(memories@.take(i as int) =~= memories@);
    Ok(page(order_keys.as_slice(), eligible.as_slice(), false, limit, 0))
}

/// Bounded lifecycle counts.
#[derive(Clone, Copy, Debug, PartialEq, Eq, Structural)]
pub struct MemoryCounts {
    /// All projected memory rows.
    pub total: u64,
    /// Active rows eligible for normal recall.
    pub active: u64,
    /// Extraction candidates that wait for a decision.
    pub candidate: u64,
    /// Rows whose current provenance is no longer supported.
    pub stale: u64,
    /// Explicitly superseded rows.
    pub superseded: u64,
    /// Intentionally archived rows.
    pub archived: u64,
    /// Invalid managed records excluded from recall.
    pub quarantined: u64,
}

/// Number of memories of a vault with a status.
pub open spec fn status_count(memories: Seq<StoredMemory>, vault: Seq<char>, status: Seq<char>) -> nat {
    count(memories, has_status(vault, status))
}

/// The rule that picks the memories of a vault with a status.
pub open spec fn has_status(vault: Seq<char>, status: Seq<char>) -> spec_fn(StoredMemory) -> bool {
    |stored: StoredMemory| stored.memory.vault_id@ == vault && stored.memory.status@ == status
}

/// Counts the memories of a vault with a status.
fn count_status(context: &VaultContext, memories: &[StoredMemory], status: &str) -> (r: u64)
    ensures
        r == status_count(memories@, context.id@, status@),
{
    let accepts = |stored: &StoredMemory| -> (yes: bool)
        ensures
            yes == (stored.memory.vault_id@ == context.id@ && stored.memory.status@ == status@),
        {
            stored.memory.vault_id.same(&context.id) && text_eq(
                stored.memory.status.as_str(),
                status,
            )
        };
    let n: usize = count_rows(
        memories,
        accepts,
        Ghost(has_status(context.id@, status@)),
    );
    n as u64
}

impl MemoryCandidateRecord {
    /// Whether the candidate of a vault waits for a decision.
    pub open spec fn undecided(self, vault: Seq<char>) -> bool {
        self.vault_id@ == vault && (self.decision is None || self.decision->0@ == "review"@)
    }
}

/// Lifecycle counts of one vault.
pub fn counts(
    context: &VaultContext,
    memories: &[StoredMemory],
    candidates: &[MemoryCandidateRecord],
) -> (r: MemoryCounts)
    ensures
        r.total == count(
            memories@,
            |stored: StoredMemory| stored.memory.vault_id@ == context.id@,
        ),
        r.active == status_count(memories@, context.id@, "active"@),
        r.candidate == count(
            candidates@,
            |candidate: MemoryCandidateRecord| candidate.undecided(context.id@),
        ),
        r.stale == status_count(memories@, context.id@, "stale"@),
        r.superseded == status_count(memories@, context.id@, "superseded"@),
        r.archived == status_count(memories@, context.id@, "archived"@),
        r.quarantined == status_count(memories@, context.id@, "quarantined"@),
{
    let own = |stored: &StoredMemory| -> (yes: bool)
        ensures
            yes == (stored.memory.vault_id@ == context.id@),
        { stored.memory.vault_id.same(&context.id) };
    let total: usize = count_rows(
        memories,
        own,
        Ghost(|stored: StoredMemory| stored.memory.vault_id@ == context.id@),
    );
    let open = |candidate: &MemoryCandidateRecord| -> (yes: bool)
        ensures
            yes == candidate.undecided(context.id@),
        {
            let waiting = match &candidate.decision {
                Some(decision) => text_eq(decision.as_str(), "review"),
                None => true,
            };
            waiting && candidate.vault_id.same(&context.id)
        };
    let waiting: usize = count_rows(
        candidates,
        open,
        Ghost(|candidate: MemoryCandidateRecord| candidate.undecided(context.id@)),
    );
    MemoryCounts {
        total: total as u64,
        active: count_status(context, memories, "active"),
        candidate: waiting as u64,
        stale: count_status(context, memories, "stale"),
        superseded: count_status(context, memories, "superseded"),
        archived: count_status(context, memories, "archived"),
        quarantined: count_status(context, memories, "quarantined"),
    }
}

/// Candidates of a vault with a fingerprint.
pub open spec fn has_fingerprint(
    candidate: MemoryCandidateRecord,
    vault: Seq<char>,
    fingerprint: Seq<char>,
) -> bool {
    candidate.vault_id@ == vault && candidate.extraction_fingerprint@ == fingerprint
}

/// The vault's candidate with an identity: its position.
pub fn get_candidate(
    context: &VaultContext,
    candidates: &[MemoryCandidateRecord],
    candidate_id: &Id,
) -> (r: Option<usize>)
    ensures
        match r {
            Some(i) => i < candidates@.len() && first_index(
                candidates@,
                |row: MemoryCandidateRecord|
                    row.vault_id@ == context.id@ && row.id@ == candidate_id@,
            ) == Some(i as int),
            None => first_index(
                candidates@,
                |row: MemoryCandidateRecord|
                    row.vault_id@ == context.id@ && row.id@ == candidate_id@,
            ) is None,
        },
{
    let accepts = |row: &MemoryCandidateRecord| -> (yes: bool)
        ensures
            yes == (row.vault_id@ == context.id@ && row.id@ == candidate_id@),
        { row.vault_id.same(&context.id) && row.id.same(candidate_id) };
    find(
        candidates,
        accepts,
        Ghost(
            |row: MemoryCandidateRecord| row.vault_id@ == context.id@ && row.id@ == candidate_id@,
        ),
    )
}

/// The position of the candidate with an extraction fingerprint.
pub fn get_candidate_by_fingerprint(
    context: &VaultContext,
    candidates: &[MemoryCandidateRecord],
    fingerprint: &str,
) -> (r: Option<usize>)
    ensures
        match r {
            Some(i) => i < candidates@.len() && first_index(
                candidates@,
                |candidate: MemoryCandidateRecord|
                    has_fingerprint(candidate, context.id@, fingerprint@),
            ) == Some(i as int),
            None => first_index(
                candidates@,
                |candidate: MemoryCandidateRecord|
                    has_fingerprint(candidate, context.id@, fingerprint@),
            ) is None,
        },
{
    let accepts = |candidate: &MemoryCandidateRecord| -> (yes: bool)
        ensures
            yes == has_fingerprint(*candidate, context.id@, fingerprint@),
        {
            candidate.vault_id.same(&context.id) && text_eq(
                candidate.extraction_fingerprint.as_str(),
                fingerprint,
            )
        };
    find(
        candidates,
        accepts,
        Ghost(
            |candidate: MemoryCandidateRecord|
                has_fingerprint(candidate, context.id@, fingerprint@),
        ),
    )
}

/// Why a candidate is refused, if it is.
pub open spec fn candidate_fault(candidate: MemoryCandidateRecord, vault: Seq<char>) -> Option<
    StateError,
> {
    if candidate.vault_id@ != vault {
        Some(StateError::InvalidInput("memory candidate Vault does not match context"))
    } else if !candidate.confidence.in_unit() || !candidate.importance.in_unit() {
        Some(StateError::InvalidInput("memory score is invalid"))
    } else if !candidate.source_revision.storable() {
        Some(StateError::InvalidDomain(DomainError::RevisionOutOfRange))
    } else {
        None
    }
}

/// Add one candidate, unless one with its fingerprint is there. Gives the
/// candidates and the position of the one with the fingerprint.
pub fn insert_candidate(
    context: &VaultContext,
    candidates: Vec<MemoryCandidateRecord>,
    candidate: MemoryCandidateRecord,
) -> (r: Result<(Vec<MemoryCandidateRecord>, usize), StateError>)
    ensures
        match candidate_fault(candidate, context.id@) {
            Some(error) => r == Err::<(Vec<MemoryCandidateRecord>, usize), StateError>(error),
            None => match first_index(
                candidates@,
                |known: MemoryCandidateRecord|
                    has_fingerprint(known, context.id@, candidate.extraction_fingerprint@),
            ) {
                Some(i) => r matches Ok((after, at)) && after@ == candidates@ && at == i,
                None => r matches Ok((after, at)) && after@ == candidates@.push(candidate) && at
                    == candidates@.len(),
            },
        },
{
    if !candidate.vault_id.same(&context.id) {
        return Err(
            StateError::InvalidInput("memory candidate Vault does not match context"),
        );
    }
    match validate_score(candidate.confidence) {
        Ok(()) => {},
        Err(error) => return Err(error),
    }
    match validate_score(candidate.importance) {
        Ok(()) => {},
        Err(error) => return Err(error),
    }
    match candidate.source_revision.as_i64() {
        Ok(_) => {},
        Err(error) => return Err(StateError::InvalidDomain(error)),
    }
    let mut candidates = candidates;
    match get_candidate_by_fingerprint(
        context,
        candidates.as_slice(),
        candidate.extraction_fingerprint.as_str(),
    ) {
        Some(i) => Ok((candidates, i)),
        None => {
            let at: usize = candidates.len();
            candidates.push(candidate);
            Ok((candidates, at))
        },
    }
}

impl Keyed for MemoryCandidateRecord {
    /// Latest first, then by identity.
    open spec fn key(self) -> SortKey {
        SortKey { first: (0 - self.created_at) as i128, second: 0, third: 0, id: self.id.text }
    }

    fn sort_key(&self) -> (k: SortKey) {
        SortKey {
            first: -(self.created_at as i128),
            second: 0,
            third: 0,
            id: self.id.text.clone(),
        }
    }
}

/// Whether a listing of candidates shows one.
pub open spec fn candidate_shown(
    candidate: MemoryCandidateRecord,
    vault: Seq<char>,
    decision: Option<&str>,
) -> bool {
    candidate.vault_id@ == vault && (decision is Some ==> candidate.decision is Some
        && candidate.decision->0@ == decision->0@)
}

/// Positions of one page of candidates, latest first.
pub fn list_candidates(
    context: &VaultContext,
    candidates: &[MemoryCandidateRecord],
    decision: Option<&str>,
    limit: u32,
    offset: u32,
) -> (r: Result<Vec<usize>, StateError>)
    ensures
        if !(1 <= limit <= MAX_CANDIDATE_LIMIT && offset <= 1_000_000) {
            r == invalid::<Vec<usize>>("memory query page is invalid")
        } else {
            r matches Ok(picked) && is_page(
                keys(candidates@),
                candidates@.map_values(
                    |candidate: MemoryCandidateRecord|
                        candidate_shown(candidate, context.id@, decision),
                ),
                false,
                limit as nat,
                offset as nat,
                picked@,
            )
        },
{
    match validate_page(limit, offset, MAX_CANDIDATE_LIMIT) {
        Ok(()) => {},
        Err(error) => return Err(error),
    }
    let accepts = |candidate: &MemoryCandidateRecord| -> (yes: bool)
        ensures
            yes == candidate_shown(*candidate, context.id@, decision),
        {
            let decided = match (decision, &candidate.decision) {
                (None, _) => true,
                (Some(wanted), Some(own)) => text_eq(wanted, own.as_str()),
                (Some(_), None) => false,
            };
            decided && candidate.vault_id.same(&context.id)
        };
    let eligible = marks(
        candidates,
        accepts,
        Ghost(
            |candidate: MemoryCandidateRecord| candidate_shown(candidate, context.id@, decision),
        ),
    );
    let order_keys = keys_of(candidates);
    Ok(page(order_keys.as_slice(), eligible.as_slice(), false, limit, offset))
}

/// Decisions that a candidate may get.
pub open spec fn decision_ok(decision: Seq<char>) -> bool {
    decision == "promoted"@ || decision == "rejected"@ || decision == "review"@
}

/// Record a decision about a candidate. `candidate` is the vault's candidate
/// with the identity, if there is one.
pub fn decide_candidate(
    context: &VaultContext,
    candidate: Option<MemoryCandidateRecord>,
    decision: String,
    reason: Option<String>,
    now: i64,
) -> (r: Result<MemoryCandidateRecord, StateError>)
    ensures
        r == (if !decision_ok(decision@) {
            invalid("candidate decision is invalid")
        } else if !(candidate is Some && candidate->0.vault_id@ == context.id@) {
            invalid("memory candidate does not exist")
        } else {
            Ok::<MemoryCandidateRecord, StateError>(
                (MemoryCandidateRecord {
                    decision: Some(decision),
                    decision_reason: reason,
                    reviewed_at: Some(now),
                    ..candidate->0
                }),
            )
        }),
{
    let known = text_eq(decision.as_str(), "promoted") || text_eq(decision.as_str(), "rejected")
        || text_eq(decision.as_str(), "review");
    if !known {
        return Err(StateError::InvalidInput("candidate decision is invalid"));
    }
    match candidate {
        Some(candidate) if candidate.vault_id.same(&context.id) => Ok(
            MemoryCandidateRecord {
                decision: Some(decision),
                decision_reason: reason,
                reviewed_at: Some(now),
                ..candidate
            },
        ),
        _ => Err(StateError::InvalidInput("memory candidate does not exist")),
    }
}

/// Durable explicit-command idempotency mapping.
#[derive(Clone, Debug, PartialEq, Eq)]
pub struct MemoryIdempotencyRecord {
    /// Isolation boundary.
    pub vault_id: Id,
    /// Client-supplied idempotency key.
    pub idempotency_key: String,
    /// Hash of the normalized command input.
    pub request_hash: String,
    /// Resulting memory identity.
    pub memory_id: Id,
    /// Created, reinforced or merged outcome.
    pub outcome: String,
    /// Creation time.
    pub created_at: i64,
}

/// Whether a record answers for a key in a vault.
pub open spec fn under_key(record: MemoryIdempotencyRecord, vault: Seq<char>, key: Seq<char>) -> bool {
    record.vault_id@ == vault && record.idempotency_key@ == key
}

/// The position of the result under an idempotency key.
pub fn get_idempotency(context: &VaultContext, records: &[MemoryIdempotencyRecord], key: &str) -> (r: Option<
    usize,
>)
    ensures
        match r {
            Some(i) => i < records@.len() && first_index(
                records@,
                |record: MemoryIdempotencyRecord| under_key(record, context.id@, key@),
            ) == Some(i as int),
            None => first_index(
                records@,
                |record: MemoryIdempotencyRecord| under_key(record, context.id@, key@),
            ) is None,
        },
{
    let accepts = |record: &MemoryIdempotencyRecord| -> (yes: bool)
        ensures
            yes == under_key(*record, context.id@, key@),
        { record.vault_id.same(&context.id) && text_eq(record.idempotency_key.as_str(), key) };
    find(
        records,
        accepts,
        Ghost(|record: MemoryIdempotencyRecord| under_key(record, context.id@, key@)),
    )
}

/// Keep an explicit remember result: the first one under a key stays.
pub fn put_idempotency(
    context: &VaultContext,
    records: Vec<MemoryIdempotencyRecord>,
    key: String,
    request_hash: String,
    memory_id: Id,
    outcome: String,
    now: i64,
) -> (r: Vec<MemoryIdempotencyRecord>)
    ensures
        r@ == (if first_index(
            records@,
            |record: MemoryIdempotencyRecord| under_key(record, context.id@, key@),
        ) is Some {
            records@
        } else {
            records@.push(
                MemoryIdempotencyRecord {
                    vault_id: context.id,
                    idempotency_key: key,
                    request_hash,
                    memory_id,
                    outcome,
                    created_at: now,
                },
            )
        }),
{
    let mut records = records;
    match get_idempotency(context, records.as_slice(), key.as_str()) {
        Some(_) => records,
        None => {
            records.push(
                MemoryIdempotencyRecord {
                    vault_id: context.id.duplicate(),
                    idempotency_key: key,
                    request_hash,
                    memory_id,
                    outcome,
                    created_at: now,
                },
            );
            records
        },
    }
}

/// Redacted diagnosis for one invalid managed memory file.
#[derive(Clone, Debug, PartialEq, Eq)]
pub struct MemoryDiagnosticRecord {
    /// Stable diagnostic row identity.
    pub id: String,
    /// Isolation boundary.
    pub vault_id: Id,
    /// Managed relative path.
    pub path: VaultPath,
    /// Stable validation code.
    pub code: String,
    /// Last observation time.
    pub updated_at: i64,
}

/// Record one diagnosis of an invalid managed file. `existing` is the vault's
/// diagnosis of that path.
pub fn upsert_diagnostic(
    context: &VaultContext,
    existing: Option<MemoryDiagnosticRecord>,
    path: VaultPath,
    code: String,
    now: i64,
) -> (r: MemoryDiagnosticRecord)
    ensures
        match existing {
            Some(row) if row.vault_id@ == context.id@ && row.path@ == path@ => r == (
            MemoryDiagnosticRecord { code, updated_at: now, ..row }),
            _ => r.id@ == context.id@ + ":"@ + path@ && r == (MemoryDiagnosticRecord {
                id: r.id,
                vault_id: context.id,
                path,
                code,
                updated_at: now,
            }),
        },
{
    match existing {
        Some(row) if row.vault_id.same(&context.id) && row.path.same(
            &path,
        ) => MemoryDiagnosticRecord { code, updated_at: now, ..row },
        _ => {
            let mut id = String::new();
            id.push_str(context.id.as_str());
            id.push_str(":");
            id.push_str(path.as_str());
            assert(id@ =~= context.id@ + ":"@ + path@);
            MemoryDiagnosticRecord {
                id,
                vault_id: context.id.duplicate(),
                path,
                code,
                updated_at: now,
            }
        },
    }
}

/// Whether a memory has a source in a note of the vault.
pub open spec fn sourced_from(stored: StoredMemory, vault: Seq<char>, file: Seq<char>) -> bool {
    some_row(
        stored.sources@,
        |source: MemorySourceRecord|
            source.vault_id@ == vault && source.note_file_id is Some && source.note_file_id->0@
                == file,
    )
}

/// Identities of all memories sourced from one note file, ascending and without
/// repetition.
pub fn memory_ids_for_source(context: &VaultContext, memories: &[StoredMemory], file_id: &Id) -> (r: Vec<
    String,
>)
    ensures
        ascending(texts(r@)),
        forall|id: Seq<char>| #[trigger]
            listed(r@, id) <==> some_row(
                memories@,
                |stored: StoredMemory|
                    stored.memory.id@ == id && sourced_from(stored, context.id@, file_id@),
            ),
{
    let mut ids: Vec<String> = Vec::new();
    let mut i: usize = 0;
    while i < memories.len()
        invariant
            i <= memories@.len(),
            ascending(texts(ids@)),
            forall|id: Seq<char>| #[trigger]
                listed(ids@, id) <==> some_row(
                    memories@.take(i as int),
                    |stored: StoredMemory|
                        stored.memory.id@ == id && sourced_from(stored, context.id@, file_id@),
                ),
        decreases memories@.len() - i,
    {
        let stored = &memories[i];
        let accepts = |source: &MemorySourceRecord| -> (yes: bool)
            ensures
                yes == (source.vault_id@ == context.id@ && source.note_file_id is Some
                    && source.note_file_id->0@ == file_id@),
            {
                let same_note = match &source.note_file_id {
                    Some(own) => own.same(file_id),
                    None => false,
                };
                same_note && source.vault_id.same(&context.id)
            };
        let sourced = any(
            stored.sources.as_slice(),
            accepts,
            Ghost(
                |source: MemorySourceRecord|
                    source.vault_id@ == context.id@ && source.note_file_id is Some
                        && source.note_file_id->0@ == file_id@,
            ),
        );
        let ghost before = ids@;
        if sourced {
            insert_sorted(&mut ids, stored.memory.id.text.clone());
        }
        proof {
            let shorter = memories@.take(i as int);
            let longer = memories@.take(i + 1);
            assert forall|id: Seq<char>| #[trigger] listed(ids@, id) <==> some_row(
                longer,
                |stored: StoredMemory|
                    stored.memory.id@ == id && sourced_from(stored, context.id@, file_id@),
            ) by {
                let rule = |stored: StoredMemory|
                    stored.memory.id@ == id && sourced_from(stored, context.id@, file_id@);
                assert(listed(before, id) <==> some_row(shorter, rule));
                if some_row(shorter, rule) {
                    let k = choose|k: int| 0 <= k < shorter.len() && rule(#[trigger] shorter[k]);
                    assert(rule(longer[k]));
                }
                if some_row(longer, rule) {
                    let k = choose|k: int| 0 <= k < longer.len() && rule(#[trigger] longer[k]);
                    if k < i {
                        assert(rule(shorter[k]));
                    }
                }
                if sourced && id == stored.memory.id@ {
                    assert(rule(longer[i as int]));
                }
            }
        }
        i += 1;
    }
    assert(memories@.take(i as int) =~= memories@);
    ids
}

/// Lifecycle statuses that a memory may have.
pub open spec fn status_ok(status: Seq<char>) -> bool {
    ||| status == "candidate"@
    ||| status == "active"@
    ||| status == "superseded"@
    ||| status == "stale"@
    ||| status == "archived"@
    ||| status == "rejected"@
    ||| status == "quarantined"@
}

/// Whether a memory may have the status.
fn is_status(status: &str) -> (r: bool)
    ensures
        r == status_ok(status@),
{
    text_eq(status, "candidate") || text_eq(status, "active") || text_eq(status, "superseded")
        || text_eq(status, "stale") || text_eq(status, "archived") || text_eq(status, "rejected")
        || text_eq(status, "quarantined")
}

/// Why a status change is refused, if it is.
pub open spec fn status_fault(
    current: Option<MemoryRecord>,
    status: Seq<char>,
    expected: Option<Revision>,
) -> Option<StateError> {
    if !status_ok(status) {
        Some(StateError::InvalidInput("memory status is invalid"))
    } else if current is None {
        Some(StateError::InvalidInput("memory does not exist"))
    } else if expected is Some && current->0.revision != expected->0 {
        Some(StateError::InvalidInput("memory revision conflict"))
    } else if current->0.revision.successor() is None
        || !current->0.revision.successor()->0.storable() {
        Some(StateError::InvalidDomain(DomainError::RevisionOutOfRange))
    } else {
        None
    }
}

/// The vault's memory with an identity, where the stored one is that.
pub open spec fn own_memory(current: Option<MemoryRecord>, vault: Seq<char>, id: Seq<char>) -> Option<
    MemoryRecord,
> {
    match current {
        Some(memory) => if memory.vault_id@ == vault && memory.id@ == id {
            Some(memory)
        } else {
            None
        },
        None => None,
    }
}

/// Update the lifecycle status of a memory without replacing its content.
pub fn set_status(
    context: &VaultContext,
    memory_id: &Id,
    current: Option<MemoryRecord>,
    status: String,
    expected_revision: Option<Revision>,
    now: i64,
) -> (r: Result<MemoryRecord, StateError>)
    ensures
        match status_fault(
            own_memory(current, context.id@, memory_id@),
            status@,
            expected_revision,
        ) {
            Some(error) => r == Err::<MemoryRecord, StateError>(error),
            None => r == Ok::<MemoryRecord, StateError>(
                (MemoryRecord {
                    status,
                    revision: current->0.revision.successor()->0,
                    updated_at: now,
                    ..current->0
                }),
            ),
        },
{
    if !is_status(status.as_str()) {
        return Err(StateError::InvalidInput("memory status is invalid"));
    }
    let current = match current {
        Some(current) if current.vault_id.same(&context.id) && current.id.same(
            memory_id,
        ) => current,
        _ => return Err(StateError::InvalidInput("memory does not exist")),
    };
    match expected_revision {
        Some(expected) => {
            if current.revision.value != expected.value {
                return Err(StateError::InvalidInput("memory revision conflict"));
            }
        },
        None => {},
    }
    let revision = match current.revision.next() {
        Ok(revision) => revision,
        Err(error) => return Err(StateError::InvalidDomain(error)),
    };
    match revision.as_i64() {
        Ok(_) => {},
        Err(error) => return Err(StateError::InvalidDomain(error)),
    }
    Ok(MemoryRecord { status, revision, updated_at: now, ..current })
}

/// A memory after it was recalled as often as it is listed.
pub open spec fn recalled(stored: StoredMemory, vault: Seq<char>, ids: Seq<Id>, now: i64) -> StoredMemory
    decreases ids.len(),
{
    if ids.len() == 0 {
        stored
    } else {
        let before = recalled(stored, vault, ids.drop_last(), now);
        if before.is(vault, ids.last()@) {
            StoredMemory {
                memory: MemoryRecord {
                    last_recalled_at: Some(now),
                    recall_count: (before.memory.recall_count + 1) as u64,
                    ..before.memory
                },
                ..before
            }
        } else {
            before
        }
    }
}

/// A recall keeps everything of a memory but its recall statistics, and counts
/// at most once for each listing.
pub proof fn law_recall_keeps_memories(stored: StoredMemory, vault: Seq<char>, ids: Seq<Id>, now: i64)
    requires
        stored.memory.recall_count + ids.len() <= u64::MAX,
    ensures
        ({
            let after = recalled(stored, vault, ids, now);
            &&& after == (StoredMemory { memory: after.memory, ..stored })
            &&& after.memory == (MemoryRecord {
                last_recalled_at: after.memory.last_recalled_at,
                recall_count: after.memory.recall_count,
                ..stored.memory
            })
            &&& stored.memory.recall_count <= after.memory.recall_count
                <= stored.memory.recall_count + ids.len()
        }),
    decreases ids.len(),
{
    if ids.len() > 0 {
        law_recall_keeps_memories(stored, vault, ids.drop_last(), now);
    }
}

fn recall(
    context: &VaultContext,
    stored: StoredMemory,
    memory_ids: &[Id],
    now: i64,
) -> (r: StoredMemory)
    requires
        stored.memory.recall_count + memory_ids@.len() <= i64::MAX,
    ensures
        r == recalled(stored, context.id@, memory_ids@, now),
{
    let ghost first = stored;
    let mut stored = stored;
    let mut k: usize = 0;
    while k < memory_ids.len()
        invariant
            k <= memory_ids@.len(),
            first.memory.recall_count + memory_ids@.len() <= i64::MAX,
            stored == recalled(first, context.id@, memory_ids@.take(k as int), now),
        decreases memory_ids@.len() - k,
    {
        proof {
            assert(memory_ids@.take(k + 1).drop_last() =~= memory_ids@.take(k as int));
            assert(memory_ids@.take(k + 1).last() == memory_ids@[k as int]);
            law_recall_keeps_memories(first, context.id@, memory_ids@.take(k as int), now);
        }
        if stored.is_memory(&context.id, &memory_ids[k]) {
            let StoredMemory { memory, sources, entities, tags } = stored;
            let recall_count: u64 = memory.recall_count + 1;
            stored = StoredMemory {
                memory: MemoryRecord { last_recalled_at: Some(now), recall_count, ..memory },
                sources,
                entities,
                tags,
            };
        }
        k += 1;
    }
    assert(memory_ids@.take(k as int) =~= memory_ids@);
    stored
}

/// Record recalls of a vault's memories without touching anything else.
pub fn mark_recalled(
    context: &VaultContext,
    memories: Vec<StoredMemory>,
    memory_ids: &[Id],
    now: i64,
) -> (r: Result<Vec<StoredMemory>, StateError>)
    requires
        forall|i: int|
            0 <= i < memories@.len() ==> (#[trigger] memories@[i]).memory.recall_count
                + memory_ids@.len() <= i64::MAX,
    ensures
        if memory_ids@.len() > MAX_MEMORY_LIMIT {
            r == invalid::<Vec<StoredMemory>>("too many recall statistics")
        } else {
            r matches Ok(after) && after@ == memories@.map_values(
                |stored: StoredMemory| recalled(stored, context.id@, memory_ids@, now),
            )
        },
{
    if memory_ids.len() > MAX_MEMORY_LIMIT as usize {
        return Err(StateError::InvalidInput("too many recall statistics"));
    }
    let ghost all = memories@;
    let mut rest = memories;
    let n: usize = rest.len();
    let mut after: Vec<StoredMemory> = Vec::new();
    let mut i: usize = 0;
    let ghost rule = |stored: StoredMemory| recalled(stored, context.id@, memory_ids@, now);
    assert(rest@ =~= all.skip(0));
    while i < n
        invariant
            i <= n == all.len(),
            forall|k: int|
                0 <= k < all.len() ==> (#[trigger] all[k]).memory.recall_count
                    + memory_ids@.len() <= i64::MAX,
            rule == (|stored: StoredMemory| recalled(stored, context.id@, memory_ids@, now)),
            rest@ == all.skip(i as int),
            after@ == all.take(i as int).map_values(rule),
        decreases n - i,
    {
        let stored = rest.remove(0);
        assert(stored == all[i as int]);
        after.push(recall(context, stored, memory_ids, now));
        i += 1;
        assert(rest@ =~= all.skip(i as int));
        assert(after@ =~= all.take(i as int).map_values(rule));
    }
    assert(all.take(n as int) =~= all);
    Ok(after)
}

/// Why a relation is refused, if it is.
pub open spec fn relation_fault(
    relation: MemoryRelationRecord,
    vault: Seq<char>,
    source: Seq<char>,
) -> Option<StateError> {
    if relation.vault_id@ != vault || relation.source_memory_id@ != source {
        Some(StateError::InvalidInput("memory relation is invalid"))
    } else if !relation.confidence.in_unit() {
        Some(StateError::InvalidInput("memory score is invalid"))
    } else {
        None
    }
}

/// The first fault among relations, if any.
pub open spec fn relations_fault(
    relations: Seq<MemoryRelationRecord>,
    vault: Seq<char>,
    source: Seq<char>,
) -> Option<StateError>
    decreases relations.len(),
{
    if relations.len() == 0 {
        None
    } else {
        match relations_fault(relations.drop_last(), vault, source) {
            Some(error) => Some(error),
            None => relation_fault(relations.last(), vault, source),
        }
    }
}

/// A fault of the first relations is a fault of all.
proof fn lemma_relations_fault(
    relations: Seq<MemoryRelationRecord>,
    n: int,
    vault: Seq<char>,
    source: Seq<char>,
)
    requires
        0 <= n <= relations.len(),
    ensures
        relations_fault(relations.take(n), vault, source) is Some ==> relations_fault(
            relations,
            vault,
            source,
        ) == relations_fault(relations.take(n), vault, source),
    decreases relations.len(),
{
    if n < relations.len() {
        lemma_relations_fault(relations.drop_last(), n, vault, source);
        assert(relations.drop_last().take(n) =~= relations.take(n));
    } else {
        assert(relations.take(n) =~= relations);
    }
}

/// Replace only the rebuildable outgoing relations of a memory.
///
/// Relation targets may be projected after their source in a filesystem walk,
/// so a rebuild uses this second pass after all memories are admitted. It does
/// not change the memory's revision or canonical Markdown.
pub fn replace_relations(
    context: &VaultContext,
    state: MemoryState,
    source_memory_id: &Id,
    relations: Vec<MemoryRelationRecord>,
) -> (r: Result<MemoryState, StateError>)
    ensures
        if first_index(
            state.memories@,
            |stored: StoredMemory| stored.is(context.id@, source_memory_id@),
        ) is None {
            r == invalid::<MemoryState>("memory relation source is missing")
        } else {
            match relations_fault(relations@, context.id@, source_memory_id@) {
                Some(error) => r == Err::<MemoryState, StateError>(error),
                None => r matches Ok(after) && after.memories == state.memories
                    && after.relations@ == relations_replaced(
                    state.relations@,
                    context.id@,
                    source_memory_id@,
                    relations@,
                ),
            }
        },
{
    if get_memory(context, state.memories.as_slice(), source_memory_id).is_none() {
        return Err(StateError::InvalidInput("memory relation source is missing"));
    }
    let mut i: usize = 0;
    while i < relations.len()
        invariant
            i <= relations@.len(),
            first_index(
                state.memories@,
                |stored: StoredMemory| stored.is(context.id@, source_memory_id@),
            ) is Some,
            relations_fault(relations@.take(i as int), context.id@, source_memory_id@) is None,
        decreases relations@.len() - i,
    {
        proof {
            assert(relations@.take(i + 1).drop_last() =~= relations@.take(i as int));
            assert(relations@.take(i + 1).last() == relations@[i as int]);
            lemma_relations_fault(relations@, i + 1, context.id@, source_memory_id@);
        }
        let relation = &relations[i];
        if !relation.vault_id.same(&context.id) || !relation.source_memory_id.same(
            source_memory_id,
        ) {
            return Err(StateError::InvalidInput("memory relation is invalid"));
        }
        match validate_score(relation.confidence) {
            Ok(()) => {},
            Err(error) => return Err(error),
        }
        i += 1;
    }
    assert(relations@.take(i as int) =~= relations@);
    let MemoryState { memories, relations: old } = state;
    let relations = put_relations(old, &context.id, source_memory_id, relations);
    Ok(MemoryState { memories, relations })
}

/// Delete one memory projection; the canonical file is deleted elsewhere.
pub fn delete_memory_projection(context: &VaultContext, memories: Vec<StoredMemory>, memory_id: &Id) -> (r: Result<
    Vec<StoredMemory>,
    StateError,
>)
    ensures
        if first_index(
            memories@,
            |stored: StoredMemory| stored.is(context.id@, memory_id@),
        ) is None {
            r == invalid::<Vec<StoredMemory>>("memory does not exist")
        } else {
            r matches Ok(after) && after@ == memories@.filter(
                |stored: StoredMemory| !stored.is(context.id@, memory_id@),
            )
        },
{
    if get_memory(context, memories.as_slice(), memory_id).is_none() {
        return Err(StateError::InvalidInput("memory does not exist"));
    }
    let accepts = |stored: &StoredMemory| -> (yes: bool)
        ensures
            yes == !stored.is(context.id@, memory_id@),
        { !stored.is_memory(&context.id, memory_id) };
    Ok(
        keep(
            memories,
            accepts,
            Ghost(|stored: StoredMemory| !stored.is(context.id@, memory_id@)),
        ),
    )
}

impl Keyed for MemorySourceRecord {
    /// Oldest first, then by identity.
    open spec fn key(self) -> SortKey {
        SortKey { first: self.created_at as i128, second: 0, third: 0, id: self.id.text }
    }

    fn sort_key(&self) -> (k: SortKey) {
        SortKey {
            first: self.created_at as i128,
            second: 0,
            third: 0,
            id: self.id.text.clone(),
        }
    }
}

/// Positions of a memory's provenance rows in the order in which they are
/// shown: oldest first, then by identity.
pub fn list_sources(stored: &StoredMemory) -> (r: Vec<usize>)
    ensures
        is_order(keys(stored.sources@), r@),
{
    let order_keys = keys_of(stored.sources.as_slice());
    sorted_order(order_keys.as_slice())
}

/// Kinds of relations, in order.
pub open spec fn relation_types(relations: Seq<MemoryRelationRecord>) -> Seq<String> {
    relations.map_values(|relation: MemoryRelationRecord| relation.relation_type)
}

/// What relations are listed by: their kind, then their target.
pub open spec fn relation_key(types: Seq<String>, relation: MemoryRelationRecord) -> SortKey {
    SortKey {
        first: names_before(types, relation.relation_type@) as i128,
        second: 0,
        third: 0,
        id: relation.target_memory_id.text,
    }
}

/// What relations are listed by, in order.
pub open spec fn relation_keys(relations: Seq<MemoryRelationRecord>) -> Seq<SortKey> {
    relations.map_values(
        |relation: MemoryRelationRecord| relation_key(relation_types(relations), relation),
    )
}

/// Whether a relation starts at a memory of the vault.
pub open spec fn relates_from(relation: MemoryRelationRecord, vault: Seq<char>, memory: Seq<char>) -> bool {
    relation.vault_id@ == vault && relation.source_memory_id@ == memory
}

/// The relations that start at a memory of the vault, by kind and target:
/// their positions.
pub fn list_relations(context: &VaultContext, relations: &[MemoryRelationRecord], memory_id: &Id) -> (picked: Vec<
    usize,
>)
    ensures
        is_selection(
            relation_keys(relations@),
            relations_from(relations@, context.id@, memory_id@),
            relations@.len(),
            picked@,
        ),
{
    let type_of = |relation: &MemoryRelationRecord| -> (name: String)
        ensures
            name == relation.relation_type,
        { relation.relation_type.clone() };
    let types = each(
        relations,
        type_of,
        Ghost(|relation: MemoryRelationRecord| relation.relation_type),
    );
    let known = types.as_slice();
    assert(known@ == relation_types(relations@));
    let place = |relation: &MemoryRelationRecord| -> (key: SortKey)
        ensures
            key == relation_key(known@, *relation),
        {
            let rank: usize = count_before(known, relation.relation_type.as_str());
            SortKey {
                first: rank as i128,
                second: 0,
                third: 0,
                id: relation.target_memory_id.text.clone(),
            }
        };
    let order_keys = each(
        relations,
        place,
        Ghost(|relation: MemoryRelationRecord| relation_key(known@, relation)),
    );
    assert(order_keys@ =~= relation_keys(relations@));
    let accepts = |relation: &MemoryRelationRecord| -> (yes: bool)
        ensures
            yes == relates_from(*relation, context.id@, memory_id@),
        { relation.vault_id.same(&context.id) && relation.source_memory_id.same(memory_id) };
    let eligible = marks(
        relations,
        accepts,
        Ghost(|relation: MemoryRelationRecord| relates_from(relation, context.id@, memory_id@)),
    );
    select(order_keys.as_slice(), eligible.as_slice(), relations.len())
}

impl MemoryRecord {
    /// An equal record.
    pub fn duplicate(&self) -> (r: MemoryRecord)
        ensures
            r == *self,
    {
        MemoryRecord {
            id: self.id.duplicate(),
            vault_id: self.vault_id.duplicate(),
            memory_type: self.memory_type.clone(),
            status: self.status.clone(),
            content: self.content.clone(),
            normalized_content: self.normalized_content.clone(),
            content_hash: self.content_hash.clone(),
            importance: self.importance,
            confidence: self.confidence,
            origin: self.origin.clone(),
            revision: self.revision,
            canonical_file_id: duplicate_optional(&self.canonical_file_id),
            canonical_path: duplicate_path(&self.canonical_path),
            canonical_revision: self.canonical_revision,
            valid_from: self.valid_from,
            valid_to: self.valid_to,
            extraction: self.extraction.duplicate(),
            created_at: self.created_at,
            updated_at: self.updated_at,
            last_recalled_at: self.last_recalled_at,
            recall_count: self.recall_count,
        }
    }
}

impl MemorySourceRecord {
    /// Whether another row holds the same: the heading path text by text, every
    /// other field as it is.
    pub open spec fn same_as(self, other: MemorySourceRecord) -> bool {
        &&& self.heading_path@ == other.heading_path@
        &&& self == (MemorySourceRecord { heading_path: self.heading_path, ..other })
    }

    /// A row that holds the same.
    pub fn duplicate(&self) -> (r: MemorySourceRecord)
        ensures
            r.same_as(*self),
    {
        MemorySourceRecord {
            id: self.id.duplicate(),
            vault_id: self.vault_id.duplicate(),
            memory_id: self.memory_id.duplicate(),
            source_type: self.source_type.clone(),
            note_file_id: duplicate_optional(&self.note_file_id),
            note_path: duplicate_path(&self.note_path),
            note_revision: self.note_revision,
            heading_path: copy_texts(self.heading_path.as_slice()),
            start_line: self.start_line,
            end_line: self.end_line,
            excerpt_hash: duplicate_text(&self.excerpt_hash),
            actor_id: duplicate_text(&self.actor_id),
            created_at: self.created_at,
        }
    }
}

impl MemoryRelationRecord {
    /// An equal relation.
    pub fn duplicate(&self) -> (r: MemoryRelationRecord)
        ensures
            r == *self,
    {
        MemoryRelationRecord {
            id: self.id.duplicate(),
            vault_id: self.vault_id.duplicate(),
            source_memory_id: self.source_memory_id.duplicate(),
            target_memory_id: self.target_memory_id.duplicate(),
            relation_type: self.relation_type.clone(),
            confidence: self.confidence,
            created_at: self.created_at,
        }
    }
}

/// Whether `shown` are the provenance rows of a memory in their order.
pub open spec fn sources_shown(
    stored: Seq<MemorySourceRecord>,
    shown: Seq<MemorySourceRecord>,
) -> bool {
    exists|order: Seq<usize>|
        {
            &&& #[trigger] is_order(keys(stored), order)
            &&& shown.len() == order.len()
            &&& forall|k: int|
                0 <= k < shown.len() ==> (#[trigger] shown[k]).same_as(stored[order[k] as int])
        }
}

/// Whether texts are the compared forms of terms.
pub open spec fn are_forms(values: Seq<String>, forms: Seq<String>) -> bool {
    &&& forms.len() == values.len()
    &&& forall|i: int| 0 <= i < forms.len() ==> (#[trigger] forms[i])@ == normal_term(values[i]@)
}

/// Whether `shown` are the stored terms in the order of their compared forms.
pub open spec fn terms_shown(stored: Seq<String>, shown: Seq<String>) -> bool {
    exists|forms: Seq<String>, order: Seq<usize>|
        {
            &&& #[trigger] are_forms(stored, forms)
            &&& #[trigger] is_order(keys(forms), order)
            &&& shown.len() == order.len()
            &&& forall|k: int|
                0 <= k < shown.len() ==> #[trigger] shown[k] == stored[order[k] as int]
        }
}

/// Which relations start at a memory of the vault.
pub open spec fn relations_from(
    relations: Seq<MemoryRelationRecord>,
    vault: Seq<char>,
    memory: Seq<char>,
) -> Seq<bool> {
    relations.map_values(
        |relation: MemoryRelationRecord| relates_from(relation, vault, memory),
    )
}

/// Whether `shown` are the relations that start at a memory, by kind and target.
pub open spec fn relations_shown(
    stored: Seq<MemoryRelationRecord>,
    vault: Seq<char>,
    memory: Seq<char>,
    shown: Seq<MemoryRelationRecord>,
) -> bool {
    exists|picked: Seq<usize>|
        {
            &&& #[trigger] is_selection(
                relation_keys(stored),
                relations_from(stored, vault, memory),
                stored.len(),
                picked,
            )
            &&& shown.len() == picked.len()
            &&& forall|k: int|
                0 <= k < shown.len() ==> #[trigger] shown[k] == stored[picked[k] as int]
        }
}

fn show_sources(stored: &StoredMemory) -> (r: Vec<MemorySourceRecord>)
    ensures
        sources_shown(stored.sources@, r@),
{
    let order = list_sources(stored);
    let mut shown: Vec<MemorySourceRecord> = Vec::new();
    let mut i: usize = 0;
    while i < order.len()
        invariant
            i <= order@.len(),
            is_order(keys(stored.sources@), order@),
            shown@.len() == i,
            forall|k: int|
                0 <= k < i ==> (#[trigger] shown@[k]).same_as(stored.sources@[order@[k] as int]),
        decreases order@.len() - i,
    {
        shown.push(stored.sources[order[i]].duplicate());
        i += 1;
    }
    shown
}

/// Terms in the order of their compared forms.
fn show_terms(values: &[String]) -> (r: Vec<String>)
    ensures
        terms_shown(values@, r@),
{
    let mut forms: Vec<String> = Vec::new();
    let mut i: usize = 0;
    while i < values.len()
        invariant
            i <= values@.len(),
            are_forms(values@.take(i as int), forms@),
        decreases values@.len() - i,
    {
        forms.push(normalize_term(values[i].as_str()));
        i += 1;
    }
    assert(values@.take(i as int) =~= values@);
    let order_keys = keys_of(forms.as_slice());
    let order = sorted_order(order_keys.as_slice());
    let mut shown: Vec<String> = Vec::new();
    let mut n: usize = 0;
    while n < order.len()
        invariant
            n <= order@.len(),
            are_forms(values@, forms@),
            is_order(keys(forms@), order@),
            shown@.len() == n,
            forall|k: int| 0 <= k < n ==> #[trigger] shown@[k] == values@[order@[k] as int],
        decreases order@.len() - n,
    {
        shown.push(values[order[n]].clone());
        n += 1;
    }
    shown
}

fn show_relations(
    context: &VaultContext,
    relations: &[MemoryRelationRecord],
    memory_id: &Id,
) -> (r: Vec<MemoryRelationRecord>)
    ensures
        relations_shown(relations@, context.id@, memory_id@, r@),
{
    let picked = list_relations(context, relations, memory_id);
    let ghost eligible = relations_from(relations@, context.id@, memory_id@);
    let mut shown: Vec<MemoryRelationRecord> = Vec::new();
    let mut i: usize = 0;
    while i < picked.len()
        invariant
            i <= picked@.len(),
            is_selection(relation_keys(relations@), eligible, relations@.len(), picked@),
            shown@.len() == i,
            forall|k: int| 0 <= k < i ==> #[trigger] shown@[k] == relations@[picked@[k] as int],
        decreases picked@.len() - i,
    {
        shown.push(relations[picked[i]].duplicate());
        i += 1;
    }
    shown
}

/// Whether a bundle is a stored memory with everything that belongs to it, each
/// part in the order in which it is shown.
pub open spec fn bundle_of(
    bundle: MemoryBundle,
    stored: StoredMemory,
    relations: Seq<MemoryRelationRecord>,
    vault: Seq<char>,
) -> bool {
    &&& bundle.memory == stored.memory
    &&& sources_shown(stored.sources@, bundle.sources@)
    &&& terms_shown(stored.entities@, bundle.entities@)
    &&& terms_shown(stored.tags@, bundle.tags@)
    &&& relations_shown(relations, vault, stored.memory.id@, bundle.relations@)
}

/// One memory with its provenance, entities, tags and relations.
pub fn get_bundle(context: &VaultContext, state: &MemoryState, memory_id: &Id) -> (r: Option<
    MemoryBundle,
>)
    ensures
        match first_row(
            state.memories@,
            |stored: StoredMemory| stored.is(context.id@, memory_id@),
        ) {
            Some(stored) => r matches Some(bundle) && bundle_of(
                bundle,
                stored,
                state.relations@,
                context.id@,
            ),
            None => r is None,
        },
{
    match get_memory(context, state.memories.as_slice(), memory_id) {
        Some(at) => {
            let stored = &state.memories[at];
            proof {
                lemma_first_index(
                    state.memories@,
                    |stored: StoredMemory| stored.is(context.id@, memory_id@),
                );
            }
            let bundle = MemoryBundle {
                memory: stored.memory.duplicate(),
                sources: show_sources(stored),
                entities: show_terms(stored.entities.as_slice()),
                tags: show_terms(stored.tags.as_slice()),
                relations: show_relations(context, state.relations.as_slice(), memory_id),
            };
            Some(bundle)
        },
        None => None,
    }
}

/// A replaced memory is read back as the bundle gave it, at its new revision,
/// and no other memory changes.
pub proof fn law_replaced_memory_is_read_back(
    before: Seq<StoredMemory>,
    after: Seq<StoredMemory>,
    vault: Seq<char>,
    bundle: MemoryBundle,
    revision: Revision,
    now: i64,
    other: Seq<char>,
)
    requires
        memories_replaced(before, after, vault, bundle, revision, now),
        bundle.memory.vault_id@ == vault,
        other != bundle.memory.id@,
    ensures
        ({
            let rule = |stored: StoredMemory| stored.is(vault, bundle.memory.id@);
            let found = first_row(after, rule);
            found is Some && replaced_as(
                found->0,
                bundle,
                first_row(before, rule),
                revision,
                now,
            )
        }),
        first_row(after, |stored: StoredMemory| stored.is(vault, other)) == first_row(
            before,
            |stored: StoredMemory| stored.is(vault, other),
        ),
{
    let rule = |stored: StoredMemory| stored.is(vault, bundle.memory.id@);
    let foreign = |stored: StoredMemory| stored.is(vault, other);
    lemma_first_index(before, rule);
    match first_index(before, rule) {
        Some(i) => {
            lemma_put_is_found(before, rule, after[i]);
            lemma_update_keeps_others(before, i, after[i], foreign);
        },
        None => {
            lemma_put_is_found(before, rule, after.last());
            lemma_push_keeps_others(before, after.last(), foreign);
        },
    }
}

/// A deleted memory is found no more.
pub proof fn law_deleted_memory_is_gone(memories: Seq<StoredMemory>, vault: Seq<char>, id: Seq<char>)
    ensures
        first_index(
            memories.filter(|stored: StoredMemory| !stored.is(vault, id)),
            |stored: StoredMemory| stored.is(vault, id),
        ) is None,
{
    let rule = |stored: StoredMemory| stored.is(vault, id);
    let other = |stored: StoredMemory| !stored.is(vault, id);
    assert(other =~= |stored: StoredMemory| !rule(stored));
    lemma_filter_drops(memories, rule);
    lemma_first_index(memories.filter(other), rule);
}

/// A refused replacement names its reason before anything is stored, and an
/// accepted one advances the stored revision by exactly one.
pub proof fn law_replacement_advances_by_one(
    state: MemoryState,
    vault: Seq<char>,
    bundle: MemoryBundle,
    expected: Option<Revision>,
    root_path: bool,
    i: int,
)
    requires
        replacement_fault(state, vault, bundle, expected, root_path) is None,
        first_index(
            state.memories@,
            |stored: StoredMemory| stored.is(vault, bundle.memory.id@),
        ) == Some(i),
    ensures
        ({
            let current = first_row(
                state.memories@,
                |stored: StoredMemory| stored.is(vault, bundle.memory.id@),
            );
            next_revision(current, expected, bundle.memory.revision)->Ok_0.value
                == state.memories@[i].memory.revision.value + 1
        }),
        expected is Some ==> expected->0 == state.memories@[i].memory.revision,
{
}

/// A recorded decision that asks for another look leaves the candidate
/// undecided; promotion and rejection do not.
pub proof fn law_decisions_close_candidates(candidate: MemoryCandidateRecord, vault: Seq<char>, decision: String)
    requires
        candidate.vault_id@ == vault,
        decision_ok(decision@),
    ensures
        ({
            let after = MemoryCandidateRecord { decision: Some(decision), ..candidate };
            after.undecided(vault) <==> decision@ == "review"@
        }),
{
}

} // verus!
