//! Current-only, source-owned durable-memory state.
//!
//! A memory is readable only while its canonical Markdown and, for note-derived
//! items, the exact source content are still current.

use vstd::prelude::*;

use crate::background::{number_of, stored_number};
use crate::domain::{
    id_of, path_of, stored_id, stored_path, DomainError, Id, Revision, VaultContext, VaultPath,
};
use crate::error::{accepted_if, invalid, StateError};
use crate::files::{revision_of, stored_revision};
use crate::json::{compact_json, json_strings, parse_strings, Json};
use crate::score::{is_unit_or_absent, unit_or_absent, Score};
use crate::text::{blank, is_blank, text_eq, texts};

pub mod formal;
pub mod formal_commit;
pub mod formal_laws;
pub mod identities;
pub mod maintenance;
pub mod migration;
pub mod note_sets;
pub mod publish;
pub mod publish_laws;
pub mod read_laws;
pub mod reads;
pub mod set_laws;

verus! {

/// Most items that one page of current memories shows.
pub const MAX_MEMORY_LIMIT: u32 = 200;

/// Ownership determines which object controls replacement and deletion.
#[derive(Clone, Copy, Debug, PartialEq, Eq, Structural)]
pub enum CurrentMemoryOwnership {
    /// A direct assertion with its own canonical Markdown.
    Explicit,
    /// One item in the current set owned by a source note.
    NoteDerived,
}

impl CurrentMemoryOwnership {
    /// Stable database label.
    pub open spec fn label(self) -> Seq<char> {
        match self {
            CurrentMemoryOwnership::Explicit => "explicit"@,
            CurrentMemoryOwnership::NoteDerived => "note_derived"@,
        }
    }

    /// The variant that a label names, if any.
    pub open spec fn named(label: Seq<char>) -> Option<CurrentMemoryOwnership> {
        if label == "explicit"@ {
            Some(CurrentMemoryOwnership::Explicit)
        } else if label == "note_derived"@ {
            Some(CurrentMemoryOwnership::NoteDerived)
        } else {
            None
        }
    }

    /// Stable database label.
    pub fn as_str(self) -> (label: &'static str)
        ensures
            label@ == self.label(),
    {
        match self {
            CurrentMemoryOwnership::Explicit => "explicit",
            CurrentMemoryOwnership::NoteDerived => "note_derived",
        }
    }

    /// Reads a stored label.
    pub fn parse(value: &str) -> (r: Result<CurrentMemoryOwnership, StateError>)
        ensures
            r == (match CurrentMemoryOwnership::named(value@) {
                Some(value) => Ok::<CurrentMemoryOwnership, StateError>(value),
                None => invalid("stored current-memory ownership is invalid"),
            }),
    {
        if text_eq(value, "explicit") {
            Ok(CurrentMemoryOwnership::Explicit)
        } else if text_eq(value, "note_derived") {
            Ok(CurrentMemoryOwnership::NoteDerived)
        } else {
            Err(StateError::InvalidInput("stored current-memory ownership is invalid"))
        }
    }
}

/// A stored label reads back as the value that it was written from.
pub proof fn law_current_memory_ownership_round_trip(value: CurrentMemoryOwnership)
    ensures
        CurrentMemoryOwnership::named(value.label()) == Some(value),
{
    reveal_strlit("explicit");
    reveal_strlit("note_derived");
    assert("explicit"@.len() != "note_derived"@.len());
}

/// One current memory item. There is deliberately no lifecycle status.
#[derive(Clone, Debug, PartialEq, Eq)]
pub struct CurrentMemoryRecord {
    /// Stable current-item identity.
    pub id: Id,
    /// Isolation boundary.
    pub vault_id: Id,
    /// Direct or note-set ownership.
    pub ownership: CurrentMemoryOwnership,
    /// Owning note set for derived items.
    pub note_set_id: Option<Id>,
    /// Stable display order inside a note-owned set.
    pub ordinal: Option<u32>,
    /// Optional caller or model supplied semantic kind.
    pub kind: Option<String>,
    /// Sourced durable content.
    pub content: String,
    /// Deterministic lexical normalization.
    pub normalized_content: String,
    /// Exact hash of normalized content.
    pub content_hash: String,
    /// Optional caller-supplied importance; never synthesized by storage.
    pub importance: Option<Score>,
    /// Optional caller or model confidence; never synthesized by storage.
    pub confidence: Option<Score>,
    /// Explicit-agent, explicit-admin, import, or note-extracted.
    pub origin: String,
    /// Optimistic item revision.
    pub revision: Revision,
    /// Canonical file for explicit items. Note-derived items use their set file.
    pub canonical_file_id: Option<Id>,
    /// Canonical path for explicit items. Note-derived items use their set path.
    pub canonical_path: Option<VaultPath>,
    /// Canonical revision for explicit items.
    pub canonical_revision: Option<Revision>,
    /// Optional temporal validity start.
    pub valid_from: Option<i64>,
    /// Optional temporal validity end.
    pub valid_to: Option<i64>,
    /// Display and search tags.
    pub tags: Vec<String>,
    /// Search entities.
    pub entities: Vec<String>,
    /// Redaction-safe structured metadata.
    pub metadata: Json,
    /// Creation time.
    pub created_at: i64,
    /// Last item update.
    pub updated_at: i64,
    /// Last successful recall.
    pub last_recalled_at: Option<i64>,
    /// Successful recall count.
    pub recall_count: u64,
}

/// A current item as stored.
#[derive(Clone, Debug, PartialEq, Eq)]
pub struct CurrentMemoryRow {
    pub id: String,
    pub vault_id: String,
    pub ownership: String,
    pub note_set_id: Option<String>,
    pub ordinal: Option<i64>,
    pub kind: Option<String>,
    pub content: String,
    pub normalized_content: String,
    pub content_hash: String,
    pub importance: Option<Score>,
    pub confidence: Option<Score>,
    pub origin: String,
    pub revision: i64,
    pub canonical_file_id: Option<String>,
    pub canonical_path: Option<String>,
    pub canonical_revision: Option<i64>,
    pub valid_from: Option<i64>,
    pub valid_to: Option<i64>,
    pub tags_json: String,
    pub entities_json: String,
    pub metadata_json: String,
    pub created_at: i64,
    pub updated_at: i64,
    pub last_recalled_at: Option<i64>,
    pub recall_count: i64,
}

impl CurrentMemoryRow {
    /// Why the row cannot be read, if it cannot.
    pub open spec fn decode_error(self) -> Option<StateError> {
        if CurrentMemoryOwnership::named(self.ownership@) is None {
            Some(StateError::InvalidInput("stored current-memory ownership is invalid"))
        } else if self.ordinal is Some && !(0 <= self.ordinal->0 <= u32::MAX) {
            Some(StateError::InvalidInput("stored memory ordinal is invalid"))
        } else if self.revision < 0 {
            Some(StateError::InvalidDomain(DomainError::RevisionOutOfRange))
        } else if self.canonical_revision is Some && self.canonical_revision->0 < 0 {
            Some(StateError::InvalidDomain(DomainError::RevisionOutOfRange))
        } else if json_strings(self.tags_json@) is None {
            Some(StateError::Json)
        } else if json_strings(self.entities_json@) is None {
            Some(StateError::Json)
        } else if compact_json(self.metadata_json@) is None {
            Some(StateError::Json)
        } else if self.recall_count < 0 {
            Some(StateError::InvalidInput("stored memory recall count is invalid"))
        } else {
            None
        }
    }

    /// The record that the row holds.
    pub open spec fn record(self, tags: Vec<String>, entities: Vec<String>, metadata: Json) -> CurrentMemoryRecord {
        CurrentMemoryRecord {
            id: Id { text: self.id },
            vault_id: Id { text: self.vault_id },
            ownership: CurrentMemoryOwnership::named(self.ownership@)->0,
            note_set_id: id_of(self.note_set_id),
            ordinal: number_of(self.ordinal),
            kind: self.kind,
            content: self.content,
            normalized_content: self.normalized_content,
            content_hash: self.content_hash,
            importance: self.importance,
            confidence: self.confidence,
            origin: self.origin,
            revision: Revision { value: self.revision as u64 },
            canonical_file_id: id_of(self.canonical_file_id),
            canonical_path: path_of(self.canonical_path),
            canonical_revision: revision_of(self.canonical_revision),
            valid_from: self.valid_from,
            valid_to: self.valid_to,
            tags,
            entities,
            metadata,
            created_at: self.created_at,
            updated_at: self.updated_at,
            last_recalled_at: self.last_recalled_at,
            recall_count: self.recall_count as u64,
        }
    }

    /// Whether the documents of a record are those of the row.
    pub open spec fn holds_documents(self, tags: Vec<String>, entities: Vec<String>, metadata: Json) -> bool {
        &&& Some(texts(tags@)) == json_strings(self.tags_json@)
        &&& Some(texts(entities@)) == json_strings(self.entities_json@)
        &&& Some(metadata@) == compact_json(self.metadata_json@)
    }
}

/// Reads a stored row.
pub fn row_to_item(row: CurrentMemoryRow) -> (r: Result<CurrentMemoryRecord, StateError>)
    ensures
        match row.decode_error() {
            Some(error) => r == Err::<CurrentMemoryRecord, StateError>(error),
            None => r matches Ok(record) && record == row.record(record.tags, record.entities, record.metadata)
                && row.holds_documents(record.tags, record.entities, record.metadata),
        },
{
    let ownership = match CurrentMemoryOwnership::parse(row.ownership.as_str()) {
        Ok(value) => value,
        Err(error) => return Err(error),
    };
    let ordinal = match stored_number(row.ordinal, "stored memory ordinal is invalid") {
        Ok(number) => number,
        Err(error) => return Err(error),
    };
    let revision = match Revision::from_stored(row.revision) {
        Ok(revision) => revision,
        Err(error) => return Err(StateError::InvalidDomain(error)),
    };
    let canonical_revision = match stored_revision(row.canonical_revision) {
        Ok(revision) => revision,
        Err(error) => return Err(error),
    };
    let tags = match parse_strings(row.tags_json.as_str()) {
        Ok(values) => values,
        Err(error) => return Err(error),
    };
    let entities = match parse_strings(row.entities_json.as_str()) {
        Ok(values) => values,
        Err(error) => return Err(error),
    };
    let metadata = match Json::parse(row.metadata_json.as_str()) {
        Ok(document) => document,
        Err(error) => return Err(error),
    };
    if row.recall_count < 0 {
        return Err(StateError::InvalidInput("stored memory recall count is invalid"));
    }
    Ok(
        CurrentMemoryRecord {
            id: Id { text: row.id },
            vault_id: Id { text: row.vault_id },
            ownership,
            note_set_id: stored_id(row.note_set_id),
            ordinal,
            kind: row.kind,
            content: row.content,
            normalized_content: row.normalized_content,
            content_hash: row.content_hash,
            importance: row.importance,
            confidence: row.confidence,
            origin: row.origin,
            revision,
            canonical_file_id: stored_id(row.canonical_file_id),
            canonical_path: stored_path(row.canonical_path),
            canonical_revision,
            valid_from: row.valid_from,
            valid_to: row.valid_to,
            tags,
            entities,
            metadata,
            created_at: row.created_at,
            updated_at: row.updated_at,
            last_recalled_at: row.last_recalled_at,
            recall_count: row.recall_count as u64,
        },
    )
}

/// Provenance for one current item.
#[derive(Clone, Debug, PartialEq, Eq)]
pub struct CurrentMemorySourceRecord {
    /// Stable source-row identity.
    pub id: Id,
    /// Isolation boundary.
    pub vault_id: Id,
    /// Owning current item.
    pub memory_id: Id,
    /// note, explicit_agent, explicit_admin, or import.
    pub source_type: String,
    /// Stable source-note identity.
    pub note_file_id: Option<Id>,
    /// Source path at capture time.
    pub note_path: Option<VaultPath>,
    /// Source revision at capture time.
    pub note_revision: Option<Revision>,
    /// Exact full-source content hash at capture time.
    pub source_content_hash: Option<String>,
    /// Optional heading anchor.
    pub heading_path: Vec<String>,
    /// Inclusive source start line.
    pub start_line: Option<u32>,
    /// Inclusive source end line.
    pub end_line: Option<u32>,
    /// Optional bounded evidence hash.
    pub excerpt_hash: Option<String>,
    /// Redacted actor identity.
    pub actor_id: Option<String>,
    /// Creation time.
    pub created_at: i64,
}

/// A provenance row as stored.
#[derive(Clone, Debug, PartialEq, Eq)]
pub struct CurrentMemorySourceRow {
    pub id: String,
    pub vault_id: String,
    pub memory_id: String,
    pub source_type: String,
    pub note_file_id: Option<String>,
    pub note_path: Option<String>,
    pub note_revision: Option<i64>,
    pub source_content_hash: Option<String>,
    pub heading_path_json: String,
    pub start_line: Option<i64>,
    pub end_line: Option<i64>,
    pub excerpt_hash: Option<String>,
    pub actor_id: Option<String>,
    pub created_at: i64,
}

impl CurrentMemorySourceRow {
    /// Why the row cannot be read, if it cannot.
    pub open spec fn decode_error(self) -> Option<StateError> {
        if self.note_revision is Some && self.note_revision->0 < 0 {
            Some(StateError::InvalidDomain(DomainError::RevisionOutOfRange))
        } else if json_strings(self.heading_path_json@) is None {
            Some(StateError::Json)
        } else if self.start_line is Some && !(0 <= self.start_line->0 <= u32::MAX) {
            Some(StateError::InvalidInput("stored source line is invalid"))
        } else if self.end_line is Some && !(0 <= self.end_line->0 <= u32::MAX) {
            Some(StateError::InvalidInput("stored source line is invalid"))
        } else {
            None
        }
    }

    /// The record that the row holds.
    pub open spec fn record(self, heading_path: Vec<String>) -> CurrentMemorySourceRecord {
        CurrentMemorySourceRecord {
            id: Id { text: self.id },
            vault_id: Id { text: self.vault_id },
            memory_id: Id { text: self.memory_id },
            source_type: self.source_type,
            note_file_id: id_of(self.note_file_id),
            note_path: path_of(self.note_path),
            note_revision: revision_of(self.note_revision),
            source_content_hash: self.source_content_hash,
            heading_path,
            start_line: number_of(self.start_line),
            end_line: number_of(self.end_line),
            excerpt_hash: self.excerpt_hash,
            actor_id: self.actor_id,
            created_at: self.created_at,
        }
    }

    /// Whether the documents of a record are those of the row.
    pub open spec fn holds_documents(self, heading_path: Vec<String>) -> bool {
        &&& Some(texts(heading_path@)) == json_strings(self.heading_path_json@)
    }
}

/// Reads a stored row.
pub fn row_to_source(row: CurrentMemorySourceRow) -> (r: Result<CurrentMemorySourceRecord, StateError>)
    ensures
        match row.decode_error() {
            Some(error) => r == Err::<CurrentMemorySourceRecord, StateError>(error),
            None => r matches Ok(record) && record == row.record(record.heading_path)
                && row.holds_documents(record.heading_path),
        },
{
    let note_revision = match stored_revision(row.note_revision) {
        Ok(revision) => revision,
        Err(error) => return Err(error),
    };
    let heading_path = match parse_strings(row.heading_path_json.as_str()) {
        Ok(values) => values,
        Err(error) => return Err(error),
    };
    let start_line = match stored_number(row.start_line, "stored source line is invalid") {
        Ok(number) => number,
        Err(error) => return Err(error),
    };
    let end_line = match stored_number(row.end_line, "stored source line is invalid") {
        Ok(number) => number,
        Err(error) => return Err(error),
    };
    Ok(
        CurrentMemorySourceRecord {
            id: Id { text: row.id },
            vault_id: Id { text: row.vault_id },
            memory_id: Id { text: row.memory_id },
            source_type: row.source_type,
            note_file_id: stored_id(row.note_file_id),
            note_path: stored_path(row.note_path),
            note_revision,
            source_content_hash: row.source_content_hash,
            heading_path,
            start_line,
            end_line,
            excerpt_hash: row.excerpt_hash,
            actor_id: row.actor_id,
            created_at: row.created_at,
        },
    )
}

/// One source note's single current memory set.
#[derive(Clone, Debug, PartialEq, Eq)]
pub struct MemoryNoteSetRecord {
    /// Stable set identity.
    pub id: Id,
    /// Isolation boundary.
    pub vault_id: Id,
    /// Stable source file identity.
    pub source_file_id: Id,
    /// Latest navigable source path.
    pub source_path: VaultPath,
    /// Exact source content hash represented by this set.
    pub source_content_hash: String,
    /// Source revision at extraction time.
    pub source_revision: Revision,
    /// Optimistic set revision.
    pub set_revision: Revision,
    /// Manual derived-item deletion pauses future automatic extraction.
    pub extraction_paused: bool,
    /// Canonical set Markdown identity.
    pub canonical_file_id: Id,
    /// Canonical set Markdown path.
    pub canonical_path: VaultPath,
    /// Canonical set Markdown revision.
    pub canonical_revision: Revision,
    /// Exact extraction-input profile.
    pub profile_hash: String,
    /// Structured extraction contract version.
    pub prompt_version: String,
    /// Provider used for this set.
    pub provider_id: Option<Id>,
    /// Model used for this set.
    pub model_id: Option<Id>,
    /// Creation time.
    pub created_at: i64,
    /// Last replacement time.
    pub updated_at: i64,
}

/// A note set as stored.
#[derive(Clone, Debug, PartialEq, Eq)]
pub struct MemoryNoteSetRow {
    pub id: String,
    pub vault_id: String,
    pub source_file_id: String,
    pub source_path: String,
    pub source_content_hash: String,
    pub source_revision: i64,
    pub set_revision: i64,
    pub extraction_paused: i64,
    pub canonical_file_id: String,
    pub canonical_path: String,
    pub canonical_revision: i64,
    pub profile_hash: String,
    pub prompt_version: String,
    pub provider_id: Option<String>,
    pub model_id: Option<String>,
    pub created_at: i64,
    pub updated_at: i64,
}

impl MemoryNoteSetRow {
    /// Why the row cannot be read, if it cannot.
    pub open spec fn decode_error(self) -> Option<StateError> {
        if self.source_revision < 0 {
            Some(StateError::InvalidDomain(DomainError::RevisionOutOfRange))
        } else if self.set_revision < 0 {
            Some(StateError::InvalidDomain(DomainError::RevisionOutOfRange))
        } else if self.canonical_revision < 0 {
            Some(StateError::InvalidDomain(DomainError::RevisionOutOfRange))
        } else {
            None
        }
    }

    /// The record that the row holds.
    pub open spec fn record(self) -> MemoryNoteSetRecord {
        MemoryNoteSetRecord {
            id: Id { text: self.id },
            vault_id: Id { text: self.vault_id },
            source_file_id: Id { text: self.source_file_id },
            source_path: VaultPath { text: self.source_path },
            source_content_hash: self.source_content_hash,
            source_revision: Revision { value: self.source_revision as u64 },
            set_revision: Revision { value: self.set_revision as u64 },
            extraction_paused: self.extraction_paused != 0,
            canonical_file_id: Id { text: self.canonical_file_id },
            canonical_path: VaultPath { text: self.canonical_path },
            canonical_revision: Revision { value: self.canonical_revision as u64 },
            profile_hash: self.profile_hash,
            prompt_version: self.prompt_version,
            provider_id: id_of(self.provider_id),
            model_id: id_of(self.model_id),
            created_at: self.created_at,
            updated_at: self.updated_at,
        }
    }
}

/// Reads a stored row.
pub fn row_to_set(row: MemoryNoteSetRow) -> (r: Result<MemoryNoteSetRecord, StateError>)
    ensures
        match row.decode_error() {
            Some(error) => r == Err::<MemoryNoteSetRecord, StateError>(error),
            None => r == Ok::<MemoryNoteSetRecord, StateError>(row.record()),
        },
{
    let source_revision = match Revision::from_stored(row.source_revision) {
        Ok(revision) => revision,
        Err(error) => return Err(StateError::InvalidDomain(error)),
    };
    let set_revision = match Revision::from_stored(row.set_revision) {
        Ok(revision) => revision,
        Err(error) => return Err(StateError::InvalidDomain(error)),
    };
    let canonical_revision = match Revision::from_stored(row.canonical_revision) {
        Ok(revision) => revision,
        Err(error) => return Err(StateError::InvalidDomain(error)),
    };
    Ok(
        MemoryNoteSetRecord {
            id: Id { text: row.id },
            vault_id: Id { text: row.vault_id },
            source_file_id: Id { text: row.source_file_id },
            source_path: VaultPath { text: row.source_path },
            source_content_hash: row.source_content_hash,
            source_revision,
            set_revision,
            extraction_paused: row.extraction_paused != 0,
            canonical_file_id: Id { text: row.canonical_file_id },
            canonical_path: VaultPath { text: row.canonical_path },
            canonical_revision,
            profile_hash: row.profile_hash,
            prompt_version: row.prompt_version,
            provider_id: stored_id(row.provider_id),
            model_id: stored_id(row.model_id),
            created_at: row.created_at,
            updated_at: row.updated_at,
        },
    )
}

/// Crash-safe model output prepared before canonical publication.
#[derive(Clone, Debug, PartialEq, Eq)]
pub struct MemoryNoteSetSnapshotRecord {
    /// Stable snapshot identity.
    pub id: Id,
    /// Isolation boundary.
    pub vault_id: Id,
    /// Target set identity, allocated before the first publication.
    pub note_set_id: Id,
    /// Stable source identity.
    pub source_file_id: Id,
    /// Source path represented by the proposal.
    pub source_path: VaultPath,
    /// Exact source content represented by the model call.
    pub source_content_hash: String,
    /// Exact source revision represented by the model call.
    pub source_revision: Revision,
    /// Set revision observed before the model call.
    pub expected_set_revision: Option<Revision>,
    /// Set revision to publish.
    pub proposed_set_revision: Revision,
    /// Pause state published with the complete source set.
    pub extraction_paused: bool,
    /// Validated item representation.
    pub items: Json,
    /// Hash of deterministic canonical bytes to adopt during recovery.
    pub canonical_bytes_hash: String,
    /// Deterministic canonical target.
    pub canonical_path: VaultPath,
    /// Extraction-input profile.
    pub profile_hash: String,
    /// Structured extraction contract version.
    pub prompt_version: String,
    /// Provider used for the one model call.
    pub provider_id: Id,
    /// Model used for the one model call.
    pub model_id: Id,
    /// prepared, applied, or rejected.
    pub status: String,
    /// Creation time.
    pub created_at: i64,
    /// Terminal application time.
    pub applied_at: Option<i64>,
}

/// A prepared proposal as stored.
#[derive(Clone, Debug, PartialEq, Eq)]
pub struct MemoryNoteSetSnapshotRow {
    pub id: String,
    pub vault_id: String,
    pub note_set_id: String,
    pub source_file_id: String,
    pub source_path: String,
    pub source_content_hash: String,
    pub source_revision: i64,
    pub expected_set_revision: Option<i64>,
    pub proposed_set_revision: i64,
    pub extraction_paused: i64,
    pub items_json: String,
    pub canonical_bytes_hash: String,
    pub canonical_path: String,
    pub profile_hash: String,
    pub prompt_version: String,
    pub provider_id: String,
    pub model_id: String,
    pub status: String,
    pub created_at: i64,
    pub applied_at: Option<i64>,
}

impl MemoryNoteSetSnapshotRow {
    /// Why the row cannot be read, if it cannot.
    pub open spec fn decode_error(self) -> Option<StateError> {
        if self.source_revision < 0 {
            Some(StateError::InvalidDomain(DomainError::RevisionOutOfRange))
        } else if self.expected_set_revision is Some && self.expected_set_revision->0 < 0 {
            Some(StateError::InvalidDomain(DomainError::RevisionOutOfRange))
        } else if self.proposed_set_revision < 0 {
            Some(StateError::InvalidDomain(DomainError::RevisionOutOfRange))
        } else if compact_json(self.items_json@) is None {
            Some(StateError::Json)
        } else {
            None
        }
    }

    /// The record that the row holds.
    pub open spec fn record(self, items: Json) -> MemoryNoteSetSnapshotRecord {
        MemoryNoteSetSnapshotRecord {
            id: Id { text: self.id },
            vault_id: Id { text: self.vault_id },
            note_set_id: Id { text: self.note_set_id },
            source_file_id: Id { text: self.source_file_id },
            source_path: VaultPath { text: self.source_path },
            source_content_hash: self.source_content_hash,
            source_revision: Revision { value: self.source_revision as u64 },
            expected_set_revision: revision_of(self.expected_set_revision),
            proposed_set_revision: Revision { value: self.proposed_set_revision as u64 },
            extraction_paused: self.extraction_paused != 0,
            items,
            canonical_bytes_hash: self.canonical_bytes_hash,
            canonical_path: VaultPath { text: self.canonical_path },
            profile_hash: self.profile_hash,
            prompt_version: self.prompt_version,
            provider_id: Id { text: self.provider_id },
            model_id: Id { text: self.model_id },
            status: self.status,
            created_at: self.created_at,
            applied_at: self.applied_at,
        }
    }

    /// Whether the documents of a record are those of the row.
    pub open spec fn holds_documents(self, items: Json) -> bool {
        &&& Some(items@) == compact_json(self.items_json@)
    }
}

/// Reads a stored row.
pub fn row_to_snapshot(row: MemoryNoteSetSnapshotRow) -> (r: Result<MemoryNoteSetSnapshotRecord, StateError>)
    ensures
        match row.decode_error() {
            Some(error) => r == Err::<MemoryNoteSetSnapshotRecord, StateError>(error),
            None => r matches Ok(record) && record == row.record(record.items)
                && row.holds_documents(record.items),
        },
{
    let source_revision = match Revision::from_stored(row.source_revision) {
        Ok(revision) => revision,
        Err(error) => return Err(StateError::InvalidDomain(error)),
    };
    let expected_set_revision = match stored_revision(row.expected_set_revision) {
        Ok(revision) => revision,
        Err(error) => return Err(error),
    };
    let proposed_set_revision = match Revision::from_stored(row.proposed_set_revision) {
        Ok(revision) => revision,
        Err(error) => return Err(StateError::InvalidDomain(error)),
    };
    let items = match Json::parse(row.items_json.as_str()) {
        Ok(document) => document,
        Err(error) => return Err(error),
    };
    Ok(
        MemoryNoteSetSnapshotRecord {
            id: Id { text: row.id },
            vault_id: Id { text: row.vault_id },
            note_set_id: Id { text: row.note_set_id },
            source_file_id: Id { text: row.source_file_id },
            source_path: VaultPath { text: row.source_path },
            source_content_hash: row.source_content_hash,
            source_revision,
            expected_set_revision,
            proposed_set_revision,
            extraction_paused: row.extraction_paused != 0,
            items,
            canonical_bytes_hash: row.canonical_bytes_hash,
            canonical_path: VaultPath { text: row.canonical_path },
            profile_hash: row.profile_hash,
            prompt_version: row.prompt_version,
            provider_id: Id { text: row.provider_id },
            model_id: Id { text: row.model_id },
            status: row.status,
            created_at: row.created_at,
            applied_at: row.applied_at,
        },
    )
}

/// Current item plus provenance and owning-set metadata.
#[derive(Clone, Debug, PartialEq, Eq)]
pub struct CurrentMemoryBundle {
    /// Current item.
    pub memory: CurrentMemoryRecord,
    /// Current provenance.
    pub sources: Vec<CurrentMemorySourceRecord>,
    /// Owning set for note-derived items.
    pub note_set: Option<MemoryNoteSetRecord>,
}

/// An item together with its provenance rows, as the store keeps them.
#[derive(Clone, Debug, PartialEq, Eq)]
pub struct StoredItem {
    pub memory: CurrentMemoryRecord,
    pub sources: Vec<CurrentMemorySourceRecord>,
}

impl StoredItem {
    /// Whether this is the item with the given identity in a vault.
    pub open spec fn is(self, vault: Seq<char>, id: Seq<char>) -> bool {
        self.memory.vault_id@ == vault && self.memory.id@ == id
    }

    /// Whether this is the item with the given identity in a vault.
    pub fn is_item(&self, vault: &Id, id: &Id) -> (r: bool)
        ensures
            r == self.is(vault@, id@),
    {
        self.memory.vault_id.same(vault) && self.memory.id.same(id)
    }

    /// Whether the item belongs to a note set of a vault.
    pub open spec fn in_set(self, vault: Seq<char>, set: Seq<char>) -> bool {
        self.memory.vault_id@ == vault && self.memory.note_set_id is Some
            && self.memory.note_set_id->0@ == set
    }

    /// Whether the item belongs to a note set of a vault.
    pub fn is_in_set(&self, vault: &Id, set: &Id) -> (r: bool)
        ensures
            r == self.in_set(vault@, set@),
    {
        let owned = match &self.memory.note_set_id {
            Some(id) => id.same(set),
            None => false,
        };
        self.memory.vault_id.same(vault) && owned
    }
}

impl MemoryNoteSetRecord {
    /// Whether this is the set with the given identity in a vault.
    pub open spec fn is(self, vault: Seq<char>, id: Seq<char>) -> bool {
        self.vault_id@ == vault && self.id@ == id
    }

    /// Whether this is the set with the given identity in a vault.
    pub fn is_set(&self, vault: &Id, id: &Id) -> (r: bool)
        ensures
            r == self.is(vault@, id@),
    {
        self.vault_id.same(vault) && self.id.same(id)
    }

    /// Whether this is the set of a source note in a vault.
    pub open spec fn of_source(self, vault: Seq<char>, source: Seq<char>) -> bool {
        self.vault_id@ == vault && self.source_file_id@ == source
    }

    /// Whether this is the set of a source note in a vault.
    pub fn is_of_source(&self, vault: &Id, source: &Id) -> (r: bool)
        ensures
            r == self.of_source(vault@, source@),
    {
        self.vault_id.same(vault) && self.source_file_id.same(source)
    }
}

/// Source kinds that provenance may have.
pub open spec fn source_kind_ok(kind: Seq<char>) -> bool {
    ||| kind == "note"@
    ||| kind == "explicit_agent"@
    ||| kind == "explicit_admin"@
    ||| kind == "import"@
}

/// Whether a source kind is one that provenance may have.
pub fn is_source_kind(kind: &str) -> (r: bool)
    ensures
        r == source_kind_ok(kind@),
{
    text_eq(kind, "note") || text_eq(kind, "explicit_agent") || text_eq(kind, "explicit_admin")
        || text_eq(kind, "import")
}

impl CurrentMemorySourceRecord {
    /// Whether the row is provenance of the given item.
    pub open spec fn supports(self, vault: Seq<char>, memory: Seq<char>) -> bool {
        self.vault_id@ == vault && self.memory_id@ == memory && source_kind_ok(self.source_type@)
    }
}

impl CurrentMemoryBundle {
    /// Why the bundle is refused, if it is.
    pub open spec fn fault(self, vault: Seq<char>) -> Option<StateError> {
        let item = self.memory;
        if item.vault_id@ != vault || blank(item.content@) || blank(item.normalized_content@) || blank(
            item.content_hash@,
        ) || item.tags@.len() > 128 || item.entities@.len() > 128 {
            Some(StateError::InvalidInput("current-memory bundle is invalid"))
        } else if !unit_or_absent(item.importance) || !unit_or_absent(item.confidence) || (
        item.valid_from is Some && item.valid_to is Some && item.valid_from->0
            >= item.valid_to->0) {
            Some(StateError::InvalidInput("current-memory metadata is invalid"))
        } else if exists|i: int|
            0 <= i < self.sources@.len() && !(#[trigger] self.sources@[i]).supports(vault, item.id@) {
            Some(StateError::InvalidInput("current-memory provenance is invalid"))
        } else {
            None
        }
    }
}

/// What a check gives that may find a fault.
pub open spec fn checked(fault: Option<StateError>) -> Result<(), StateError> {
    match fault {
        Some(error) => Err(error),
        None => Ok(()),
    }
}

/// Checks an item and its provenance before publication.
pub fn validate_current_bundle(context: &VaultContext, bundle: &CurrentMemoryBundle) -> (r: Result<
    (),
    StateError,
>)
    ensures
        r == checked(bundle.fault(context.id@)),
{
    let item = &bundle.memory;
    if !item.vault_id.same(&context.id) || is_blank(item.content.as_str()) || is_blank(
        item.normalized_content.as_str(),
    ) || is_blank(item.content_hash.as_str()) || item.tags.len() > 128 || item.entities.len()
        > 128 {
        return Err(StateError::InvalidInput("current-memory bundle is invalid"));
    }
    let backwards = match (item.valid_from, item.valid_to) {
        (Some(from), Some(to)) => from >= to,
        _ => false,
    };
    if !is_unit_or_absent(item.importance) || !is_unit_or_absent(item.confidence) || backwards {
        return Err(StateError::InvalidInput("current-memory metadata is invalid"));
    }
    let mut i: usize = 0;
    while i < bundle.sources.len()
        invariant
            i <= bundle.sources@.len(),
            forall|k: int|
                0 <= k < i ==> (#[trigger] bundle.sources@[k]).supports(
                    context.id@,
                    bundle.memory.id@,
                ),
            checked(bundle.fault(context.id@)) == accepted_if(
                !(exists|k: int|
                    0 <= k < bundle.sources@.len() && !(#[trigger] bundle.sources@[k]).supports(
                        context.id@,
                        bundle.memory.id@,
                    )),
                "current-memory provenance is invalid",
            ),
        decreases bundle.sources@.len() - i,
    {
        let source = &bundle.sources[i];
        if !source.vault_id.same(&context.id) || !source.memory_id.same(&bundle.memory.id)
            || !is_source_kind(source.source_type.as_str()) {
            return Err(StateError::InvalidInput("current-memory provenance is invalid"));
        }
        i += 1;
    }
    Ok(())
}

impl MemoryNoteSetRecord {
    /// Whether the set may be stored for a vault.
    pub open spec fn acceptable(self, vault: Seq<char>) -> bool {
        &&& self.vault_id@ == vault
        &&& !blank(self.source_content_hash@)
        &&& !blank(self.profile_hash@)
        &&& !blank(self.prompt_version@)
    }
}

/// Checks a note set before publication.
pub fn validate_note_set(context: &VaultContext, set: &MemoryNoteSetRecord) -> (r: Result<
    (),
    StateError,
>)
    ensures
        r == accepted_if(set.acceptable(context.id@), "memory note set is invalid"),
{
    if !set.vault_id.same(&context.id) || is_blank(set.source_content_hash.as_str()) || is_blank(
        set.profile_hash.as_str(),
    ) || is_blank(set.prompt_version.as_str()) {
        return Err(StateError::InvalidInput("memory note set is invalid"));
    }
    Ok(())
}

impl MemoryNoteSetSnapshotRecord {
    /// Whether the proposal may be prepared for a vault. It must follow the
    /// set revision that it was made from.
    pub open spec fn acceptable(self, vault: Seq<char>) -> bool {
        &&& self.vault_id@ == vault
        &&& self.status@ == "prepared"@
        &&& !blank(self.source_content_hash@)
        &&& !blank(self.canonical_bytes_hash@)
        &&& !blank(self.profile_hash@)
        &&& !blank(self.prompt_version@)
        &&& match self.expected_set_revision {
            Some(revision) => revision.successor() == Some(self.proposed_set_revision),
            None => self.proposed_set_revision.value == 1,
        }
    }
}

/// Checks a proposal before it is prepared.
pub fn validate_snapshot(context: &VaultContext, snapshot: &MemoryNoteSetSnapshotRecord) -> (r: Result<
    (),
    StateError,
>)
    ensures
        r == accepted_if(snapshot.acceptable(context.id@), "memory note-set snapshot is invalid"),
{
    let follows = match snapshot.expected_set_revision {
        Some(revision) => match revision.next() {
            Ok(next) => next.value == snapshot.proposed_set_revision.value,
            Err(_) => false,
        },
        None => snapshot.proposed_set_revision.value == 1,
    };
    if !snapshot.vault_id.same(&context.id) || !text_eq(snapshot.status.as_str(), "prepared")
        || is_blank(snapshot.source_content_hash.as_str()) || is_blank(
        snapshot.canonical_bytes_hash.as_str(),
    ) || is_blank(snapshot.profile_hash.as_str()) || is_blank(snapshot.prompt_version.as_str())
        || !follows {
        return Err(StateError::InvalidInput("memory note-set snapshot is invalid"));
    }
    Ok(())
}

/// Checks the bounds of a page of current memories.
pub fn validate_page(limit: u32, offset: u32) -> (r: Result<(), StateError>)
    ensures
        r == accepted_if(
            1 <= limit <= MAX_MEMORY_LIMIT && offset <= 100_000,
            "current-memory page bounds are invalid",
        ),
{
    if limit == 0 || limit > MAX_MEMORY_LIMIT || offset > 100_000 {
        return Err(StateError::InvalidInput("current-memory page bounds are invalid"));
    }
    Ok(())
}

} // verus!
