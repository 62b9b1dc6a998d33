//! Vault-scoped files, revisions, journal intents and the metadata commit.

use vstd::prelude::*;

use crate::audit::AuditRecord;
use crate::domain::{
    actor_type_label, duplicate_optional, duplicate_text, id_of, path_of, stored_id, stored_path,
    Actor, DomainError, Id, Revision, VaultContext, VaultPath,
};
use crate::error::{accepted_if, invalid, StateError};
use crate::hash::{sha256_digest, sha256_hex};
use crate::json::{compact_json, Json};
use crate::files::queries::get_by_id;
use crate::outbox::OutboxEventRecord;
use crate::rows::{find, first_row};
use crate::text::{
    bounded, hex, is_bounded, is_label, label_ok, optional_text, owned, str_text, text_eq,
};

pub mod laws;
pub mod queries;

verus! {

/// Current file entry kind.
#[derive(Clone, Copy, Debug, PartialEq, Eq, Structural)]
pub enum EntryType {
    /// Regular file containing canonical bytes.
    File,
    /// Directory collection.
    Directory,
}

impl EntryType {
    /// Stable database label.
    pub open spec fn label(self) -> Seq<char> {
        match self {
            EntryType::File => "file"@,
            EntryType::Directory => "directory"@,
        }
    }

    /// The variant that a label names, if any.
    pub open spec fn named(label: Seq<char>) -> Option<EntryType> {
        if label == "file"@ {
            Some(EntryType::File)
        } else if label == "directory"@ {
            Some(EntryType::Directory)
        } else {
            None
        }
    }

    /// Stable database label.
    pub fn as_str(self) -> (label: &'static str)
        ensures
            label@ == self.label(),
    {
        match self {
            EntryType::File => "file",
            EntryType::Directory => "directory",
        }
    }

    /// Reads a stored label.
    pub fn parse(value: &str) -> (r: Result<EntryType, StateError>)
        ensures
            r == (match EntryType::named(value@) {
                Some(value) => Ok::<EntryType, StateError>(value),
                None => invalid("stored entry type is invalid"),
            }),
    {
        if text_eq(value, "file") {
            Ok(EntryType::File)
        } else if text_eq(value, "directory") {
            Ok(EntryType::Directory)
        } else {
            Err(StateError::InvalidInput("stored entry type is invalid"))
        }
    }
}

/// A stored label reads back as the value that it was written from.
pub proof fn law_entry_type_round_trip(value: EntryType)
    ensures
        EntryType::named(value.label()) == Some(value),
{
    reveal_strlit("file");
    reveal_strlit("directory");
    assert("file"@.len() != "directory"@.len());
}

/// Canonical mutation operation recorded in revision history.
#[derive(Clone, Copy, Debug, PartialEq, Eq, Structural)]
pub enum FileOperation {
    /// First materialization of a path.
    Create,
    /// Full content replacement.
    Replace,
    /// Exact text patch.
    Patch,
    /// Exact append.
    Append,
    /// Rename preserving the file identity.
    Move,
    /// Copy creating a new file identity.
    Copy,
    /// Tombstone a current entry.
    Delete,
    /// Materialize a previous history revision as a new revision.
    Restore,
    /// Import a change observed outside the service.
    ExternalChange,
}

impl FileOperation {
    /// Stable database label.
    pub open spec fn label(self) -> Seq<char> {
        match self {
            FileOperation::Create => "create"@,
            FileOperation::Replace => "replace"@,
            FileOperation::Patch => "patch"@,
            FileOperation::Append => "append"@,
            FileOperation::Move => "move"@,
            FileOperation::Copy => "copy"@,
            FileOperation::Delete => "delete"@,
            FileOperation::Restore => "restore"@,
            FileOperation::ExternalChange => "external_change"@,
        }
    }

    /// The variant that a label names, if any.
    pub open spec fn named(label: Seq<char>) -> Option<FileOperation> {
        if label == "create"@ {
            Some(FileOperation::Create)
        } else if label == "replace"@ {
            Some(FileOperation::Replace)
        } else if label == "patch"@ {
            Some(FileOperation::Patch)
        } else if label == "append"@ {
            Some(FileOperation::Append)
        } else if label == "move"@ {
            Some(FileOperation::Move)
        } else if label == "copy"@ {
            Some(FileOperation::Copy)
        } else if label == "delete"@ {
            Some(FileOperation::Delete)
        } else if label == "restore"@ {
            Some(FileOperation::Restore)
        } else if label == "external_change"@ {
            Some(FileOperation::ExternalChange)
        } else {
            None
        }
    }

    /// Stable database label.
    pub fn as_str(self) -> (label: &'static str)
        ensures
            label@ == self.label(),
    {
        match self {
            FileOperation::Create => "create",
            FileOperation::Replace => "replace",
            FileOperation::Patch => "patch",
            FileOperation::Append => "append",
            FileOperation::Move => "move",
            FileOperation::Copy => "copy",
            FileOperation::Delete => "delete",
            FileOperation::Restore => "restore",
            FileOperation::ExternalChange => "external_change",
        }
    }

    /// Reads a stored label.
    pub fn parse(value: &str) -> (r: Result<FileOperation, StateError>)
        ensures
            r == (match FileOperation::named(value@) {
                Some(value) => Ok::<FileOperation, StateError>(value),
                None => invalid("stored file operation is invalid"),
            }),
    {
        if text_eq(value, "create") {
            Ok(FileOperation::Create)
        } else if text_eq(value, "replace") {
            Ok(FileOperation::Replace)
        } else if text_eq(value, "patch") {
            Ok(FileOperation::Patch)
        } else if text_eq(value, "append") {
            Ok(FileOperation::Append)
        } else if text_eq(value, "move") {
            Ok(FileOperation::Move)
        } else if text_eq(value, "copy") {
            Ok(FileOperation::Copy)
        } else if text_eq(value, "delete") {
            Ok(FileOperation::Delete)
        } else if text_eq(value, "restore") {
            Ok(FileOperation::Restore)
        } else if text_eq(value, "external_change") {
            Ok(FileOperation::ExternalChange)
        } else {
            Err(StateError::InvalidInput("stored file operation is invalid"))
        }
    }
}

/// A stored label reads back as the value that it was written from.
pub proof fn law_file_operation_round_trip(value: FileOperation)
    ensures
        FileOperation::named(value.label()) == Some(value),
{
    reveal_strlit("create");
    reveal_strlit("replace");
    reveal_strlit("patch");
    reveal_strlit("append");
    reveal_strlit("move");
    reveal_strlit("copy");
    reveal_strlit("delete");
    reveal_strlit("restore");
    reveal_strlit("external_change");
    assert("create"@.len() != "replace"@.len());
    assert("create"@.len() != "patch"@.len());
    assert("create"@[0] != "append"@[0]);
    assert("create"@.len() != "move"@.len());
    assert("create"@.len() != "copy"@.len());
    assert("create"@[0] != "delete"@[0]);
    assert("create"@.len() != "restore"@.len());
    assert("create"@.len() != "external_change"@.len());
    assert("replace"@.len() != "patch"@.len());
    assert("replace"@.len() != "append"@.len());
    assert("replace"@.len() != "move"@.len());
    assert("replace"@.len() != "copy"@.len());
    assert("replace"@.len() != "delete"@.len());
    assert("replace"@[2] != "restore"@[2]);
    assert("replace"@.len() != "external_change"@.len());
    assert("patch"@.len() != "append"@.len());
    assert("patch"@.len() != "move"@.len());
    assert("patch"@.len() != "copy"@.len());
    assert("patch"@.len() != "delete"@.len());
    assert("patch"@.len() != "restore"@.len());
    assert("patch"@.len() != "external_change"@.len());
    assert("append"@.len() != "move"@.len());
    assert("append"@.len() != "copy"@.len());
    assert("append"@[0] != "delete"@[0]);
    assert("append"@.len() != "restore"@.len());
    assert("append"@.len() != "external_change"@.len());
    assert("move"@[0] != "copy"@[0]);
    assert("move"@.len() != "delete"@.len());
    assert("move"@.len() != "restore"@.len());
    assert("move"@.len() != "external_change"@.len());
    assert("copy"@.len() != "delete"@.len());
    assert("copy"@.len() != "restore"@.len());
    assert("copy"@.len() != "external_change"@.len());
    assert("delete"@.len() != "restore"@.len());
    assert("delete"@.len() != "external_change"@.len());
    assert("restore"@.len() != "external_change"@.len());
}

/// Durable operation-journal lifecycle.
#[derive(Clone, Copy, Debug, PartialEq, Eq, Structural)]
pub enum JournalState {
    /// Intent is durable; no canonical rename is known yet.
    Prepared,
    /// Canonical filesystem mutation is known to have completed.
    FileCommitted,
    /// Metadata, audit and outbox are committed.
    MetadataCommitted,
    /// The operation was safely rolled back.
    RolledBack,
    /// Recovery could not prove old or new state.
    NeedsReview,
}

impl JournalState {
    /// Stable database label.
    pub open spec fn label(self) -> Seq<char> {
        match self {
            JournalState::Prepared => "prepared"@,
            JournalState::FileCommitted => "file_committed"@,
            JournalState::MetadataCommitted => "metadata_committed"@,
            JournalState::RolledBack => "rolled_back"@,
            JournalState::NeedsReview => "needs_review"@,
        }
    }

    /// The variant that a label names, if any.
    pub open spec fn named(label: Seq<char>) -> Option<JournalState> {
        if label == "prepared"@ {
            Some(JournalState::Prepared)
        } else if label == "file_committed"@ {
            Some(JournalState::FileCommitted)
        } else if label == "metadata_committed"@ {
            Some(JournalState::MetadataCommitted)
        } else if label == "rolled_back"@ {
            Some(JournalState::RolledBack)
        } else if label == "needs_review"@ {
            Some(JournalState::NeedsReview)
        } else {
            None
        }
    }

    /// Stable database label.
    pub fn as_str(self) -> (label: &'static str)
        ensures
            label@ == self.label(),
    {
        match self {
            JournalState::Prepared => "prepared",
            JournalState::FileCommitted => "file_committed",
            JournalState::MetadataCommitted => "metadata_committed",
            JournalState::RolledBack => "rolled_back",
            JournalState::NeedsReview => "needs_review",
        }
    }

    /// Reads a stored label.
    pub fn parse(value: &str) -> (r: Result<JournalState, StateError>)
        ensures
            r == (match JournalState::named(value@) {
                Some(value) => Ok::<JournalState, StateError>(value),
                None => invalid("stored journal state is invalid"),
            }),
    {
        if text_eq(value, "prepared") {
            Ok(JournalState::Prepared)
        } else if text_eq(value, "file_committed") {
            Ok(JournalState::FileCommitted)
        } else if text_eq(value, "metadata_committed") {
            Ok(JournalState::MetadataCommitted)
        } else if text_eq(value, "rolled_back") {
            Ok(JournalState::RolledBack)
        } else if text_eq(value, "needs_review") {
            Ok(JournalState::NeedsReview)
        } else {
            Err(StateError::InvalidInput("stored journal state is invalid"))
        }
    }
}

/// A stored label reads back as the value that it was written from.
pub proof fn law_journal_state_round_trip(value: JournalState)
    ensures
        JournalState::named(value.label()) == Some(value),
{
    reveal_strlit("prepared");
    reveal_strlit("file_committed");
    reveal_strlit("metadata_committed");
    reveal_strlit("rolled_back");
    reveal_strlit("needs_review");
    assert("prepared"@.len() != "file_committed"@.len());
    assert("prepared"@.len() != "metadata_committed"@.len());
    assert("prepared"@.len() != "rolled_back"@.len());
    assert("prepared"@.len() != "needs_review"@.len());
    assert("file_committed"@.len() != "metadata_committed"@.len());
    assert("file_committed"@.len() != "rolled_back"@.len());
    assert("file_committed"@.len() != "needs_review"@.len());
    assert("metadata_committed"@.len() != "rolled_back"@.len());
    assert("metadata_committed"@.len() != "needs_review"@.len());
    assert("rolled_back"@.len() != "needs_review"@.len());
}

/// Current authoritative file identity and content metadata.
#[derive(Clone, Debug, PartialEq, Eq)]
pub struct FileRecord {
    /// Stable identity independent from path.
    pub id: Id,
    /// Owning vault.
    pub vault_id: Id,
    /// Canonical normalized path.
    pub path: VaultPath,
    /// File or directory.
    pub entry_type: EntryType,
    /// Monotonically increasing current revision.
    pub current_revision: Revision,
    /// SHA-256 content address for regular files.
    pub content_hash: Option<String>,
    /// Size in bytes.
    pub size: u64,
    /// Filesystem modification timestamp in UTC milliseconds.
    pub modified_at: i64,
    /// Best-effort stable filesystem identity string.
    pub filesystem_identity: Option<String>,
    /// Tombstone timestamp when deleted.
    pub deleted_at: Option<i64>,
    /// Creation timestamp.
    pub created_at: i64,
    /// Last metadata update timestamp.
    pub updated_at: i64,
}

impl FileRecord {
    /// Whether this row is a live canonical entry.
    pub open spec fn active(self) -> bool {
        self.deleted_at is None
    }

    /// Return whether this row is a live canonical entry.
    pub fn is_active(&self) -> (r: bool)
        ensures
            r == self.active(),
    {
        self.deleted_at.is_none()
    }
}

/// A file entry as stored.
#[derive(Clone, Debug, PartialEq, Eq)]
pub struct FileRow {
    pub id: String,
    pub vault_id: String,
    pub path: String,
    pub entry_type: String,
    pub current_revision: i64,
    pub content_hash: Option<String>,
    pub size: i64,
    pub modified_at: i64,
    pub filesystem_identity: Option<String>,
    pub deleted_at: Option<i64>,
    pub created_at: i64,
    pub updated_at: i64,
}

impl FileRow {
    /// The record that the row holds, or why it cannot be read.
    pub open spec fn decoded(self) -> Result<FileRecord, StateError> {
        match EntryType::named(self.entry_type@) {
            None => invalid("stored entry type is invalid"),
            Some(entry_type) => if self.current_revision < 0 {
                Err(StateError::InvalidDomain(DomainError::RevisionOutOfRange))
            } else if self.size < 0 {
                invalid("stored file size is invalid")
            } else {
                Ok(
                    FileRecord {
                        id: Id { text: self.id },
                        vault_id: Id { text: self.vault_id },
                        path: VaultPath { text: self.path },
                        entry_type,
                        current_revision: Revision { value: self.current_revision as u64 },
                        content_hash: self.content_hash,
                        size: self.size as u64,
                        modified_at: self.modified_at,
                        filesystem_identity: self.filesystem_identity,
                        deleted_at: self.deleted_at,
                        created_at: self.created_at,
                        updated_at: self.updated_at,
                    },
                )
            },
        }
    }
}

/// Reads a stored file entry.
pub fn row_to_file(row: FileRow) -> (r: Result<FileRecord, StateError>)
    ensures
        r == row.decoded(),
{
    let entry_type = match EntryType::parse(row.entry_type.as_str()) {
        Ok(entry_type) => entry_type,
        Err(error) => return Err(error),
    };
    let current_revision = match Revision::from_stored(row.current_revision) {
        Ok(revision) => revision,
        Err(error) => return Err(StateError::InvalidDomain(error)),
    };
    if row.size < 0 {
        return Err(StateError::InvalidInput("stored file size is invalid"));
    }
    Ok(
        FileRecord {
            id: Id { text: row.id },
            vault_id: Id { text: row.vault_id },
            path: VaultPath { text: row.path },
            entry_type,
            current_revision,
            content_hash: row.content_hash,
            size: row.size as u64,
            modified_at: row.modified_at,
            filesystem_identity: row.filesystem_identity,
            deleted_at: row.deleted_at,
            created_at: row.created_at,
            updated_at: row.updated_at,
        },
    )
}

/// Immutable revision metadata.
#[derive(Clone, Debug, PartialEq, Eq)]
pub struct FileRevisionRecord {
    /// Revision row identity.
    pub id: Id,
    /// Owning vault.
    pub vault_id: Id,
    /// Stable file identity.
    pub file_id: Id,
    /// Monotonic revision number.
    pub revision: Revision,
    /// Operation that produced this revision.
    pub operation: FileOperation,
    /// Prior path for moves, deletes and restores.
    pub path_before: Option<VaultPath>,
    /// Resulting path.
    pub path_after: Option<VaultPath>,
    /// Current content hash, when content exists.
    pub content_hash: Option<String>,
    /// History blob containing the prior or current payload, when retained.
    pub history_blob_hash: Option<String>,
    /// Content size when known.
    pub size: Option<u64>,
    /// Actor category.
    pub actor_type: String,
    /// Non-secret actor identifier.
    pub actor_id: Option<Id>,
    /// Origin plane.
    pub source_plane: String,
    /// Client idempotency key.
    pub idempotency_key: Option<String>,
    /// Creation timestamp.
    pub created_at: i64,
}

/// A revision as stored.
#[derive(Clone, Debug, PartialEq, Eq)]
pub struct FileRevisionRow {
    pub id: String,
    pub vault_id: String,
    pub file_id: String,
    pub revision: i64,
    pub operation: String,
    pub path_before: Option<String>,
    pub path_after: Option<String>,
    pub content_hash: Option<String>,
    pub history_blob_hash: Option<String>,
    pub size: Option<i64>,
    pub actor_type: String,
    pub actor_id: Option<String>,
    pub source_plane: String,
    pub idempotency_key: Option<String>,
    pub created_at: i64,
}

impl FileRevisionRow {
    /// The record that the row holds, or why it cannot be read.
    pub open spec fn decoded(self) -> Result<FileRevisionRecord, StateError> {
        if self.revision < 0 {
            Err(StateError::InvalidDomain(DomainError::RevisionOutOfRange))
        } else {
            match FileOperation::named(self.operation@) {
                None => invalid("stored file operation is invalid"),
                Some(operation) => if self.size is Some && self.size->0 < 0 {
                    invalid("stored revision size is invalid")
                } else {
                    Ok(
                        FileRevisionRecord {
                            id: Id { text: self.id },
                            vault_id: Id { text: self.vault_id },
                            file_id: Id { text: self.file_id },
                            revision: Revision { value: self.revision as u64 },
                            operation,
                            path_before: path_of(self.path_before),
                            path_after: path_of(self.path_after),
                            content_hash: self.content_hash,
                            history_blob_hash: self.history_blob_hash,
                            size: match self.size {
                                Some(size) => Some(size as u64),
                                None => None,
                            },
                            actor_type: self.actor_type,
                            actor_id: id_of(self.actor_id),
                            source_plane: self.source_plane,
                            idempotency_key: self.idempotency_key,
                            created_at: self.created_at,
                        },
                    )
                },
            }
        }
    }
}

/// Reads a stored revision.
pub fn row_to_revision(row: FileRevisionRow) -> (r: Result<FileRevisionRecord, StateError>)
    ensures
        r == row.decoded(),
{
    let revision = match Revision::from_stored(row.revision) {
        Ok(revision) => revision,
        Err(error) => return Err(StateError::InvalidDomain(error)),
    };
    let operation = match FileOperation::parse(row.operation.as_str()) {
        Ok(operation) => operation,
        Err(error) => return Err(error),
    };
    let size: Option<u64> = match row.size {
        Some(size) => {
            if size < 0 {
                return Err(StateError::InvalidInput("stored revision size is invalid"));
            }
            Some(size as u64)
        },
        None => None,
    };
    Ok(
        FileRevisionRecord {
            id: Id { text: row.id },
            vault_id: Id { text: row.vault_id },
            file_id: Id { text: row.file_id },
            revision,
            operation,
            path_before: stored_path(row.path_before),
            path_after: stored_path(row.path_after),
            content_hash: row.content_hash,
            history_blob_hash: row.history_blob_hash,
            size,
            actor_type: row.actor_type,
            actor_id: stored_id(row.actor_id),
            source_plane: row.source_plane,
            idempotency_key: row.idempotency_key,
            created_at: row.created_at,
        },
    )
}

/// Durable write intent used by recovery.
#[derive(Clone, Debug, PartialEq, Eq)]
pub struct JournalRecord {
    /// Operation identity.
    pub id: Id,
    /// Owning vault.
    pub vault_id: Id,
    /// Intended operation.
    pub operation: FileOperation,
    /// Current lifecycle state.
    pub state: JournalState,
    /// Source path, when applicable.
    pub source_path: Option<VaultPath>,
    /// Destination path, when applicable.
    pub destination_path: Option<VaultPath>,
    /// File affected by the intent.
    pub prior_file_id: Option<Id>,
    /// Caller expected revision.
    pub expected_revision: Option<Revision>,
    /// Hash observed before the operation.
    pub prior_hash: Option<String>,
    /// Hash proposed by the operation.
    pub proposed_hash: Option<String>,
    /// Typed vault-relative temporary path.
    pub temp_path: Option<VaultPath>,
    /// Durable operation description without note body.
    pub payload: Json,
    /// Durable client idempotency key.
    pub idempotency_key: Option<String>,
    /// Creation timestamp.
    pub created_at: i64,
    /// Last state update timestamp.
    pub updated_at: i64,
    /// Redacted recovery error, if any.
    pub error: Option<String>,
}

/// A journal intent as stored.
#[derive(Clone, Debug, PartialEq, Eq)]
pub struct JournalRow {
    pub id: String,
    pub vault_id: String,
    pub operation: String,
    pub state: String,
    pub source_path: Option<String>,
    pub destination_path: Option<String>,
    pub prior_file_id: Option<String>,
    pub expected_revision: Option<i64>,
    pub prior_hash: Option<String>,
    pub proposed_hash: Option<String>,
    pub temp_path: Option<String>,
    pub payload_json: String,
    pub idempotency_key: Option<String>,
    pub created_at: i64,
    pub updated_at: i64,
    pub error: Option<String>,
}

/// The optional revision of an optional stored number.
pub open spec fn revision_of(value: Option<i64>) -> Option<Revision> {
    match value {
        Some(value) => Some(Revision { value: value as u64 }),
        None => None,
    }
}

/// Reads an optional stored revision.
pub fn stored_revision(value: Option<i64>) -> (r: Result<Option<Revision>, StateError>)
    ensures
        r == (if value is Some && value->0 < 0 {
            Err::<Option<Revision>, StateError>(
                StateError::InvalidDomain(DomainError::RevisionOutOfRange),
            )
        } else {
            Ok(revision_of(value))
        }),
{
    match value {
        Some(value) => match Revision::from_stored(value) {
            Ok(revision) => Ok(Some(revision)),
            Err(error) => Err(StateError::InvalidDomain(error)),
        },
        None => Ok(None),
    }
}

impl JournalRow {
    /// Why the row cannot be read, if it cannot.
    pub open spec fn decode_error(self) -> Option<StateError> {
        if FileOperation::named(self.operation@) is None {
            Some(StateError::InvalidInput("stored file operation is invalid"))
        } else if JournalState::named(self.state@) is None {
            Some(StateError::InvalidInput("stored journal state is invalid"))
        } else if self.expected_revision is Some && self.expected_revision->0 < 0 {
            Some(StateError::InvalidDomain(DomainError::RevisionOutOfRange))
        } else if compact_json(self.payload_json@) is None {
            Some(StateError::Json)
        } else {
            None
        }
    }

    /// The record that the row holds.
    pub open spec fn record(self, payload: Json) -> JournalRecord {
        JournalRecord {
            id: Id { text: self.id },
            vault_id: Id { text: self.vault_id },
            operation: FileOperation::named(self.operation@)->0,
            state: JournalState::named(self.state@)->0,
            source_path: path_of(self.source_path),
            destination_path: path_of(self.destination_path),
            prior_file_id: id_of(self.prior_file_id),
            expected_revision: revision_of(self.expected_revision),
            prior_hash: self.prior_hash,
            proposed_hash: self.proposed_hash,
            temp_path: path_of(self.temp_path),
            payload,
            idempotency_key: self.idempotency_key,
            created_at: self.created_at,
            updated_at: self.updated_at,
            error: self.error,
        }
    }
}

/// Reads a stored journal intent.
pub fn row_to_journal(row: JournalRow) -> (r: Result<JournalRecord, StateError>)
    ensures
        match row.decode_error() {
            Some(error) => r == Err::<JournalRecord, StateError>(error),
            None => r matches Ok(journal) && journal == row.record(journal.payload) && Some(
                journal.payload@,
            ) == compact_json(row.payload_json@),
        },
{
    let operation = match FileOperation::parse(row.operation.as_str()) {
        Ok(operation) => operation,
        Err(error) => return Err(error),
    };
    let state = match JournalState::parse(row.state.as_str()) {
        Ok(state) => state,
        Err(error) => return Err(error),
    };
    let expected_revision = match stored_revision(row.expected_revision) {
        Ok(revision) => revision,
        Err(error) => return Err(error),
    };
    let payload = match Json::parse(row.payload_json.as_str()) {
        Ok(payload) => payload,
        Err(error) => return Err(error),
    };
    Ok(
        JournalRecord {
            id: Id { text: row.id },
            vault_id: Id { text: row.vault_id },
            operation,
            state,
            source_path: stored_path(row.source_path),
            destination_path: stored_path(row.destination_path),
            prior_file_id: stored_id(row.prior_file_id),
            expected_revision,
            prior_hash: row.prior_hash,
            proposed_hash: row.proposed_hash,
            temp_path: stored_path(row.temp_path),
            payload,
            idempotency_key: row.idempotency_key,
            created_at: row.created_at,
            updated_at: row.updated_at,
            error: row.error,
        },
    )
}

/// Outbox payload inserted atomically with a file revision.
#[derive(Clone, Debug, PartialEq, Eq)]
pub struct OutboxEventInput {
    /// Stable event name.
    pub event_type: String,
    /// Aggregate category.
    pub aggregate_type: String,
    /// Aggregate identity, never a secret.
    pub aggregate_id: String,
    /// JSON event payload without note body.
    pub payload: Json,
}

impl OutboxEventInput {
    /// Whether the event names its type and aggregate.
    pub open spec fn identified(self) -> bool {
        self.event_type@.len() > 0 && self.aggregate_type@.len() > 0 && self.aggregate_id@.len() > 0
    }
}

/// Checks that an event names its type and aggregate.
pub fn validate_event(event: &OutboxEventInput) -> (r: Result<(), StateError>)
    ensures
        r == accepted_if(event.identified(), "outbox event identity is invalid"),
{
    if event.event_type.as_str().is_empty() || event.aggregate_type.as_str().is_empty()
        || event.aggregate_id.as_str().is_empty() {
        return Err(StateError::InvalidInput("outbox event identity is invalid"));
    }
    Ok(())
}

/// Checks a client idempotency key.
pub fn validate_idempotency_key(key: &str) -> (r: Result<(), StateError>)
    ensures
        r == accepted_if(label_ok(key@, 256), "idempotency key is invalid"),
{
    if !is_label(key, 256) {
        return Err(StateError::InvalidInput("idempotency key is invalid"));
    }
    Ok(())
}

/// Hash under which a path appears in audit facts.
pub open spec fn hashed_path(path: Seq<char>) -> Seq<char> {
    hex(sha256_digest(vstd::utf8::encode_utf8(path)))
}

/// Hash under which a path appears in audit facts.
pub fn path_hash(path: &VaultPath) -> (r: String)
    ensures
        r@ == hashed_path(path@),
        r@.len() == 64,
{
    sha256_hex(path.as_str().as_bytes())
}

/// Inputs for creating a durable journal intent.
#[derive(Clone, Debug, PartialEq, Eq)]
pub struct PrepareOperationInput {
    /// Operation identity.
    pub id: Id,
    /// Operation type.
    pub operation: FileOperation,
    /// Source path.
    pub source_path: Option<VaultPath>,
    /// Destination path.
    pub destination_path: Option<VaultPath>,
    /// Existing file affected by the operation.
    pub prior_file_id: Option<Id>,
    /// Expected current revision.
    pub expected_revision: Option<Revision>,
    /// Current content hash.
    pub prior_hash: Option<String>,
    /// Proposed content hash, if already known.
    pub proposed_hash: Option<String>,
    /// Same-vault temporary path.
    pub temp_path: Option<VaultPath>,
    /// Bounded operation metadata.
    pub payload: Json,
    /// Optional client idempotency key.
    pub idempotency_key: Option<String>,
}

/// Insert the durable journal intent before touching canonical content.
pub fn prepare_operation(context: &VaultContext, input: PrepareOperationInput, now: i64) -> (r: Result<
    JournalRecord,
    StateError,
>)
    ensures
        r == (if input.idempotency_key is Some && !label_ok(input.idempotency_key->0@, 256) {
            invalid("idempotency key is invalid")
        } else if input.expected_revision is Some && !input.expected_revision->0.storable() {
            Err(StateError::InvalidDomain(DomainError::RevisionOutOfRange))
        } else {
            Ok::<JournalRecord, StateError>(
                (JournalRecord {
                    id: input.id,
                    vault_id: context.id,
                    operation: input.operation,
                    state: JournalState::Prepared,
                    source_path: input.source_path,
                    destination_path: input.destination_path,
                    prior_file_id: input.prior_file_id,
                    expected_revision: input.expected_revision,
                    prior_hash: input.prior_hash,
                    proposed_hash: input.proposed_hash,
                    temp_path: input.temp_path,
                    payload: input.payload,
                    idempotency_key: input.idempotency_key,
                    created_at: now,
                    updated_at: now,
                    error: None,
                }),
            )
        }),
{
    match &input.idempotency_key {
        Some(key) => match validate_idempotency_key(key.as_str()) {
            Ok(()) => {},
            Err(error) => return Err(error),
        },
        None => {},
    }
    match input.expected_revision {
        Some(revision) => match revision.as_i64() {
            Ok(_) => {},
            Err(error) => return Err(StateError::InvalidDomain(error)),
        },
        None => {},
    }
    Ok(
        JournalRecord {
            id: input.id,
            vault_id: context.id.duplicate(),
            operation: input.operation,
            state: JournalState::Prepared,
            source_path: input.source_path,
            destination_path: input.destination_path,
            prior_file_id: input.prior_file_id,
            expected_revision: input.expected_revision,
            prior_hash: input.prior_hash,
            proposed_hash: input.proposed_hash,
            temp_path: input.temp_path,
            payload: input.payload,
            idempotency_key: input.idempotency_key,
            created_at: now,
            updated_at: now,
            error: None,
        },
    )
}

impl JournalState {
    /// Whether recovery still has to settle the operation.
    pub open spec fn incomplete(self) -> bool {
        self == JournalState::Prepared || self == JournalState::FileCommitted
    }

    /// Decides [`JournalState::incomplete`].
    pub fn is_incomplete(self) -> (r: bool)
        ensures
            r == self.incomplete(),
    {
        match self {
            JournalState::Prepared => true,
            JournalState::FileCommitted => true,
            _ => false,
        }
    }
}

/// The proposed hash that a journal keeps: the new one where one is given.
pub open spec fn kept_hash(given: Option<Seq<char>>, stored: Option<String>) -> Option<Seq<char>> {
    match given {
        Some(hash) => Some(hash),
        None => optional_text(stored),
    }
}

fn keep_hash(given: Option<&str>, stored: Option<String>) -> (r: Option<String>)
    ensures
        optional_text(r) == kept_hash(str_text(given), stored),
        given is None ==> r == stored,
{
    match given {
        Some(hash) => Some(hash.to_owned()),
        None => stored,
    }
}

impl JournalRecord {
    /// Whether this is the vault's intent with an identity.
    pub open spec fn is(self, vault: Seq<char>, id: Seq<char>) -> bool {
        self.vault_id@ == vault && self.id@ == id
    }

    /// Decides [`JournalRecord::is`].
    pub fn is_intent(&self, vault: &Id, id: &Id) -> (r: bool)
        ensures
            r == self.is(vault@, id@),
    {
        self.vault_id.same(vault) && self.id.same(id)
    }
}

/// Whether the vault's intent with an identity is there and in a state.
pub open spec fn in_state(
    journal: Option<JournalRecord>,
    vault: Seq<char>,
    id: Seq<char>,
    state: JournalState,
) -> bool {
    journal is Some && journal->0.is(vault, id) && journal->0.state == state
}

/// Whether the vault's intent with an identity is there and not settled.
pub open spec fn unsettled(journal: Option<JournalRecord>, vault: Seq<char>, id: Seq<char>) -> bool {
    journal is Some && journal->0.is(vault, id) && journal->0.state.incomplete()
}

/// Mark the physical filesystem phase complete.
pub fn mark_file_committed(
    context: &VaultContext,
    operation_id: &Id,
    journal: Option<JournalRecord>,
    proposed_hash: Option<&str>,
    now: i64,
) -> (r: Result<JournalRecord, StateError>)
    ensures
        if in_state(journal, context.id@, operation_id@, JournalState::Prepared) {
            &&& r is Ok
            &&& optional_text(r->Ok_0.proposed_hash) == kept_hash(
                str_text(proposed_hash),
                journal->0.proposed_hash,
            )
            &&& r->Ok_0 == (JournalRecord {
                state: JournalState::FileCommitted,
                proposed_hash: r->Ok_0.proposed_hash,
                updated_at: now,
                ..journal->0
            })
        } else {
            r == invalid::<JournalRecord>("journal is not prepared")
        },
{
    match journal {
        Some(journal) if journal.is_intent(&context.id, operation_id) && journal.state
            == JournalState::Prepared => {
            let proposed_hash = keep_hash(proposed_hash, journal.proposed_hash);
            Ok(
                JournalRecord {
                    state: JournalState::FileCommitted,
                    proposed_hash,
                    updated_at: now,
                    ..journal
                },
            )
        },
        _ => Err(StateError::InvalidInput("journal is not prepared")),
    }
}

/// Persist a proposed content hash while the journal is still prepared.
pub fn set_proposed_hash(
    context: &VaultContext,
    operation_id: &Id,
    journal: Option<JournalRecord>,
    proposed_hash: &str,
    now: i64,
) -> (r: Result<JournalRecord, StateError>)
    ensures
        if !bounded(proposed_hash@, 128) {
            r == invalid::<JournalRecord>("proposed hash is invalid")
        } else if in_state(journal, context.id@, operation_id@, JournalState::Prepared) {
            &&& r is Ok
            &&& optional_text(r->Ok_0.proposed_hash) == Some(proposed_hash@)
            &&& r->Ok_0 == (JournalRecord {
                proposed_hash: r->Ok_0.proposed_hash,
                updated_at: now,
                ..journal->0
            })
        } else {
            r == invalid::<JournalRecord>("journal is not prepared")
        },
{
    if !is_bounded(proposed_hash, 128) {
        return Err(StateError::InvalidInput("proposed hash is invalid"));
    }
    match journal {
        Some(journal) if journal.is_intent(&context.id, operation_id) && journal.state
            == JournalState::Prepared => Ok(
            JournalRecord {
                proposed_hash: Some(proposed_hash.to_owned()),
                updated_at: now,
                ..journal
            },
        ),
        _ => Err(StateError::InvalidInput("journal is not prepared")),
    }
}

/// Update bounded journal metadata while the physical phase is prepared.
pub fn update_operation_payload(
    context: &VaultContext,
    operation_id: &Id,
    journal: Option<JournalRecord>,
    payload: Json,
    proposed_hash: Option<&str>,
    now: i64,
) -> (r: Result<JournalRecord, StateError>)
    ensures
        if in_state(journal, context.id@, operation_id@, JournalState::Prepared) {
            &&& r is Ok
            &&& optional_text(r->Ok_0.proposed_hash) == kept_hash(
                str_text(proposed_hash),
                journal->0.proposed_hash,
            )
            &&& r->Ok_0 == (JournalRecord {
                payload,
                proposed_hash: r->Ok_0.proposed_hash,
                updated_at: now,
                ..journal->0
            })
        } else {
            r == invalid::<JournalRecord>("journal is not prepared")
        },
{
    match journal {
        Some(journal) if journal.is_intent(&context.id, operation_id) && journal.state
            == JournalState::Prepared => {
            let proposed_hash = keep_hash(proposed_hash, journal.proposed_hash);
            Ok(JournalRecord { payload, proposed_hash, updated_at: now, ..journal })
        },
        _ => Err(StateError::InvalidInput("journal is not prepared")),
    }
}

/// Whether `after` is the journal settled in a terminal state.
pub open spec fn settled_as(
    before: JournalRecord,
    after: JournalRecord,
    state: JournalState,
    error: Option<Seq<char>>,
    now: i64,
) -> bool {
    &&& optional_text(after.error) == error
    &&& after == JournalRecord { state, error: after.error, updated_at: now, ..before }
}

fn mark_terminal(
    context: &VaultContext,
    operation_id: &Id,
    journal: Option<JournalRecord>,
    state: JournalState,
    error: Option<&str>,
    now: i64,
) -> (r: Result<JournalRecord, StateError>)
    ensures
        if unsettled(journal, context.id@, operation_id@) {
            r matches Ok(after) && settled_as(journal->0, after, state, str_text(error), now)
        } else {
            r == invalid::<JournalRecord>("journal is already terminal")
        },
{
    match journal {
        Some(journal) if journal.is_intent(&context.id, operation_id)
            && journal.state.is_incomplete() => Ok(
            JournalRecord { state, error: owned(error), updated_at: now, ..journal },
        ),
        _ => Err(StateError::InvalidInput("journal is already terminal")),
    }
}

/// Mark a journal row safely rolled back.
pub fn mark_rolled_back(
    context: &VaultContext,
    operation_id: &Id,
    journal: Option<JournalRecord>,
    error: Option<&str>,
    now: i64,
) -> (r: Result<JournalRecord, StateError>)
    ensures
        if unsettled(journal, context.id@, operation_id@) {
            r matches Ok(after) && settled_as(
                journal->0,
                after,
                JournalState::RolledBack,
                str_text(error),
                now,
            )
        } else {
            r == invalid::<JournalRecord>("journal is already terminal")
        },
{
    mark_terminal(context, operation_id, journal, JournalState::RolledBack, error, now)
}

/// Mark a journal row for operator review.
pub fn mark_needs_review(
    context: &VaultContext,
    operation_id: &Id,
    journal: Option<JournalRecord>,
    error: &str,
    now: i64,
) -> (r: Result<JournalRecord, StateError>)
    ensures
        if unsettled(journal, context.id@, operation_id@) {
            r matches Ok(after) && settled_as(
                journal->0,
                after,
                JournalState::NeedsReview,
                Some(error@),
                now,
            )
        } else {
            r == invalid::<JournalRecord>("journal is already terminal")
        },
{
    mark_terminal(context, operation_id, journal, JournalState::NeedsReview, Some(error), now)
}

/// Durable result of an idempotency lookup.
#[derive(Clone, Debug, PartialEq, Eq)]
pub enum IdempotencyLookup {
    /// The operation was committed previously.
    Committed {
        /// Stored operation payload for equivalence checking.
        payload: Json,
        /// Current file record.
        file: FileRecord,
        /// Original revision result.
        revision: FileRevisionRecord,
    },
    /// An operation is durable but has not completed metadata commit.
    InFlight {
        /// Original operation identity.
        operation_id: Id,
        /// Current journal state.
        state: JournalState,
        /// Stored operation payload.
        payload: Json,
    },
}

/// The vault's intent under an idempotency key.
pub open spec fn keyed_journal(journals: Seq<JournalRecord>, vault: Seq<char>, key: Seq<char>) -> Option<
    JournalRecord,
> {
    first_row(
        journals,
        |journal: JournalRecord|
            journal.vault_id@ == vault && optional_text(journal.idempotency_key) == Some(key),
    )
}

/// The vault's revision under an idempotency key.
pub open spec fn keyed_revision(
    revisions: Seq<FileRevisionRecord>,
    vault: Seq<char>,
    key: Seq<char>,
) -> Option<FileRevisionRecord> {
    first_row(
        revisions,
        |revision: FileRevisionRecord|
            revision.vault_id@ == vault && optional_text(revision.idempotency_key) == Some(key),
    )
}

/// The vault's entry with an identity.
pub open spec fn entry_of(files: Seq<FileRecord>, vault: Seq<char>, id: Seq<char>) -> Option<
    FileRecord,
> {
    first_row(files, |file: FileRecord| file.vault_id@ == vault && file.id@ == id)
}

/// What is known of a request under an idempotency key.
pub open spec fn request_state(
    journals: Seq<JournalRecord>,
    revisions: Seq<FileRevisionRecord>,
    files: Seq<FileRecord>,
    vault: Seq<char>,
    key: Seq<char>,
) -> Result<Option<IdempotencyLookup>, StateError> {
    match (keyed_journal(journals, vault, key), keyed_revision(revisions, vault, key)) {
        (None, _) => Ok(None),
        (Some(journal), None) => Ok(
            Some(
                IdempotencyLookup::InFlight {
                    operation_id: journal.id,
                    state: journal.state,
                    payload: journal.payload,
                },
            ),
        ),
        (Some(journal), Some(revision)) => match entry_of(files, vault, revision.file_id@) {
            None => invalid("revision file entry is missing"),
            Some(file) => Ok(
                Some(
                    IdempotencyLookup::Committed { payload: journal.payload, file, revision },
                ),
            ),
        },
    }
}

/// Find an already committed or in-flight idempotent operation of the vault
/// among its stored intents, revisions and entries.
pub fn find_idempotency(
    context: &VaultContext,
    key: &str,
    journals: Vec<JournalRecord>,
    revisions: Vec<FileRevisionRecord>,
    files: Vec<FileRecord>,
) -> (r: Result<Option<IdempotencyLookup>, StateError>)
    ensures
        r == (if !label_ok(key@, 256) {
            invalid("idempotency key is invalid")
        } else {
            request_state(journals@, revisions@, files@, context.id@, key@)
        }),
{
    match validate_idempotency_key(key) {
        Ok(()) => {},
        Err(error) => return Err(error),
    }
    let under_key = |journal: &JournalRecord| -> (yes: bool)
        ensures
            yes == (journal.vault_id@ == context.id@ && optional_text(journal.idempotency_key)
                == Some(key@)),
        { journal.vault_id.same(&context.id) && is_key(&journal.idempotency_key, key) };
    let found = find(
        journals.as_slice(),
        under_key,
        Ghost(
            |journal: JournalRecord|
                journal.vault_id@ == context.id@ && optional_text(journal.idempotency_key)
                    == Some(key@),
        ),
    );
    let mut journals = journals;
    let journal = match found {
        Some(i) => journals.swap_remove(i),
        None => return Ok(None),
    };
    let recorded = |revision: &FileRevisionRecord| -> (yes: bool)
        ensures
            yes == (revision.vault_id@ == context.id@ && optional_text(revision.idempotency_key)
                == Some(key@)),
        { revision.vault_id.same(&context.id) && is_key(&revision.idempotency_key, key) };
    let found = find(
        revisions.as_slice(),
        recorded,
        Ghost(
            |revision: FileRevisionRecord|
                revision.vault_id@ == context.id@ && optional_text(revision.idempotency_key)
                    == Some(key@),
        ),
    );
    let mut revisions = revisions;
    let revision = match found {
        Some(i) => revisions.swap_remove(i),
        None => return Ok(
            Some(
                IdempotencyLookup::InFlight {
                    operation_id: journal.id,
                    state: journal.state,
                    payload: journal.payload,
                },
            ),
        ),
    };
    let found = get_by_id(context, files.as_slice(), &revision.file_id);
    let mut files = files;
    match found {
        Some(i) => Ok(
            Some(
                IdempotencyLookup::Committed {
                    payload: journal.payload,
                    file: files.swap_remove(i),
                    revision,
                },
            ),
        ),
        None => Err(StateError::InvalidInput("revision file entry is missing")),
    }
}

fn is_key(stored: &Option<String>, key: &str) -> (r: bool)
    ensures
        r == (optional_text(*stored) == Some(key@)),
{
    match stored {
        Some(text) => text_eq(text.as_str(), key),
        None => false,
    }
}

/// Checks the bound of a page of recent revisions.
pub fn validate_recent_limit(limit: u32) -> (r: Result<(), StateError>)
    ensures
        r == accepted_if(
            1 <= limit <= 200,
            "recent revision limit must be between 1 and 200",
        ),
{
    if limit == 0 || limit > 200 {
        return Err(StateError::InvalidInput("recent revision limit must be between 1 and 200"));
    }
    Ok(())
}

/// Fault-injection phase inside a state metadata commit.
#[derive(Clone, Copy, Debug, PartialEq, Eq, Structural)]
pub enum CommitHookPhase {
    /// The transaction has started.
    MetadataTransactionStarted,
    /// All outbox rows have been inserted but the transaction is not committed.
    OutboxInserted,
}

/// Test and observability seam that cannot touch stored state.
pub trait CommitHook: Send + Sync {
    /// Allow or reject the next commit phase.
    fn on_phase(&self, phase: CommitHookPhase) -> (r: Result<(), StateError>);
}

/// No-op production commit hook.
pub struct NoopCommitHook;

impl CommitHook for NoopCommitHook {
    fn on_phase(&self, phase: CommitHookPhase) -> (r: Result<(), StateError>)
        ensures
            r == Ok::<(), StateError>(()),
    {
        Ok(())
    }
}

/// Inputs for one conditional metadata and revision commit.
#[derive(Clone, Debug, PartialEq, Eq)]
pub struct CommitMutationInput {
    /// Journal operation being finalized.
    pub operation_id: Id,
    /// Stable file identity to create or update.
    pub file_id: Id,
    /// Resulting entry kind.
    pub entry_type: EntryType,
    /// Resulting canonical path.
    pub path: VaultPath,
    /// Previous path, when applicable.
    pub path_before: Option<VaultPath>,
    /// Resulting path for revision metadata.
    pub path_after: Option<VaultPath>,
    /// Exact prior revision required for an update.
    pub expected_revision: Option<Revision>,
    /// Require no active destination at the resulting path.
    pub require_absent: bool,
    /// Move a source into a path whose prior tombstone must be archived inside
    /// the reserved operational namespace in the same transaction.
    pub tombstone_archive_path: Option<VaultPath>,
    /// Current content hash.
    pub content_hash: Option<String>,
    /// History blob hash for the prior or current payload.
    pub history_blob_hash: Option<String>,
    /// Resulting content size.
    pub size: u64,
    /// Observed filesystem modification timestamp.
    pub modified_at: i64,
    /// Filesystem identity hint.
    pub filesystem_identity: Option<String>,
    /// Tombstone timestamp for delete.
    pub deleted_at: Option<i64>,
    /// Revision operation.
    pub operation: FileOperation,
    /// Actor provenance.
    pub actor: Actor,
    /// Source plane.
    pub source_plane: String,
    /// Client idempotency key.
    pub idempotency_key: Option<String>,
    /// Audit action label.
    pub audit_action: String,
    /// Redacted audit metadata.
    pub audit_metadata: Json,
    /// Optional request correlation identifier.
    pub request_id: Option<String>,
    /// Outbox events to insert in this transaction.
    pub outbox_events: Vec<OutboxEventInput>,
}

/// What the commit transaction reads before it decides.
#[derive(Clone, Debug, PartialEq, Eq)]
pub struct CommitLookup {
    /// Row of the vault with the committed file's identity.
    pub current: Option<FileRow>,
    /// Row of the vault at the resulting path.
    pub destination: Option<FileRow>,
    /// Whether some row of the vault has the requested archive path.
    pub archive_occupied: bool,
}

impl FileRow {
    /// An equal row.
    fn duplicate(&self) -> (r: FileRow)
        ensures
            r == *self,
    {
        FileRow {
            id: self.id.clone(),
            vault_id: self.vault_id.clone(),
            path: self.path.clone(),
            entry_type: self.entry_type.clone(),
            current_revision: self.current_revision,
            content_hash: duplicate_text(&self.content_hash),
            size: self.size,
            modified_at: self.modified_at,
            filesystem_identity: duplicate_text(&self.filesystem_identity),
            deleted_at: self.deleted_at,
            created_at: self.created_at,
            updated_at: self.updated_at,
        }
    }

    /// Whether the row stands at a path of the vault.
    pub open spec fn stands_at(self, vault: Seq<char>, path: Seq<char>) -> bool {
        self.vault_id@ == vault && self.path@ == path
    }
}

fn row_at_path(context: &VaultContext, rows: &[FileRow], path: &VaultPath) -> (r: Option<FileRow>)
    ensures
        r == first_row(rows@, |row: FileRow| row.stands_at(context.id@, path@)),
{
    let accepts = |row: &FileRow| -> (yes: bool)
        ensures
            yes == row.stands_at(context.id@, path@),
        {
            text_eq(row.vault_id.as_str(), context.id.as_str()) && text_eq(
                row.path.as_str(),
                path.as_str(),
            )
        };
    match find(rows, accepts, Ghost(|row: FileRow| row.stands_at(context.id@, path@))) {
        Some(i) => Some(rows[i].duplicate()),
        None => None,
    }
}

/// Reads what a commit decides by from the stored entries: the vault's row with
/// the file's identity, its row at the resulting path, and whether the archive
/// path is taken.
pub fn look_up(context: &VaultContext, input: &CommitMutationInput, rows: &[FileRow]) -> (r: CommitLookup)
    ensures
        r.current == first_row(
            rows@,
            |row: FileRow| row.vault_id@ == context.id@ && row.id@ == input.file_id@,
        ),
        r.destination == first_row(
            rows@,
            |row: FileRow| row.stands_at(context.id@, input.path@),
        ),
        r.archive_occupied == (input.tombstone_archive_path matches Some(archive) && first_row(
            rows@,
            |row: FileRow| row.stands_at(context.id@, archive@),
        ) is Some),
{
    let accepts = |row: &FileRow| -> (yes: bool)
        ensures
            yes == (row.vault_id@ == context.id@ && row.id@ == input.file_id@),
        {
            text_eq(row.vault_id.as_str(), context.id.as_str()) && text_eq(
                row.id.as_str(),
                input.file_id.as_str(),
            )
        };
    let current = match find(
        rows,
        accepts,
        Ghost(|row: FileRow| row.vault_id@ == context.id@ && row.id@ == input.file_id@),
    ) {
        Some(i) => Some(rows[i].duplicate()),
        None => None,
    };
    let archive_occupied = match &input.tombstone_archive_path {
        Some(archive) => row_at_path(context, rows, archive).is_some(),
        None => false,
    };
    CommitLookup {
        current,
        destination: row_at_path(context, rows, &input.path),
        archive_occupied,
    }
}

/// Fresh identities for the rows that a commit inserts.
#[derive(Clone, Debug, PartialEq, Eq)]
pub struct MintedIds {
    pub revision_id: Id,
    pub audit_id: Id,
    pub event_ids: Vec<Id>,
}

/// A tombstone that is moved out of the way of the committed entry.
#[derive(Clone, Debug, PartialEq, Eq)]
pub struct ArchivedTombstone {
    pub id: Id,
    pub path: VaultPath,
    pub updated_at: i64,
}

/// Everything that one metadata commit writes.
#[derive(Clone, Debug, PartialEq, Eq)]
pub struct MutationPlan {
    /// Tombstone to archive first, if any.
    pub archived: Option<ArchivedTombstone>,
    /// Whether the entry is updated rather than inserted, and from which
    /// revision.
    pub replaces: Option<Revision>,
    /// Entry to write.
    pub file: FileRecord,
    /// Revision to insert.
    pub revision: FileRevisionRecord,
    /// Audit fact to insert.
    pub audit: AuditRecord,
    /// Outbox events to insert.
    pub outbox: Vec<OutboxEventRecord>,
}

/// Result returned after a conditional metadata commit.
#[derive(Clone, Debug, PartialEq, Eq)]
pub struct MutationCommitResult {
    /// New current file record.
    pub file: FileRecord,
    /// Immutable revision row.
    pub revision: FileRevisionRecord,
}

impl CommitLookup {
    /// Whether a live entry of another file is at the resulting path.
    pub open spec fn occupied(self, file_id: Seq<char>) -> bool {
        self.destination is Some && self.destination->0.deleted_at is None
            && self.destination->0.id@ != file_id
    }

    /// Whether the tombstone of another file is at the resulting path.
    pub open spec fn entombed(self, file_id: Seq<char>) -> bool {
        self.destination is Some && self.destination->0.deleted_at is Some
            && self.destination->0.id@ != file_id
    }
}

impl CommitMutationInput {
    /// Refusal because of what is at the resulting path.
    pub open spec fn destination_refusal(self, lookup: CommitLookup) -> Option<StateError> {
        if self.require_absent && lookup.occupied(self.file_id@) {
            Some(
                StateError::InvalidDomain(
                    DomainError::PreconditionFailed { reason: "destination already exists" },
                ),
            )
        } else if self.tombstone_archive_path is None {
            None
        } else if lookup.destination is None {
            Some(
                StateError::InvalidInput("tombstone archive was requested without a destination"),
            )
        } else if !lookup.entombed(self.file_id@) {
            Some(StateError::InvalidInput("tombstone archive target is not a prior destination"))
        } else if lookup.archive_occupied {
            Some(StateError::InvalidInput("tombstone archive path is already occupied"))
        } else {
            None
        }
    }

    /// Refusal because of the state of the committed file itself.
    pub open spec fn revision_refusal(self, current: Option<FileRecord>) -> Option<StateError> {
        match (self.expected_revision, current) {
            (Some(_), None) => Some(
                StateError::InvalidDomain(
                    DomainError::PreconditionFailed { reason: "entry does not exist" },
                ),
            ),
            (Some(expected), Some(current)) => if !current.active() && self.operation
                != FileOperation::Restore {
                Some(
                    StateError::InvalidDomain(
                        DomainError::PreconditionFailed { reason: "entry is deleted" },
                    ),
                )
            } else if current.current_revision != expected {
                Some(
                    StateError::InvalidDomain(
                        DomainError::RevisionConflict {
                            expected,
                            current: current.current_revision,
                        },
                    ),
                )
            } else {
                None
            },
            (None, Some(current)) => if current.active() && self.require_absent {
                Some(
                    StateError::InvalidDomain(
                        DomainError::PreconditionFailed { reason: "entry already exists" },
                    ),
                )
            } else {
                None
            },
            (None, None) => None,
        }
    }

    /// Refusal of moves without a source, of tombstones that would be
    /// overwritten silently and of numbers that cannot be stored.
    pub open spec fn write_refusal(
        self,
        lookup: CommitLookup,
        current: Option<FileRecord>,
    ) -> Option<StateError> {
        if self.operation == FileOperation::Move && current is None {
            Some(StateError::InvalidInput("move file entry is missing"))
        } else if self.tombstone_archive_path is None && lookup.entombed(self.file_id@) {
            Some(StateError::InvalidInput("destination tombstone must be reused explicitly"))
        } else if current is Some && current->0.current_revision.value >= i64::MAX {
            Some(StateError::InvalidDomain(DomainError::RevisionOutOfRange))
        } else if self.size > i64::MAX {
            Some(StateError::InvalidInput("file size is too large"))
        } else if exists|i: int|
            0 <= i < self.outbox_events@.len() && !(#[trigger] self.outbox_events@[i]).identified() {
            Some(StateError::InvalidInput("outbox event identity is invalid"))
        } else {
            None
        }
    }

    /// Why the mutation is refused, if it is.
    pub open spec fn refusal(self, lookup: CommitLookup) -> Option<StateError> {
        match self.destination_refusal(lookup) {
            Some(error) => Some(error),
            None => match current_record(lookup) {
                Err(error) => Some(error),
                Ok(current) => match self.revision_refusal(current) {
                    Some(error) => Some(error),
                    None => self.write_refusal(lookup, current),
                },
            },
        }
    }
}

/// The committed file's record before the commit.
pub open spec fn current_record(lookup: CommitLookup) -> Result<Option<FileRecord>, StateError> {
    match lookup.current {
        None => Ok(None),
        Some(row) => match row.decoded() {
            Ok(record) => Ok(Some(record)),
            Err(error) => Err(error),
        },
    }
}

/// The revision that a commit writes.
pub open spec fn next_revision(current: Option<FileRecord>) -> Revision {
    match current {
        Some(record) => Revision { value: (record.current_revision.value + 1) as u64 },
        None => Revision { value: 1 },
    }
}

/// The outbox row of one event.
pub open spec fn outbox_row(context: VaultContext, event: OutboxEventInput, id: Id, now: i64) -> OutboxEventRecord {
    OutboxEventRecord {
        id,
        vault_id: Some(context.id),
        event_type: event.event_type,
        aggregate_type: event.aggregate_type,
        aggregate_id: event.aggregate_id,
        payload: event.payload,
        created_at: now,
        available_at: now,
        claimed_by: None,
        claimed_until: None,
        delivered_at: None,
        attempts: 0,
        last_error: None,
        dead_lettered: false,
        dead_letter_reason: None,
    }
}

/// Whether the plan writes exactly what the mutation asks for.
pub open spec fn plans(
    context: VaultContext,
    input: CommitMutationInput,
    lookup: CommitLookup,
    current: Option<FileRecord>,
    minted: MintedIds,
    now: i64,
    plan: MutationPlan,
) -> bool {
    &&& plan.archived == match input.tombstone_archive_path {
        Some(path) => Some(
            ArchivedTombstone {
                id: Id { text: lookup.destination->0.id },
                path,
                updated_at: now,
            },
        ),
        None => None,
    }
    &&& plan.replaces == match current {
        Some(record) => Some(record.current_revision),
        None => None,
    }
    &&& plan.file == FileRecord {
        id: input.file_id,
        vault_id: context.id,
        path: input.path,
        entry_type: input.entry_type,
        current_revision: next_revision(current),
        content_hash: input.content_hash,
        size: input.size,
        modified_at: input.modified_at,
        filesystem_identity: input.filesystem_identity,
        deleted_at: input.deleted_at,
        created_at: match current {
            Some(record) => record.created_at,
            None => now,
        },
        updated_at: now,
    }
    &&& plan.revision.actor_type@ == input.actor.actor_type.label()
    &&& plan.revision == FileRevisionRecord {
        id: minted.revision_id,
        vault_id: context.id,
        file_id: input.file_id,
        revision: next_revision(current),
        operation: input.operation,
        path_before: match (input.path_before, current) {
            (Some(path), _) => Some(path),
            (None, Some(record)) => Some(record.path),
            (None, None) => None,
        },
        path_after: match input.path_after {
            Some(path) => Some(path),
            None => Some(input.path),
        },
        content_hash: input.content_hash,
        history_blob_hash: input.history_blob_hash,
        size: Some(input.size),
        actor_type: plan.revision.actor_type,
        actor_id: input.actor.actor_id,
        source_plane: input.source_plane,
        idempotency_key: input.idempotency_key,
        created_at: now,
    }
    &&& plan.audit.actor_type@ == input.actor.actor_type.label()
    &&& optional_text(plan.audit.target_type) == Some("file"@)
    &&& optional_text(plan.audit.target_path_hash) == Some(hashed_path(input.path@))
    &&& plan.audit.result@ == "success"@
    &&& plan.audit == AuditRecord {
        id: minted.audit_id,
        occurred_at: now,
        request_id: input.request_id,
        vault_id: Some(context.id),
        plane: input.source_plane,
        actor_type: plan.audit.actor_type,
        actor_id: input.actor.actor_id,
        action: input.audit_action,
        target_type: plan.audit.target_type,
        target_id: Some(input.file_id.text),
        target_path_hash: plan.audit.target_path_hash,
        result: plan.audit.result,
        metadata: input.audit_metadata,
    }
    &&& plan.outbox@ == Seq::new(
        input.outbox_events@.len(),
        |i: int| outbox_row(context, input.outbox_events@[i], minted.event_ids@[i], now),
    )
}

fn all_identified(events: &Vec<OutboxEventInput>) -> (r: bool)
    ensures
        r == !(exists|i: int| 0 <= i < events@.len() && !(#[trigger] events@[i]).identified()),
{
    let mut i: usize = 0;
    while i < events.len()
        invariant
            i <= events@.len(),
            forall|k: int| 0 <= k < i ==> (#[trigger] events@[k]).identified(),
        decreases events@.len() - i,
    {
        match validate_event(&events[i]) {
            Ok(()) => {},
            Err(_) => {
                assert(!events@[i as int].identified());
                return false;
            },
        }
        i += 1;
    }
    true
}

fn stage_events(context: &VaultContext, events: &Vec<OutboxEventInput>, ids: &Vec<Id>, now: i64) -> (r: Vec<
    OutboxEventRecord,
>)
    requires
        events@.len() == ids@.len(),
    ensures
        r@ == Seq::new(
            events@.len(),
            |i: int| outbox_row(*context, events@[i], ids@[i], now),
        ),
{
    let mut rows: Vec<OutboxEventRecord> = Vec::new();
    let mut i: usize = 0;
    while i < events.len()
        invariant
            events@.len() == ids@.len(),
            i <= events@.len(),
            rows@.len() == i,
            forall|k: int|
                0 <= k < i ==> #[trigger] rows@[k] == outbox_row(*context, events@[k], ids@[k], now),
        decreases events@.len() - i,
    {
        let event = &events[i];
        rows.push(
            OutboxEventRecord {
                id: ids[i].duplicate(),
                vault_id: Some(context.id.duplicate()),
                event_type: event.event_type.clone(),
                aggregate_type: event.aggregate_type.clone(),
                aggregate_id: event.aggregate_id.clone(),
                payload: event.payload.duplicate(),
                created_at: now,
                available_at: now,
                claimed_by: None,
                claimed_until: None,
                delivered_at: None,
                attempts: 0,
                last_error: None,
                dead_lettered: false,
                dead_letter_reason: None,
            },
        );
        i += 1;
    }
    assert(rows@ =~= Seq::new(
        events@.len(),
        |i: int| outbox_row(*context, events@[i], ids@[i], now),
    ));
    rows
}

fn check_destination(input: &CommitMutationInput, lookup: &CommitLookup) -> (r: Result<
    (),
    StateError,
>)
    ensures
        match input.destination_refusal(*lookup) {
            Some(error) => r == Err::<(), StateError>(error),
            None => r == Ok::<(), StateError>(()),
        },
{
    match &lookup.destination {
        Some(destination) => {
            let other = !text_eq(destination.id.as_str(), input.file_id.as_str());
            if input.require_absent && destination.deleted_at.is_none() && other {
                return Err(
                    StateError::InvalidDomain(
                        DomainError::PreconditionFailed { reason: "destination already exists" },
                    ),
                );
            }
            if input.tombstone_archive_path.is_none() {
                return Ok(());
            }
            if destination.deleted_at.is_none() || !other {
                return Err(
                    StateError::InvalidInput("tombstone archive target is not a prior destination"),
                );
            }
            if lookup.archive_occupied {
                return Err(
                    StateError::InvalidInput("tombstone archive path is already occupied"),
                );
            }
            Ok(())
        },
        None => {
            if input.tombstone_archive_path.is_none() {
                Ok(())
            } else {
                Err(
                    StateError::InvalidInput(
                        "tombstone archive was requested without a destination",
                    ),
                )
            }
        },
    }
}

fn check_revision(input: &CommitMutationInput, current: &Option<FileRecord>) -> (r: Result<
    (),
    StateError,
>)
    ensures
        match input.revision_refusal(*current) {
            Some(error) => r == Err::<(), StateError>(error),
            None => r == Ok::<(), StateError>(()),
        },
{
    match input.expected_revision {
        Some(expected) => match current {
            None => Err(
                StateError::InvalidDomain(
                    DomainError::PreconditionFailed { reason: "entry does not exist" },
                ),
            ),
            Some(current) => {
                if !current.is_active() && input.operation != FileOperation::Restore {
                    return Err(
                        StateError::InvalidDomain(
                            DomainError::PreconditionFailed { reason: "entry is deleted" },
                        ),
                    );
                }
                if current.current_revision.value != expected.value {
                    return Err(
                        StateError::InvalidDomain(
                            DomainError::RevisionConflict {
                                expected,
                                current: current.current_revision,
                            },
                        ),
                    );
                }
                Ok(())
            },
        },
        None => match current {
            Some(current) if current.is_active() && input.require_absent => Err(
                StateError::InvalidDomain(
                    DomainError::PreconditionFailed { reason: "entry already exists" },
                ),
            ),
            _ => Ok(()),
        },
    }
}

fn check_write(
    input: &CommitMutationInput,
    lookup: &CommitLookup,
    current: &Option<FileRecord>,
) -> (r: Result<Revision, StateError>)
    requires
        current matches Some(record) ==> record.current_revision.storable(),
    ensures
        match input.write_refusal(*lookup, *current) {
            Some(error) => r == Err::<Revision, StateError>(error),
            None => r == Ok::<Revision, StateError>(next_revision(*current)),
        },
{
    if input.operation == FileOperation::Move && current.is_none() {
        return Err(StateError::InvalidInput("move file entry is missing"));
    }
    match &lookup.destination {
        Some(destination) => {
            if destination.deleted_at.is_some() && !text_eq(
                destination.id.as_str(),
                input.file_id.as_str(),
            ) && input.tombstone_archive_path.is_none() {
                return Err(
                    StateError::InvalidInput("destination tombstone must be reused explicitly"),
                );
            }
        },
        None => {},
    }
    let next = match current {
        Some(record) => match record.current_revision.next() {
            Ok(next) => next,
            Err(error) => return Err(StateError::InvalidDomain(error)),
        },
        None => Revision::new(1),
    };
    match next.as_i64() {
        Ok(_) => {},
        Err(error) => return Err(StateError::InvalidDomain(error)),
    }
    if input.size > i64::MAX as u64 {
        return Err(StateError::InvalidInput("file size is too large"));
    }
    if !all_identified(&input.outbox_events) {
        return Err(StateError::InvalidInput("outbox event identity is invalid"));
    }
    Ok(next)
}

/// Decide one mutation from what the transaction has read: everything that it
/// writes, or why it is refused.
pub fn stage_mutation(
    context: &VaultContext,
    input: CommitMutationInput,
    lookup: CommitLookup,
    minted: MintedIds,
    now: i64,
) -> (r: Result<MutationPlan, StateError>)
    requires
        minted.event_ids@.len() == input.outbox_events@.len(),
    ensures
        match input.refusal(lookup) {
            Some(error) => r == Err::<MutationPlan, StateError>(error),
            None => r matches Ok(plan) && plans(
                *context,
                input,
                lookup,
                current_record(lookup)->Ok_0,
                minted,
                now,
                plan,
            ),
        },
{
    match check_destination(&input, &lookup) {
        Ok(()) => {},
        Err(error) => return Err(error),
    }
    let archived = match &input.tombstone_archive_path {
        Some(path) => match &lookup.destination {
            Some(destination) => Some(
                ArchivedTombstone {
                    id: Id { text: destination.id.clone() },
                    path: path.duplicate(),
                    updated_at: now,
                },
            ),
            None => None,
        },
        None => None,
    };
    let ghost looked_up = lookup;
    let CommitLookup { current: current_row, destination, archive_occupied } = lookup;
    let current = match current_row {
        Some(row) => match row_to_file(row) {
            Ok(record) => Some(record),
            Err(error) => return Err(error),
        },
        None => None,
    };
    match check_revision(&input, &current) {
        Ok(()) => {},
        Err(error) => return Err(error),
    }
    let rest = CommitLookup { current: None, destination, archive_occupied };
    let next = match check_write(&input, &rest, &current) {
        Ok(next) => next,
        Err(error) => return Err(error),
    };
    let outbox = stage_events(context, &input.outbox_events, &minted.event_ids, now);
    let (replaces, created_at, current_path) = match current {
        Some(record) => (Some(record.current_revision), record.created_at, Some(record.path)),
        None => (None, now, None),
    };
    let path_before = match input.path_before {
        Some(path) => Some(path),
        None => current_path,
    };
    let path_after = match input.path_after {
        Some(path) => Some(path),
        None => Some(input.path.duplicate()),
    };
    let target_hash = path_hash(&input.path);
    let audit = AuditRecord {
        id: minted.audit_id,
        occurred_at: now,
        request_id: input.request_id,
        vault_id: Some(context.id.duplicate()),
        plane: input.source_plane.clone(),
        actor_type: actor_type_label(input.actor.actor_type).to_owned(),
        actor_id: duplicate_optional(&input.actor.actor_id),
        action: input.audit_action,
        target_type: Some("file".to_owned()),
        target_id: Some(input.file_id.text.clone()),
        target_path_hash: Some(target_hash),
        result: "success".to_owned(),
        metadata: input.audit_metadata,
    };
    let revision = FileRevisionRecord {
        id: minted.revision_id,
        vault_id: context.id.duplicate(),
        file_id: input.file_id.duplicate(),
        revision: next,
        operation: input.operation,
        path_before,
        path_after,
        content_hash: duplicate_text(&input.content_hash),
        history_blob_hash: input.history_blob_hash,
        size: Some(input.size),
        actor_type: actor_type_label(input.actor.actor_type).to_owned(),
        actor_id: input.actor.actor_id,
        source_plane: input.source_plane,
        idempotency_key: input.idempotency_key,
        created_at: now,
    };
    let file = FileRecord {
        id: input.file_id,
        vault_id: context.id.duplicate(),
        path: input.path,
        entry_type: input.entry_type,
        current_revision: next,
        content_hash: input.content_hash,
        size: input.size,
        modified_at: input.modified_at,
        filesystem_identity: input.filesystem_identity,
        deleted_at: input.deleted_at,
        created_at,
        updated_at: now,
    };
    Ok(MutationPlan { archived, replaces, file, revision, audit, outbox })
}

/// A committed mutation: what it writes, with its settled journal intent.
#[derive(Clone, Debug, PartialEq, Eq)]
pub struct CommittedMutation {
    pub plan: MutationPlan,
    pub journal: JournalRecord,
}

/// What settling a staged mutation comes to for an answer of the hook: the
/// journal must hold the completed filesystem phase.
pub open spec fn settlement(
    vault: Seq<char>,
    operation_id: Seq<char>,
    plan: MutationPlan,
    journal: Option<JournalRecord>,
    inserted: Result<(), StateError>,
    now: i64,
) -> Result<CommittedMutation, StateError> {
    match inserted {
        Err(error) => Err(error),
        Ok(()) => if in_state(journal, vault, operation_id, JournalState::FileCommitted) {
            Ok(
                CommittedMutation {
                    plan,
                    journal: JournalRecord {
                        state: JournalState::MetadataCommitted,
                        updated_at: now,
                        error: None,
                        ..journal->0
                    },
                },
            )
        } else {
            invalid("journal is not file-committed")
        },
    }
}

/// Settle a staged mutation once the hook has answered for the inserted rows.
pub fn settle_mutation(
    context: &VaultContext,
    operation_id: &Id,
    plan: MutationPlan,
    journal: Option<JournalRecord>,
    inserted: Result<(), StateError>,
    now: i64,
) -> (r: Result<CommittedMutation, StateError>)
    ensures
        r == settlement(context.id@, operation_id@, plan, journal, inserted, now),
{
    match inserted {
        Ok(()) => {},
        Err(error) => return Err(error),
    }
    match journal {
        Some(journal) if journal.is_intent(&context.id, operation_id) && journal.state
            == JournalState::FileCommitted => Ok(
            CommittedMutation {
                plan,
                journal: JournalRecord {
                    state: JournalState::MetadataCommitted,
                    updated_at: now,
                    error: None,
                    ..journal
                },
            },
        ),
        _ => Err(StateError::InvalidInput("journal is not file-committed")),
    }
}

/// Whether a hook may answer a phase in this way.
pub open spec fn answers<H: CommitHook>(
    hook: &H,
    phase: CommitHookPhase,
    answer: Result<(), StateError>,
) -> bool {
    call_ensures(H::on_phase, (hook, phase), answer)
}

/// Puts a phase to a hook; what comes back is an answer that it may give.
fn ask<H, F: Fn(&H, CommitHookPhase) -> Result<(), StateError>>(
    answer: F,
    hook: &H,
    phase: CommitHookPhase,
) -> (r: Result<(), StateError>)
    requires
        answer.requires((hook, phase)),
    ensures
        answer.ensures((hook, phase), r),
{
    answer(hook, phase)
}

/// Atomically update file identity and revision and insert audit and outbox
/// facts. The hook is asked when the transaction starts and again when all
/// rows are staged; it can only stop the commit.
pub fn commit_mutation<H: CommitHook>(
    context: &VaultContext,
    input: CommitMutationInput,
    lookup: CommitLookup,
    journal: Option<JournalRecord>,
    minted: MintedIds,
    hook: &H,
    now: i64,
) -> (r: Result<CommittedMutation, StateError>)
    requires
        minted.event_ids@.len() == input.outbox_events@.len(),
    ensures
        exists|started: Result<(), StateError>|
            {
                &&& #[trigger] answers(
                    hook,
                    CommitHookPhase::MetadataTransactionStarted,
                    started,
                )
                &&& match (started, input.refusal(lookup)) {
                    (Err(error), _) => r == Err::<CommittedMutation, StateError>(error),
                    (Ok(()), Some(error)) => r == Err::<CommittedMutation, StateError>(error),
                    (Ok(()), None) => exists|inserted: Result<(), StateError>, plan: MutationPlan|
                        {
                            &&& #[trigger] answers(hook, CommitHookPhase::OutboxInserted, inserted)
                            &&& #[trigger] plans(
                                *context,
                                input,
                                lookup,
                                current_record(lookup)->Ok_0,
                                minted,
                                now,
                                plan,
                            )
                            &&& r == settlement(
                                context.id@,
                                input.operation_id@,
                                plan,
                                journal,
                                inserted,
                                now,
                            )
                        },
                }
            },
{
    let started = ask(H::on_phase, hook, CommitHookPhase::MetadataTransactionStarted);
    assert(answers(hook, CommitHookPhase::MetadataTransactionStarted, started));
    match started {
        Ok(()) => {},
        Err(error) => return Err(error),
    }
    let operation_id = input.operation_id.duplicate();
    let plan = match stage_mutation(context, input, lookup, minted, now) {
        Ok(plan) => plan,
        Err(error) => return Err(error),
    };
    let inserted = ask(H::on_phase, hook, CommitHookPhase::OutboxInserted);
    assert(answers(hook, CommitHookPhase::OutboxInserted, inserted));
    settle_mutation(context, &operation_id, plan, journal, inserted, now)
}

/// What the caller of a commit gets back.
pub fn commit_result(plan: MutationPlan) -> (r: MutationCommitResult)
    ensures
        r == (MutationCommitResult { file: plan.file, revision: plan.revision }),
{
    MutationCommitResult { file: plan.file, revision: plan.revision }
}

/// A commit moves a file exactly one revision up, from one on.
pub proof fn law_commit_advances_by_one(
    context: VaultContext,
    input: CommitMutationInput,
    lookup: CommitLookup,
    current: Option<FileRecord>,
    minted: MintedIds,
    now: i64,
    plan: MutationPlan,
)
    requires
        current_record(lookup) == Ok::<Option<FileRecord>, StateError>(current),
        input.refusal(lookup) is None,
        plans(context, input, lookup, current, minted, now, plan),
    ensures
        plan.file.current_revision == plan.revision.revision,
        plan.file.current_revision.value == match current {
            Some(record) => record.current_revision.value + 1,
            None => 1,
        },
{
}

/// A writer whose expected revision is not the stored one never commits: the
/// conflict is reported and nothing is overwritten.
pub proof fn law_stale_writer_is_refused(
    input: CommitMutationInput,
    lookup: CommitLookup,
    current: FileRecord,
    expected: Revision,
)
    requires
        current_record(lookup) == Ok::<Option<FileRecord>, StateError>(Some(current)),
        input.expected_revision == Some(expected),
        expected != current.current_revision,
    ensures
        input.refusal(lookup) is Some,
        input.destination_refusal(lookup) is None && (current.active() || input.operation
            == FileOperation::Restore) ==> input.refusal(lookup) == Some(
            StateError::InvalidDomain(
                DomainError::RevisionConflict { expected, current: current.current_revision },
            ),
        ),
{
}

/// A deleted entry is only brought back by a restore.
pub proof fn law_tombstones_need_restore(
    input: CommitMutationInput,
    lookup: CommitLookup,
    current: FileRecord,
)
    requires
        current_record(lookup) == Ok::<Option<FileRecord>, StateError>(Some(current)),
        !current.active(),
        input.expected_revision is Some,
        input.operation != FileOperation::Restore,
    ensures
        input.refusal(lookup) is Some,
{
}

/// Everything that a commit writes belongs to the vault that it is bound to.
pub proof fn law_commit_stays_in_vault(
    context: VaultContext,
    input: CommitMutationInput,
    lookup: CommitLookup,
    current: Option<FileRecord>,
    minted: MintedIds,
    now: i64,
    plan: MutationPlan,
)
    requires
        plans(context, input, lookup, current, minted, now, plan),
    ensures
        plan.file.vault_id == context.id,
        plan.revision.vault_id == context.id,
        plan.audit.vault_id == Some(context.id),
        forall|i: int|
            0 <= i < plan.outbox@.len() ==> (#[trigger] plan.outbox@[i]).vault_id == Some(
                context.id,
            ),
{
}

/// File rows of one vault by identity.
pub open spec fn paths_unique(rows: Map<Seq<char>, Seq<char>>) -> bool {
    forall|a: Seq<char>, b: Seq<char>|
        #![trigger rows[a], rows[b]]
        rows.dom().contains(a) && rows.dom().contains(b) && rows[a] == rows[b] ==> a == b
}

/// Paths of a vault's rows after a commit.
pub open spec fn paths_after(rows: Map<Seq<char>, Seq<char>>, plan: MutationPlan) -> Map<
    Seq<char>,
    Seq<char>,
> {
    let cleared = match plan.archived {
        Some(archived) => rows.insert(archived.id@, archived.path@),
        None => rows,
    };
    cleared.insert(plan.file.id@, plan.file.path@)
}

/// A commit never puts two entries of a vault at one path, and it changes no
/// entry but the committed one and the archived tombstone. The live entry of
/// another file at the resulting path is ruled out by asking for an absent
/// destination.
pub proof fn law_commit_keeps_paths_unique(
    context: VaultContext,
    input: CommitMutationInput,
    lookup: CommitLookup,
    current: Option<FileRecord>,
    minted: MintedIds,
    now: i64,
    plan: MutationPlan,
    rows: Map<Seq<char>, Seq<char>>,
)
    requires
        paths_unique(rows),
        current_record(lookup) == Ok::<Option<FileRecord>, StateError>(current),
        input.refusal(lookup) is None,
        plans(context, input, lookup, current, minted, now, plan),
        lookup.destination matches Some(row) ==> rows.dom().contains(row.id@) && rows[row.id@]
            == input.path@,
        lookup.destination is None ==> !rows.contains_value(input.path@),
        input.tombstone_archive_path is Some ==> (lookup.archive_occupied <==> rows.contains_value(
            input.tombstone_archive_path->0@,
        )),
        input.require_absent || !lookup.occupied(input.file_id@),
    ensures
        paths_unique(paths_after(rows, plan)),
        forall|id: Seq<char>|
            rows.dom().contains(id) && id != plan.file.id@ && (plan.archived is Some ==> id
                != plan.archived->0.id@) ==> #[trigger] paths_after(rows, plan)[id] == rows[id],
{
    let after = paths_after(rows, plan);
    let path = input.path@;
    assert forall|id: Seq<char>| #[trigger] rows.dom().contains(id) && rows[id] == path implies
        lookup.destination is Some && lookup.destination->0.id@ == id by {
        if lookup.destination is None {
            assert(rows.contains_value(path));
        } else {
            assert(rows[lookup.destination->0.id@] == rows[id]);
        }
    }
    assert forall|a: Seq<char>, b: Seq<char>|
        #![trigger after[a], after[b]]
        after.dom().contains(a) && after.dom().contains(b) && after[a] == after[b] implies a
        == b by {
        if a != b {
            let file = plan.file.id@;
            if plan.archived is Some {
                let tomb = plan.archived->0.id@;
                let archive = plan.archived->0.path@;
                assert(rows[tomb] == path);
                assert(!rows.contains_value(archive));
                assert(archive != path) by {
                    assert(rows.contains_value(path));
                }
                if a == file && b != tomb {
                    assert(rows.dom().contains(b));
                    assert(rows[b] == path);
                } else if b == file && a != tomb {
                    assert(rows.dom().contains(a));
                    assert(rows[a] == path);
                } else if a == tomb && b != file {
                    assert(rows.dom().contains(b));
                    assert(rows.contains_value(archive));
                } else if b == tomb && a != file {
                    assert(rows.dom().contains(a));
                    assert(rows.contains_value(archive));
                } else if a != file && b != file {
                    assert(rows[a] == rows[b]);
                }
            } else {
                if a == file {
                    assert(rows.dom().contains(b));
                    assert(rows[b] == path);
                } else if b == file {
                    assert(rows.dom().contains(a));
                    assert(rows[a] == path);
                } else {
                    assert(rows[a] == rows[b]);
                }
            }
        }
    }
}

/// A request that was prepared under a fresh key is in flight until it is
/// committed.
pub proof fn law_prepared_request_is_in_flight(
    journals: Seq<JournalRecord>,
    revisions: Seq<FileRevisionRecord>,
    files: Seq<FileRecord>,
    journal: JournalRecord,
    key: Seq<char>,
)
    requires
        optional_text(journal.idempotency_key) == Some(key),
        keyed_journal(journals, journal.vault_id@, key) is None,
        keyed_revision(revisions, journal.vault_id@, key) is None,
    ensures
        request_state(journals.push(journal), revisions, files, journal.vault_id@, key) == Ok::<
            Option<IdempotencyLookup>,
            StateError,
        >(
            Some(
                IdempotencyLookup::InFlight {
                    operation_id: journal.id,
                    state: journal.state,
                    payload: journal.payload,
                },
            ),
        ),
{
    assert(journals.push(journal).drop_last() =~= journals);
}

/// A committed request is recognized by its key: what comes back is the file
/// and the revision that the commit wrote.
pub proof fn law_committed_request_is_recognized(
    context: VaultContext,
    input: CommitMutationInput,
    lookup: CommitLookup,
    current: Option<FileRecord>,
    minted: MintedIds,
    now: i64,
    plan: MutationPlan,
    journals: Seq<JournalRecord>,
    revisions: Seq<FileRevisionRecord>,
    files: Seq<FileRecord>,
    journal: JournalRecord,
    key: Seq<char>,
)
    requires
        plans(context, input, lookup, current, minted, now, plan),
        optional_text(input.idempotency_key) == Some(key),
        keyed_journal(journals, context.id@, key) == Some(journal),
        keyed_revision(revisions, context.id@, key) is None,
        entry_of(files, context.id@, plan.file.id@) == Some(plan.file),
    ensures
        request_state(journals, revisions.push(plan.revision), files, context.id@, key) == Ok::<
            Option<IdempotencyLookup>,
            StateError,
        >(
            Some(
                IdempotencyLookup::Committed {
                    payload: journal.payload,
                    file: plan.file,
                    revision: plan.revision,
                },
            ),
        ),
{
    assert(revisions.push(plan.revision).drop_last() =~= revisions);
}

/// Settling an intent is final: whatever it was settled as, it can be settled
/// neither again nor otherwise.
pub proof fn law_settled_journal_rests(
    before: JournalRecord,
    after: JournalRecord,
    state: JournalState,
    error: Option<Seq<char>>,
    now: i64,
)
    requires
        settled_as(before, after, state, error, now),
        state == JournalState::RolledBack || state == JournalState::NeedsReview || state
            == JournalState::MetadataCommitted,
    ensures
        !after.state.incomplete(),
        after.id == before.id,
{
}

} // verus!
