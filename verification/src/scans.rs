//! Resumable scan checkpoints of one vault.

use vstd::prelude::*;

use crate::background::{to_i64, to_u64, validate_error, validate_scan_label, MAX_ERROR_BYTES};
use crate::domain::{path_of, stored_path, Id, VaultContext, VaultPath};
use crate::error::{invalid, StateError};
use crate::text::{label_ok, optional_text, str_text, text_eq};

pub mod laws;

verus! {

/// Durable scan lifecycle.
#[derive(Clone, Copy, Debug, PartialEq, Eq, Structural)]
pub enum ScanStatus {
    /// A generation is running.
    Running,
    /// The generation completed a full pass.
    Completed,
    /// The generation stopped with an error.
    Failed,
    /// The generation was cancelled.
    Cancelled,
}

impl ScanStatus {
    /// Stable database label.
    pub open spec fn label(self) -> Seq<char> {
        match self {
            ScanStatus::Running => "running"@,
            ScanStatus::Completed => "completed"@,
            ScanStatus::Failed => "failed"@,
            ScanStatus::Cancelled => "cancelled"@,
        }
    }

    /// The status that a label names, if any.
    pub open spec fn named(label: Seq<char>) -> Option<ScanStatus> {
        if label == "running"@ {
            Some(ScanStatus::Running)
        } else if label == "completed"@ {
            Some(ScanStatus::Completed)
        } else if label == "failed"@ {
            Some(ScanStatus::Failed)
        } else if label == "cancelled"@ {
            Some(ScanStatus::Cancelled)
        } else {
            None
        }
    }

    /// Stable database label.
    pub fn as_str(self) -> (label: &'static str)
        ensures
            label@ == self.label(),
    {
        match self {
            ScanStatus::Running => "running",
            ScanStatus::Completed => "completed",
            ScanStatus::Failed => "failed",
            ScanStatus::Cancelled => "cancelled",
        }
    }

    /// Reads a stored label.
    pub fn parse(value: &str) -> (r: Result<ScanStatus, StateError>)
        ensures
            r == (match ScanStatus::named(value@) {
                Some(status) => Ok::<ScanStatus, StateError>(status),
                None => invalid("stored scan status is invalid"),
            }),
    {
        if text_eq(value, "running") {
            Ok(ScanStatus::Running)
        } else if text_eq(value, "completed") {
            Ok(ScanStatus::Completed)
        } else if text_eq(value, "failed") {
            Ok(ScanStatus::Failed)
        } else if text_eq(value, "cancelled") {
            Ok(ScanStatus::Cancelled)
        } else {
            Err(StateError::InvalidInput("stored scan status is invalid"))
        }
    }
}

/// A stored status reads back as it was written.
pub proof fn law_scan_status_round_trip(status: ScanStatus)
    ensures
        ScanStatus::named(status.label()) == Some(status),
{
    reveal_strlit("running");
    reveal_strlit("completed");
    reveal_strlit("failed");
    reveal_strlit("cancelled");
    assert("running"@[0] != "completed"@[0]);
    assert("running"@[0] != "failed"@[0]);
    assert("running"@[0] != "cancelled"@[0]);
    assert("completed"@[0] != "failed"@[0]);
    assert("completed"@[1] != "cancelled"@[1]);
    assert("failed"@[0] != "cancelled"@[0]);
}

/// Resumable per-vault scan checkpoint.
#[derive(Clone, Debug, PartialEq, Eq)]
pub struct ScanCheckpointRecord {
    /// Stable checkpoint row identity.
    pub id: Id,
    /// Isolation boundary.
    pub vault_id: Id,
    /// Scan category, e.g. `initial` or `reconciliation`.
    pub scan_type: String,
    /// Generation used to reject stale progress updates.
    pub generation: String,
    /// Last safely observed relative path.
    pub cursor_path: Option<VaultPath>,
    /// Lifecycle status.
    pub status: ScanStatus,
    /// Total entries observed.
    pub entries_seen: u64,
    /// Files observed.
    pub files_seen: u64,
    /// Directories observed.
    pub directories_seen: u64,
    /// External changes imported.
    pub changes_imported: u64,
    /// Unsafe, reserved or invalid entries skipped by the scanner.
    pub unsafe_entries_skipped: u64,
    /// Whether missing-file deletion inference was suppressed.
    pub missing_deletes_skipped: bool,
    /// Last redacted error.
    pub last_error: Option<String>,
    /// Start timestamp.
    pub started_at: i64,
    /// Last update timestamp.
    pub updated_at: i64,
    /// Completion timestamp.
    pub completed_at: Option<i64>,
}

/// A checkpoint as stored.
#[derive(Clone, Debug, PartialEq, Eq)]
pub struct ScanCheckpointRow {
    pub id: String,
    pub vault_id: String,
    pub scan_type: String,
    pub generation: String,
    pub cursor_path: Option<String>,
    pub status: String,
    pub entries_seen: i64,
    pub files_seen: i64,
    pub directories_seen: i64,
    pub changes_imported: i64,
    pub unsafe_entries_skipped: i64,
    pub missing_deletes_skipped: i64,
    pub last_error: Option<String>,
    pub started_at: i64,
    pub updated_at: i64,
    pub completed_at: Option<i64>,
}

impl ScanCheckpointRow {
    /// The record that the row holds, or why it cannot be read.
    pub open spec fn decoded(self) -> Result<ScanCheckpointRecord, StateError> {
        match ScanStatus::named(self.status@) {
            None => invalid("stored scan status is invalid"),
            Some(status) => if self.entries_seen < 0 {
                invalid("entries_seen")
            } else if self.files_seen < 0 {
                invalid("files_seen")
            } else if self.directories_seen < 0 {
                invalid("directories_seen")
            } else if self.changes_imported < 0 {
                invalid("changes_imported")
            } else if self.unsafe_entries_skipped < 0 {
                invalid("unsafe_entries_skipped")
            } else {
                Ok(
                    ScanCheckpointRecord {
                        id: Id { text: self.id },
                        vault_id: Id { text: self.vault_id },
                        scan_type: self.scan_type,
                        generation: self.generation,
                        cursor_path: path_of(self.cursor_path),
                        status,
                        entries_seen: self.entries_seen as u64,
                        files_seen: self.files_seen as u64,
                        directories_seen: self.directories_seen as u64,
                        changes_imported: self.changes_imported as u64,
                        unsafe_entries_skipped: self.unsafe_entries_skipped as u64,
                        missing_deletes_skipped: self.missing_deletes_skipped != 0,
                        last_error: self.last_error,
                        started_at: self.started_at,
                        updated_at: self.updated_at,
                        completed_at: self.completed_at,
                    },
                )
            },
        }
    }
}

/// Reads a stored checkpoint.
pub fn row_to_checkpoint(row: ScanCheckpointRow) -> (r: Result<ScanCheckpointRecord, StateError>)
    ensures
        r == row.decoded(),
{
    let status = match ScanStatus::parse(row.status.as_str()) {
        Ok(status) => status,
        Err(error) => return Err(error),
    };
    let entries_seen: u64 = match to_u64(row.entries_seen, "entries_seen") {
        Ok(value) => value,
        Err(error) => return Err(error),
    };
    let files_seen: u64 = match to_u64(row.files_seen, "files_seen") {
        Ok(value) => value,
        Err(error) => return Err(error),
    };
    let directories_seen: u64 = match to_u64(row.directories_seen, "directories_seen") {
        Ok(value) => value,
        Err(error) => return Err(error),
    };
    let changes_imported: u64 = match to_u64(row.changes_imported, "changes_imported") {
        Ok(value) => value,
        Err(error) => return Err(error),
    };
    let unsafe_entries_skipped: u64 = match to_u64(
        row.unsafe_entries_skipped,
        "unsafe_entries_skipped",
    ) {
        Ok(value) => value,
        Err(error) => return Err(error),
    };
    Ok(
        ScanCheckpointRecord {
            id: Id { text: row.id },
            vault_id: Id { text: row.vault_id },
            scan_type: row.scan_type,
            generation: row.generation,
            cursor_path: stored_path(row.cursor_path),
            status,
            entries_seen,
            files_seen,
            directories_seen,
            changes_imported,
            unsafe_entries_skipped,
            missing_deletes_skipped: row.missing_deletes_skipped != 0,
            last_error: row.last_error,
            started_at: row.started_at,
            updated_at: row.updated_at,
            completed_at: row.completed_at,
        },
    )
}

impl ScanCheckpointRecord {
    /// Whether the checkpoint runs the generation of the vault's scan.
    pub open spec fn runs(
        self,
        vault: Seq<char>,
        scan_type: Seq<char>,
        generation: Seq<char>,
    ) -> bool {
        &&& self.vault_id@ == vault
        &&& self.scan_type@ == scan_type
        &&& self.generation@ == generation
        &&& self.status == ScanStatus::Running
    }

    /// Whether this is a new generation with nothing observed yet.
    pub open spec fn fresh(
        self,
        id: Id,
        vault: Seq<char>,
        scan_type: Seq<char>,
        generation: Seq<char>,
        now: i64,
    ) -> bool {
        &&& self.vault_id@ == vault
        &&& self.scan_type@ == scan_type
        &&& self.generation@ == generation
        &&& self == ScanCheckpointRecord {
            id,
            vault_id: self.vault_id,
            scan_type: self.scan_type,
            generation: self.generation,
            cursor_path: None,
            status: ScanStatus::Running,
            entries_seen: 0,
            files_seen: 0,
            directories_seen: 0,
            changes_imported: 0,
            unsafe_entries_skipped: 0,
            missing_deletes_skipped: false,
            last_error: None,
            started_at: now,
            updated_at: now,
            completed_at: None,
        }
    }

    fn is_running(&self, vault: &Id, scan_type: &str, generation: &str) -> (r: bool)
        ensures
            r == self.runs(vault@, scan_type@, generation@),
    {
        self.vault_id.same(vault) && text_eq(self.scan_type.as_str(), scan_type) && text_eq(
            self.generation.as_str(),
            generation,
        ) && self.status == ScanStatus::Running
    }
}

/// Start a new generation, replacing any prior checkpoint for this scan type
/// while preserving the row identity. `id` is a fresh identity.
pub fn start(
    context: &VaultContext,
    existing: Option<ScanCheckpointRecord>,
    id: Id,
    scan_type: &str,
    generation: &str,
    now: i64,
) -> (r: Result<ScanCheckpointRecord, StateError>)
    ensures
        if !label_ok(scan_type@, 128) || !label_ok(generation@, 128) {
            r == invalid::<ScanCheckpointRecord>("scan label is invalid")
        } else {
            r matches Ok(record) && record.fresh(
                match existing {
                    Some(existing) if existing.vault_id@ == context.id@ && existing.scan_type@
                        == scan_type@ => existing.id,
                    _ => id,
                },
                context.id@,
                scan_type@,
                generation@,
                now,
            )
        },
{
    match validate_scan_label(scan_type) {
        Ok(()) => {},
        Err(error) => return Err(error),
    }
    match validate_scan_label(generation) {
        Ok(()) => {},
        Err(error) => return Err(error),
    }
    let id = match existing {
        Some(existing) if existing.vault_id.same(&context.id) && text_eq(
            existing.scan_type.as_str(),
            scan_type,
        ) => existing.id,
        _ => id,
    };
    Ok(
        ScanCheckpointRecord {
            id,
            vault_id: context.id.duplicate(),
            scan_type: scan_type.to_owned(),
            generation: generation.to_owned(),
            cursor_path: None,
            status: ScanStatus::Running,
            entries_seen: 0,
            files_seen: 0,
            directories_seen: 0,
            changes_imported: 0,
            unsafe_entries_skipped: 0,
            missing_deletes_skipped: false,
            last_error: None,
            started_at: now,
            updated_at: now,
            completed_at: None,
        },
    )
}

/// Observed progress of a scan.
#[derive(Clone, Debug, PartialEq, Eq)]
pub struct ScanProgress {
    pub cursor_path: Option<VaultPath>,
    pub entries_seen: u64,
    pub files_seen: u64,
    pub directories_seen: u64,
    pub changes_imported: u64,
    pub unsafe_entries_skipped: u64,
    pub missing_deletes_skipped: bool,
}

impl ScanProgress {
    /// The first counter that cannot be stored, if any.
    pub open spec fn overflow(self) -> Option<StateError> {
        if self.entries_seen > i64::MAX {
            Some(StateError::InvalidInput("entries_seen"))
        } else if self.files_seen > i64::MAX {
            Some(StateError::InvalidInput("files_seen"))
        } else if self.directories_seen > i64::MAX {
            Some(StateError::InvalidInput("directories_seen"))
        } else if self.changes_imported > i64::MAX {
            Some(StateError::InvalidInput("changes_imported"))
        } else if self.unsafe_entries_skipped > i64::MAX {
            Some(StateError::InvalidInput("unsafe_entries_skipped"))
        } else {
            None
        }
    }

    fn check(&self) -> (r: Result<(), StateError>)
        ensures
            match self.overflow() {
                Some(error) => r == Err::<(), StateError>(error),
                None => r == Ok::<(), StateError>(()),
            },
    {
        match to_i64(self.entries_seen, "entries_seen") {
            Ok(_) => {},
            Err(error) => return Err(error),
        }
        match to_i64(self.files_seen, "files_seen") {
            Ok(_) => {},
            Err(error) => return Err(error),
        }
        match to_i64(self.directories_seen, "directories_seen") {
            Ok(_) => {},
            Err(error) => return Err(error),
        }
        match to_i64(self.changes_imported, "changes_imported") {
            Ok(_) => {},
            Err(error) => return Err(error),
        }
        match to_i64(self.unsafe_entries_skipped, "unsafe_entries_skipped") {
            Ok(_) => Ok(()),
            Err(error) => Err(error),
        }
    }
}

/// Update only the current generation's bounded progress.
pub fn update_progress(
    context: &VaultContext,
    checkpoint: Option<ScanCheckpointRecord>,
    scan_type: &str,
    generation: &str,
    progress: ScanProgress,
    now: i64,
) -> (r: Result<ScanCheckpointRecord, StateError>)
    ensures
        r == (match progress.overflow() {
            Some(error) => Err::<ScanCheckpointRecord, StateError>(error),
            None => if checkpoint is Some && checkpoint->0.runs(
                context.id@,
                scan_type@,
                generation@,
            ) {
                Ok(
                    (ScanCheckpointRecord {
                        cursor_path: progress.cursor_path,
                        entries_seen: progress.entries_seen,
                        files_seen: progress.files_seen,
                        directories_seen: progress.directories_seen,
                        changes_imported: progress.changes_imported,
                        unsafe_entries_skipped: progress.unsafe_entries_skipped,
                        missing_deletes_skipped: progress.missing_deletes_skipped,
                        updated_at: now,
                        ..checkpoint->0
                    }),
                )
            } else {
                invalid("scan checkpoint generation is stale")
            },
        }),
{
    match progress.check() {
        Ok(()) => {},
        Err(error) => return Err(error),
    }
    match checkpoint {
        Some(checkpoint) if checkpoint.is_running(&context.id, scan_type, generation) => Ok(
            ScanCheckpointRecord {
                cursor_path: progress.cursor_path,
                entries_seen: progress.entries_seen,
                files_seen: progress.files_seen,
                directories_seen: progress.directories_seen,
                changes_imported: progress.changes_imported,
                unsafe_entries_skipped: progress.unsafe_entries_skipped,
                missing_deletes_skipped: progress.missing_deletes_skipped,
                updated_at: now,
                ..checkpoint
            },
        ),
        _ => Err(StateError::InvalidInput("scan checkpoint generation is stale")),
    }
}

/// Mark the current generation terminal.
pub fn finish(
    context: &VaultContext,
    checkpoint: Option<ScanCheckpointRecord>,
    scan_type: &str,
    generation: &str,
    status: ScanStatus,
    error: Option<&str>,
    now: i64,
) -> (r: Result<ScanCheckpointRecord, StateError>)
    ensures
        if error is Some && !label_ok(error->0@, MAX_ERROR_BYTES as nat) {
            r == invalid::<ScanCheckpointRecord>("worker error is invalid")
        } else if checkpoint is Some && checkpoint->0.runs(context.id@, scan_type@, generation@) {
            &&& r is Ok
            &&& optional_text(r->Ok_0.last_error) == str_text(error)
            &&& r->Ok_0 == (ScanCheckpointRecord {
                status,
                last_error: r->Ok_0.last_error,
                updated_at: now,
                completed_at: Some(now),
                ..checkpoint->0
            })
        } else {
            r == invalid::<ScanCheckpointRecord>("scan checkpoint generation is stale")
        },
{
    let last_error = match error {
        Some(error) => {
            match validate_error(error) {
                Ok(()) => {},
                Err(failure) => return Err(failure),
            }
            Some(error.to_owned())
        },
        None => None,
    };
    match checkpoint {
        Some(checkpoint) if checkpoint.is_running(&context.id, scan_type, generation) => Ok(
            ScanCheckpointRecord {
                status,
                last_error,
                updated_at: now,
                completed_at: Some(now),
                ..checkpoint
            },
        ),
        _ => Err(StateError::InvalidInput("scan checkpoint generation is stale")),
    }
}

/// Starting a new generation makes every other generation's progress stale.
pub proof fn law_new_generation_is_exclusive(
    record: ScanCheckpointRecord,
    id: Id,
    vault: Seq<char>,
    scan_type: Seq<char>,
    generation: Seq<char>,
    now: i64,
    other: Seq<char>,
)
    requires
        record.fresh(id, vault, scan_type, generation, now),
    ensures
        record.runs(vault, scan_type, generation),
        other != generation ==> !record.runs(vault, scan_type, other),
{
}

/// A finished generation takes no more progress.
pub proof fn law_finished_scan_rests(
    record: ScanCheckpointRecord,
    vault: Seq<char>,
    scan_type: Seq<char>,
    generation: Seq<char>,
)
    requires
        record.status != ScanStatus::Running,
    ensures
        !record.runs(vault, scan_type, generation),
{
}

} // verus!
