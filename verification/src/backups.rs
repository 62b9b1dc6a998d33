//! Authoritative backup catalog.

use vstd::prelude::*;

use crate::domain::Id;
use crate::error::{accepted_if, invalid, StateError};
use crate::json::{compact_json, Json};
use crate::order::{is_page, page, SortKey};
use crate::rows::{find, first_index};
use crate::text::{byte_len, bytes_of, is_label, label_ok, optional_text, owned, str_text, text_eq};

pub mod laws;

verus! {

/// Persistent lifecycle state for one service-owned backup artifact.
#[derive(Clone, Copy, Debug, PartialEq, Eq, Structural)]
pub enum BackupStatus {
    /// A durable backup job has been admitted but not started.
    Queued,
    /// The artifact is being written.
    Running,
    /// The artifact was written and passed verification.
    Completed,
    /// The artifact or verification failed without changing source state.
    Failed,
    /// An archive is being validated in private staging.
    Validating,
    /// A verified archive is being applied in maintenance mode.
    Restoring,
}

impl BackupStatus {
    /// Stable database label.
    pub open spec fn label(self) -> Seq<char> {
        match self {
            BackupStatus::Queued => "queued"@,
            BackupStatus::Running => "running"@,
            BackupStatus::Completed => "completed"@,
            BackupStatus::Failed => "failed"@,
            BackupStatus::Validating => "validating"@,
            BackupStatus::Restoring => "restoring"@,
        }
    }

    /// The variant that a label names, if any.
    pub open spec fn named(label: Seq<char>) -> Option<BackupStatus> {
        if label == "queued"@ {
            Some(BackupStatus::Queued)
        } else if label == "running"@ {
            Some(BackupStatus::Running)
        } else if label == "completed"@ {
            Some(BackupStatus::Completed)
        } else if label == "failed"@ {
            Some(BackupStatus::Failed)
        } else if label == "validating"@ {
            Some(BackupStatus::Validating)
        } else if label == "restoring"@ {
            Some(BackupStatus::Restoring)
        } else {
            None
        }
    }

    /// Stable database label.
    pub fn as_str(self) -> (label: &'static str)
        ensures
            label@ == self.label(),
    {
        match self {
            BackupStatus::Queued => "queued",
            BackupStatus::Running => "running",
            BackupStatus::Completed => "completed",
            BackupStatus::Failed => "failed",
            BackupStatus::Validating => "validating",
            BackupStatus::Restoring => "restoring",
        }
    }

    /// Reads a stored label.
    pub fn parse(value: &str) -> (r: Result<BackupStatus, StateError>)
        ensures
            r == (match BackupStatus::named(value@) {
                Some(value) => Ok::<BackupStatus, StateError>(value),
                None => invalid("stored backup status is invalid"),
            }),
    {
        if text_eq(value, "queued") {
            Ok(BackupStatus::Queued)
        } else if text_eq(value, "running") {
            Ok(BackupStatus::Running)
        } else if text_eq(value, "completed") {
            Ok(BackupStatus::Completed)
        } else if text_eq(value, "failed") {
            Ok(BackupStatus::Failed)
        } else if text_eq(value, "validating") {
            Ok(BackupStatus::Validating)
        } else if text_eq(value, "restoring") {
            Ok(BackupStatus::Restoring)
        } else {
            Err(StateError::InvalidInput("stored backup status is invalid"))
        }
    }
}

/// A stored label reads back as the value that it was written from.
pub proof fn law_backup_status_round_trip(value: BackupStatus)
    ensures
        BackupStatus::named(value.label()) == Some(value),
{
    reveal_strlit("queued");
    reveal_strlit("running");
    reveal_strlit("completed");
    reveal_strlit("failed");
    reveal_strlit("validating");
    reveal_strlit("restoring");
    assert("queued"@.len() != "running"@.len());
    assert("queued"@.len() != "completed"@.len());
    assert("queued"@[0] != "failed"@[0]);
    assert("queued"@.len() != "validating"@.len());
    assert("queued"@.len() != "restoring"@.len());
    assert("running"@.len() != "completed"@.len());
    assert("running"@.len() != "failed"@.len());
    assert("running"@.len() != "validating"@.len());
    assert("running"@.len() != "restoring"@.len());
    assert("completed"@.len() != "failed"@.len());
    assert("completed"@.len() != "validating"@.len());
    assert("completed"@[0] != "restoring"@[0]);
    assert("failed"@.len() != "validating"@.len());
    assert("failed"@.len() != "restoring"@.len());
    assert("validating"@.len() != "restoring"@.len());
}

/// Typed catalog row. The location is a service-owned path, not a user path.
#[derive(Clone, Debug, PartialEq, Eq)]
pub struct BackupRecord {
    /// Stable backup identity.
    pub id: Id,
    /// Current lifecycle state.
    pub status: BackupStatus,
    /// Service-owned artifact location.
    pub location: String,
    /// Redacted manifest after a successful creation or validation.
    pub manifest: Option<Json>,
    /// Creation or start timestamp.
    pub started_at: i64,
    /// Completion timestamp, if terminal.
    pub completed_at: Option<i64>,
    /// Successful verification timestamp.
    pub verified_at: Option<i64>,
    /// Bounded non-secret failure code or message.
    pub error: Option<String>,
    /// Non-secret initiating admin identity, when known.
    pub created_by: Option<String>,
}

/// A catalog entry as stored.
#[derive(Clone, Debug, PartialEq, Eq)]
pub struct BackupRow {
    pub id: String,
    pub status: String,
    pub location: String,
    pub manifest_json: Option<String>,
    pub started_at: i64,
    pub completed_at: Option<i64>,
    pub verified_at: Option<i64>,
    pub error: Option<String>,
    pub created_by: Option<String>,
}

impl BackupRow {
    /// Why the row cannot be read, if it cannot.
    pub open spec fn decode_error(self) -> Option<StateError> {
        if BackupStatus::named(self.status@) is None {
            Some(StateError::InvalidInput("stored backup status is invalid"))
        } else if self.manifest_json is Some && compact_json(self.manifest_json->0@) is None {
            Some(StateError::Json)
        } else {
            None
        }
    }

    /// The record that the row holds.
    pub open spec fn record(self, manifest: Option<Json>) -> BackupRecord {
        BackupRecord {
            id: Id { text: self.id },
            status: BackupStatus::named(self.status@)->0,
            location: self.location,
            manifest,
            started_at: self.started_at,
            completed_at: self.completed_at,
            verified_at: self.verified_at,
            error: self.error,
            created_by: self.created_by,
        }
    }
}

/// Reads a stored catalog entry.
pub fn row_to_record(row: BackupRow) -> (r: Result<BackupRecord, StateError>)
    ensures
        match row.decode_error() {
            Some(error) => r == Err::<BackupRecord, StateError>(error),
            None => r matches Ok(record) && record == row.record(record.manifest)
                && record.manifest is Some == row.manifest_json is Some && (record.manifest is Some
                ==> Some(record.manifest->0@) == compact_json(row.manifest_json->0@)),
        },
{
    let status = match BackupStatus::parse(row.status.as_str()) {
        Ok(status) => status,
        Err(error) => return Err(error),
    };
    let manifest = match &row.manifest_json {
        Some(text) => match Json::parse(text.as_str()) {
            Ok(manifest) => Some(manifest),
            Err(error) => return Err(error),
        },
        None => None,
    };
    Ok(
        BackupRecord {
            id: Id { text: row.id },
            status,
            location: row.location,
            manifest,
            started_at: row.started_at,
            completed_at: row.completed_at,
            verified_at: row.verified_at,
            error: row.error,
            created_by: row.created_by,
        },
    )
}

/// Checks an artifact location.
pub fn validate_location(value: &str) -> (r: Result<(), StateError>)
    ensures
        r == accepted_if(label_ok(value@, 4096), "backup location is invalid"),
{
    if !is_label(value, 4096) {
        return Err(StateError::InvalidInput("backup location is invalid"));
    }
    Ok(())
}

/// Checks an initiating admin identity.
pub fn validate_actor(value: Option<&str>) -> (r: Result<(), StateError>)
    ensures
        r == accepted_if(
            value is None || label_ok(value->0@, 256),
            "backup actor is invalid",
        ),
{
    match value {
        Some(value) if !is_label(value, 256) => Err(
            StateError::InvalidInput("backup actor is invalid"),
        ),
        _ => Ok(()),
    }
}

/// Checks a failure code.
pub fn validate_error(value: &str) -> (r: Result<(), StateError>)
    ensures
        r == accepted_if(label_ok(value@, 256), "backup error is invalid"),
{
    if !is_label(value, 256) {
        return Err(StateError::InvalidInput("backup error is invalid"));
    }
    Ok(())
}

/// Checks the encoded size of a manifest.
pub fn bounded_json(value: &Json) -> (r: Result<(), StateError>)
    ensures
        r == accepted_if(byte_len(value@) <= 1048576, "backup manifest is too large"),
{
    if bytes_of(value.as_str()) > 1048576 {
        return Err(StateError::InvalidInput("backup manifest is too large"));
    }
    Ok(())
}

/// Insert a queued operation with bounded service-owned metadata.
pub fn insert_queued(id: Id, location: &str, created_by: Option<&str>, now: i64) -> (r: Result<
    BackupRecord,
    StateError,
>)
    ensures
        if !label_ok(location@, 4096) {
            r == invalid::<BackupRecord>("backup location is invalid")
        } else if created_by is Some && !label_ok(created_by->0@, 256) {
            r == invalid::<BackupRecord>("backup actor is invalid")
        } else {
            &&& r is Ok
            &&& r->Ok_0.location@ == location@
            &&& optional_text(r->Ok_0.created_by) == str_text(created_by)
            &&& r->Ok_0 == (BackupRecord {
                id,
                status: BackupStatus::Queued,
                location: r->Ok_0.location,
                manifest: None,
                started_at: now,
                completed_at: None,
                verified_at: None,
                error: None,
                created_by: r->Ok_0.created_by,
            })
        },
{
    match validate_location(location) {
        Ok(()) => {},
        Err(error) => return Err(error),
    }
    match validate_actor(created_by) {
        Ok(()) => {},
        Err(error) => return Err(error),
    }
    Ok(
        BackupRecord {
            id,
            status: BackupStatus::Queued,
            location: location.to_owned(),
            manifest: None,
            started_at: now,
            completed_at: None,
            verified_at: None,
            error: None,
            created_by: owned(created_by),
        },
    )
}

impl BackupStatus {
    /// Whether work on the artifact is going on.
    pub open spec fn active(self) -> bool {
        self != BackupStatus::Completed && self != BackupStatus::Failed
    }

    /// Whether the artifact may enter validation.
    pub open spec fn may_validate(self) -> bool {
        self == BackupStatus::Queued || self == BackupStatus::Failed
    }

    /// Whether the artifact may enter restore application.
    pub open spec fn may_restore(self) -> bool {
        self == BackupStatus::Validating || self == BackupStatus::Completed || self
            == BackupStatus::Running || self == BackupStatus::Restoring
    }

    /// Whether a transition leads from this status to another one.
    pub open spec fn follows(self, next: BackupStatus) -> bool {
        match next {
            BackupStatus::Queued => false,
            BackupStatus::Running => self == BackupStatus::Queued,
            BackupStatus::Completed => self == BackupStatus::Running || self
                == BackupStatus::Completed,
            BackupStatus::Failed => self.active(),
            BackupStatus::Validating => self.may_validate(),
            BackupStatus::Restoring => self.may_restore(),
        }
    }
}

/// Transition a queued backup to running.
pub fn mark_running(backup: Option<BackupRecord>, now: i64) -> (r: Result<BackupRecord, StateError>)
    ensures
        r is Ok ==> backup is Some && backup->0.status.follows(r->Ok_0.status),
        r == (if backup is Some && backup->0.status == BackupStatus::Queued {
            Ok::<BackupRecord, StateError>(
                (BackupRecord {
                    status: BackupStatus::Running,
                    started_at: now,
                    error: None,
                    ..backup->0
                }),
            )
        } else {
            invalid("backup is not queued")
        }),
{
    match backup {
        Some(backup) if backup.status == BackupStatus::Queued => Ok(
            BackupRecord {
                status: BackupStatus::Running,
                started_at: now,
                error: None,
                ..backup
            },
        ),
        _ => Err(StateError::InvalidInput("backup is not queued")),
    }
}

/// Mark a successfully created and verified artifact.
pub fn mark_completed(backup: Option<BackupRecord>, manifest: Json, verified_at: i64, now: i64) -> (r: Result<
    BackupRecord,
    StateError,
>)
    ensures
        r is Ok ==> backup is Some && backup->0.status.follows(r->Ok_0.status),
        r == (if byte_len(manifest@) > 1048576 {
            invalid("backup manifest is too large")
        } else if backup is Some && backup->0.status == BackupStatus::Running {
            Ok::<BackupRecord, StateError>(
                (BackupRecord {
                    status: BackupStatus::Completed,
                    manifest: Some(manifest),
                    completed_at: Some(now),
                    verified_at: Some(verified_at),
                    error: None,
                    ..backup->0
                }),
            )
        } else {
            invalid("backup is not running")
        }),
{
    match bounded_json(&manifest) {
        Ok(()) => {},
        Err(error) => return Err(error),
    }
    match backup {
        Some(backup) if backup.status == BackupStatus::Running => Ok(
            BackupRecord {
                status: BackupStatus::Completed,
                manifest: Some(manifest),
                completed_at: Some(now),
                verified_at: Some(verified_at),
                error: None,
                ..backup
            },
        ),
        _ => Err(StateError::InvalidInput("backup is not running")),
    }
}

/// Record a later successful verification without changing the artifact
/// lifecycle state.
pub fn mark_verified(backup: Option<BackupRecord>, manifest: Json, now: i64) -> (r: Result<
    BackupRecord,
    StateError,
>)
    ensures
        r is Ok ==> backup is Some && backup->0.status.follows(r->Ok_0.status),
        r == (if byte_len(manifest@) > 1048576 {
            invalid("backup manifest is too large")
        } else if backup is Some && backup->0.status == BackupStatus::Completed {
            Ok::<BackupRecord, StateError>(
                (BackupRecord {
                    manifest: Some(manifest),
                    verified_at: Some(now),
                    error: None,
                    ..backup->0
                }),
            )
        } else {
            invalid("backup is not completed")
        }),
{
    match bounded_json(&manifest) {
        Ok(()) => {},
        Err(error) => return Err(error),
    }
    match backup {
        Some(backup) if backup.status == BackupStatus::Completed => Ok(
            BackupRecord {
                manifest: Some(manifest),
                verified_at: Some(now),
                error: None,
                ..backup
            },
        ),
        _ => Err(StateError::InvalidInput("backup is not completed")),
    }
}

/// Mark an operation as failed with a redacted bounded code.
pub fn mark_failed(backup: Option<BackupRecord>, error: &str, now: i64) -> (r: Result<
    BackupRecord,
    StateError,
>)
    ensures
        r is Ok ==> backup is Some && backup->0.status.follows(r->Ok_0.status),
        if !label_ok(error@, 256) {
            r == invalid::<BackupRecord>("backup error is invalid")
        } else if backup is Some && backup->0.status.active() {
            &&& r is Ok
            &&& optional_text(r->Ok_0.error) == Some(error@)
            &&& r->Ok_0 == (BackupRecord {
                status: BackupStatus::Failed,
                completed_at: Some(now),
                error: r->Ok_0.error,
                ..backup->0
            })
        } else {
            r == invalid::<BackupRecord>("backup is not active")
        },
{
    match validate_error(error) {
        Ok(()) => {},
        Err(failure) => return Err(failure),
    }
    match backup {
        Some(backup) if backup.status != BackupStatus::Completed && backup.status
            != BackupStatus::Failed => Ok(
            BackupRecord {
                status: BackupStatus::Failed,
                completed_at: Some(now),
                error: Some(error.to_owned()),
                ..backup
            },
        ),
        _ => Err(StateError::InvalidInput("backup is not active")),
    }
}

/// Mark a catalog row as entering archive validation.
pub fn mark_validating(backup: Option<BackupRecord>) -> (r: Result<BackupRecord, StateError>)
    ensures
        r is Ok ==> backup is Some && backup->0.status.follows(r->Ok_0.status),
        r == (if backup is Some && backup->0.status.may_validate() {
            Ok::<BackupRecord, StateError>(
                (BackupRecord { status: BackupStatus::Validating, error: None, ..backup->0 }),
            )
        } else {
            invalid("backup transition is invalid")
        }),
{
    match backup {
        Some(backup) if backup.status == BackupStatus::Queued || backup.status
            == BackupStatus::Failed => Ok(
            BackupRecord { status: BackupStatus::Validating, error: None, ..backup },
        ),
        _ => Err(StateError::InvalidInput("backup transition is invalid")),
    }
}

/// Mark a catalog row as entering restore application.
pub fn mark_restoring(backup: Option<BackupRecord>) -> (r: Result<BackupRecord, StateError>)
    ensures
        r is Ok ==> backup is Some && backup->0.status.follows(r->Ok_0.status),
        r == (if backup is Some && backup->0.status.may_restore() {
            Ok::<BackupRecord, StateError>(
                (BackupRecord { status: BackupStatus::Restoring, error: None, ..backup->0 }),
            )
        } else {
            invalid("backup transition is invalid")
        }),
{
    match backup {
        Some(backup) if backup.status == BackupStatus::Validating || backup.status
            == BackupStatus::Completed || backup.status == BackupStatus::Running || backup.status
            == BackupStatus::Restoring => Ok(
            BackupRecord { status: BackupStatus::Restoring, error: None, ..backup },
        ),
        _ => Err(StateError::InvalidInput("backup transition is invalid")),
    }
}

/// Allow the deletion of a failed or completed catalog row after its artifact
/// is removed.
pub fn delete(backup: Option<BackupRecord>) -> (r: Result<Id, StateError>)
    ensures
        r == (if backup is Some && !backup->0.status.active() {
            Ok::<Id, StateError>(backup->0.id)
        } else {
            invalid("backup is not deletable")
        }),
{
    match backup {
        Some(backup) if backup.status == BackupStatus::Failed || backup.status
            == BackupStatus::Completed => Ok(backup.id),
        _ => Err(StateError::InvalidInput("backup is not deletable")),
    }
}

/// Keys of catalog rows, in order.
pub open spec fn backup_keys(backups: Seq<BackupRecord>) -> Seq<SortKey> {
    backups.map_values(
        |backup: BackupRecord|
            SortKey { first: backup.started_at as i128, second: 0, third: 0, id: backup.id.text },
    )
}

/// The catalog row with an identity: its position.
pub fn get(backups: &[BackupRecord], id: &Id) -> (r: Option<usize>)
    ensures
        match r {
            Some(i) => i < backups@.len() && first_index(
                backups@,
                |row: BackupRecord| row.id@ == id@,
            ) == Some(i as int),
            None => first_index(backups@, |row: BackupRecord| row.id@ == id@) is None,
        },
{
    let accepts = |row: &BackupRecord| -> (yes: bool)
        ensures
            yes == (row.id@ == id@),
        { row.id.same(id) };
    find(backups, accepts, Ghost(|row: BackupRecord| row.id@ == id@))
}

/// List catalog rows in deterministic newest-first order: the positions of one
/// page.
pub fn list(backups: &[BackupRecord], limit: u32, offset: u32) -> (r: Result<
    Vec<usize>,
    StateError,
>)
    ensures
        if !(1 <= limit <= 200 && offset <= 1_000_000) {
            r == invalid::<Vec<usize>>("backup page is invalid")
        } else {
            r matches Ok(picked) && is_page(
                backup_keys(backups@),
                Seq::new(backups@.len(), |i: int| true),
                true,
                limit as nat,
                offset as nat,
                picked@,
            )
        },
{
    if limit == 0 || limit > 200 || offset > 1_000_000 {
        return Err(StateError::InvalidInput("backup page is invalid"));
    }
    let mut keys: Vec<SortKey> = Vec::new();
    let mut all: Vec<bool> = Vec::new();
    let mut i: usize = 0;
    while i < backups.len()
        invariant
            i <= backups@.len(),
            keys@ == backup_keys(backups@).take(i as int),
            all@ == Seq::new(i as nat, |i: int| true),
        decreases backups@.len() - i,
    {
        let backup = &backups[i];
        keys.push(
            SortKey {
                first: backup.started_at as i128,
                second: 0,
                third: 0,
                id: backup.id.text.clone(),
            },
        );
        all.push(true);
        i += 1;
        assert(keys@ =~= backup_keys(backups@).take(i as int));
        assert(all@ =~= Seq::new(i as nat, |i: int| true));
    }
    assert(keys@ =~= backup_keys(backups@));
    Ok(page(keys.as_slice(), all.as_slice(), true, limit, offset))
}

/// No transition leads back to the queue, an artifact completes only from a
/// running operation, and a failed operation can only be validated anew.
pub proof fn law_lifecycle_moves_on(before: BackupStatus, after: BackupStatus)
    requires
        before.follows(after),
    ensures
        after != BackupStatus::Queued,
        after == BackupStatus::Completed && before != BackupStatus::Completed ==> before
            == BackupStatus::Running,
        before == BackupStatus::Failed ==> after == BackupStatus::Validating,
        after == BackupStatus::Failed ==> before.active(),
{
}

} // verus!
