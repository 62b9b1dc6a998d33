//! What each step of a backup does, in terms of its row.

use vstd::prelude::*;

use crate::backups::{
    backup_keys, delete, get, insert_queued, list, mark_completed, mark_failed, mark_restoring,
    mark_running, mark_validating, mark_verified, BackupRecord, BackupStatus,
};
use crate::domain::Id;
use crate::error::StateError;
use crate::json::Json;
use crate::order::laws::{lemma_page_rows, no_later};
use crate::rows::lemma_first_index;
use crate::text::label_ok;

verus! {

/// Whether two rows are of one backup, at one place and by one actor.
pub open spec fn is_same_backup(a: BackupRecord, b: BackupRecord) -> bool {
    a.id == b.id && a.location == b.location && a.created_by == b.created_by
}

/// A backup is queued as asked for.
pub proof fn law_backups_are_queued_as_asked(
    id: Id,
    location: &str,
    created_by: Option<&str>,
    now: i64,
    r: Result<BackupRecord, StateError>,
)
    requires
        call_ensures(insert_queued, (id, location, created_by, now), r),
    ensures
        r is Ok <==> label_ok(location@, 4096) && (created_by is Some ==> label_ok(
            created_by->0@,
            256,
        )),
        r matches Ok(after) ==> {
            &&& after.id == id
            &&& after.status == BackupStatus::Queued
            &&& after.location@ == location@
            &&& after.created_by is Some <==> created_by is Some
            &&& created_by is Some ==> after.created_by->0@ == created_by->0@
            &&& after.started_at == now
            &&& after.manifest is None
            &&& after.completed_at is None
            &&& after.verified_at is None
            &&& after.error is None
        },
{
}

/// A queued backup runs; a running one is completed with its manifest; a completed
/// one is verified. Each step is dated and clears the error.
pub proof fn law_backups_run_complete_and_are_verified(
    backup: Option<BackupRecord>,
    manifest: Json,
    verified_at: i64,
    now: i64,
    running: Result<BackupRecord, StateError>,
    completed: Result<BackupRecord, StateError>,
    verified: Result<BackupRecord, StateError>,
)
    requires
        call_ensures(mark_running, (backup, now), running),
        call_ensures(mark_completed, (backup, manifest, verified_at, now), completed),
        call_ensures(mark_verified, (backup, manifest, now), verified),
    ensures
        running is Ok <==> backup is Some && backup->0.status == BackupStatus::Queued,
        running matches Ok(after) ==> {
            &&& is_same_backup(backup->0, after)
            &&& after.status == BackupStatus::Running
            &&& after.started_at == now
            &&& after.error is None
            &&& after.manifest == backup->0.manifest
            &&& after.completed_at == backup->0.completed_at
        },
        completed is Ok <==> backup is Some && backup->0.status == BackupStatus::Running
            && vstd::utf8::encode_utf8(manifest@).len() <= 1024 * 1024,
        completed matches Ok(after) ==> {
            &&& is_same_backup(backup->0, after)
            &&& after.status == BackupStatus::Completed
            &&& after.manifest == Some(manifest)
            &&& after.completed_at == Some(now)
            &&& after.verified_at == Some(verified_at)
            &&& after.error is None
            &&& after.started_at == backup->0.started_at
        },
        verified is Ok <==> backup is Some && backup->0.status == BackupStatus::Completed
            && vstd::utf8::encode_utf8(manifest@).len() <= 1024 * 1024,
        verified matches Ok(after) ==> {
            &&& is_same_backup(backup->0, after)
            &&& after.status == BackupStatus::Completed
            &&& after.manifest == Some(manifest)
            &&& after.verified_at == Some(now)
            &&& after.completed_at == backup->0.completed_at
            &&& after.error is None
            &&& after.started_at == backup->0.started_at
        },
{
}

/// A backup that is neither completed nor failed can fail, with the error and the
/// time; only one that is completed or failed is deleted.
pub proof fn law_active_backups_fail_and_are_kept(
    backup: Option<BackupRecord>,
    error: &str,
    now: i64,
    failed: Result<BackupRecord, StateError>,
    deleted: Result<Id, StateError>,
)
    requires
        call_ensures(mark_failed, (backup, error, now), failed),
        call_ensures(delete, (backup,), deleted),
    ensures
        ({
            let over = backup is Some && (backup->0.status == BackupStatus::Completed
                || backup->0.status == BackupStatus::Failed);
            &&& failed is Ok <==> backup is Some && !over && label_ok(error@, 256)
            &&& deleted is Ok <==> over
        }),
        deleted is Ok ==> deleted->Ok_0 == backup->0.id,
        failed matches Ok(after) ==> {
            &&& is_same_backup(backup->0, after)
            &&& after.status == BackupStatus::Failed
            &&& after.completed_at == Some(now)
            &&& after.error is Some
            &&& after.error->0@ == error@
            &&& after.manifest == backup->0.manifest
            &&& after.started_at == backup->0.started_at
        },
{
}

/// A queued or failed backup is validated; one that is validated, runs, is
/// completed or is being restored is restored.
pub proof fn law_backups_are_validated_and_restored(
    backup: Option<BackupRecord>,
    validating: Result<BackupRecord, StateError>,
    restoring: Result<BackupRecord, StateError>,
)
    requires
        call_ensures(mark_validating, (backup,), validating),
        call_ensures(mark_restoring, (backup,), restoring),
    ensures
        validating is Ok <==> backup is Some && (backup->0.status == BackupStatus::Queued
            || backup->0.status == BackupStatus::Failed),
        restoring is Ok <==> backup is Some && backup->0.status != BackupStatus::Queued
            && backup->0.status != BackupStatus::Failed,
        validating matches Ok(after) ==> {
            &&& is_same_backup(backup->0, after)
            &&& after.status == BackupStatus::Validating
            &&& after.error is None
            &&& after.manifest == backup->0.manifest
            &&& after.started_at == backup->0.started_at
            &&& after.completed_at == backup->0.completed_at
            &&& after.verified_at == backup->0.verified_at
        },
        restoring matches Ok(after) ==> {
            &&& is_same_backup(backup->0, after)
            &&& after.status == BackupStatus::Restoring
            &&& after.error is None
            &&& after.manifest == backup->0.manifest
            &&& after.started_at == backup->0.started_at
            &&& after.completed_at == backup->0.completed_at
            &&& after.verified_at == backup->0.verified_at
        },
{
}

/// Backups are listed latest first, each once; a first page that is not full
/// lists all of them. One is found by its identity wherever it is stored.
pub proof fn law_backups_are_listed_latest_first(
    backups: &[BackupRecord],
    limit: u32,
    offset: u32,
    r: Result<Vec<usize>, StateError>,
    id: &Id,
    found: Option<usize>,
)
    requires
        call_ensures(list, (backups, limit, offset), r),
        call_ensures(get, (backups, id), found),
    ensures
        r is Ok <==> 1 <= limit <= 200 && offset <= 1_000_000,
        r matches Ok(picked) ==> {
            &&& picked@.len() <= limit
            &&& forall|i: int|
                0 <= i < picked@.len() ==> (#[trigger] picked@[i]) < backups@.len()
            &&& forall|i: int, j: int|
                0 <= i < j < picked@.len() ==> (#[trigger] picked@[i]) != (#[trigger] picked@[j])
                    && backups@[picked@[i] as int].started_at
                    >= backups@[picked@[j] as int].started_at
            &&& offset == 0 && picked@.len() < limit ==> forall|k: int|
                0 <= k < backups@.len() ==> #[trigger] picked@.contains(k as usize)
        },
        match found {
            Some(i) => i < backups@.len() && backups@[i as int].id.text@ == id.text@,
            None => forall|k: int|
                0 <= k < backups@.len() ==> (#[trigger] backups@[k]).id.text@ != id.text@,
        },
{
    lemma_first_index(backups@, |row: BackupRecord| row.id@ == id@);
    if let Ok(picked) = r {
        let order_keys = backup_keys(backups@);
        let marked = Seq::new(backups@.len(), |i: int| true);
        lemma_page_rows(order_keys, marked, true, limit as nat, offset as nat, picked@);
        assert forall|i: int, j: int| 0 <= i < j < picked@.len() implies (#[trigger] picked@[i])
            != (#[trigger] picked@[j]) && backups@[picked@[i] as int].started_at
            >= backups@[picked@[j] as int].started_at by {
            assert(no_later(order_keys[picked@[j] as int], order_keys[picked@[i] as int]));
        }
        assert forall|k: int|
            offset == 0 && picked@.len() < limit && 0 <= k < backups@.len() implies
            #[trigger] picked@.contains(k as usize) by {
            assert(marked[k]);
        }
    }
}

} // verus!
