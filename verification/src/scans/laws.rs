//! What starting, advancing and finishing a scan does, in terms of its
//! checkpoint.

use vstd::prelude::*;

use crate::domain::{Id, VaultContext};
use crate::error::StateError;
use crate::scans::{finish, start, update_progress, ScanCheckpointRecord, ScanProgress, ScanStatus};
use crate::text::label_ok;

verus! {

/// Whether a checkpoint is that of a generation of a vault's scan, and runs.
pub open spec fn is_running(
    checkpoint: ScanCheckpointRecord,
    vault: Id,
    scan_type: Seq<char>,
    generation: Seq<char>,
) -> bool {
    &&& checkpoint.vault_id.text@ == vault.text@
    &&& checkpoint.scan_type@ == scan_type
    &&& checkpoint.generation@ == generation
    &&& checkpoint.status == ScanStatus::Running
}

/// A started scan runs from the beginning, in the vault and generation given; it
/// takes the place of the vault's checkpoint of its type.
pub proof fn law_scans_start_from_the_beginning(
    context: &VaultContext,
    existing: Option<ScanCheckpointRecord>,
    id: Id,
    scan_type: &str,
    generation: &str,
    now: i64,
    r: Result<ScanCheckpointRecord, StateError>,
)
    requires
        call_ensures(start, (context, existing, id, scan_type, generation, now), r),
    ensures
        r is Ok <==> label_ok(scan_type@, 128) && label_ok(generation@, 128),
        r matches Ok(after) ==> {
            &&& is_running(after, context.id, scan_type@, generation@)
            &&& after.cursor_path is None
            &&& after.entries_seen == 0
            &&& after.files_seen == 0
            &&& after.directories_seen == 0
            &&& after.changes_imported == 0
            &&& after.unsafe_entries_skipped == 0
            &&& !after.missing_deletes_skipped
            &&& after.last_error is None
            &&& after.started_at == now
            &&& after.updated_at == now
            &&& after.completed_at is None
            &&& existing is Some && existing->0.vault_id.text@ == context.id.text@
                && existing->0.scan_type@ == scan_type@ ==> after.id == existing->0.id
            &&& !(existing is Some && existing->0.vault_id.text@ == context.id.text@
                && existing->0.scan_type@ == scan_type@) ==> after.id == id
        },
{
}

/// Progress is kept as reported for the generation that runs; it runs on.
pub proof fn law_progress_is_kept_as_reported(
    context: &VaultContext,
    checkpoint: Option<ScanCheckpointRecord>,
    scan_type: &str,
    generation: &str,
    progress: ScanProgress,
    now: i64,
    r: Result<ScanCheckpointRecord, StateError>,
)
    requires
        call_ensures(
            update_progress,
            (context, checkpoint, scan_type, generation, progress, now),
            r,
        ),
    ensures
        r is Ok <==> {
            &&& checkpoint is Some
            &&& is_running(checkpoint->0, context.id, scan_type@, generation@)
            &&& progress.entries_seen <= i64::MAX
            &&& progress.files_seen <= i64::MAX
            &&& progress.directories_seen <= i64::MAX
            &&& progress.changes_imported <= i64::MAX
            &&& progress.unsafe_entries_skipped <= i64::MAX
        },
        r matches Ok(after) ==> {
            &&& is_running(after, context.id, scan_type@, generation@)
            &&& after.id == checkpoint->0.id
            &&& after.cursor_path == progress.cursor_path
            &&& after.entries_seen == progress.entries_seen
            &&& after.files_seen == progress.files_seen
            &&& after.directories_seen == progress.directories_seen
            &&& after.changes_imported == progress.changes_imported
            &&& after.unsafe_entries_skipped == progress.unsafe_entries_skipped
            &&& after.missing_deletes_skipped == progress.missing_deletes_skipped
            &&& after.updated_at == now
            &&& after.started_at == checkpoint->0.started_at
            &&& after.completed_at == checkpoint->0.completed_at
            &&& after.last_error == checkpoint->0.last_error
        },
{
}

/// The generation that runs is finished with the status and error given, at the
/// time given; what it counted stays.
pub proof fn law_scans_finish_as_told(
    context: &VaultContext,
    checkpoint: Option<ScanCheckpointRecord>,
    scan_type: &str,
    generation: &str,
    status: ScanStatus,
    error: Option<&str>,
    now: i64,
    r: Result<ScanCheckpointRecord, StateError>,
)
    requires
        call_ensures(
            finish,
            (context, checkpoint, scan_type, generation, status, error, now),
            r,
        ),
    ensures
        r is Ok <==> checkpoint is Some && is_running(
            checkpoint->0,
            context.id,
            scan_type@,
            generation@,
        ) && (error is Some ==> label_ok(error->0@, 2048)),
        r matches Ok(after) ==> {
            &&& after.status == status
            &&& after.last_error is Some <==> error is Some
            &&& error is Some ==> after.last_error->0@ == error->0@
            &&& after.updated_at == now
            &&& after.completed_at == Some(now)
            &&& after.id == checkpoint->0.id
            &&& after.generation == checkpoint->0.generation
            &&& after.cursor_path == checkpoint->0.cursor_path
            &&& after.entries_seen == checkpoint->0.entries_seen
            &&& after.files_seen == checkpoint->0.files_seen
            &&& after.changes_imported == checkpoint->0.changes_imported
            &&& after.started_at == checkpoint->0.started_at
        },
{
}

} // verus!
