//! Reading jobs: lookups, listings and counts.

use vstd::prelude::*;

use crate::background::job_labels_ok;
use crate::domain::{optional_id, Id, VaultContext};
use crate::error::{invalid, StateError};
use crate::jobs::{validate_list, validate_page, JobRecord, JobStatus, JobStatusCounts};
use crate::order::{is_page, page, SortKey};
use crate::rows::{count, count_rows, each, find, first_index, marks};
use crate::text::text_eq;

verus! {

/// The job with an identity in the vault.
pub fn get(context: &VaultContext, jobs: &[JobRecord], job_id: &Id) -> (r: Option<usize>)
    ensures
        match r {
            Some(i) => i < jobs@.len() && first_index(
                jobs@,
                |job: JobRecord| job.id@ == job_id@ && job.in_vault(context.id@),
            ) == Some(i as int),
            None => first_index(
                jobs@,
                |job: JobRecord| job.id@ == job_id@ && job.in_vault(context.id@),
            ) is None,
        },
{
    let accepts = |job: &JobRecord| -> (yes: bool)
        ensures
            yes == (job.id@ == job_id@ && job.in_vault(context.id@)),
        { job.id.same(job_id) && job.is_in_vault(&context.id) };
    find(
        jobs,
        accepts,
        Ghost(|job: JobRecord| job.id@ == job_id@ && job.in_vault(context.id@)),
    )
}

impl JobRecord {
    /// Whether the job holds a key in a scope: a vault's or the global one.
    pub open spec fn holds_key(self, vault: Option<Seq<char>>, dedup_key: Seq<char>) -> bool {
        optional_id(self.vault_id) == vault && self.dedup_key@ == dedup_key
    }
}

/// The job that holds a key in its scope: a vault's or the global one.
pub fn find_by_scope(vault_id: Option<&Id>, jobs: &[JobRecord], dedup_key: &str) -> (r: Option<usize>)
    ensures
        match r {
            Some(i) => i < jobs@.len() && first_index(
                jobs@,
                |job: JobRecord| job.holds_key(scope_of(vault_id), dedup_key@),
            ) == Some(i as int),
            None => first_index(
                jobs@,
                |job: JobRecord| job.holds_key(scope_of(vault_id), dedup_key@),
            ) is None,
        },
{
    let accepts = |job: &JobRecord| -> (yes: bool)
        ensures
            yes == job.holds_key(scope_of(vault_id), dedup_key@),
        {
            let in_scope = match (&job.vault_id, vault_id) {
                (Some(owner), Some(wanted)) => owner.same(wanted),
                (None, None) => true,
                _ => false,
            };
            in_scope && text_eq(job.dedup_key.as_str(), dedup_key)
        };
    find(
        jobs,
        accepts,
        Ghost(|job: JobRecord| job.holds_key(scope_of(vault_id), dedup_key@)),
    )
}

/// Identity of the vault that a scope names.
pub open spec fn scope_of(vault_id: Option<&Id>) -> Option<Seq<char>> {
    match vault_id {
        Some(vault_id) => Some(vault_id@),
        None => None,
    }
}

/// Find a vault job by its deduplication key.
pub fn find_by_dedup(context: &VaultContext, jobs: &[JobRecord], dedup_key: &str) -> (r: Option<usize>)
    ensures
        match r {
            Some(i) => i < jobs@.len() && first_index(
                jobs@,
                |job: JobRecord| job.holds_key(Some(context.id@), dedup_key@),
            ) == Some(i as int),
            None => first_index(
                jobs@,
                |job: JobRecord| job.holds_key(Some(context.id@), dedup_key@),
            ) is None,
        },
{
    find_by_scope(Some(&context.id), jobs, dedup_key)
}

/// What jobs are listed by: newest first, then by identity.
pub open spec fn listing_key(job: JobRecord) -> SortKey {
    SortKey { first: (0 - job.created_at) as i128, second: 0, third: 0, id: job.id.text }
}

/// Whether a job passes the filters of a listing.
pub open spec fn shown(
    job: JobRecord,
    vault: Seq<char>,
    status: Option<JobStatus>,
    job_type: Option<&str>,
) -> bool {
    &&& job.in_vault(vault)
    &&& status matches Some(status) ==> job.status == status
    &&& job_type matches Some(job_type) ==> job.job_type@ == job_type@
}

/// List bounded jobs of one vault with optional status and type filters: the
/// positions of one page.
pub fn list(
    context: &VaultContext,
    jobs: &[JobRecord],
    status: Option<JobStatus>,
    job_type: Option<&str>,
    limit: u32,
    offset: u32,
) -> (r: Result<Vec<usize>, StateError>)
    ensures
        if !(1 <= limit <= 200 && offset <= 1_000_000) {
            r == invalid::<Vec<usize>>("job page is invalid")
        } else if job_type is Some && !job_labels_ok(job_type->0@, "job-type-filter"@) {
            r == invalid::<Vec<usize>>("job label is invalid")
        } else {
            r matches Ok(picked) && is_page(
                jobs@.map_values(|job: JobRecord| listing_key(job)),
                jobs@.map_values(|job: JobRecord| shown(job, context.id@, status, job_type)),
                false,
                limit as nat,
                offset as nat,
                picked@,
            )
        },
{
    match validate_list(job_type, limit, offset) {
        Ok(()) => {},
        Err(error) => return Err(error),
    }
    let place = |job: &JobRecord| -> (key: SortKey)
        ensures
            key == listing_key(*job),
        {
            SortKey { first: -(job.created_at as i128), second: 0, third: 0, id: job.id.text.clone() }
        };
    let order_keys = each(jobs, place, Ghost(|job: JobRecord| listing_key(job)));
    let accepts = |job: &JobRecord| -> (yes: bool)
        ensures
            yes == shown(*job, context.id@, status, job_type),
        {
            let of_status = match status {
                Some(status) => job.status == status,
                None => true,
            };
            let of_type = match job_type {
                Some(job_type) => text_eq(job.job_type.as_str(), job_type),
                None => true,
            };
            job.is_in_vault(&context.id) && of_status && of_type
        };
    let eligible = marks(
        jobs,
        accepts,
        Ghost(|job: JobRecord| shown(job, context.id@, status, job_type)),
    );
    Ok(page(order_keys.as_slice(), eligible.as_slice(), false, limit, offset))
}

/// What finished jobs are listed by: when they ended.
pub open spec fn ended_key(job: JobRecord) -> SortKey {
    SortKey {
        first: match job.completed_at {
            Some(completed_at) => completed_at as i128,
            None => job.updated_at as i128,
        },
        second: 0,
        third: 0,
        id: job.id.text,
    }
}

/// List the finished jobs of one vault, most recently ended first: the
/// positions of one page.
pub fn list_terminal(context: &VaultContext, jobs: &[JobRecord], limit: u32, offset: u32) -> (r: Result<
    Vec<usize>,
    StateError,
>)
    ensures
        if !(1 <= limit <= 200 && offset <= 1_000_000) {
            r == invalid::<Vec<usize>>("job page is invalid")
        } else {
            r matches Ok(picked) && is_page(
                jobs@.map_values(|job: JobRecord| ended_key(job)),
                jobs@.map_values(
                    |job: JobRecord| job.in_vault(context.id@) && job.status.terminal(),
                ),
                true,
                limit as nat,
                offset as nat,
                picked@,
            )
        },
{
    match validate_page(limit, offset) {
        Ok(()) => {},
        Err(error) => return Err(error),
    }
    let place = |job: &JobRecord| -> (key: SortKey)
        ensures
            key == ended_key(*job),
        {
            let ended: i64 = match job.completed_at {
                Some(completed_at) => completed_at,
                None => job.updated_at,
            };
            SortKey { first: ended as i128, second: 0, third: 0, id: job.id.text.clone() }
        };
    let order_keys = each(jobs, place, Ghost(|job: JobRecord| ended_key(job)));
    let accepts = |job: &JobRecord| -> (yes: bool)
        ensures
            yes == (job.in_vault(context.id@) && job.status.terminal()),
        { job.is_in_vault(&context.id) && job.status.is_terminal() };
    let eligible = marks(
        jobs,
        accepts,
        Ghost(|job: JobRecord| job.in_vault(context.id@) && job.status.terminal()),
    );
    Ok(page(order_keys.as_slice(), eligible.as_slice(), true, limit, offset))
}

/// Number of jobs of a vault in one status.
pub open spec fn status_total(jobs: Seq<JobRecord>, vault: Seq<char>, status: JobStatus) -> nat {
    count(jobs, |job: JobRecord| job.in_vault(vault) && job.status == status)
}

fn count_status(context: &VaultContext, jobs: &[JobRecord], status: JobStatus) -> (r: u64)
    ensures
        r == status_total(jobs@, context.id@, status),
{
    let accepts = |job: &JobRecord| -> (yes: bool)
        ensures
            yes == (job.in_vault(context.id@) && job.status == status),
        { job.is_in_vault(&context.id) && job.status == status };
    count_rows(
        jobs,
        accepts,
        Ghost(|job: JobRecord| job.in_vault(context.id@) && job.status == status),
    ) as u64
}

/// Counts every lifecycle status of one vault's jobs.
pub fn count_statuses(context: &VaultContext, jobs: &[JobRecord]) -> (r: JobStatusCounts)
    ensures
        r.queued == status_total(jobs@, context.id@, JobStatus::Queued),
        r.running == status_total(jobs@, context.id@, JobStatus::Running),
        r.retry_wait == status_total(jobs@, context.id@, JobStatus::RetryWait),
        r.completed == status_total(jobs@, context.id@, JobStatus::Completed),
        r.failed == status_total(jobs@, context.id@, JobStatus::Failed),
        r.cancelled == status_total(jobs@, context.id@, JobStatus::Cancelled),
{
    JobStatusCounts {
        queued: count_status(context, jobs, JobStatus::Queued),
        running: count_status(context, jobs, JobStatus::Running),
        retry_wait: count_status(context, jobs, JobStatus::RetryWait),
        completed: count_status(context, jobs, JobStatus::Completed),
        failed: count_status(context, jobs, JobStatus::Failed),
        cancelled: count_status(context, jobs, JobStatus::Cancelled),
    }
}

/// The unfinished jobs of a vault are its queued, running and waiting ones; jobs
/// of other vaults and global jobs are not counted.
pub proof fn law_pending_is_the_sum_of_statuses(jobs: Seq<JobRecord>, vault: Seq<char>)
    ensures
        count(jobs, |job: JobRecord| job.in_vault(vault) && !job.status.terminal())
            == status_total(jobs, vault, JobStatus::Queued) + status_total(
            jobs,
            vault,
            JobStatus::Running,
        ) + status_total(jobs, vault, JobStatus::RetryWait),
    decreases jobs.len(),
{
    reveal(Seq::filter);
    if jobs.len() > 0 {
        law_pending_is_the_sum_of_statuses(jobs.drop_last(), vault);
    }
}

/// Number of unfinished jobs of one vault.
pub fn pending_count_for(context: &VaultContext, jobs: &[JobRecord]) -> (r: u64)
    ensures
        r == count(jobs@, |job: JobRecord| job.in_vault(context.id@) && !job.status.terminal()),
{
    let accepts = |job: &JobRecord| -> (yes: bool)
        ensures
            yes == (job.in_vault(context.id@) && !job.status.terminal()),
        { job.is_in_vault(&context.id) && !job.status.is_terminal() };
    count_rows(
        jobs,
        accepts,
        Ghost(|job: JobRecord| job.in_vault(context.id@) && !job.status.terminal()),
    ) as u64
}

/// Number of unfinished jobs in all vaults and outside of them.
pub fn pending_count(jobs: &[JobRecord]) -> (r: u64)
    ensures
        r == count(jobs@, |job: JobRecord| !job.status.terminal()),
{
    let accepts = |job: &JobRecord| -> (yes: bool)
        ensures
            yes == !job.status.terminal(),
        { !job.status.is_terminal() };
    count_rows(jobs, accepts, Ghost(|job: JobRecord| !job.status.terminal())) as u64
}

/// A vault has no more unfinished jobs than there are.
pub proof fn law_vault_counts_are_parts(jobs: Seq<JobRecord>, vault: Seq<char>)
    ensures
        count(jobs, |job: JobRecord| job.in_vault(vault) && !job.status.terminal()) <= count(
            jobs,
            |job: JobRecord| !job.status.terminal(),
        ),
{
    let some = |job: JobRecord| job.in_vault(vault) && !job.status.terminal();
    let all = |job: JobRecord| !job.status.terminal();
    assert forall|job: JobRecord| #[trigger] some(job) implies all(job) by {}
    crate::rows::lemma_count_monotone(jobs, some, all);
}

} // verus!
