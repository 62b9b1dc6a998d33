//! What claiming, finishing, returning, cancelling and admitting jobs does, in
//! terms of the stored jobs.

use vstd::prelude::*;

use crate::domain::{Id, VaultContext};
use crate::error::StateError;
use crate::jobs::admission::{enqueue, enqueue_global, enqueue_singleton, JobRequest};
use crate::jobs::queries::{
    count_statuses, find_by_dedup, get, list, list_terminal, pending_count, pending_count_for,
};
use crate::jobs::{
    cancel_claimed, claim_batch, claim_keys, claimable_jobs, claims_jobs, complete,
    fail_permanently, find_active_by_type, has_newer_active_job, is_uninterruptible, ranked_before,
    ranks_before, release_claimed, release_worker_leases, renew_claimed, request_cancel,
    request_cancel_all, request_cancel_type, request_restart_terminal, request_retry, retry_or_fail,
    scope_rank, should_cancel_claimed, store_claim, update_progress, Enqueued, JobRecord, JobStatus,
    JobStatusCounts,
};
use crate::json::Json;
use crate::order::laws::{lemma_page_rows, lemma_selection_rows, no_later};
use crate::order::is_selection;
use crate::rows::lemma_first_index;
use crate::text::{label_ok, text_before};

verus! {

/// Whether a job has not ended.
pub open spec fn is_unfinished(job: JobRecord) -> bool {
    job.status == JobStatus::Queued || job.status == JobStatus::Running || job.status
        == JobStatus::RetryWait
}

/// Whether a job is due: it has not ended, its time has come, no lease on it
/// runs, and it has an attempt left or waits to be cancelled.
pub open spec fn is_due(job: JobRecord, now: i64) -> bool {
    &&& is_unfinished(job)
    &&& job.available_at <= now
    &&& job.lease_until matches Some(until) ==> until <= now
    &&& job.attempts < job.max_attempts || job.cancel_requested
}

/// Whether a job is another one but for its state, lease and attempts.
pub open spec fn is_same_work(a: JobRecord, b: JobRecord) -> bool {
    &&& a.id == b.id
    &&& a.vault_id == b.vault_id
    &&& a.job_type == b.job_type
    &&& a.dedup_key == b.dedup_key
    &&& a.payload == b.payload
    &&& a.priority == b.priority
    &&& a.max_attempts == b.max_attempts
    &&& a.created_at == b.created_at
}

/// Whether a job runs under the lease of a worker.
pub open spec fn is_leased_to(job: JobRecord, worker: Seq<char>) -> bool {
    job.status == JobStatus::Running && job.lease_owner is Some && job.lease_owner->0@ == worker
}

/// Whether a job is one of a vault.
pub open spec fn is_of_vault(job: JobRecord, vault: Seq<char>) -> bool {
    job.vault_id is Some && job.vault_id->0.text@ == vault
}

/// No job is claimed before its time: every claimed job is a stored one that is
/// due, now running under the worker's lease with one attempt more, and
/// otherwise as it was.
pub proof fn law_only_due_jobs_are_claimed(
    jobs: Vec<JobRecord>,
    worker: &str,
    now: i64,
    lease_until: i64,
    limit: u32,
    r: Result<Vec<JobRecord>, StateError>,
)
    requires
        call_ensures(claim_batch, (jobs, worker, now, lease_until, limit), r),
    ensures
        r is Ok <==> label_ok(worker@, 128) && now < lease_until && 1 <= limit <= 128,
        r matches Ok(claimed) ==> {
            &&& claimed@.len() <= limit
            &&& forall|i: int|
                0 <= i < claimed@.len() ==> is_claim_of(
                    #[trigger] claimed@[i],
                    jobs@,
                    worker@,
                    now,
                    lease_until,
                )
        },
{
    if let Ok(claimed) = r {
        let picked = lemma_claimed(jobs@, worker@, now, lease_until, limit, claimed@);
        assert forall|i: int| 0 <= i < claimed@.len() implies is_claim_of(
            #[trigger] claimed@[i],
            jobs@,
            worker@,
            now,
            lease_until,
        ) by {
            let k = picked[i] as int;
            assert(jobs@[k].claimed_as(claimed@[i], worker@, lease_until));
            assert(is_due(jobs@[k], now));
            assert(is_same_work(claimed@[i], jobs@[k]));
        }
    }
}

/// Whether a job is the claim of a stored one that is due.
pub open spec fn is_claim_of(
    claimed: JobRecord,
    jobs: Seq<JobRecord>,
    worker: Seq<char>,
    now: i64,
    lease_until: i64,
) -> bool {
    exists|k: int|
        {
            &&& 0 <= k < jobs.len()
            &&& is_due(#[trigger] jobs[k], now)
            &&& is_same_work(claimed, jobs[k])
            &&& is_leased_to(claimed, worker)
            &&& claimed.lease_until == Some(lease_until)
            &&& jobs[k].attempts < u32::MAX ==> claimed.attempts == jobs[k].attempts + 1
            &&& claimed.available_at == jobs[k].available_at
            &&& claimed.progress == jobs[k].progress
            &&& claimed.last_error == jobs[k].last_error
            &&& claimed.completed_at == jobs[k].completed_at
            &&& claimed.cancel_requested == jobs[k].cancel_requested
        }
}

/// The positions that a claim picked.
proof fn lemma_claimed(
    jobs: Seq<JobRecord>,
    worker: Seq<char>,
    now: i64,
    lease_until: i64,
    limit: u32,
    claimed: Seq<JobRecord>,
) -> (picked: Seq<usize>)
    requires
        exists|picked: Seq<usize>|
            {
                &&& #[trigger] is_selection(
                    claim_keys(jobs, now),
                    claimable_jobs(jobs, now),
                    limit as nat,
                    picked,
                )
                &&& claims_jobs(jobs, picked, claimed, worker, lease_until)
            },
    ensures
        is_selection(claim_keys(jobs, now), claimable_jobs(jobs, now), limit as nat, picked),
        claims_jobs(jobs, picked, claimed, worker, lease_until),
        picked.len() == claimed.len() <= limit,
        forall|i: int|
            0 <= i < picked.len() ==> (#[trigger] picked[i]) < jobs.len() && is_due(
                jobs[picked[i] as int],
                now,
            ),
        forall|i: int, j: int|
            0 <= i < j < picked.len() ==> (#[trigger] picked[i]) != (#[trigger] picked[j])
                && no_later(
                claim_keys(jobs, now)[picked[i] as int],
                claim_keys(jobs, now)[picked[j] as int],
            ),
        forall|i: int|
            0 <= i < claimed.len() ==> (#[trigger] claimed[i]).id == jobs[picked[i] as int].id
                && claimed[i].priority == jobs[picked[i] as int].priority,
{
    let picked = choose|picked: Seq<usize>|
        {
            &&& #[trigger] is_selection(
                claim_keys(jobs, now),
                claimable_jobs(jobs, now),
                limit as nat,
                picked,
            )
            &&& claims_jobs(jobs, picked, claimed, worker, lease_until)
        };
    let eligible = claimable_jobs(jobs, now);
    lemma_selection_rows(claim_keys(jobs, now), eligible, limit as nat, picked);
    assert forall|k: int| 0 <= k < jobs.len() implies (#[trigger] eligible[k] <==> is_due(
        jobs[k],
        now,
    )) by {}
    assert forall|i: int| 0 <= i < picked.len() implies (#[trigger] picked[i]) < jobs.len()
        && is_due(jobs[picked[i] as int], now) by {
        assert(eligible[picked[i] as int]);
    }
    assert forall|i: int| 0 <= i < claimed.len() implies (#[trigger] claimed[i]).id
        == jobs[picked[i] as int].id && claimed[i].priority == jobs[picked[i] as int].priority by {
        assert(jobs[picked[i] as int].claimed_as(claimed[i], worker, lease_until));
    }
    picked
}

/// A due job that was not picked is left for want of room, behind all that were.
proof fn lemma_left_out(
    jobs: Seq<JobRecord>,
    now: i64,
    limit: nat,
    picked: Seq<usize>,
    k: int,
)
    requires
        is_selection(claim_keys(jobs, now), claimable_jobs(jobs, now), limit, picked),
        0 <= k < jobs.len(),
        jobs.len() <= usize::MAX,
        is_due(jobs[k], now),
        forall|i: int| 0 <= i < picked.len() ==> #[trigger] picked[i] != k,
    ensures
        picked.len() == limit,
        forall|i: int|
            0 <= i < picked.len() ==> no_later(
                claim_keys(jobs, now)[#[trigger] picked[i] as int],
                claim_keys(jobs, now)[k],
            ),
{
    let eligible = claimable_jobs(jobs, now);
    lemma_selection_rows(claim_keys(jobs, now), eligible, limit, picked);
    assert(eligible[k]);
    if picked.contains(k as usize) {
        let i = choose|i: int| 0 <= i < picked.len() && picked[i] == k as usize;
        assert(picked[i] == k);
    }
}

/// Higher priorities are claimed first, and no due job is passed over: one that
/// is not claimed is left for want of room, behind jobs of at least its priority.
pub proof fn law_no_due_job_is_passed_over(
    jobs: Vec<JobRecord>,
    worker: &str,
    now: i64,
    lease_until: i64,
    limit: u32,
    claimed: Vec<JobRecord>,
    k: int,
)
    requires
        call_ensures(
            claim_batch,
            (jobs, worker, now, lease_until, limit),
            Ok::<Vec<JobRecord>, StateError>(claimed),
        ),
        0 <= k < jobs@.len(),
        is_due(jobs@[k], now),
    ensures
        forall|i: int, j: int|
            0 <= i < j < claimed@.len() ==> (#[trigger] claimed@[i]).priority >= (
            #[trigger] claimed@[j]).priority,
        (exists|i: int| 0 <= i < claimed@.len() && (#[trigger] claimed@[i]).id == jobs@[k].id) || (
        claimed@.len() == limit && forall|i: int|
            0 <= i < claimed@.len() ==> (#[trigger] claimed@[i]).priority >= jobs@[k].priority),
{
    let picked = lemma_claimed(jobs@, worker@, now, lease_until, limit, claimed@);
    let keys = claim_keys(jobs@, now);
    assert forall|i: int, j: int| 0 <= i < j < claimed@.len() implies (
    #[trigger] claimed@[i]).priority >= (#[trigger] claimed@[j]).priority by {
        assert(picked[i] != picked[j]);
        assert(no_later(keys[picked[i] as int], keys[picked[j] as int]));
    }
    if exists|i: int| 0 <= i < picked.len() && #[trigger] picked[i] == k {
        let i = choose|i: int| 0 <= i < picked.len() && #[trigger] picked[i] == k;
        assert(claimed@[i].id == jobs@[k].id);
    } else {
        assert(jobs@.len() == jobs.len());
        lemma_left_out(jobs@, now, limit as nat, picked, k);
        assert forall|i: int| 0 <= i < claimed@.len() implies (#[trigger] claimed@[i]).priority
            >= jobs@[k].priority by {
            assert(no_later(keys[picked[i] as int], keys[k]));
        }
    }
}

/// Whether two jobs are of one scope: of one vault, or both of none. A vault
/// named as the global scope shares it.
pub open spec fn is_same_scope(a: JobRecord, b: JobRecord) -> bool {
    let x = if a.vault_id is Some {
        a.vault_id->0.text@
    } else {
        "__global__"@
    };
    let y = if b.vault_id is Some {
        b.vault_id->0.text@
    } else {
        "__global__"@
    };
    x == y
}

/// Whether a job comes before another of its scope: by priority, then by age,
/// then by identity, then by place.
pub open spec fn comes_first(jobs: Seq<JobRecord>, j: int, i: int) -> bool {
    ||| jobs[j].priority > jobs[i].priority
    ||| jobs[j].priority == jobs[i].priority && jobs[j].created_at < jobs[i].created_at
    ||| jobs[j].priority == jobs[i].priority && jobs[j].created_at == jobs[i].created_at
        && text_before(jobs[j].id.text@, jobs[i].id.text@)
    ||| jobs[j].priority == jobs[i].priority && jobs[j].created_at == jobs[i].created_at
        && !text_before(jobs[j].id.text@, jobs[i].id.text@) && !text_before(
        jobs[i].id.text@,
        jobs[j].id.text@,
    ) && j < i
}

/// The due jobs of a job's scope that come before it.
pub open spec fn ahead(jobs: Seq<JobRecord>, now: i64, i: int) -> Set<int> {
    Set::new(
        |j: int|
            0 <= j < jobs.len() && is_due(jobs[j], now) && is_same_scope(jobs[j], jobs[i])
                && comes_first(jobs, j, i),
    )
}

proof fn lemma_ahead(jobs: Seq<JobRecord>, now: i64, i: int, n: int)
    requires
        0 <= i < jobs.len(),
        0 <= n <= jobs.len(),
    ensures
        ({
            let part = Set::new(
                |j: int|
                    0 <= j < n && is_due(jobs[j], now) && is_same_scope(jobs[j], jobs[i])
                        && comes_first(jobs, j, i),
            );
            part.finite() && ranked_before(jobs, now, i, n) == part.len()
        }),
    decreases n,
{
    let part = Set::new(
        |j: int|
            0 <= j < n && is_due(jobs[j], now) && is_same_scope(jobs[j], jobs[i]) && comes_first(
                jobs,
                j,
                i,
            ),
    );
    if n == 0 {
        assert(part =~= Set::empty());
    } else {
        lemma_ahead(jobs, now, i, n - 1);
        let fewer = Set::new(
            |j: int|
                0 <= j < n - 1 && is_due(jobs[j], now) && is_same_scope(jobs[j], jobs[i])
                    && comes_first(jobs, j, i),
        );
        let last = n - 1;
        crate::text::lemma_text_order(
            jobs[last].id.text@,
            jobs[i].id.text@,
            jobs[last].id.text@,
        );
        assert(ranks_before(jobs, now, last, i) <==> is_due(jobs[last], now) && is_same_scope(
            jobs[last],
            jobs[i],
        ) && comes_first(jobs, last, i));
        if ranks_before(jobs, now, last, i) {
            assert(part =~= fewer.insert(last));
        } else {
            assert(part =~= fewer);
        }
    }
}

/// Scopes take turns: among jobs of one priority, a due job with fewer due jobs
/// of its own scope ahead of it is never passed over for one with more; of equal
/// turns the older one goes first.
pub proof fn law_scopes_take_their_turns(
    jobs: Vec<JobRecord>,
    worker: &str,
    now: i64,
    lease_until: i64,
    limit: u32,
    claimed: Vec<JobRecord>,
    k: int,
    m: int,
    i: int,
)
    requires
        call_ensures(
            claim_batch,
            (jobs, worker, now, lease_until, limit),
            Ok::<Vec<JobRecord>, StateError>(claimed),
        ),
        0 <= k < jobs@.len(),
        is_due(jobs@[k], now),
        forall|n: int| 0 <= n < claimed@.len() ==> (#[trigger] claimed@[n]).id != jobs@[k].id,
        0 <= m < jobs@.len(),
        0 <= i < claimed@.len(),
        claimed@[i].id == jobs@[m].id,
        jobs@[m].priority == jobs@[k].priority,
        forall|a: int, b: int|
            0 <= a < b < jobs@.len() ==> (#[trigger] jobs@[a]).id != (#[trigger] jobs@[b]).id,
    ensures
        ahead(jobs@, now, m).len() <= ahead(jobs@, now, k).len(),
        ahead(jobs@, now, m).len() == ahead(jobs@, now, k).len() ==> jobs@[m].created_at
            <= jobs@[k].created_at,
{
    let picked = lemma_claimed(jobs@, worker@, now, lease_until, limit, claimed@);
    let keys = claim_keys(jobs@, now);
    let at = picked[i] as int;
    assert(jobs@[at].claimed_as(claimed@[i], worker@, lease_until));
    assert(at == m);
    assert forall|n: int| 0 <= n < picked.len() implies #[trigger] picked[n] != k by {
        assert(claimed@[n].id == jobs@[picked[n] as int].id);
    }
    assert(jobs@.len() == jobs.len());
    lemma_left_out(jobs@, now, limit as nat, picked, k);
    assert(no_later(keys[picked[i] as int], keys[k]));
    assert(no_later(keys[m], keys[k]));
    lemma_ahead(jobs@, now, m, jobs@.len() as int);
    lemma_ahead(jobs@, now, k, jobs@.len() as int);
    let ahead_m = Set::new(
        |j: int|
            0 <= j < jobs@.len() && is_due(jobs@[j], now) && is_same_scope(jobs@[j], jobs@[m])
                && comes_first(jobs@, j, m),
    );
    let ahead_k = Set::new(
        |j: int|
            0 <= j < jobs@.len() && is_due(jobs@[j], now) && is_same_scope(jobs@[j], jobs@[k])
                && comes_first(jobs@, j, k),
    );
    assert(ahead(jobs@, now, m) =~= ahead_m);
    assert(ahead(jobs@, now, k) =~= ahead_k);
    lemma_rank_fits(jobs@, now, m, jobs@.len() as int);
    lemma_rank_fits(jobs@, now, k, jobs@.len() as int);
    assert(scope_rank(jobs@, now, m) == ahead(jobs@, now, m).len() + 1);
    assert(scope_rank(jobs@, now, k) == ahead(jobs@, now, k).len() + 1);
}

proof fn lemma_rank_fits(jobs: Seq<JobRecord>, now: i64, i: int, n: int)
    requires
        0 <= n,
    ensures
        0 <= ranked_before(jobs, now, i, n) <= n,
    decreases n,
{
    if n > 0 {
        lemma_rank_fits(jobs, now, i, n - 1);
    }
}

/// A claim is stored as the latest update of its job.
pub proof fn law_stored_claim_is_the_latest_update(claimed: JobRecord, now: i64, r: JobRecord)
    requires
        call_ensures(store_claim, (claimed, now), r),
    ensures
        r.updated_at == now,
        is_same_work(r, claimed),
        r.status == claimed.status,
        r.attempts == claimed.attempts,
        r.lease_owner == claimed.lease_owner,
        r.lease_until == claimed.lease_until,
        r.available_at == claimed.available_at,
        r.progress == claimed.progress,
        r.cancel_requested == claimed.cancel_requested,
{
}

/// Whether a worker may settle a job: it holds the lease under a valid name.
pub open spec fn may_settle(job: Option<JobRecord>, worker: Seq<char>) -> bool {
    label_ok(worker, 128) && job is Some && is_leased_to(job->0, worker)
}

/// Whether a job has ended for good, without a lease.
pub open spec fn has_ended(
    before: JobRecord,
    after: JobRecord,
    status: JobStatus,
    now: i64,
) -> bool {
    &&& is_same_work(after, before)
    &&& after.status == status
    &&& after.lease_owner is None
    &&& after.lease_until is None
    &&& after.completed_at == Some(now)
    &&& after.updated_at == now
    &&& after.attempts == before.attempts
    &&& after.available_at == before.available_at
    &&& after.progress == before.progress
    &&& after.cancel_requested == before.cancel_requested
}

/// A job ends as completed, failed or cancelled exactly for the worker that
/// holds it; the reason is kept.
pub proof fn law_only_the_holder_ends_a_job(
    job: Option<JobRecord>,
    worker: &str,
    error: &str,
    now: i64,
    completed: Result<JobRecord, StateError>,
    failed: Result<JobRecord, StateError>,
    cancelled: Result<JobRecord, StateError>,
)
    requires
        call_ensures(complete, (job, worker, now), completed),
        call_ensures(fail_permanently, (job, worker, error, now), failed),
        call_ensures(cancel_claimed, (job, worker, now), cancelled),
    ensures
        completed is Ok <==> may_settle(job, worker@),
        cancelled is Ok <==> may_settle(job, worker@),
        failed is Ok <==> may_settle(job, worker@) && label_ok(error@, 2048),
        completed matches Ok(after) ==> has_ended(job->0, after, JobStatus::Completed, now)
            && after.last_error is None,
        failed matches Ok(after) ==> has_ended(job->0, after, JobStatus::Failed, now)
            && after.last_error is Some && after.last_error->0@ == error@,
        cancelled matches Ok(after) ==> has_ended(job->0, after, JobStatus::Cancelled, now)
            && after.last_error is Some && after.last_error->0@ == "cancelled"@,
{
}

/// A failed attempt is put off to the given time while attempts are left, and
/// ends the job with the last one.
pub proof fn law_failed_attempts_are_put_off(
    job: Option<JobRecord>,
    worker: &str,
    available_at: i64,
    error: &str,
    now: i64,
    r: Result<(JobRecord, JobStatus), StateError>,
)
    requires
        call_ensures(retry_or_fail, (job, worker, available_at, error, now), r),
    ensures
        r is Ok <==> may_settle(job, worker@) && label_ok(error@, 2048),
        r matches Ok((after, status)) ==> {
            &&& is_same_work(after, job->0)
            &&& after.status == status
            &&& status == JobStatus::Failed <==> job->0.attempts >= job->0.max_attempts
            &&& status == JobStatus::RetryWait <==> job->0.attempts < job->0.max_attempts
            &&& after.available_at == available_at
            &&& after.lease_owner is None
            &&& after.lease_until is None
            &&& after.last_error is Some
            &&& after.last_error->0@ == error@
            &&& after.updated_at == now
            &&& after.attempts == job->0.attempts
            &&& after.completed_at == if status == JobStatus::Failed {
                Some(now)
            } else {
                job->0.completed_at
            }
            &&& after.progress == job->0.progress
            &&& after.cancel_requested == job->0.cancel_requested
        },
{
}

/// A returned job is queued again for the given time, with its attempt back.
pub proof fn law_returned_jobs_get_their_attempt_back(
    job: Option<JobRecord>,
    worker: &str,
    available_at: i64,
    now: i64,
    r: Result<JobRecord, StateError>,
)
    requires
        call_ensures(release_claimed, (job, worker, available_at, now), r),
    ensures
        r is Ok <==> may_settle(job, worker@) && !job->0.cancel_requested,
        r matches Ok(after) ==> {
            &&& is_same_work(after, job->0)
            &&& after.status == JobStatus::Queued
            &&& after.available_at == available_at
            &&& after.lease_owner is None
            &&& after.lease_until is None
            &&& after.updated_at == now
            &&& job->0.attempts > 0 ==> after.attempts == job->0.attempts - 1
            &&& job->0.attempts == 0 ==> after.attempts == 0
            &&& after.progress == job->0.progress
            &&& after.last_error == job->0.last_error
        },
{
}

/// A job that was put off, by a failed attempt or by its worker, is not claimed
/// before the time that it was put off to.
pub proof fn law_put_off_jobs_wait(
    job: Option<JobRecord>,
    worker: &str,
    until: i64,
    error: &str,
    now: i64,
    retried: JobRecord,
    status: JobStatus,
    returned: JobRecord,
    jobs: Vec<JobRecord>,
    other: &str,
    later: i64,
    lease_until: i64,
    limit: u32,
    claimed: Vec<JobRecord>,
)
    requires
        call_ensures(
            retry_or_fail,
            (job, worker, until, error, now),
            Ok::<(JobRecord, JobStatus), StateError>((retried, status)),
        ),
        call_ensures(
            release_claimed,
            (job, worker, until, now),
            Ok::<JobRecord, StateError>(returned),
        ),
        call_ensures(
            claim_batch,
            (jobs, other, later, lease_until, limit),
            Ok::<Vec<JobRecord>, StateError>(claimed),
        ),
        later < until,
        forall|k: int|
            0 <= k < jobs@.len() ==> #[trigger] jobs@[k] == retried || jobs@[k] == returned,
    ensures
        claimed@.len() == 0,
{
    let picked = lemma_claimed(jobs@, other@, later, lease_until, limit, claimed@);
    if claimed@.len() > 0 {
        let k = picked[0] as int;
        assert(is_due(jobs@[k], later));
        assert(jobs@[k] == retried || jobs@[k] == returned);
    }
}

/// A claimed job is not claimed again while its lease runs, and is after it has
/// run out, where an attempt is left.
pub proof fn law_leases_keep_others_out(
    jobs: Vec<JobRecord>,
    worker: &str,
    now: i64,
    lease_until: i64,
    limit: u32,
    first: Vec<JobRecord>,
    other: &str,
    later: i64,
    later_lease: i64,
    again: Vec<JobRecord>,
)
    requires
        call_ensures(
            claim_batch,
            (jobs, worker, now, lease_until, limit),
            Ok::<Vec<JobRecord>, StateError>(first),
        ),
        call_ensures(
            claim_batch,
            (first, other, later, later_lease, limit),
            Ok::<Vec<JobRecord>, StateError>(again),
        ),
        now <= later,
    ensures
        later < lease_until ==> again@.len() == 0,
        lease_until <= later && (forall|i: int|
            0 <= i < first@.len() ==> (#[trigger] first@[i]).attempts < first@[i].max_attempts)
            ==> again@.len() == first@.len(),
{
    let one = lemma_claimed(jobs@, worker@, now, lease_until, limit, first@);
    let two = lemma_claimed(first@, other@, later, later_lease, limit, again@);
    assert forall|i: int| 0 <= i < first@.len() implies (#[trigger] first@[i]).lease_until == Some(
        lease_until,
    ) && is_unfinished(first@[i]) && first@[i].available_at <= now by {
        assert(jobs@[one[i] as int].claimed_as(first@[i], worker@, lease_until));
    }
    if again@.len() > 0 && later < lease_until {
        assert(is_due(first@[two[0] as int], later));
    }
    if lease_until <= later && (forall|i: int|
        0 <= i < first@.len() ==> (#[trigger] first@[i]).attempts < first@[i].max_attempts) {
        assert(first@.len() == first.len());
        assert forall|k: int| 0 <= k < first@.len() implies two.contains(#[trigger] (k as usize))
            || two.len() == limit by {
            assert(is_due(first@[k], later));
            if !two.contains(k as usize) {
                assert forall|i: int| 0 <= i < two.len() implies #[trigger] two[i] != k by {
                    if two[i] == k {
                        assert(two[i] == k as usize);
                    }
                }
                lemma_left_out(first@, later, limit as nat, two, k);
            }
        }
        lemma_counts_all(two, first@.len(), limit as nat);
    }
}

/// So many distinct positions that hold every one below a bound are all of them.
proof fn lemma_counts_all(picked: Seq<usize>, bound: nat, limit: nat)
    requires
        forall|i: int| 0 <= i < picked.len() ==> (#[trigger] picked[i]) < bound,
        forall|i: int, j: int|
            0 <= i < j < picked.len() ==> (#[trigger] picked[i]) != (#[trigger] picked[j]),
        forall|k: int| 0 <= k < bound ==> picked.contains(#[trigger] (k as usize)) || picked.len()
            == limit,
        bound <= limit,
        bound <= usize::MAX,
    ensures
        picked.len() == bound,
{
    let numbers = picked.map_values(|at: usize| at as int);
    assert(numbers.no_duplicates());
    numbers.unique_seq_to_set();
    let below = vstd::set_lib::set_int_range(0, bound as int);
    vstd::set_lib::lemma_int_range(0, bound as int);
    assert(numbers.to_set().subset_of(below)) by {
        assert forall|n: int| numbers.to_set().contains(n) implies below.contains(n) by {
            let i = choose|i: int| 0 <= i < numbers.len() && numbers[i] == n;
            assert(picked[i] < bound);
        }
    }
    vstd::set_lib::lemma_len_subset(numbers.to_set(), below);
    if picked.len() < bound {
        assert(below.subset_of(numbers.to_set())) by {
            assert forall|n: int| below.contains(n) implies numbers.to_set().contains(n) by {
                assert(picked.contains(n as usize));
                let i = choose|i: int| 0 <= i < picked.len() && picked[i] == n as usize;
                assert(numbers[i] == n);
            }
        }
        vstd::set_lib::lemma_len_subset(below, numbers.to_set());
    }
}

/// A worker renews its own lease, while the job is not to be cancelled, and
/// reports progress on it; nothing else of the job changes.
pub proof fn law_holders_renew_and_report(
    job: Option<JobRecord>,
    worker: &str,
    lease_until: i64,
    progress: Json,
    now: i64,
    renewed: Result<(Option<JobRecord>, bool), StateError>,
    reported: Result<JobRecord, StateError>,
    stop: Result<bool, StateError>,
)
    requires
        call_ensures(renew_claimed, (job, worker, lease_until, now), renewed),
        call_ensures(update_progress, (job, worker, progress, now), reported),
        call_ensures(should_cancel_claimed, (job, worker), stop),
    ensures
        renewed is Ok <==> label_ok(worker@, 128) && now < lease_until,
        renewed matches Ok((after, cancel)) ==> {
            &&& cancel <==> !(may_settle(job, worker@) && !job->0.cancel_requested)
            &&& cancel ==> after == job
            &&& !cancel ==> after is Some && is_same_work(after->0, job->0) && after->0.lease_until
                == Some(lease_until) && after->0.lease_owner == job->0.lease_owner
                && after->0.status == JobStatus::Running && after->0.attempts == job->0.attempts
                && after->0.updated_at == now
        },
        reported is Ok <==> may_settle(job, worker@) && vstd::utf8::encode_utf8(progress@).len()
            <= 262_144,
        reported matches Ok(after) ==> {
            &&& is_same_work(after, job->0)
            &&& after.progress == Some(progress)
            &&& after.status == job->0.status
            &&& after.lease_owner == job->0.lease_owner
            &&& after.lease_until == job->0.lease_until
            &&& after.attempts == job->0.attempts
            &&& after.updated_at == now
        },
        stop is Ok <==> label_ok(worker@, 128),
        stop matches Ok(yes) ==> (yes <==> !(may_settle(job, worker@)
            && !job->0.cancel_requested)),
{
}

/// Work that is not stopped once it runs: backups, consolidation and a reset of
/// the memory pipeline.
pub proof fn law_uninterruptible_work_is_named(job_type: &str, r: bool)
    requires
        call_ensures(is_uninterruptible, (job_type,), r),
    ensures
        job_type@ == "memory.consolidate"@ ==> r,
        job_type@ == "memory.reset_pipeline"@ ==> r,
        (exists|rest: Seq<char>| job_type@ == #[trigger] ("backup."@ + rest)) ==> r,
        r ==> job_type@ == "memory.consolidate"@ || job_type@ == "memory.reset_pipeline"@ || (
        job_type@.len() >= 7 && forall|i: int|
            0 <= i < 7 ==> crate::text::laws::same_letter(#[trigger] job_type@[i], "backup."@[i])),
{
    reveal_strlit("backup.");
    assert forall|rest: Seq<char>| job_type@ == #[trigger] ("backup."@ + rest) implies r by {
        assert forall|i: int| 0 <= i < 7 implies #[trigger] job_type@[i] == "backup."@[i] by {}
    }
    if crate::jobs::backup_type(job_type@) {
        assert forall|i: int| 0 <= i < 7 implies crate::text::laws::same_letter(
            #[trigger] job_type@[i],
            "backup."@[i],
        ) by {
            assert(crate::jobs::ascii_fold(job_type@[i]) == crate::jobs::ascii_fold(
                "backup."@[i],
            ));
        }
    }
}

/// Whether a job can be cancelled: it has not ended and is no running work that
/// is not stopped.
pub open spec fn can_be_cancelled(job: JobRecord) -> bool {
    is_unfinished(job) && !(job.status == JobStatus::Running && crate::jobs::uninterruptible(
        job.job_type@,
    ))
}

/// Whether a job is one with the wish to cancel it noted: one that waits ends at
/// once, one that runs is only flagged.
pub open spec fn wish_is_noted(before: JobRecord, after: JobRecord, now: i64) -> bool {
    &&& is_same_work(after, before)
    &&& after.cancel_requested
    &&& after.updated_at == now
    &&& after.lease_owner == before.lease_owner
    &&& after.lease_until == before.lease_until
    &&& after.attempts == before.attempts
    &&& before.status == JobStatus::Running ==> after.status == JobStatus::Running
        && after.completed_at == before.completed_at
    &&& before.status != JobStatus::Running ==> after.status == JobStatus::Cancelled
        && after.completed_at == Some(now)
}

/// A job is cancelled in its own vault alone, where it can be.
pub proof fn law_cancelling_is_noted(
    context: &VaultContext,
    job: Option<JobRecord>,
    now: i64,
    r: Result<JobRecord, StateError>,
)
    requires
        call_ensures(request_cancel, (context, job, now), r),
    ensures
        r is Ok <==> job is Some && is_of_vault(job->0, context.id.text@) && can_be_cancelled(
            job->0,
        ),
        r matches Ok(after) ==> wish_is_noted(job->0, after, now),
{
}

/// Cancelling a vault, or one kind of its jobs, notes the wish for exactly the
/// jobs that can be cancelled and tells how many they are.
pub proof fn law_cancelling_a_vault_takes_its_jobs_alone(
    context: &VaultContext,
    jobs: Vec<JobRecord>,
    job_type: &str,
    now: i64,
    all: (Vec<JobRecord>, u64),
    some: Result<(Vec<JobRecord>, u64), StateError>,
)
    requires
        call_ensures(request_cancel_all, (context, jobs, now), all),
        call_ensures(request_cancel_type, (context, jobs, job_type, now), some),
    ensures
        all.0@.len() == jobs@.len(),
        forall|k: int|
            0 <= k < jobs@.len() ==> if is_of_vault(#[trigger] jobs@[k], context.id.text@)
                && can_be_cancelled(jobs@[k]) {
                wish_is_noted(jobs@[k], all.0@[k], now)
            } else {
                all.0@[k] == jobs@[k]
            },
        all.1 == jobs@.filter(
            |job: JobRecord| is_of_vault(job, context.id.text@) && can_be_cancelled(job),
        ).len(),
        some matches Ok((after, count)) ==> {
            &&& after@.len() == jobs@.len()
            &&& forall|k: int|
                0 <= k < jobs@.len() ==> if is_of_vault(#[trigger] jobs@[k], context.id.text@)
                    && jobs@[k].job_type@ == job_type@ && can_be_cancelled(jobs@[k]) {
                    wish_is_noted(jobs@[k], after@[k], now)
                } else {
                    after@[k] == jobs@[k]
                }
            &&& count == jobs@.filter(
                |job: JobRecord|
                    is_of_vault(job, context.id.text@) && job.job_type@ == job_type@
                        && can_be_cancelled(job),
            ).len()
        },
{
    lemma_cancelled_count(
        jobs@,
        context.id@,
        None,
        |job: JobRecord| is_of_vault(job, context.id.text@) && can_be_cancelled(job),
    );
    lemma_cancelled_count(
        jobs@,
        context.id@,
        Some(job_type@),
        |job: JobRecord|
            is_of_vault(job, context.id.text@) && job.job_type@ == job_type@ && can_be_cancelled(
                job,
            ),
    );
}

proof fn lemma_cancelled_count(
    jobs: Seq<JobRecord>,
    vault: Seq<char>,
    job_type: Option<Seq<char>>,
    rule: spec_fn(JobRecord) -> bool,
)
    requires
        forall|job: JobRecord| #[trigger]
            rule(job) <==> is_of_vault(job, vault) && can_be_cancelled(job) && (
            job_type matches Some(only) ==> job.job_type@ == only),
    ensures
        crate::jobs::cancelled_count(jobs, vault, job_type) == jobs.filter(rule).len(),
    decreases jobs.len(),
{
    reveal(Seq::filter);
    if jobs.len() > 0 {
        lemma_cancelled_count(jobs.drop_last(), vault, job_type, rule);
        assert(crate::jobs::cancels(jobs.last(), vault, job_type) <==> rule(jobs.last()));
    }
}

/// Whether a job starts anew: queued at once, with all its attempts.
pub open spec fn starts_anew(before: JobRecord, after: JobRecord, now: i64) -> bool {
    &&& is_same_work(after, before)
    &&& after.status == JobStatus::Queued
    &&& after.available_at == now
    &&& after.lease_owner is None
    &&& after.lease_until is None
    &&& after.attempts == 0
    &&& !after.cancel_requested
    &&& after.last_error is None
    &&& after.completed_at is None
    &&& after.updated_at == now
}

/// A failed job can be retried and a failed or cancelled one restarted, in its
/// own vault; both start anew. Only a retried extraction keeps its progress.
pub proof fn law_ended_jobs_start_anew(
    context: &VaultContext,
    job: Option<JobRecord>,
    now: i64,
    retried: Result<JobRecord, StateError>,
    restarted: Result<JobRecord, StateError>,
)
    requires
        call_ensures(request_retry, (context, job, now), retried),
        call_ensures(request_restart_terminal, (context, job, now), restarted),
    ensures
        retried is Ok <==> job is Some && is_of_vault(job->0, context.id.text@) && job->0.status
            == JobStatus::Failed,
        restarted is Ok <==> job is Some && is_of_vault(job->0, context.id.text@) && (job->0.status
            == JobStatus::Failed || job->0.status == JobStatus::Cancelled),
        retried matches Ok(after) ==> starts_anew(job->0, after, now) && after.progress == if
            job->0.job_type@ == "memory.extract"@ {
            job->0.progress
        } else {
            None
        },
        restarted matches Ok(after) ==> starts_anew(job->0, after, now) && after.progress is None,
{
}

/// A worker that stops gives exactly its own leases back; those jobs can be
/// claimed again, with the attempt spent.
pub proof fn law_stopped_workers_give_their_leases_back(
    jobs: Vec<JobRecord>,
    worker: &str,
    now: i64,
    r: Result<Vec<JobRecord>, StateError>,
)
    requires
        call_ensures(release_worker_leases, (jobs, worker, now), r),
    ensures
        r is Ok <==> label_ok(worker@, 128),
        r matches Ok(after) ==> after@.len() == jobs@.len() && forall|k: int|
            0 <= k < jobs@.len() ==> if is_leased_to(#[trigger] jobs@[k], worker@) {
                &&& is_same_work(after@[k], jobs@[k])
                &&& after@[k].status == JobStatus::RetryWait
                &&& after@[k].lease_owner is None
                &&& after@[k].lease_until is None
                &&& after@[k].attempts == jobs@[k].attempts
                &&& after@[k].available_at == jobs@[k].available_at
                &&& after@[k].updated_at == now
            } else {
                after@[k] == jobs@[k]
            },
{
}

/// Whether a job is an unfinished one of a kind in a vault.
pub open spec fn is_active_of(job: JobRecord, vault: Seq<char>, job_type: Seq<char>) -> bool {
    is_of_vault(job, vault) && job.job_type@ == job_type && is_unfinished(job)
}

/// The active job of a kind: the newest unfinished one of the vault.
pub proof fn law_newest_active_job_is_found(
    context: &VaultContext,
    jobs: &[JobRecord],
    job_type: &str,
    r: Result<Option<usize>, StateError>,
    k: int,
)
    requires
        call_ensures(find_active_by_type, (context, jobs, job_type), r),
        0 <= k < jobs@.len(),
        is_active_of(jobs@[k], context.id.text@, job_type@),
    ensures
        r matches Ok(found) ==> found is Some && found->0 < jobs@.len() && is_active_of(
            jobs@[found->0 as int],
            context.id.text@,
            job_type@,
        ) && jobs@[found->0 as int].created_at >= jobs@[k].created_at,
        label_ok(job_type@, 128) <==> r is Ok,
{
    lemma_short_labels();
    assert(jobs@[k].active_of(context.id@, job_type@));
    if let Ok(found) = r {
        if found is None {
            assert(crate::jobs::has_active(jobs@, context.id@, job_type@));
        } else {
            assert(!jobs@[k].newer_than(
                jobs@[found->0 as int].created_at,
                jobs@[found->0 as int].id@,
            ));
        }
    }
}

/// The labels that stand in for a key are valid ones.
proof fn lemma_short_labels()
    ensures
        label_ok("active-job-type"@, 512),
        label_ok("coalesce-check"@, 512),
{
    reveal_strlit("active-job-type");
    reveal_strlit("coalesce-check");
    lemma_plain_label("active-job-type"@);
    lemma_plain_label("coalesce-check"@);
}

/// A short ASCII text without control characters is a valid label.
proof fn lemma_plain_label(text: Seq<char>)
    requires
        0 < text.len() <= 100,
        forall|i: int| 0 <= i < text.len() ==> ' ' <= #[trigger] text[i] <= '~',
    ensures
        label_ok(text, 512),
{
    assert(vstd::utf8::is_ascii_chars(text));
    vstd::utf8::is_ascii_chars_encode_utf8(text);
}

/// Whether a request can be admitted: valid labels, a bounded number of attempts
/// and a payload that fits.
pub open spec fn can_be_admitted(request: JobRequest) -> bool {
    &&& label_ok(request.job_type@, 128)
    &&& label_ok(request.dedup_key@, 512)
    &&& 1 <= request.max_attempts <= 100
    &&& vstd::utf8::encode_utf8(request.payload@).len() <= 262_144
}

/// Whether a job is the new one that a request asks for.
pub open spec fn is_new_job(
    job: JobRecord,
    request: JobRequest,
    id: Id,
    vault_id: Option<Id>,
    now: i64,
) -> bool {
    &&& job.id == id
    &&& job.vault_id == vault_id
    &&& job.job_type@ == request.job_type@
    &&& job.dedup_key@ == request.dedup_key@
    &&& job.payload == request.payload
    &&& job.status == JobStatus::Queued
    &&& job.priority == request.priority
    &&& job.attempts == 0
    &&& job.max_attempts == request.max_attempts
    &&& job.available_at == request.available_at
    &&& job.lease_owner is None
    &&& job.lease_until is None
    &&& job.progress is None
    &&& job.last_error is None
    &&& job.created_at == now
    &&& job.updated_at == now
    &&& job.completed_at is None
    &&& !job.cancel_requested
}

/// A request is admitted once under its key: where the vault has a job with that
/// key, that job comes back; else a new one that holds the request.
pub proof fn law_requests_are_admitted_once(
    context: &VaultContext,
    jobs: &[JobRecord],
    id: Id,
    request: &JobRequest,
    now: i64,
    r: Result<Enqueued, StateError>,
    global: Result<Enqueued, StateError>,
)
    requires
        call_ensures(enqueue, (context, jobs, id, request, now), r),
        call_ensures(enqueue_global, (jobs, id, request, now), global),
    ensures
        r is Ok <==> can_be_admitted(*request),
        global is Ok <==> can_be_admitted(*request),
        r matches Ok(Enqueued::Existing(job)) ==> jobs@.contains(job) && is_of_vault(
            job,
            context.id.text@,
        ) && job.dedup_key@ == request.dedup_key@,
        r matches Ok(Enqueued::Created(job)) ==> is_new_job(
            job,
            *request,
            id,
            Some(context.id),
            now,
        ) && forall|k: int|
            0 <= k < jobs@.len() ==> !(is_of_vault(#[trigger] jobs@[k], context.id.text@)
                && jobs@[k].dedup_key@ == request.dedup_key@),
        global matches Ok(Enqueued::Existing(job)) ==> jobs@.contains(job) && job.vault_id is None
            && job.dedup_key@ == request.dedup_key@,
        global matches Ok(Enqueued::Created(job)) ==> is_new_job(job, *request, id, None, now)
            && forall|k: int|
            0 <= k < jobs@.len() ==> !((#[trigger] jobs@[k]).vault_id is None && jobs@[k].dedup_key@
                == request.dedup_key@),
{
    let own = |job: JobRecord|
        job.holds_key(
            crate::jobs::admission::scope_text(Some(context.id)),
            request.dedup_key@,
        );
    let shared = |job: JobRecord|
        job.holds_key(crate::jobs::admission::scope_text(None), request.dedup_key@);
    lemma_first_index(jobs@, own);
    lemma_first_index(jobs@, shared);
    assert forall|k: int|
        0 <= k < jobs@.len() && is_of_vault(#[trigger] jobs@[k], context.id.text@)
            && jobs@[k].dedup_key@ == request.dedup_key@ implies own(jobs@[k]) by {}
    assert forall|k: int|
        0 <= k < jobs@.len() && (#[trigger] jobs@[k]).vault_id is None && jobs@[k].dedup_key@
            == request.dedup_key@ implies shared(jobs@[k]) by {}
}

/// A singleton is admitted only where the vault has no unfinished job of its
/// kind; else the newest such job comes back.
pub proof fn law_singletons_are_admitted_alone(
    context: &VaultContext,
    jobs: &[JobRecord],
    id: Id,
    request: &JobRequest,
    now: i64,
    r: Result<Enqueued, StateError>,
)
    requires
        call_ensures(enqueue_singleton, (context, jobs, id, request, now), r),
    ensures
        (exists|k: int|
            0 <= k < jobs@.len() && is_active_of(
                #[trigger] jobs@[k],
                context.id.text@,
                request.job_type@,
            )) && label_ok(request.job_type@, 128) ==> (r matches Ok(Enqueued::Existing(job))
            && jobs@.contains(job) && is_active_of(job, context.id.text@, request.job_type@)
            && forall|k: int|
            0 <= k < jobs@.len() && is_active_of(
                #[trigger] jobs@[k],
                context.id.text@,
                request.job_type@,
            ) ==> jobs@[k].created_at <= job.created_at),
        r matches Ok(Enqueued::Created(job)) ==> is_new_job(
            job,
            *request,
            id,
            Some(context.id),
            now,
        ) && forall|k: int|
            0 <= k < jobs@.len() ==> !is_active_of(
                #[trigger] jobs@[k],
                context.id.text@,
                request.job_type@,
            ),
{
    lemma_short_labels();
    let vault = context.id@;
    let kind = request.job_type@;
    assert forall|k: int| 0 <= k < jobs@.len() implies (is_active_of(
        #[trigger] jobs@[k],
        vault,
        kind,
    ) <==> jobs@[k].active_of(vault, kind)) by {}
    if exists|k: int| 0 <= k < jobs@.len() && is_active_of(#[trigger] jobs@[k], vault, kind) {
        let k = choose|k: int|
            0 <= k < jobs@.len() && is_active_of(#[trigger] jobs@[k], vault, kind);
        assert(jobs@[k].active_of(vault, kind));
        assert(crate::jobs::has_active(jobs@, vault, kind));
        if label_ok(kind, 128) {
            let at = choose|at: int|
                {
                    &&& #[trigger] crate::jobs::newest_active(jobs@, vault, kind, at)
                    &&& r == Ok::<Enqueued, StateError>(Enqueued::Existing(jobs@[at]))
                };
            assert forall|n: int|
                0 <= n < jobs@.len() && is_active_of(
                    #[trigger] jobs@[n],
                    vault,
                    kind,
                ) implies jobs@[n].created_at <= jobs@[at].created_at by {
                assert(jobs@[n].active_of(vault, kind));
                assert(!jobs@[n].newer_than(jobs@[at].created_at, jobs@[at].id@));
            }
            assert(jobs@.contains(jobs@[at]));
        }
    }
}

/// A later job of the same kind makes an earlier one obsolete exactly where it is
/// an unfinished one of the vault that was created after it.
pub proof fn law_newer_jobs_are_seen(
    context: &VaultContext,
    jobs: &[JobRecord],
    job_type: &str,
    created_at: i64,
    id: &Id,
    r: Result<bool, StateError>,
)
    requires
        call_ensures(has_newer_active_job, (context, jobs, job_type, created_at, id), r),
    ensures
        r is Ok <==> label_ok(job_type@, 128),
        r matches Ok(yes) ==> (yes <==> exists|k: int|
            0 <= k < jobs@.len() && is_active_of(
                #[trigger] jobs@[k],
                context.id.text@,
                job_type@,
            ) && (jobs@[k].created_at > created_at || (jobs@[k].created_at == created_at
                && text_before(id.text@, jobs@[k].id.text@)))),
{
    lemma_short_labels();
    assert forall|k: int| 0 <= k < jobs@.len() implies (is_active_of(
        #[trigger] jobs@[k],
        context.id.text@,
        job_type@,
    ) <==> jobs@[k].active_of(context.id@, job_type@)) by {}
    if exists|k: int|
        0 <= k < jobs@.len() && is_active_of(
            #[trigger] jobs@[k],
            context.id.text@,
            job_type@,
        ) && (jobs@[k].created_at > created_at || (jobs@[k].created_at == created_at
            && text_before(id.text@, jobs@[k].id.text@))) {
        let k = choose|k: int|
            0 <= k < jobs@.len() && is_active_of(
                #[trigger] jobs@[k],
                context.id.text@,
                job_type@,
            ) && (jobs@[k].created_at > created_at || (jobs@[k].created_at == created_at
                && text_before(id.text@, jobs@[k].id.text@)));
        assert(jobs@[k].active_of(context.id@, job_type@));
        assert(crate::jobs::newer_active(jobs@, context.id@, job_type@, created_at, id@));
    }
}

/// Listings show jobs of the vault with the status and kind that are asked for,
/// the newest first; ended jobs are listed by when they ended, the latest first.
pub proof fn law_job_listings_stay_in_their_vault(
    context: &VaultContext,
    jobs: &[JobRecord],
    status: Option<JobStatus>,
    job_type: Option<&str>,
    limit: u32,
    offset: u32,
    all: Result<Vec<usize>, StateError>,
    ended: Result<Vec<usize>, StateError>,
)
    requires
        call_ensures(list, (context, jobs, status, job_type, limit, offset), all),
        call_ensures(list_terminal, (context, jobs, limit, offset), ended),
    ensures
        all matches Ok(picked) ==> {
            &&& 1 <= limit <= 200
            &&& picked@.len() <= limit
            &&& forall|i: int|
                0 <= i < picked@.len() ==> {
                    let job = jobs@[#[trigger] picked@[i] as int];
                    &&& picked@[i] < jobs@.len()
                    &&& is_of_vault(job, context.id.text@)
                    &&& status matches Some(only) ==> job.status == only
                    &&& job_type matches Some(only) ==> job.job_type@ == only@
                }
            &&& forall|i: int, j: int|
                0 <= i < j < picked@.len() ==> jobs@[#[trigger] picked@[i] as int].created_at
                    >= jobs@[#[trigger] picked@[j] as int].created_at && picked@[i] != picked@[j]
            &&& offset == 0 && picked@.len() < limit ==> forall|k: int|
                0 <= k < jobs@.len() && is_of_vault(#[trigger] jobs@[k], context.id.text@) && (
                status matches Some(only) ==> jobs@[k].status == only) && (
                job_type matches Some(only) ==> jobs@[k].job_type@ == only@) ==> picked@.contains(
                    k as usize,
                )
        },
        ended is Ok <==> 1 <= limit <= 200 && offset <= 1_000_000,
        ended matches Ok(picked) ==> {
            &&& picked@.len() <= limit
            &&& forall|i: int|
                0 <= i < picked@.len() ==> (#[trigger] picked@[i]) < jobs@.len() && is_of_vault(
                    jobs@[picked@[i] as int],
                    context.id.text@,
                ) && !is_unfinished(jobs@[picked@[i] as int])
            &&& forall|i: int, j: int|
                0 <= i < j < picked@.len() ==> ended_at(jobs@[#[trigger] picked@[i] as int])
                    >= ended_at(jobs@[#[trigger] picked@[j] as int]) && picked@[i] != picked@[j]
            &&& offset == 0 && picked@.len() < limit ==> forall|k: int|
                0 <= k < jobs@.len() && is_of_vault(#[trigger] jobs@[k], context.id.text@)
                    && !is_unfinished(jobs@[k]) ==> picked@.contains(k as usize)
        },
{
    if let Ok(picked) = all {
        let keys = jobs@.map_values(|job: JobRecord| crate::jobs::queries::listing_key(job));
        let eligible = jobs@.map_values(
            |job: JobRecord| crate::jobs::queries::shown(job, context.id@, status, job_type),
        );
        lemma_page_rows(keys, eligible, false, limit as nat, offset as nat, picked@);
        assert forall|i: int| 0 <= i < picked@.len() implies crate::jobs::queries::shown(
            jobs@[#[trigger] picked@[i] as int],
            context.id@,
            status,
            job_type,
        ) by {
            assert(eligible[picked@[i] as int]);
        }
        assert forall|i: int, j: int|
            0 <= i < j < picked@.len() implies jobs@[#[trigger] picked@[i] as int].created_at
            >= jobs@[#[trigger] picked@[j] as int].created_at && picked@[i] != picked@[j] by {
            assert(no_later(keys[picked@[i] as int], keys[picked@[j] as int]));
        }
        assert forall|k: int|
            offset == 0 && picked@.len() < limit && 0 <= k < jobs@.len() && is_of_vault(
                #[trigger] jobs@[k],
                context.id.text@,
            ) && (status matches Some(only) ==> jobs@[k].status == only) && (
            job_type matches Some(only) ==> jobs@[k].job_type@
                == only@) implies picked@.contains(k as usize) by {
            assert(eligible[k]);
        }
    }
    if let Ok(picked) = ended {
        let keys = jobs@.map_values(|job: JobRecord| crate::jobs::queries::ended_key(job));
        let eligible = jobs@.map_values(
            |job: JobRecord| job.in_vault(context.id@) && job.status.terminal(),
        );
        lemma_page_rows(keys, eligible, true, limit as nat, offset as nat, picked@);
        assert forall|i: int| 0 <= i < picked@.len() implies (#[trigger] picked@[i]) < jobs@.len()
            && is_of_vault(jobs@[picked@[i] as int], context.id.text@) && !is_unfinished(
            jobs@[picked@[i] as int],
        ) by {
            assert(eligible[picked@[i] as int]);
        }
        assert forall|i: int, j: int|
            0 <= i < j < picked@.len() implies ended_at(jobs@[#[trigger] picked@[i] as int])
            >= ended_at(jobs@[#[trigger] picked@[j] as int]) && picked@[i] != picked@[j] by {
            assert(no_later(keys[picked@[j] as int], keys[picked@[i] as int]));
        }
        assert forall|k: int|
            offset == 0 && picked@.len() < limit && 0 <= k < jobs@.len() && is_of_vault(
                #[trigger] jobs@[k],
                context.id.text@,
            ) && !is_unfinished(jobs@[k]) implies picked@.contains(k as usize) by {
            assert(eligible[k]);
        }
    }
}

/// When a job ended: at its completion, else at its last update.
pub open spec fn ended_at(job: JobRecord) -> i64 {
    match job.completed_at {
        Some(at) => at,
        None => job.updated_at,
    }
}

/// A job is read by its identity, or by its key, in its own vault alone.
pub proof fn law_jobs_are_read_in_their_vault(
    context: &VaultContext,
    jobs: &[JobRecord],
    id: &Id,
    key: &str,
    by_id: Option<usize>,
    by_key: Option<usize>,
)
    requires
        call_ensures(get, (context, jobs, id), by_id),
        call_ensures(find_by_dedup, (context, jobs, key), by_key),
    ensures
        match by_id {
            Some(i) => i < jobs@.len() && is_of_vault(jobs@[i as int], context.id.text@)
                && jobs@[i as int].id.text@ == id.text@,
            None => forall|k: int|
                0 <= k < jobs@.len() ==> !(is_of_vault(#[trigger] jobs@[k], context.id.text@)
                    && jobs@[k].id.text@ == id.text@),
        },
        match by_key {
            Some(i) => i < jobs@.len() && is_of_vault(jobs@[i as int], context.id.text@)
                && jobs@[i as int].dedup_key@ == key@,
            None => forall|k: int|
                0 <= k < jobs@.len() ==> !(is_of_vault(#[trigger] jobs@[k], context.id.text@)
                    && jobs@[k].dedup_key@ == key@),
        },
{
    lemma_first_index(
        jobs@,
        |job: JobRecord| job.id@ == id@ && job.in_vault(context.id@),
    );
    lemma_first_index(jobs@, |job: JobRecord| job.holds_key(Some(context.id@), key@));
}

/// Counts of a vault are its jobs in each state; the pending ones are those that
/// have not ended.
pub proof fn law_jobs_are_counted_by_state(
    context: &VaultContext,
    jobs: &[JobRecord],
    counts: JobStatusCounts,
    pending: u64,
    everywhere: u64,
    status: JobStatus,
)
    requires
        call_ensures(count_statuses, (context, jobs), counts),
        call_ensures(pending_count_for, (context, jobs), pending),
        call_ensures(pending_count, (jobs,), everywhere),
    ensures
        (match status {
            JobStatus::Queued => counts.queued,
            JobStatus::Running => counts.running,
            JobStatus::RetryWait => counts.retry_wait,
            JobStatus::Completed => counts.completed,
            JobStatus::Failed => counts.failed,
            JobStatus::Cancelled => counts.cancelled,
        }) == jobs@.filter(in_state_of(context.id.text@, status)).len(),
        pending == counts.queued + counts.running + counts.retry_wait,
        everywhere == jobs@.filter(|job: JobRecord| is_unfinished(job)).len(),
{
    crate::jobs::queries::law_pending_is_the_sum_of_statuses(jobs@, context.id@);
    let named = in_state_of(context.id.text@, status);
    let counted = |job: JobRecord| job.in_vault(context.id@) && job.status == status;
    assert(named =~= counted);
    let open = |job: JobRecord| !job.status.terminal();
    let unfinished = |job: JobRecord| is_unfinished(job);
    assert(open =~= unfinished);
}

/// The rule that picks a vault's jobs in one state.
pub open spec fn in_state_of(vault: Seq<char>, status: JobStatus) -> spec_fn(JobRecord) -> bool {
    |job: JobRecord| is_of_vault(job, vault) && job.status == status
}

} // verus!
