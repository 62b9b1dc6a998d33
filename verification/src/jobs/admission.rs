//! Admitting jobs against the stored ones.

use vstd::prelude::*;

use crate::background::job_labels_ok;
use crate::domain::{Id, VaultContext};
use crate::error::StateError;
use crate::jobs::queries::find_by_scope;
use crate::jobs::{
    enqueue_error, enqueue_inner, find_active_by_type, has_active, newest_active, Enqueued,
    JobRecord, JobStatus,
};
use crate::json::Json;
use crate::rows::first_row;

verus! {

/// What a caller asks to run.
#[derive(Clone, Debug, PartialEq, Eq)]
pub struct JobRequest {
    /// Stable handler category.
    pub job_type: String,
    /// Deterministic deduplication key.
    pub dedup_key: String,
    /// Bounded handler input.
    pub payload: Json,
    /// Higher values are claimed first.
    pub priority: i32,
    /// Maximum claims before the job fails.
    pub max_attempts: u32,
    /// Earliest claim timestamp.
    pub available_at: i64,
}

impl JobRequest {
    /// Why the request is refused, if it is.
    pub open spec fn error(self) -> Option<StateError> {
        enqueue_error(self.job_type@, self.dedup_key@, self.payload@, self.max_attempts)
    }

    /// Whether a job is the one that the request creates.
    pub open spec fn creates(self, job: JobRecord, vault_id: Option<Id>, id: Id, now: i64) -> bool {
        &&& job.job_type@ == self.job_type@
        &&& job.dedup_key@ == self.dedup_key@
        &&& job == (JobRecord {
            id,
            vault_id,
            job_type: job.job_type,
            dedup_key: job.dedup_key,
            payload: self.payload,
            status: JobStatus::Queued,
            priority: self.priority,
            attempts: 0,
            max_attempts: self.max_attempts,
            available_at: self.available_at,
            lease_owner: None,
            lease_until: None,
            progress: None,
            last_error: None,
            created_at: now,
            updated_at: now,
            completed_at: None,
            cancel_requested: false,
        })
    }
}

/// Identity of the vault that a scope names.
pub open spec fn scope_text(vault_id: Option<Id>) -> Option<Seq<char>> {
    match vault_id {
        Some(vault_id) => Some(vault_id@),
        None => None,
    }
}

/// The stored job that holds the request's key in a scope.
pub open spec fn key_holder(jobs: Seq<JobRecord>, vault_id: Option<Id>, dedup_key: Seq<char>) -> Option<
    JobRecord,
> {
    first_row(jobs, |job: JobRecord| job.holds_key(scope_text(vault_id), dedup_key))
}

/// Whether `r` is what admitting a request into a scope comes to.
pub open spec fn admitted(
    jobs: Seq<JobRecord>,
    vault_id: Option<Id>,
    id: Id,
    request: JobRequest,
    now: i64,
    r: Result<Enqueued, StateError>,
) -> bool {
    match request.error() {
        Some(error) => r == Err::<Enqueued, StateError>(error),
        None => match key_holder(jobs, vault_id, request.dedup_key@) {
            Some(job) => r == Ok::<Enqueued, StateError>(Enqueued::Existing(job)),
            None => r matches Ok(Enqueued::Created(job)) && request.creates(job, vault_id, id, now),
        },
    }
}

/// Enqueue into a scope, or return the stored job that holds the key there.
/// `id` is a fresh identity.
fn enqueue_into(jobs: &[JobRecord], vault_id: Option<Id>, id: Id, request: &JobRequest, now: i64) -> (r: Result<
    Enqueued,
    StateError,
>)
    ensures
        admitted(jobs@, vault_id, id, *request, now, r),
{
    let holder = match &vault_id {
        Some(vault) => find_by_scope(Some(vault), jobs, request.dedup_key.as_str()),
        None => find_by_scope(None, jobs, request.dedup_key.as_str()),
    };
    let ghost rule = |job: JobRecord| job.holds_key(scope_text(vault_id), request.dedup_key@);
    assert(key_holder(jobs@, vault_id, request.dedup_key@) == first_row(jobs@, rule));
    let existing = match holder {
        Some(at) => Some(jobs[at].duplicate()),
        None => None,
    };
    enqueue_inner(
        existing,
        vault_id,
        id,
        request.job_type.as_str(),
        request.dedup_key.as_str(),
        &request.payload,
        request.priority,
        request.max_attempts,
        request.available_at,
        now,
    )
}

/// Enqueue a job of the vault, or return the one that holds the key there. `id`
/// is a fresh identity.
pub fn enqueue(
    context: &VaultContext,
    jobs: &[JobRecord],
    id: Id,
    request: &JobRequest,
    now: i64,
) -> (r: Result<Enqueued, StateError>)
    ensures
        admitted(jobs@, Some(context.id), id, *request, now, r),
{
    enqueue_into(jobs, Some(context.id.duplicate()), id, request, now)
}

/// Enqueue an explicitly global job, or return the global one that holds the
/// key. `id` is a fresh identity.
pub fn enqueue_global(jobs: &[JobRecord], id: Id, request: &JobRequest, now: i64) -> (r: Result<
    Enqueued,
    StateError,
>)
    ensures
        admitted(jobs@, None, id, *request, now, r),
{
    enqueue_into(jobs, None, id, request, now)
}

/// Whether `r` is what enqueueing the only job of its type in a vault comes to.
pub open spec fn singly_admitted(
    jobs: Seq<JobRecord>,
    vault_id: Id,
    id: Id,
    request: JobRequest,
    now: i64,
    r: Result<Enqueued, StateError>,
) -> bool {
    if !job_labels_ok(request.job_type@, "active-job-type"@) {
        r == Err::<Enqueued, StateError>(StateError::InvalidInput("job label is invalid"))
    } else if has_active(jobs, vault_id@, request.job_type@) {
        exists|at: int|
            {
                &&& #[trigger] newest_active(jobs, vault_id@, request.job_type@, at)
                &&& r == Ok::<Enqueued, StateError>(Enqueued::Existing(jobs[at]))
            }
    } else {
        admitted(jobs, Some(vault_id), id, request, now, r)
    }
}

/// Enqueue a job of which the vault runs one at a time: an unfinished job of
/// the type is returned, whatever its key. `id` is a fresh identity.
pub fn enqueue_singleton(
    context: &VaultContext,
    jobs: &[JobRecord],
    id: Id,
    request: &JobRequest,
    now: i64,
) -> (r: Result<Enqueued, StateError>)
    ensures
        singly_admitted(jobs@, context.id, id, *request, now, r),
{
    let active = match find_active_by_type(context, jobs, request.job_type.as_str()) {
        Ok(active) => active,
        Err(error) => return Err(error),
    };
    match active {
        Some(at) => {
            let existing = jobs[at].duplicate();
            assert(newest_active(jobs@, context.id@, request.job_type@, at as int));
            assert(jobs@[at as int].active_of(context.id@, request.job_type@));
            Ok(Enqueued::Existing(existing))
        },
        None => enqueue_into(jobs, Some(context.id.duplicate()), id, request, now),
    }
}

/// A singleton is created only where the vault has no unfinished job of its
/// type.
pub proof fn law_singletons_run_alone(
    jobs: Seq<JobRecord>,
    vault_id: Id,
    id: Id,
    request: JobRequest,
    now: i64,
    r: Result<Enqueued, StateError>,
)
    requires
        singly_admitted(jobs, vault_id, id, request, now, r),
        r matches Ok(Enqueued::Created(_)),
    ensures
        !has_active(jobs, vault_id@, request.job_type@),
{
}

/// Asking again under the same key gives the job that was created.
pub proof fn law_enqueue_is_idempotent(
    jobs: Seq<JobRecord>,
    vault_id: Option<Id>,
    id: Id,
    later_id: Id,
    request: JobRequest,
    now: i64,
    later: i64,
    job: JobRecord,
    again: Result<Enqueued, StateError>,
)
    requires
        admitted(jobs, vault_id, id, request, now, Ok(Enqueued::Created(job))),
        admitted(jobs.push(job), vault_id, later_id, request, later, again),
    ensures
        again == Ok::<Enqueued, StateError>(Enqueued::Existing(job)),
{
    let rule = |held: JobRecord| held.holds_key(scope_text(vault_id), request.dedup_key@);
    let grown = jobs.push(job);
    crate::rows::lemma_first_index(jobs, rule);
    assert(first_row(jobs, rule) is None);
    assert(grown[jobs.len() as int] == job);
    assert(rule(job));
    assert forall|k: int| 0 <= k < jobs.len() implies !rule(#[trigger] grown[k]) by {
        assert(grown[k] == jobs[k]);
    }
    crate::rows::lemma_first_index_is(grown, rule, jobs.len() as int);
    assert(key_holder(grown, vault_id, request.dedup_key@) == Some(job));
}

} // verus!
