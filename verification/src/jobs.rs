//! Durable, deduplicated background jobs.

use vstd::prelude::*;

use crate::background::{
    job_labels_ok, validate_attempts, validate_error, validate_job_labels, validate_payload,
    validate_worker, MAX_ERROR_BYTES, MAX_PAYLOAD_BYTES, MAX_WORKER_ID_BYTES,
};
use crate::domain::{
    duplicate_optional, duplicate_text, id_of, optional_id, stored_id, Id, VaultContext,
};
use crate::error::{accepted_if, invalid, DatabaseFault, StateError};
use crate::json::{compact_json, Json};
use crate::order::{is_placed_before, is_selection, placed_before, select, SortKey};
use crate::outbox::{claim_error, validate_claim};
use crate::text::{
    byte_len, chars_of, label_ok, optional_text, str_text, text_before, text_eq, text_less,
};

pub mod admission;
pub mod laws;
pub mod queries;

verus! {

/// Persistent job lifecycle.
#[derive(Clone, Copy, Debug, PartialEq, Eq, Structural)]
pub enum JobStatus {
    /// Waiting for a worker.
    Queued,
    /// Currently leased to a worker.
    Running,
    /// Waiting for a retry timestamp.
    RetryWait,
    /// Handler completed successfully.
    Completed,
    /// Retry policy exhausted or permanently failed.
    Failed,
    /// Explicitly cancelled.
    Cancelled,
}

impl JobStatus {
    /// Stable database label.
    pub open spec fn label(self) -> Seq<char> {
        match self {
            JobStatus::Queued => "queued"@,
            JobStatus::Running => "running"@,
            JobStatus::RetryWait => "retry_wait"@,
            JobStatus::Completed => "completed"@,
            JobStatus::Failed => "failed"@,
            JobStatus::Cancelled => "cancelled"@,
        }
    }

    /// Whether nothing more happens to the job by itself.
    pub open spec fn terminal(self) -> bool {
        self == JobStatus::Completed || self == JobStatus::Failed || self == JobStatus::Cancelled
    }

    /// The status that a label names, if any.
    pub open spec fn named(label: Seq<char>) -> Option<JobStatus> {
        if label == "queued"@ {
            Some(JobStatus::Queued)
        } else if label == "running"@ {
            Some(JobStatus::Running)
        } else if label == "retry_wait"@ {
            Some(JobStatus::RetryWait)
        } else if label == "completed"@ {
            Some(JobStatus::Completed)
        } else if label == "failed"@ {
            Some(JobStatus::Failed)
        } else if label == "cancelled"@ {
            Some(JobStatus::Cancelled)
        } else {
            None
        }
    }

    /// Stable database label.
    pub fn as_str(self) -> (label: &'static str)
        ensures
            label@ == self.label(),
    {
        match self {
            JobStatus::Queued => "queued",
            JobStatus::Running => "running",
            JobStatus::RetryWait => "retry_wait",
            JobStatus::Completed => "completed",
            JobStatus::Failed => "failed",
            JobStatus::Cancelled => "cancelled",
        }
    }

    /// Reads a stored label.
    pub fn parse(value: &str) -> (r: Result<JobStatus, StateError>)
        ensures
            r == (match JobStatus::named(value@) {
                Some(status) => Ok::<JobStatus, StateError>(status),
                None => invalid("stored job status is invalid"),
            }),
    {
        if text_eq(value, "queued") {
            Ok(JobStatus::Queued)
        } else if text_eq(value, "running") {
            Ok(JobStatus::Running)
        } else if text_eq(value, "retry_wait") {
            Ok(JobStatus::RetryWait)
        } else if text_eq(value, "completed") {
            Ok(JobStatus::Completed)
        } else if text_eq(value, "failed") {
            Ok(JobStatus::Failed)
        } else if text_eq(value, "cancelled") {
            Ok(JobStatus::Cancelled)
        } else {
            Err(StateError::InvalidInput("stored job status is invalid"))
        }
    }

    fn is_terminal(self) -> (r: bool)
        ensures
            r == self.terminal(),
    {
        match self {
            JobStatus::Completed => true,
            JobStatus::Failed => true,
            JobStatus::Cancelled => true,
            _ => false,
        }
    }
}

/// A stored status reads back as it was written.
pub proof fn law_job_status_round_trip(status: JobStatus)
    ensures
        JobStatus::named(status.label()) == Some(status),
{
    reveal_strlit("queued");
    reveal_strlit("running");
    reveal_strlit("retry_wait");
    reveal_strlit("completed");
    reveal_strlit("failed");
    reveal_strlit("cancelled");
    assert("queued"@[0] != "running"@[0]);
    assert("queued"@[0] != "retry_wait"@[0]);
    assert("queued"@[0] != "completed"@[0]);
    assert("queued"@[0] != "failed"@[0]);
    assert("queued"@[0] != "cancelled"@[0]);
    assert("running"@[1] != "retry_wait"@[1]);
    assert("running"@[0] != "completed"@[0]);
    assert("running"@[0] != "failed"@[0]);
    assert("running"@[0] != "cancelled"@[0]);
    assert("retry_wait"@[0] != "completed"@[0]);
    assert("retry_wait"@[0] != "failed"@[0]);
    assert("retry_wait"@[0] != "cancelled"@[0]);
    assert("completed"@[0] != "failed"@[0]);
    assert("completed"@[1] != "cancelled"@[1]);
    assert("failed"@[0] != "cancelled"@[0]);
}

/// Exact vault-scoped job counts used by operational projections.
#[derive(Clone, Copy, Debug, PartialEq, Eq, Structural)]
pub struct JobStatusCounts {
    /// Jobs not yet leased.
    pub queued: u64,
    /// Jobs with an active worker lease.
    pub running: u64,
    /// Jobs waiting for their next retry timestamp.
    pub retry_wait: u64,
    /// Successfully completed jobs.
    pub completed: u64,
    /// Permanently failed jobs.
    pub failed: u64,
    /// Explicitly cancelled jobs.
    pub cancelled: u64,
}

impl JobStatusCounts {
    /// Counts of a vault without jobs.
    pub open spec fn zero() -> JobStatusCounts {
        JobStatusCounts {
            queued: 0,
            running: 0,
            retry_wait: 0,
            completed: 0,
            failed: 0,
            cancelled: 0,
        }
    }

    /// The counts with one of them replaced.
    pub open spec fn with(self, status: JobStatus, count: u64) -> JobStatusCounts {
        match status {
            JobStatus::Queued => JobStatusCounts { queued: count, ..self },
            JobStatus::Running => JobStatusCounts { running: count, ..self },
            JobStatus::RetryWait => JobStatusCounts { retry_wait: count, ..self },
            JobStatus::Completed => JobStatusCounts { completed: count, ..self },
            JobStatus::Failed => JobStatusCounts { failed: count, ..self },
            JobStatus::Cancelled => JobStatusCounts { cancelled: count, ..self },
        }
    }
}

impl Default for JobStatusCounts {
    fn default() -> (r: JobStatusCounts)
        ensures
            r == JobStatusCounts::zero(),
    {
        JobStatusCounts {
            queued: 0,
            running: 0,
            retry_wait: 0,
            completed: 0,
            failed: 0,
            cancelled: 0,
        }
    }
}

/// One persistent job.
#[derive(Clone, Debug, PartialEq, Eq)]
pub struct JobRecord {
    /// Stable job identity.
    pub id: Id,
    /// Optional vault scope; global jobs are explicit.
    pub vault_id: Option<Id>,
    /// Stable handler category.
    pub job_type: String,
    /// Vault-scoped or global deterministic deduplication key.
    pub dedup_key: String,
    /// Bounded handler input.
    pub payload: Json,
    /// Lifecycle status.
    pub status: JobStatus,
    /// Higher values are claimed first.
    pub priority: i32,
    /// Number of claims.
    pub attempts: u32,
    /// Maximum claims before failed state.
    pub max_attempts: u32,
    /// Earliest claim timestamp.
    pub available_at: i64,
    /// Current lease owner.
    pub lease_owner: Option<String>,
    /// Current lease expiry.
    pub lease_until: Option<i64>,
    /// Bounded structured progress.
    pub progress: Option<Json>,
    /// Last safe error summary.
    pub last_error: Option<String>,
    /// Creation timestamp.
    pub created_at: i64,
    /// Last state update timestamp.
    pub updated_at: i64,
    /// Completion timestamp.
    pub completed_at: Option<i64>,
    /// Cooperative cancellation requested by an operator.
    pub cancel_requested: bool,
}

/// A job as stored.
#[derive(Clone, Debug, PartialEq, Eq)]
pub struct JobRow {
    pub id: String,
    pub vault_id: Option<String>,
    pub job_type: String,
    pub dedup_key: String,
    pub payload_json: String,
    pub status: String,
    pub priority: i64,
    pub attempts: i64,
    pub max_attempts: i64,
    pub available_at: i64,
    pub lease_owner: Option<String>,
    pub lease_until: Option<i64>,
    pub progress_json: Option<String>,
    pub last_error: Option<String>,
    pub created_at: i64,
    pub updated_at: i64,
    pub completed_at: Option<i64>,
    pub cancel_requested: i64,
}

impl JobRow {
    /// Why the row cannot be read, if it cannot.
    pub open spec fn decode_error(self) -> Option<StateError> {
        if compact_json(self.payload_json@) is None {
            Some(StateError::Json)
        } else if JobStatus::named(self.status@) is None {
            Some(StateError::InvalidInput("stored job status is invalid"))
        } else if !(i32::MIN <= self.priority <= i32::MAX) {
            Some(StateError::InvalidInput("job priority is invalid"))
        } else if !(0 <= self.attempts <= u32::MAX) {
            Some(StateError::InvalidInput("job attempts are invalid"))
        } else if !(0 <= self.max_attempts <= u32::MAX) {
            Some(StateError::InvalidInput("job max attempts are invalid"))
        } else if self.progress_json is Some && compact_json(self.progress_json->0@) is None {
            Some(StateError::Json)
        } else {
            None
        }
    }

    /// The record that the row holds.
    pub open spec fn record(self, payload: Json, progress: Option<Json>) -> JobRecord {
        JobRecord {
            id: Id { text: self.id },
            vault_id: id_of(self.vault_id),
            job_type: self.job_type,
            dedup_key: self.dedup_key,
            payload,
            status: JobStatus::named(self.status@)->0,
            priority: self.priority as i32,
            attempts: self.attempts as u32,
            max_attempts: self.max_attempts as u32,
            available_at: self.available_at,
            lease_owner: self.lease_owner,
            lease_until: self.lease_until,
            progress,
            last_error: self.last_error,
            created_at: self.created_at,
            updated_at: self.updated_at,
            completed_at: self.completed_at,
            cancel_requested: self.cancel_requested != 0,
        }
    }

    /// Whether the documents of a record are those of the row.
    pub open spec fn holds_documents(self, payload: Json, progress: Option<Json>) -> bool {
        &&& Some(payload@) == compact_json(self.payload_json@)
        &&& progress is Some <==> self.progress_json is Some
        &&& progress is Some ==> Some(progress->0@) == compact_json(self.progress_json->0@)
    }
}

/// Reads a stored job.
pub fn row_to_job(row: JobRow) -> (r: Result<JobRecord, StateError>)
    ensures
        match row.decode_error() {
            Some(error) => r == Err::<JobRecord, StateError>(error),
            None => r matches Ok(job) && job == row.record(job.payload, job.progress)
                && row.holds_documents(job.payload, job.progress),
        },
{
    let payload = match Json::parse(row.payload_json.as_str()) {
        Ok(payload) => payload,
        Err(error) => return Err(error),
    };
    let status = match JobStatus::parse(row.status.as_str()) {
        Ok(status) => status,
        Err(error) => return Err(error),
    };
    if row.priority < i32::MIN as i64 || row.priority > i32::MAX as i64 {
        return Err(StateError::InvalidInput("job priority is invalid"));
    }
    if row.attempts < 0 || row.attempts > u32::MAX as i64 {
        return Err(StateError::InvalidInput("job attempts are invalid"));
    }
    if row.max_attempts < 0 || row.max_attempts > u32::MAX as i64 {
        return Err(StateError::InvalidInput("job max attempts are invalid"));
    }
    let progress = match &row.progress_json {
        Some(text) => match Json::parse(text.as_str()) {
            Ok(progress) => Some(progress),
            Err(error) => return Err(error),
        },
        None => None,
    };
    Ok(
        JobRecord {
            id: Id { text: row.id },
            vault_id: stored_id(row.vault_id),
            job_type: row.job_type,
            dedup_key: row.dedup_key,
            payload,
            status,
            priority: row.priority as i32,
            attempts: row.attempts as u32,
            max_attempts: row.max_attempts as u32,
            available_at: row.available_at,
            lease_owner: row.lease_owner,
            lease_until: row.lease_until,
            progress,
            last_error: row.last_error,
            created_at: row.created_at,
            updated_at: row.updated_at,
            completed_at: row.completed_at,
            cancel_requested: row.cancel_requested != 0,
        },
    )
}

/// Characters without the difference between upper and lower ASCII letters.
pub open spec fn ascii_fold(c: char) -> int {
    if 'A' <= c <= 'Z' {
        c as int + 32
    } else {
        c as int
    }
}

/// Whether a job type belongs to the backup family: it opens with `backup.`,
/// whatever the case of its ASCII letters.
pub open spec fn backup_type(job_type: Seq<char>) -> bool {
    &&& job_type.len() >= 7
    &&& forall|i: int| 0 <= i < 7 ==> ascii_fold(#[trigger] job_type[i]) == ascii_fold("backup."@[i])
}

/// Whether running jobs of the type must not be interrupted.
pub open spec fn uninterruptible(job_type: Seq<char>) -> bool {
    ||| backup_type(job_type)
    ||| job_type == "memory.consolidate"@
    ||| job_type == "memory.reset_pipeline"@
}

fn fold(c: char) -> (r: u32)
    ensures
        r == ascii_fold(c),
{
    if 'A' <= c && c <= 'Z' {
        c as u32 + 32
    } else {
        c as u32
    }
}

/// Decides [`uninterruptible`].
pub fn is_uninterruptible(job_type: &str) -> (r: bool)
    ensures
        r == uninterruptible(job_type@),
{
    if text_eq(job_type, "memory.consolidate") || text_eq(job_type, "memory.reset_pipeline") {
        return true;
    }
    let chars = chars_of(job_type);
    let family = chars_of("backup.");
    proof {
        reveal_strlit("backup.");
    }
    if chars.len() < 7 {
        return false;
    }
    let mut i: usize = 0;
    while i < 7
        invariant
            i <= 7 <= chars@.len(),
            family@.len() == 7,
            family@ == "backup."@,
            chars@ == job_type@,
            job_type@ != "memory.consolidate"@,
            job_type@ != "memory.reset_pipeline"@,
            forall|k: int|
                0 <= k < i ==> ascii_fold(#[trigger] job_type@[k]) == ascii_fold("backup."@[k]),
        decreases 7 - i,
    {
        if fold(chars[i]) != fold(family[i]) {
            assert(ascii_fold(job_type@[i as int]) != ascii_fold("backup."@[i as int]));
            return false;
        }
        i += 1;
    }
    true
}

impl JobRecord {
    /// Whether a worker may claim the job at `now`.
    pub open spec fn claimable(self, now: i64) -> bool {
        &&& !self.status.terminal()
        &&& self.available_at <= now
        &&& (self.lease_until matches Some(until) ==> until <= now)
        &&& (self.attempts < self.max_attempts || self.cancel_requested)
    }

    /// Whether the job runs under the worker's lease.
    pub open spec fn held_by(self, worker: Seq<char>) -> bool {
        self.status == JobStatus::Running && optional_text(self.lease_owner) == Some(worker)
    }

    /// Whether the job belongs to the vault.
    pub open spec fn in_vault(self, vault: Seq<char>) -> bool {
        optional_id(self.vault_id) == Some(vault)
    }

    /// Whether an operator may cancel the job.
    pub open spec fn cancellable(self) -> bool {
        !self.status.terminal() && !(self.status == JobStatus::Running && uninterruptible(
            self.job_type@,
        ))
    }

    /// Claim fairness scope.
    pub open spec fn scope(self) -> Seq<char> {
        match self.vault_id {
            Some(vault) => vault@,
            None => "__global__"@,
        }
    }

    /// Whether `after` is this job under a new lease.
    pub open spec fn claimed_as(
        self,
        after: JobRecord,
        worker: Seq<char>,
        lease_until: i64,
    ) -> bool {
        &&& optional_text(after.lease_owner) == Some(worker)
        &&& after == JobRecord {
            status: JobStatus::Running,
            lease_owner: after.lease_owner,
            lease_until: Some(lease_until),
            attempts: if self.attempts < u32::MAX {
                (self.attempts + 1) as u32
            } else {
                u32::MAX
            },
            ..self
        }
    }

    /// Whether `after` is this job after its worker ended it with `status`.
    pub open spec fn finished_as(
        self,
        after: JobRecord,
        status: JobStatus,
        available_at: Option<i64>,
        error: Option<Seq<char>>,
        now: i64,
    ) -> bool {
        &&& optional_text(after.last_error) == error
        &&& after == JobRecord {
            status,
            available_at: match available_at {
                Some(at) => at,
                None => self.available_at,
            },
            lease_owner: None,
            lease_until: None,
            last_error: after.last_error,
            completed_at: if status.terminal() {
                Some(now)
            } else {
                self.completed_at
            },
            updated_at: now,
            ..self
        }
    }

    /// The job back in the queue, with the attempt of its claim given back.
    pub open spec fn returned(self, available_at: i64, now: i64) -> JobRecord {
        JobRecord {
            status: JobStatus::Queued,
            available_at,
            lease_owner: None,
            lease_until: None,
            attempts: if self.attempts > 0 {
                (self.attempts - 1) as u32
            } else {
                0
            },
            updated_at: now,
            ..self
        }
    }

    /// The job after a cancellation request: waiting jobs end at once, running
    /// ones are only flagged.
    pub open spec fn cancel_noted(self, now: i64) -> JobRecord {
        let waiting = self.status == JobStatus::Queued || self.status == JobStatus::RetryWait;
        JobRecord {
            cancel_requested: true,
            status: if waiting {
                JobStatus::Cancelled
            } else {
                self.status
            },
            completed_at: if waiting {
                Some(now)
            } else {
                self.completed_at
            },
            updated_at: now,
            ..self
        }
    }

    /// The job queued afresh with the given progress.
    pub open spec fn requeued(self, progress: Option<Json>, now: i64) -> JobRecord {
        JobRecord {
            status: JobStatus::Queued,
            available_at: now,
            lease_owner: None,
            lease_until: None,
            attempts: 0,
            progress,
            cancel_requested: false,
            last_error: None,
            completed_at: None,
            updated_at: now,
            ..self
        }
    }

    /// The job freed of its lease for immediate reclaim.
    pub open spec fn released(self, now: i64) -> JobRecord {
        JobRecord {
            lease_owner: None,
            lease_until: None,
            status: JobStatus::RetryWait,
            updated_at: now,
            ..self
        }
    }

    /// Whether this job was created after the other one.
    pub open spec fn newer_than(self, created_at: i64, id: Seq<char>) -> bool {
        self.created_at > created_at || (self.created_at == created_at && text_before(id, self.id@))
    }

    /// Whether the job is an unfinished one of the type in the vault.
    pub open spec fn active_of(self, vault: Seq<char>, job_type: Seq<char>) -> bool {
        self.in_vault(vault) && self.job_type@ == job_type && !self.status.terminal()
    }

    fn is_claimable(&self, now: i64) -> (r: bool)
        ensures
            r == self.claimable(now),
    {
        let lease_over = match self.lease_until {
            Some(until) => until <= now,
            None => true,
        };
        !self.status.is_terminal() && self.available_at <= now && lease_over && (self.attempts
            < self.max_attempts || self.cancel_requested)
    }

    fn is_held_by(&self, worker: &str) -> (r: bool)
        ensures
            r == self.held_by(worker@),
    {
        let owned = match &self.lease_owner {
            Some(owner) => text_eq(owner.as_str(), worker),
            None => false,
        };
        self.status == JobStatus::Running && owned
    }

    fn is_in_vault(&self, vault: &Id) -> (r: bool)
        ensures
            r == self.in_vault(vault@),
    {
        match &self.vault_id {
            Some(owner) => owner.same(vault),
            None => false,
        }
    }

    fn is_cancellable(&self) -> (r: bool)
        ensures
            r == self.cancellable(),
    {
        !self.status.is_terminal() && !(self.status == JobStatus::Running && is_uninterruptible(
            self.job_type.as_str(),
        ))
    }

    fn is_active_of(&self, vault: &Id, job_type: &str) -> (r: bool)
        ensures
            r == self.active_of(vault@, job_type@),
    {
        self.is_in_vault(vault) && text_eq(self.job_type.as_str(), job_type)
            && !self.status.is_terminal()
    }

    fn is_newer_than(&self, created_at: i64, id: &Id) -> (r: bool)
        ensures
            r == self.newer_than(created_at, id@),
    {
        self.created_at > created_at || (self.created_at == created_at && text_less(
            id.as_str(),
            self.id.as_str(),
        ))
    }

    fn duplicate(&self) -> (r: JobRecord)
        ensures
            r == *self,
    {
        JobRecord {
            id: self.id.duplicate(),
            vault_id: duplicate_optional(&self.vault_id),
            job_type: self.job_type.clone(),
            dedup_key: self.dedup_key.clone(),
            payload: self.payload.duplicate(),
            status: self.status,
            priority: self.priority,
            attempts: self.attempts,
            max_attempts: self.max_attempts,
            available_at: self.available_at,
            lease_owner: duplicate_text(&self.lease_owner),
            lease_until: self.lease_until,
            progress: match &self.progress {
                Some(progress) => Some(progress.duplicate()),
                None => None,
            },
            last_error: duplicate_text(&self.last_error),
            created_at: self.created_at,
            updated_at: self.updated_at,
            completed_at: self.completed_at,
            cancel_requested: self.cancel_requested,
        }
    }

    fn note_cancel(self, now: i64) -> (r: JobRecord)
        ensures
            r == self.cancel_noted(now),
    {
        match self.status {
            JobStatus::Queued => JobRecord {
                cancel_requested: true,
                status: JobStatus::Cancelled,
                completed_at: Some(now),
                updated_at: now,
                ..self
            },
            JobStatus::RetryWait => JobRecord {
                cancel_requested: true,
                status: JobStatus::Cancelled,
                completed_at: Some(now),
                updated_at: now,
                ..self
            },
            _ => JobRecord { cancel_requested: true, updated_at: now, ..self },
        }
    }
}

/// What a job is ranked by inside its scope: priority first, then age.
pub open spec fn scope_key(job: JobRecord) -> SortKey {
    SortKey {
        first: (0 - job.priority) as i128,
        second: job.created_at as i128,
        third: 0,
        id: job.id.text,
    }
}

/// Scope keys of jobs, in order.
pub open spec fn scope_keys(jobs: Seq<JobRecord>) -> Seq<SortKey> {
    jobs.map_values(|job: JobRecord| scope_key(job))
}

/// Whether job `j` is claimable, shares the scope of job `i` and ranks before
/// it.
pub open spec fn ranks_before(jobs: Seq<JobRecord>, now: i64, j: int, i: int) -> bool {
    jobs[j].claimable(now) && jobs[j].scope() == jobs[i].scope() && placed_before(
        scope_keys(jobs),
        j,
        i,
    )
}

/// Number of the first `n` jobs that rank before job `i`.
pub open spec fn ranked_before(jobs: Seq<JobRecord>, now: i64, i: int, n: int) -> int
    decreases n,
{
    if n <= 0 {
        0
    } else {
        ranked_before(jobs, now, i, n - 1) + if ranks_before(jobs, now, n - 1, i) {
            1int
        } else {
            0int
        }
    }
}

/// Rank of job `i` among the claimable jobs of its scope, from one on.
pub open spec fn scope_rank(jobs: Seq<JobRecord>, now: i64, i: int) -> int {
    ranked_before(jobs, now, i, jobs.len() as int) + 1
}

/// What a job is claimed in the order of: priority, then rank in its scope so
/// that scopes take turns, then age.
pub open spec fn claim_key(jobs: Seq<JobRecord>, now: i64, i: int) -> SortKey {
    SortKey {
        first: (0 - jobs[i].priority) as i128,
        second: scope_rank(jobs, now, i) as i128,
        third: jobs[i].created_at as i128,
        id: jobs[i].id.text,
    }
}

/// Claim keys of jobs, in order.
pub open spec fn claim_keys(jobs: Seq<JobRecord>, now: i64) -> Seq<SortKey> {
    Seq::new(jobs.len(), |i: int| claim_key(jobs, now, i))
}

/// Which jobs may be claimed at `now`.
pub open spec fn claimable_jobs(jobs: Seq<JobRecord>, now: i64) -> Seq<bool> {
    jobs.map_values(|job: JobRecord| job.claimable(now))
}

/// Whether `claimed` are the picked jobs under their new lease.
pub open spec fn claims_jobs(
    jobs: Seq<JobRecord>,
    picked: Seq<usize>,
    claimed: Seq<JobRecord>,
    worker: Seq<char>,
    lease_until: i64,
) -> bool {
    &&& claimed.len() == picked.len()
    &&& forall|i: int|
        0 <= i < picked.len() ==> jobs[#[trigger] picked[i] as int].claimed_as(
            claimed[i],
            worker,
            lease_until,
        )
}

fn same_scope(a: &JobRecord, b: &JobRecord) -> (r: bool)
    ensures
        r == (a.scope() == b.scope()),
{
    match (&a.vault_id, &b.vault_id) {
        (Some(x), Some(y)) => x.same(y),
        (Some(x), None) => text_eq(x.as_str(), "__global__"),
        (None, Some(y)) => text_eq("__global__", y.as_str()),
        (None, None) => true,
    }
}

proof fn lemma_rank_bounded(jobs: Seq<JobRecord>, now: i64, i: int, n: int)
    requires
        0 <= n,
    ensures
        0 <= ranked_before(jobs, now, i, n) <= n,
    decreases n,
{
    if n > 0 {
        lemma_rank_bounded(jobs, now, i, n - 1);
    }
}

fn rank_in_scope(jobs: &Vec<JobRecord>, keys: &Vec<SortKey>, now: i64, i: usize) -> (rank: i128)
    requires
        i < jobs@.len(),
        keys@ == scope_keys(jobs@),
    ensures
        rank == scope_rank(jobs@, now, i as int),
{
    let mut count: usize = 0;
    let mut j: usize = 0;
    while j < jobs.len()
        invariant
            i < jobs@.len(),
            keys@ == scope_keys(jobs@),
            j <= jobs@.len(),
            count <= j,
            count == ranked_before(jobs@, now, i as int, j as int),
        decreases jobs@.len() - j,
    {
        if jobs[j].is_claimable(now) && same_scope(&jobs[j], &jobs[i]) && is_placed_before(
            keys.as_slice(),
            j,
            i,
        ) {
            count += 1;
        }
        j += 1;
    }
    count as i128 + 1
}

/// Claim queued, retrying or expired running jobs with one worker lease.
pub fn claim_batch(
    jobs: Vec<JobRecord>,
    worker: &str,
    now: i64,
    lease_until: i64,
    limit: u32,
) -> (r: Result<Vec<JobRecord>, StateError>)
    ensures
        match claim_error(worker@, now, lease_until, limit) {
            Some(error) => r == Err::<Vec<JobRecord>, StateError>(error),
            None => r matches Ok(claimed) && exists|picked: Seq<usize>|
                {
                    &&& #[trigger] is_selection(
                        claim_keys(jobs@, now),
                        claimable_jobs(jobs@, now),
                        limit as nat,
                        picked,
                    )
                    &&& claims_jobs(jobs@, picked, claimed@, worker@, lease_until)
                },
        },
{
    match validate_claim(worker, now, lease_until, limit) {
        Ok(()) => {},
        Err(error) => return Err(error),
    }
    let mut ranks: Vec<SortKey> = Vec::new();
    let mut eligible: Vec<bool> = Vec::new();
    let mut i: usize = 0;
    while i < jobs.len()
        invariant
            i <= jobs@.len(),
            ranks@ == scope_keys(jobs@).take(i as int),
            eligible@ == claimable_jobs(jobs@, now).take(i as int),
        decreases jobs@.len() - i,
    {
        let job = &jobs[i];
        ranks.push(
            SortKey {
                first: -(job.priority as i128),
                second: job.created_at as i128,
                third: 0,
                id: job.id.text.clone(),
            },
        );
        eligible.push(job.is_claimable(now));
        i += 1;
        assert(ranks@ =~= scope_keys(jobs@).take(i as int));
        assert(eligible@ =~= claimable_jobs(jobs@, now).take(i as int));
    }
    assert(ranks@ =~= scope_keys(jobs@));
    assert(eligible@ =~= claimable_jobs(jobs@, now));
    let mut keys: Vec<SortKey> = Vec::new();
    let mut k: usize = 0;
    while k < jobs.len()
        invariant
            k <= jobs@.len(),
            ranks@ == scope_keys(jobs@),
            keys@ == claim_keys(jobs@, now).take(k as int),
        decreases jobs@.len() - k,
    {
        let rank: i128 = rank_in_scope(&jobs, &ranks, now, k);
        let job = &jobs[k];
        keys.push(
            SortKey {
                first: -(job.priority as i128),
                second: rank,
                third: job.created_at as i128,
                id: job.id.text.clone(),
            },
        );
        k += 1;
        assert(keys@ =~= claim_keys(jobs@, now).take(k as int));
    }
    assert(keys@ =~= claim_keys(jobs@, now));
    let picked = select(keys.as_slice(), eligible.as_slice(), limit as usize);
    let mut claimed: Vec<JobRecord> = Vec::new();
    let mut n: usize = 0;
    while n < picked.len()
        invariant
            n <= picked@.len(),
            claimed@.len() == n,
            forall|m: int| 0 <= m < picked@.len() ==> #[trigger] picked@[m] < jobs@.len(),
            forall|m: int|
                0 <= m < n ==> jobs@[#[trigger] picked@[m] as int].claimed_as(
                    claimed@[m],
                    worker@,
                    lease_until,
                ),
        decreases picked@.len() - n,
    {
        let job = &jobs[picked[n]];
        claimed.push(
            JobRecord {
                status: JobStatus::Running,
                lease_owner: Some(worker.to_owned()),
                lease_until: Some(lease_until),
                attempts: job.attempts.saturating_add(1),
                ..job.duplicate()
            },
        );
        n += 1;
    }
    assert(claims_jobs(jobs@, picked@, claimed@, worker@, lease_until));
    Ok(claimed)
}

/// The row that is stored for a claimed job: a claim is the job's latest update.
pub fn store_claim(claimed: JobRecord, now: i64) -> (r: JobRecord)
    ensures
        r == (JobRecord { updated_at: now, ..claimed }),
{
    JobRecord { updated_at: now, ..claimed }
}

/// What enqueueing came to.
#[derive(Clone, Debug, PartialEq, Eq)]
pub enum Enqueued {
    /// A job with the same key is stored already.
    Existing(JobRecord),
    /// The new job to store.
    Created(JobRecord),
}

/// Why a job cannot be enqueued, if it cannot.
pub open spec fn enqueue_error(
    job_type: Seq<char>,
    dedup_key: Seq<char>,
    payload: Seq<char>,
    max_attempts: u32,
) -> Option<StateError> {
    if !job_labels_ok(job_type, dedup_key) {
        Some(StateError::InvalidInput("job label is invalid"))
    } else if !(1 <= max_attempts <= 100) {
        Some(StateError::InvalidInput("job max attempts are invalid"))
    } else if byte_len(payload) > MAX_PAYLOAD_BYTES {
        Some(StateError::InvalidInput("worker payload is too large"))
    } else {
        None
    }
}

/// Enqueue or return the existing deduplicated job of the scope: a vault's, or
/// the explicitly global one. `existing` is the stored job with the same scope
/// and key and `id` a fresh identity.
pub fn enqueue_inner(
    existing: Option<JobRecord>,
    vault_id: Option<Id>,
    id: Id,
    job_type: &str,
    dedup_key: &str,
    payload: &Json,
    priority: i32,
    max_attempts: u32,
    available_at: i64,
    now: i64,
) -> (r: Result<Enqueued, StateError>)
    ensures
        match enqueue_error(job_type@, dedup_key@, payload@, max_attempts) {
            Some(error) => r == Err::<Enqueued, StateError>(error),
            None => match existing {
                Some(job) => r == Ok::<Enqueued, StateError>(Enqueued::Existing(job)),
                None => r matches Ok(Enqueued::Created(job)) && job.job_type@ == job_type@
                    && job.dedup_key@ == dedup_key@ && job == (JobRecord {
                    id,
                    vault_id,
                    job_type: job.job_type,
                    dedup_key: job.dedup_key,
                    payload: *payload,
                    status: JobStatus::Queued,
                    priority,
                    attempts: 0,
                    max_attempts,
                    available_at,
                    lease_owner: None,
                    lease_until: None,
                    progress: None,
                    last_error: None,
                    created_at: now,
                    updated_at: now,
                    completed_at: None,
                    cancel_requested: false,
                }),
            },
        },
{
    match validate_job_labels(job_type, dedup_key) {
        Ok(()) => {},
        Err(error) => return Err(error),
    }
    match validate_attempts(max_attempts) {
        Ok(()) => {},
        Err(error) => return Err(error),
    }
    match validate_payload(payload) {
        Ok(()) => {},
        Err(error) => return Err(error),
    }
    match existing {
        Some(job) => Ok(Enqueued::Existing(job)),
        None => Ok(
            Enqueued::Created(
                JobRecord {
                    id,
                    vault_id,
                    job_type: job_type.to_owned(),
                    dedup_key: dedup_key.to_owned(),
                    payload: payload.duplicate(),
                    status: JobStatus::Queued,
                    priority,
                    attempts: 0,
                    max_attempts,
                    available_at,
                    lease_owner: None,
                    lease_until: None,
                    progress: None,
                    last_error: None,
                    created_at: now,
                    updated_at: now,
                    completed_at: None,
                    cancel_requested: false,
                },
            ),
        ),
    }
}

/// Outcome of an insertion that the database refused: a job that appeared
/// meanwhile under the same key is returned, otherwise the refusal.
pub fn enqueue_after_refusal(appeared: Option<JobRecord>, fault: DatabaseFault) -> (r: Result<
    JobRecord,
    StateError,
>)
    ensures
        r == (match appeared {
            Some(job) => Ok::<JobRecord, StateError>(job),
            None => Err(StateError::Database(fault)),
        }),
{
    match appeared {
        Some(job) => Ok(job),
        None => Err(StateError::Database(fault)),
    }
}

/// Outcome of enqueueing a singleton that failed: an unfinished job of the
/// type that appeared meanwhile is returned, otherwise the failure.
pub fn singleton_after_failure(active: Option<JobRecord>, failure: StateError) -> (r: Result<
    JobRecord,
    StateError,
>)
    ensures
        r == (match active {
            Some(job) => Ok::<JobRecord, StateError>(job),
            None => Err(failure),
        }),
{
    match active {
        Some(job) => Ok(job),
        None => Err(failure),
    }
}

/// Whether job `at` is the newest unfinished one of the type in the vault.
pub open spec fn newest_active(
    jobs: Seq<JobRecord>,
    vault: Seq<char>,
    job_type: Seq<char>,
    at: int,
) -> bool {
    &&& 0 <= at < jobs.len()
    &&& jobs[at].active_of(vault, job_type)
    &&& forall|i: int|
        0 <= i < jobs.len() && (#[trigger] jobs[i]).active_of(vault, job_type)
            ==> !jobs[i].newer_than(jobs[at].created_at, jobs[at].id@)
}

/// Whether the vault has an unfinished job of the type.
pub open spec fn has_active(jobs: Seq<JobRecord>, vault: Seq<char>, job_type: Seq<char>) -> bool {
    exists|i: int| 0 <= i < jobs.len() && (#[trigger] jobs[i]).active_of(vault, job_type)
}

proof fn lemma_newer_transitive(a: JobRecord, b: JobRecord, c: JobRecord)
    ensures
        !a.newer_than(a.created_at, a.id@),
        a.newer_than(b.created_at, b.id@) && !c.newer_than(b.created_at, b.id@) ==> !c.newer_than(
            a.created_at,
            a.id@,
        ),
{
    crate::text::lemma_text_order(b.id@, a.id@, c.id@);
    crate::text::lemma_text_order(a.id@, c.id@, b.id@);
    crate::text::lemma_text_order(c.id@, b.id@, a.id@);
    crate::text::lemma_text_order(b.id@, c.id@, a.id@);
}

/// Return the newest non-terminal job of one type in this exact vault.
pub fn find_active_by_type(context: &VaultContext, jobs: &[JobRecord], job_type: &str) -> (r: Result<
    Option<usize>,
    StateError,
>)
    ensures
        if !job_labels_ok(job_type@, "active-job-type"@) {
            r == invalid::<Option<usize>>("job label is invalid")
        } else {
            match r {
                Ok(Some(at)) => newest_active(jobs@, context.id@, job_type@, at as int),
                Ok(None) => !has_active(jobs@, context.id@, job_type@),
                Err(_) => false,
            }
        },
{
    match validate_job_labels(job_type, "active-job-type") {
        Ok(()) => {},
        Err(error) => return Err(error),
    }
    let mut best: Option<usize> = None;
    let mut i: usize = 0;
    while i < jobs.len()
        invariant
            i <= jobs@.len(),
            match best {
                Some(at) => newest_active(jobs@.take(i as int), context.id@, job_type@, at as int),
                None => !has_active(jobs@.take(i as int), context.id@, job_type@),
            },
        decreases jobs@.len() - i,
    {
        let ghost seen = jobs@.take(i as int);
        let ghost next = jobs@.take(i + 1);
        assert(forall|k: int| 0 <= k < i ==> #[trigger] next[k] == seen[k]);
        if jobs[i].is_active_of(&context.id, job_type) {
            match best {
                Some(at) => {
                    if jobs[i].is_newer_than(jobs[at].created_at, &jobs[at].id) {
                        proof {
                            lemma_newer_transitive(jobs@[i as int], jobs@[at as int], jobs@[at as int]);
                            assert forall|k: int|
                                0 <= k < next.len() && (#[trigger] next[k]).active_of(
                                    context.id@,
                                    job_type@,
                                ) implies !next[k].newer_than(
                                next[i as int].created_at,
                                next[i as int].id@,
                            ) by {
                                lemma_newer_transitive(
                                    jobs@[i as int],
                                    jobs@[at as int],
                                    jobs@[k],
                                );
                                if k < i {
                                    assert(seen[k].active_of(context.id@, job_type@));
                                }
                            }
                        }
                        best = Some(i);
                    } else {
                        assert(newest_active(next, context.id@, job_type@, at as int));
                    }
                },
                None => {
                    proof {
                        lemma_newer_transitive(jobs@[i as int], jobs@[i as int], jobs@[i as int]);
                        assert forall|k: int|
                            0 <= k < next.len() && (#[trigger] next[k]).active_of(
                                context.id@,
                                job_type@,
                            ) implies k == i by {
                            if k < i {
                                assert(seen[k].active_of(context.id@, job_type@));
                            }
                        }
                    }
                    best = Some(i);
                },
            }
        } else {
            proof {
                match best {
                    Some(at) => {
                        assert(newest_active(next, context.id@, job_type@, at as int));
                    },
                    None => {
                        assert forall|k: int| 0 <= k < next.len() implies !(#[trigger] next[k]).active_of(
                            context.id@,
                            job_type@,
                        ) by {
                            if k < i {
                                assert(!seen[k].active_of(context.id@, job_type@));
                            }
                        }
                    },
                }
            }
        }
        i += 1;
    }
    assert(jobs@.take(jobs@.len() as int) =~= jobs@);
    Ok(best)
}

/// Why a worker may not act on the job, if it may not.
pub open spec fn lease_error(job: Option<JobRecord>, worker: Seq<char>) -> Option<StateError> {
    if !label_ok(worker, MAX_WORKER_ID_BYTES as nat) {
        Some(StateError::InvalidInput("worker ID is invalid"))
    } else if job is Some && job->0.held_by(worker) {
        None
    } else {
        Some(StateError::InvalidInput("job lease is not owned"))
    }
}

fn held_job(job: Option<JobRecord>, worker: &str) -> (r: Result<JobRecord, StateError>)
    ensures
        match lease_error(job, worker@) {
            Some(error) => r == Err::<JobRecord, StateError>(error),
            None => r == Ok::<JobRecord, StateError>(job->0),
        },
{
    match validate_worker(worker) {
        Ok(()) => {},
        Err(error) => return Err(error),
    }
    match job {
        Some(job) if job.is_held_by(worker) => Ok(job),
        _ => Err(StateError::InvalidInput("job lease is not owned")),
    }
}

/// Store bounded progress for a worker-owned job.
pub fn update_progress(job: Option<JobRecord>, worker: &str, progress: Json, now: i64) -> (r: Result<
    JobRecord,
    StateError,
>)
    ensures
        r == (if !label_ok(worker@, MAX_WORKER_ID_BYTES as nat) {
            invalid("worker ID is invalid")
        } else if byte_len(progress@) > MAX_PAYLOAD_BYTES {
            invalid("worker payload is too large")
        } else if job is Some && job->0.held_by(worker@) {
            Ok::<JobRecord, StateError>(
                (JobRecord { progress: Some(progress), updated_at: now, ..job->0 }),
            )
        } else {
            invalid("job lease is not owned")
        }),
{
    match validate_worker(worker) {
        Ok(()) => {},
        Err(error) => return Err(error),
    }
    match validate_payload(&progress) {
        Ok(()) => {},
        Err(error) => return Err(error),
    }
    match held_job(job, worker) {
        Ok(job) => Ok(JobRecord { progress: Some(progress), updated_at: now, ..job }),
        Err(error) => Err(error),
    }
}

/// Why a worker may not end the job, if it may not.
pub open spec fn finish_error(
    job: Option<JobRecord>,
    worker: Seq<char>,
    error: Option<Seq<char>>,
) -> Option<StateError> {
    if !label_ok(worker, MAX_WORKER_ID_BYTES as nat) {
        Some(StateError::InvalidInput("worker ID is invalid"))
    } else if error is Some && !label_ok(error->0, MAX_ERROR_BYTES as nat) {
        Some(StateError::InvalidInput("worker error is invalid"))
    } else {
        lease_error(job, worker)
    }
}

/// End a worker-owned job with the given status.
pub fn finish(
    job: Option<JobRecord>,
    worker: &str,
    status: JobStatus,
    available_at: Option<i64>,
    error: Option<&str>,
    now: i64,
) -> (r: Result<JobRecord, StateError>)
    ensures
        match finish_error(job, worker@, str_text(error)) {
            Some(failure) => r == Err::<JobRecord, StateError>(failure),
            None => r matches Ok(after) && job->0.finished_as(
                after,
                status,
                available_at,
                str_text(error),
                now,
            ),
        },
{
    match validate_worker(worker) {
        Ok(()) => {},
        Err(failure) => return Err(failure),
    }
    let last_error = match error {
        Some(error) => {
            match validate_error(error) {
                Ok(()) => {},
                Err(failure) => return Err(failure),
            }
            Some(error.to_owned())
        },
        None => None,
    };
    match held_job(job, worker) {
        Ok(job) => {
            let completed_at = if status.is_terminal() {
                Some(now)
            } else {
                job.completed_at
            };
            let available_at: i64 = match available_at {
                Some(at) => at,
                None => job.available_at,
            };
            Ok(
                JobRecord {
                    status,
                    available_at,
                    lease_owner: None,
                    lease_until: None,
                    last_error,
                    completed_at,
                    updated_at: now,
                    ..job
                },
            )
        },
        Err(failure) => Err(failure),
    }
}

/// Mark a worker-owned job completed.
pub fn complete(job: Option<JobRecord>, worker: &str, now: i64) -> (r: Result<
    JobRecord,
    StateError,
>)
    ensures
        match lease_error(job, worker@) {
            Some(failure) => r == Err::<JobRecord, StateError>(failure),
            None => r matches Ok(after) && job->0.finished_as(
                after,
                JobStatus::Completed,
                None,
                None,
                now,
            ),
        },
{
    finish(job, worker, JobStatus::Completed, None, None, now)
}

/// Retry a worker-owned job or transition it to failed after its last attempt.
pub fn retry_or_fail(
    job: Option<JobRecord>,
    worker: &str,
    available_at: i64,
    error: &str,
    now: i64,
) -> (r: Result<(JobRecord, JobStatus), StateError>)
    ensures
        if !label_ok(error@, MAX_ERROR_BYTES as nat) {
            r == invalid::<(JobRecord, JobStatus)>("worker error is invalid")
        } else if job is None {
            r == invalid::<(JobRecord, JobStatus)>("job does not exist")
        } else if !job->0.held_by(worker@) {
            r == invalid::<(JobRecord, JobStatus)>("job lease is not owned")
        } else if !label_ok(worker@, MAX_WORKER_ID_BYTES as nat) {
            r == invalid::<(JobRecord, JobStatus)>("worker ID is invalid")
        } else {
            &&& r is Ok
            &&& r->Ok_0.1 == if job->0.attempts >= job->0.max_attempts {
                JobStatus::Failed
            } else {
                JobStatus::RetryWait
            }
            &&& job->0.finished_as(
                r->Ok_0.0,
                r->Ok_0.1,
                Some(available_at),
                Some(error@),
                now,
            )
        },
{
    match validate_error(error) {
        Ok(()) => {},
        Err(failure) => return Err(failure),
    }
    let job = match job {
        Some(job) => job,
        None => return Err(StateError::InvalidInput("job does not exist")),
    };
    if !job.is_held_by(worker) {
        return Err(StateError::InvalidInput("job lease is not owned"));
    }
    let status = if job.attempts >= job.max_attempts {
        JobStatus::Failed
    } else {
        JobStatus::RetryWait
    };
    match finish(Some(job), worker, status, Some(available_at), Some(error), now) {
        Ok(job) => Ok((job, status)),
        Err(failure) => Err(failure),
    }
}

/// Mark a worker-owned job permanently failed without consuming another retry
/// attempt.
pub fn fail_permanently(job: Option<JobRecord>, worker: &str, error: &str, now: i64) -> (r: Result<
    JobRecord,
    StateError,
>)
    ensures
        if !label_ok(error@, MAX_ERROR_BYTES as nat) {
            r == invalid::<JobRecord>("worker error is invalid")
        } else {
            match lease_error(job, worker@) {
                Some(failure) => r == Err::<JobRecord, StateError>(failure),
                None => r matches Ok(after) && job->0.finished_as(
                    after,
                    JobStatus::Failed,
                    None,
                    Some(error@),
                    now,
                ),
            }
        },
{
    match validate_error(error) {
        Ok(()) => {},
        Err(failure) => return Err(failure),
    }
    finish(job, worker, JobStatus::Failed, None, Some(error), now)
}

/// Mark a cancelled worker-owned job terminal.
pub fn cancel_claimed(job: Option<JobRecord>, worker: &str, now: i64) -> (r: Result<
    JobRecord,
    StateError,
>)
    ensures
        match lease_error(job, worker@) {
            Some(failure) => r == Err::<JobRecord, StateError>(failure),
            None => r matches Ok(after) && job->0.finished_as(
                after,
                JobStatus::Cancelled,
                None,
                Some("cancelled"@),
                now,
            ),
        },
{
    proof {
        lemma_cancelled_is_label();
    }
    finish(job, worker, JobStatus::Cancelled, None, Some("cancelled"), now)
}

proof fn lemma_cancelled_is_label()
    ensures
        label_ok("cancelled"@, MAX_ERROR_BYTES as nat),
{
    reveal_strlit("cancelled");
    let text = "cancelled"@;
    assert(vstd::utf8::is_ascii_chars(text));
    vstd::utf8::is_ascii_chars_encode_utf8(text);
    assert(byte_len(text) == 9);
}

/// Return a claimed job to the queue without consuming an attempt.
pub fn release_claimed(job: Option<JobRecord>, worker: &str, available_at: i64, now: i64) -> (r: Result<
    JobRecord,
    StateError,
>)
    ensures
        r == (if !label_ok(worker@, MAX_WORKER_ID_BYTES as nat) {
            invalid("worker ID is invalid")
        } else if job is Some && job->0.held_by(worker@) && !job->0.cancel_requested {
            Ok::<JobRecord, StateError>(job->0.returned(available_at, now))
        } else {
            invalid("job lease is not owned")
        }),
{
    match held_job(job, worker) {
        Ok(job) => {
            if job.cancel_requested {
                return Err(StateError::InvalidInput("job lease is not owned"));
            }
            let attempts: u32 = if job.attempts > 0 {
                job.attempts - 1
            } else {
                0
            };
            Ok(
                JobRecord {
                    status: JobStatus::Queued,
                    available_at,
                    lease_owner: None,
                    lease_until: None,
                    attempts,
                    updated_at: now,
                    ..job
                },
            )
        },
        Err(error) => Err(error),
    }
}

/// Request cancellation; queued jobs become terminal immediately and running
/// jobs are observed by their handler at the next checkpoint.
pub fn request_cancel(context: &VaultContext, job: Option<JobRecord>, now: i64) -> (r: Result<
    JobRecord,
    StateError,
>)
    ensures
        r == (if job is Some && job->0.in_vault(context.id@) && job->0.cancellable() {
            Ok::<JobRecord, StateError>(job->0.cancel_noted(now))
        } else {
            invalid("job is not cancellable")
        }),
{
    match job {
        Some(job) if job.is_in_vault(&context.id) && job.is_cancellable() => Ok(
            job.note_cancel(now),
        ),
        _ => Err(StateError::InvalidInput("job is not cancellable")),
    }
}

/// The jobs after a vault-wide cancellation request, optionally of one type.
pub open spec fn cancelled_jobs(
    jobs: Seq<JobRecord>,
    vault: Seq<char>,
    job_type: Option<Seq<char>>,
    now: i64,
) -> Seq<JobRecord> {
    jobs.map_values(
        |job: JobRecord|
            if cancels(job, vault, job_type) {
                job.cancel_noted(now)
            } else {
                job
            },
    )
}

/// Whether a vault-wide cancellation request reaches the job.
pub open spec fn cancels(job: JobRecord, vault: Seq<char>, job_type: Option<Seq<char>>) -> bool {
    &&& job.in_vault(vault)
    &&& job_type matches Some(only) ==> job.job_type@ == only
    &&& job.cancellable()
}

/// Number of jobs that a vault-wide cancellation request reaches.
pub open spec fn cancelled_count(
    jobs: Seq<JobRecord>,
    vault: Seq<char>,
    job_type: Option<Seq<char>>,
) -> nat
    decreases jobs.len(),
{
    if jobs.len() == 0 {
        0
    } else {
        cancelled_count(jobs.drop_last(), vault, job_type) + if cancels(
            jobs.last(),
            vault,
            job_type,
        ) {
            1nat
        } else {
            0nat
        }
    }
}

fn cancel_matching(
    context: &VaultContext,
    jobs: Vec<JobRecord>,
    job_type: Option<&str>,
    now: i64,
) -> (r: (Vec<JobRecord>, u64))
    ensures
        r.0@ == cancelled_jobs(jobs@, context.id@, str_text(job_type), now),
        r.1 == cancelled_count(jobs@, context.id@, str_text(job_type)),
{
    let ghost all = jobs@;
    let ghost kind = str_text(job_type);
    let mut rest = jobs;
    let n: usize = rest.len();
    let mut after: Vec<JobRecord> = Vec::new();
    let mut count: u64 = 0;
    let mut i: usize = 0;
    assert(rest@ =~= all.skip(0));
    while i < n
        invariant
            i <= n == all.len(),
            kind == str_text(job_type),
            count <= i,
            rest@ == all.skip(i as int),
            after@ == cancelled_jobs(all.take(i as int), context.id@, kind, now),
            count == cancelled_count(all.take(i as int), context.id@, kind),
        decreases n - i,
    {
        let job = rest.remove(0);
        let of_type = match job_type {
            Some(only) => text_eq(job.job_type.as_str(), only),
            None => true,
        };
        let ghost next = all.take(i + 1);
        assert(next.drop_last() =~= all.take(i as int));
        assert(next.last() == job);
        if job.is_in_vault(&context.id) && of_type && job.is_cancellable() {
            after.push(job.note_cancel(now));
            count += 1;
        } else {
            after.push(job);
        }
        i += 1;
        assert(rest@ =~= all.skip(i as int));
        assert(after@ =~= cancelled_jobs(all.take(i as int), context.id@, kind, now));
    }
    assert(all.take(n as int) =~= all);
    (after, count)
}

/// Request cancellation for every non-terminal job of one vault and type. Says
/// how many jobs the request reached.
pub fn request_cancel_type(
    context: &VaultContext,
    jobs: Vec<JobRecord>,
    job_type: &str,
    now: i64,
) -> (r: Result<(Vec<JobRecord>, u64), StateError>)
    ensures
        if !job_labels_ok(job_type@, "job-type-cancel"@) {
            r == invalid::<(Vec<JobRecord>, u64)>("job label is invalid")
        } else {
            &&& r is Ok
            &&& r->Ok_0.0@ == cancelled_jobs(jobs@, context.id@, Some(job_type@), now)
            &&& r->Ok_0.1 == cancelled_count(jobs@, context.id@, Some(job_type@))
        },
{
    match validate_job_labels(job_type, "job-type-cancel") {
        Ok(()) => {},
        Err(error) => return Err(error),
    }
    Ok(cancel_matching(context, jobs, Some(job_type), now))
}

/// Request cancellation for every cancellable non-terminal job of one vault.
/// Says how many jobs the request reached.
pub fn request_cancel_all(context: &VaultContext, jobs: Vec<JobRecord>, now: i64) -> (r: (
    Vec<JobRecord>,
    u64,
))
    ensures
        r.0@ == cancelled_jobs(jobs@, context.id@, None, now),
        r.1 == cancelled_count(jobs@, context.id@, None),
{
    cancel_matching(context, jobs, None, now)
}

/// Requeue one failed job after an explicit retry action. Memory extraction
/// keeps its progress so that a retry resumes after the last completed note.
pub fn request_retry(context: &VaultContext, job: Option<JobRecord>, now: i64) -> (r: Result<
    JobRecord,
    StateError,
>)
    ensures
        r == (if job is Some && job->0.in_vault(context.id@) && job->0.status
            == JobStatus::Failed {
            Ok::<JobRecord, StateError>(
                job->0.requeued(
                    if job->0.job_type@ == "memory.extract"@ {
                        job->0.progress
                    } else {
                        None
                    },
                    now,
                ),
            )
        } else {
            invalid("job is not retryable")
        }),
{
    match job {
        Some(job) if job.is_in_vault(&context.id) && job.status == JobStatus::Failed => {
            if text_eq(job.job_type.as_str(), "memory.extract") {
                Ok(
                    JobRecord {
                        status: JobStatus::Queued,
                        available_at: now,
                        lease_owner: None,
                        lease_until: None,
                        attempts: 0,
                        cancel_requested: false,
                        last_error: None,
                        completed_at: None,
                        updated_at: now,
                        ..job
                    },
                )
            } else {
                Ok(requeue_fresh(job, now))
            }
        },
        _ => Err(StateError::InvalidInput("job is not retryable")),
    }
}

fn requeue_fresh(job: JobRecord, now: i64) -> (r: JobRecord)
    ensures
        r == job.requeued(None, now),
{
    JobRecord {
        status: JobStatus::Queued,
        available_at: now,
        lease_owner: None,
        lease_until: None,
        attempts: 0,
        progress: None,
        cancel_requested: false,
        last_error: None,
        completed_at: None,
        updated_at: now,
        ..job
    }
}

/// Restart one failed or cancelled vault job for an explicit lifecycle
/// recovery action.
pub fn request_restart_terminal(context: &VaultContext, job: Option<JobRecord>, now: i64) -> (r: Result<
    JobRecord,
    StateError,
>)
    ensures
        r == (if job is Some && job->0.in_vault(context.id@) && (job->0.status
            == JobStatus::Failed || job->0.status == JobStatus::Cancelled) {
            Ok::<JobRecord, StateError>(job->0.requeued(None, now))
        } else {
            invalid("job is not restartable")
        }),
{
    match job {
        Some(job) if job.is_in_vault(&context.id) && (job.status == JobStatus::Failed || job.status
            == JobStatus::Cancelled) => Ok(requeue_fresh(job, now)),
        _ => Err(StateError::InvalidInput("job is not restartable")),
    }
}

/// Poll the cancellation bit for a worker-owned running job. Losing the lease
/// also answers `true` so stale work stops instead of committing.
pub fn should_cancel_claimed(job: Option<JobRecord>, worker: &str) -> (r: Result<bool, StateError>)
    ensures
        r == (if !label_ok(worker@, MAX_WORKER_ID_BYTES as nat) {
            invalid("worker ID is invalid")
        } else {
            Ok::<bool, StateError>(
                !(job is Some && job->0.held_by(worker@) && !job->0.cancel_requested),
            )
        }),
{
    match validate_worker(worker) {
        Ok(()) => {},
        Err(error) => return Err(error),
    }
    match job {
        Some(job) => Ok(!(job.is_held_by(worker) && !job.cancel_requested)),
        None => Ok(true),
    }
}

/// Renew a running lease and report cancellation or lease loss. The job comes
/// back changed exactly when the lease was renewed, so a stale worker can
/// never take ownership back.
pub fn renew_claimed(job: Option<JobRecord>, worker: &str, lease_until: i64, now: i64) -> (r: Result<
    (Option<JobRecord>, bool),
    StateError,
>)
    ensures
        r == (if !label_ok(worker@, MAX_WORKER_ID_BYTES as nat) {
            invalid("worker ID is invalid")
        } else if lease_until <= now {
            invalid("job lease renewal is invalid")
        } else if job is Some && job->0.held_by(worker@) && !job->0.cancel_requested {
            Ok::<(Option<JobRecord>, bool), StateError>(
                (
                    Some(
                        (JobRecord {
                            lease_until: Some(lease_until),
                            updated_at: now,
                            ..job->0
                        }),
                    ),
                    false,
                ),
            )
        } else {
            Ok((job, true))
        }),
{
    match validate_worker(worker) {
        Ok(()) => {},
        Err(error) => return Err(error),
    }
    if lease_until <= now {
        return Err(StateError::InvalidInput("job lease renewal is invalid"));
    }
    match job {
        Some(job) => {
            if job.is_held_by(worker) && !job.cancel_requested {
                Ok(
                    (
                        Some(JobRecord { lease_until: Some(lease_until), updated_at: now, ..job }),
                        false,
                    ),
                )
            } else {
                Ok((Some(job), true))
            }
        },
        None => Ok((None, true)),
    }
}

/// Whether the vault has an unfinished job of the type that was created after
/// the given one.
pub open spec fn newer_active(
    jobs: Seq<JobRecord>,
    vault: Seq<char>,
    job_type: Seq<char>,
    created_at: i64,
    id: Seq<char>,
) -> bool {
    exists|i: int|
        0 <= i < jobs.len() && (#[trigger] jobs[i]).active_of(vault, job_type)
            && jobs[i].newer_than(created_at, id)
}

/// Return whether a newer non-terminal job of the same type exists in this
/// exact vault.
pub fn has_newer_active_job(
    context: &VaultContext,
    jobs: &[JobRecord],
    job_type: &str,
    created_at: i64,
    job_id: &Id,
) -> (r: Result<bool, StateError>)
    ensures
        r == (if !job_labels_ok(job_type@, "coalesce-check"@) {
            invalid("job label is invalid")
        } else {
            Ok::<bool, StateError>(
                newer_active(jobs@, context.id@, job_type@, created_at, job_id@),
            )
        }),
{
    match validate_job_labels(job_type, "coalesce-check") {
        Ok(()) => {},
        Err(error) => return Err(error),
    }
    let mut i: usize = 0;
    while i < jobs.len()
        invariant
            i <= jobs@.len(),
            job_labels_ok(job_type@, "coalesce-check"@),
            forall|k: int|
                0 <= k < i ==> !((#[trigger] jobs@[k]).active_of(context.id@, job_type@)
                    && jobs@[k].newer_than(created_at, job_id@)),
        decreases jobs@.len() - i,
    {
        if jobs[i].is_active_of(&context.id, job_type) && jobs[i].is_newer_than(
            created_at,
            job_id,
        ) {
            assert(newer_active(jobs@, context.id@, job_type@, created_at, job_id@));
            return Ok(true);
        }
        i += 1;
    }
    Ok(false)
}

/// The jobs after a worker's leases are given up.
pub open spec fn released_jobs(jobs: Seq<JobRecord>, worker: Seq<char>, now: i64) -> Seq<JobRecord> {
    jobs.map_values(
        |job: JobRecord|
            if job.held_by(worker) {
                job.released(now)
            } else {
                job
            },
    )
}

/// Release a worker's job leases for immediate restart reclaim.
pub fn release_worker_leases(jobs: Vec<JobRecord>, worker: &str, now: i64) -> (r: Result<
    Vec<JobRecord>,
    StateError,
>)
    ensures
        if !label_ok(worker@, MAX_WORKER_ID_BYTES as nat) {
            r == invalid::<Vec<JobRecord>>("worker ID is invalid")
        } else {
            r matches Ok(after) && after@ == released_jobs(jobs@, worker@, now)
        },
{
    match validate_worker(worker) {
        Ok(()) => {},
        Err(error) => return Err(error),
    }
    let ghost all = jobs@;
    let mut rest = jobs;
    let n: usize = rest.len();
    let mut after: Vec<JobRecord> = Vec::new();
    let mut i: usize = 0;
    assert(rest@ =~= all.skip(0));
    while i < n
        invariant
            i <= n == all.len(),
            rest@ == all.skip(i as int),
            after@ == released_jobs(all.take(i as int), worker@, now),
        decreases n - i,
    {
        let job = rest.remove(0);
        if job.is_held_by(worker) {
            after.push(
                JobRecord {
                    lease_owner: None,
                    lease_until: None,
                    status: JobStatus::RetryWait,
                    updated_at: now,
                    ..job
                },
            );
        } else {
            after.push(job);
        }
        i += 1;
        assert(rest@ =~= all.skip(i as int));
        assert(after@ =~= released_jobs(all.take(i as int), worker@, now));
    }
    assert(all.take(n as int) =~= all);
    Ok(after)
}

/// Checks the bounds of a page of jobs.
pub fn validate_page(limit: u32, offset: u32) -> (r: Result<(), StateError>)
    ensures
        r == accepted_if(1 <= limit <= 200 && offset <= 1_000_000, "job page is invalid"),
{
    if limit == 0 || limit > 200 || offset > 1_000_000 {
        return Err(StateError::InvalidInput("job page is invalid"));
    }
    Ok(())
}

/// Checks the filters of a page of jobs.
pub fn validate_list(job_type: Option<&str>, limit: u32, offset: u32) -> (r: Result<
    (),
    StateError,
>)
    ensures
        r == (if !(1 <= limit <= 200 && offset <= 1_000_000) {
            invalid("job page is invalid")
        } else {
            accepted_if(
                job_type is None || job_labels_ok(job_type->0@, "job-type-filter"@),
                "job label is invalid",
            )
        }),
{
    match validate_page(limit, offset) {
        Ok(()) => {},
        Err(error) => return Err(error),
    }
    match job_type {
        Some(job_type) => validate_job_labels(job_type, "job-type-filter"),
        None => Ok(()),
    }
}

/// Number of jobs in one stored status.
#[derive(Clone, Debug, PartialEq, Eq)]
pub struct StatusCountRow {
    pub status: String,
    pub count: i64,
}

/// Counts of the stored statuses, taken row by row.
pub open spec fn counted(rows: Seq<StatusCountRow>) -> Result<JobStatusCounts, StateError>
    decreases rows.len(),
{
    if rows.len() == 0 {
        Ok(JobStatusCounts::zero())
    } else {
        match counted(rows.drop_last()) {
            Err(error) => Err(error),
            Ok(counts) => if rows.last().count < 0 {
                invalid("job count is invalid")
            } else {
                match JobStatus::named(rows.last().status@) {
                    None => invalid("stored job status is invalid"),
                    Some(status) => Ok(counts.with(status, rows.last().count as u64)),
                }
            },
        }
    }
}

proof fn lemma_counted_error(rows: Seq<StatusCountRow>, n: int)
    requires
        0 <= n <= rows.len(),
        counted(rows.take(n)) is Err,
    ensures
        counted(rows) == counted(rows.take(n)),
    decreases rows.len() - n,
{
    if n < rows.len() {
        assert(rows.take(n + 1).drop_last() =~= rows.take(n));
        lemma_counted_error(rows, n + 1);
    } else {
        assert(rows.take(n) =~= rows);
    }
}

/// Count every lifecycle status for one exact vault.
pub fn status_counts(rows: &[StatusCountRow]) -> (r: Result<JobStatusCounts, StateError>)
    ensures
        r == counted(rows@),
{
    let mut counts = JobStatusCounts::default();
    let mut i: usize = 0;
    while i < rows.len()
        invariant
            i <= rows@.len(),
            counted(rows@.take(i as int)) == Ok::<JobStatusCounts, StateError>(counts),
        decreases rows@.len() - i,
    {
        assert(rows@.take(i + 1).drop_last() =~= rows@.take(i as int));
        let row = &rows[i];
        if row.count < 0 {
            proof {
                lemma_counted_error(rows@, i + 1);
            }
            return Err(StateError::InvalidInput("job count is invalid"));
        }
        let count: u64 = row.count as u64;
        match JobStatus::parse(row.status.as_str()) {
            Ok(status) => match status {
                JobStatus::Queued => counts.queued = count,
                JobStatus::Running => counts.running = count,
                JobStatus::RetryWait => counts.retry_wait = count,
                JobStatus::Completed => counts.completed = count,
                JobStatus::Failed => counts.failed = count,
                JobStatus::Cancelled => counts.cancelled = count,
            },
            Err(error) => {
                proof {
                    lemma_counted_error(rows@, i + 1);
                }
                return Err(error);
            },
        }
        i += 1;
    }
    assert(rows@.take(rows@.len() as int) =~= rows@);
    Ok(counts)
}

/// The count of a stored total.
pub fn job_count(count: i64) -> (r: Result<u64, StateError>)
    ensures
        r == (if count >= 0 {
            Ok::<u64, StateError>(count as u64)
        } else {
            invalid("job count is invalid")
        }),
{
    if count < 0 {
        return Err(StateError::InvalidInput("job count is invalid"));
    }
    Ok(count as u64)
}

/// A leased job cannot be claimed again before its lease is over.
pub proof fn law_claim_is_exclusive(
    before: JobRecord,
    after: JobRecord,
    worker: Seq<char>,
    lease_until: i64,
    later: i64,
)
    requires
        before.claimed_as(after, worker, lease_until),
        later < lease_until,
    ensures
        !after.claimable(later),
        after.held_by(worker),
{
}

/// Returning a claimed job gives its attempt back: the attempts are those from
/// before the claim.
pub proof fn law_release_restores_attempts(
    before: JobRecord,
    after: JobRecord,
    worker: Seq<char>,
    lease_until: i64,
    available_at: i64,
    now: i64,
)
    requires
        before.attempts < u32::MAX,
        before.claimed_as(after, worker, lease_until),
    ensures
        after.returned(available_at, now).attempts == before.attempts,
{
}

/// A terminal job is never claimed, and no worker holds it.
pub proof fn law_terminal_jobs_rest(job: JobRecord, now: i64, worker: Seq<char>)
    requires
        job.status.terminal(),
    ensures
        !job.claimable(now),
        !job.held_by(worker),
        !job.cancellable(),
{
}

/// A job is claimed at most as often as its budget allows, unless it is
/// claimed to be cancelled.
pub proof fn law_attempts_within_budget(
    before: JobRecord,
    after: JobRecord,
    worker: Seq<char>,
    now: i64,
    lease_until: i64,
)
    requires
        before.claimable(now),
        !before.cancel_requested,
        before.claimed_as(after, worker, lease_until),
    ensures
        after.attempts <= after.max_attempts,
{
}

/// Vault-wide cancellation never touches jobs of another vault, global jobs or
/// running uninterruptible work.
pub proof fn law_cancellation_stays_in_vault(
    jobs: Seq<JobRecord>,
    vault: Seq<char>,
    job_type: Option<Seq<char>>,
    now: i64,
    i: int,
)
    requires
        0 <= i < jobs.len(),
        !jobs[i].in_vault(vault) || (jobs[i].status == JobStatus::Running && uninterruptible(
            jobs[i].job_type@,
        )),
    ensures
        cancelled_jobs(jobs, vault, job_type, now)[i] == jobs[i],
{
}

/// Scopes take turns: among claimable jobs of one priority, a job of lower
/// rank in its scope is placed before every job of higher rank in any scope.
pub proof fn law_scopes_take_turns(jobs: Seq<JobRecord>, now: i64, i: int, j: int)
    requires
        0 <= i < jobs.len(),
        0 <= j < jobs.len(),
        jobs.len() < i64::MAX,
        jobs[i].priority == jobs[j].priority,
        scope_rank(jobs, now, i) < scope_rank(jobs, now, j),
    ensures
        placed_before(claim_keys(jobs, now), i, j),
{
    lemma_rank_bounded(jobs, now, i, jobs.len() as int);
    lemma_rank_bounded(jobs, now, j, jobs.len() as int);
}

/// Higher priorities are claimed first.
pub proof fn law_priority_first(jobs: Seq<JobRecord>, now: i64, i: int, j: int)
    requires
        0 <= i < jobs.len(),
        0 <= j < jobs.len(),
        jobs[i].priority > jobs[j].priority,
    ensures
        placed_before(claim_keys(jobs, now), i, j),
{
}

} // verus!
