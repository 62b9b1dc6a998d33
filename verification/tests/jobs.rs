use mcp_vault_state::error::{DatabaseFault, DatabaseFaultKind};
use mcp_vault_state::jobs::admission::{enqueue, enqueue_global, enqueue_singleton, JobRequest};
use mcp_vault_state::jobs::queries::{
    count_statuses, find_by_dedup, get, list, list_terminal, pending_count, pending_count_for,
};
use mcp_vault_state::jobs::{
    cancel_claimed, claim_batch, complete, enqueue_after_refusal, enqueue_inner, fail_permanently,
    find_active_by_type, has_newer_active_job, is_uninterruptible, job_count, release_claimed,
    release_worker_leases, renew_claimed, request_cancel, request_cancel_all, request_cancel_type,
    request_restart_terminal, request_retry, retry_or_fail, row_to_job, should_cancel_claimed,
    singleton_after_failure, status_counts, store_claim, update_progress, Enqueued, JobRow, StatusCountRow,
};
use mcp_vault_state::json::Json;
use mcp_vault_state::{Id, JobRecord, JobStatus, StateError, VaultContext};

fn id(text: &str) -> Id {
    Id::new(text.to_owned())
}

fn vault(name: &str) -> VaultContext {
    VaultContext { id: id(name), slug: name.to_owned(), content_root: Some(format!("/srv/{name}")) }
}

fn payload() -> Json {
    Json::parse("{}").unwrap()
}

fn job(name: &str, vault_id: Option<&str>, priority: i32, created_at: i64) -> JobRecord {
    match enqueue_inner(
        None,
        vault_id.map(id),
        id(name),
        "scan",
        name,
        &payload(),
        priority,
        3,
        0,
        created_at,
    ) {
        Ok(Enqueued::Created(job)) => job,
        other => panic!("unexpected {other:?}"),
    }
}

fn names(jobs: &[JobRecord]) -> Vec<String> {
    jobs.iter().map(|job| job.id.text.clone()).collect()
}

fn claimed(name: &str) -> JobRecord {
    claim_batch(vec![job(name, Some("v"), 0, 1)], "w", 10, 20, 1).unwrap().remove(0)
}

#[test]
fn scopes_of_equal_priority_take_turns() {
    let jobs = vec![
        job("a1", Some("a"), 0, 1),
        job("a2", Some("a"), 0, 2),
        job("b1", Some("b"), 0, 3),
        job("g1", None, 0, 4),
        job("a3", Some("a"), 5, 9),
    ];
    let batch = claim_batch(jobs, "worker", 10, 20, 4).unwrap();
    assert_eq!(names(&batch), ["a3", "b1", "g1", "a1"]);
    for job in batch {
        assert_eq!(job.status, JobStatus::Running);
        assert_eq!(job.attempts, 1);
        assert_eq!(job.lease_owner.as_deref(), Some("worker"));
        assert_eq!(job.lease_until, Some(20));
    }
}

#[test]
fn a_stored_claim_is_the_latest_update() {
    let held = claimed("a");
    let kept = store_claim(held.clone(), 10);
    assert_eq!(kept, JobRecord { updated_at: 10, ..held });
}

#[test]
fn a_live_lease_is_exclusive_and_an_expired_one_is_not() {
    let held = claimed("a");
    assert!(claim_batch(vec![held.clone()], "other", 19, 30, 1).unwrap().is_empty());
    let again = claim_batch(vec![held], "other", 20, 30, 1).unwrap();
    assert_eq!(again[0].attempts, 2);
    assert_eq!(again[0].lease_owner.as_deref(), Some("other"));
}

#[test]
fn claim_arguments_are_checked() {
    assert_eq!(
        claim_batch(vec![], "", 1, 2, 1),
        Err(StateError::InvalidInput("worker ID is invalid"))
    );
    assert_eq!(
        claim_batch(vec![], "w", 2, 2, 1),
        Err(StateError::InvalidInput("lease must expire in the future"))
    );
    assert_eq!(
        claim_batch(vec![], "w", 1, 2, 129),
        Err(StateError::InvalidInput("worker batch size is invalid"))
    );
}

#[test]
fn failures_retry_until_the_attempts_are_spent() {
    let mut job = claimed("a");
    for _ in 0..2 {
        let (waiting, status) = retry_or_fail(Some(job), "w", 30, "timeout", 25).unwrap();
        assert_eq!(status, JobStatus::RetryWait);
        assert_eq!(waiting.last_error.as_deref(), Some("timeout"));
        assert_eq!(waiting.available_at, 30);
        job = claim_batch(vec![waiting], "w", 30, 40, 1).unwrap().remove(0);
    }
    let (failed, status) = retry_or_fail(Some(job), "w", 50, "timeout", 45).unwrap();
    assert_eq!(status, JobStatus::Failed);
    assert_eq!(failed.completed_at, Some(45));
    assert!(claim_batch(vec![failed.clone()], "w", 100, 200, 1).unwrap().is_empty());
    let again = request_retry(&vault("v"), Some(failed), 60).unwrap();
    assert_eq!((again.status, again.attempts), (JobStatus::Queued, 0));
}

#[test]
fn only_the_lease_owner_may_end_a_job() {
    let held = claimed("a");
    let lost = Err(StateError::InvalidInput("job lease is not owned"));
    assert_eq!(complete(Some(held.clone()), "other", 15), lost);
    assert_eq!(complete(None, "w", 15), lost);
    assert_eq!(
        retry_or_fail(None, "w", 1, "x", 1),
        Err(StateError::InvalidInput("job does not exist"))
    );
    assert_eq!(
        fail_permanently(Some(held.clone()), "w", "", 15),
        Err(StateError::InvalidInput("worker error is invalid"))
    );
    let failed = fail_permanently(Some(held.clone()), "w", "broken", 15).unwrap();
    assert_eq!(failed.status, JobStatus::Failed);
    let done = complete(Some(held.clone()), "w", 15).unwrap();
    assert_eq!((done.status, done.completed_at), (JobStatus::Completed, Some(15)));
    let cancelled = cancel_claimed(Some(held), "w", 15).unwrap();
    assert_eq!(cancelled.status, JobStatus::Cancelled);
}

#[test]
fn a_released_job_keeps_its_attempts() {
    let fresh = job("a", Some("v"), 0, 1);
    let held = claimed("a");
    let back = release_claimed(Some(held.clone()), "w", 12, 11).unwrap();
    assert_eq!(back.attempts, fresh.attempts);
    assert_eq!(back.status, JobStatus::Queued);
    assert_eq!(back.available_at, 12);
    let cancelled = JobRecord { cancel_requested: true, ..held };
    assert!(release_claimed(Some(cancelled), "w", 12, 11).is_err());
}

#[test]
fn progress_is_bounded() {
    let held = claimed("a");
    let large = Json::parse(&format!("\"{}\"", "x".repeat(262144))).unwrap();
    assert_eq!(
        update_progress(Some(held.clone()), "w", large, 12),
        Err(StateError::InvalidInput("worker payload is too large"))
    );
    let held = update_progress(Some(held), "w", Json::parse("{\"n\":1}").unwrap(), 12).unwrap();
    assert_eq!(held.progress.unwrap().as_str(), "{\"n\":1}");
}

#[test]
fn leases_are_renewed_only_by_their_owner() {
    let held = claimed("a");
    let (renewed, stop) = renew_claimed(Some(held.clone()), "w", 50, 15).unwrap();
    assert!(!stop);
    assert_eq!(renewed.unwrap().lease_until, Some(50));
    assert_eq!(
        renew_claimed(Some(held.clone()), "other", 50, 15),
        Ok((Some(held.clone()), true))
    );
    assert_eq!(
        renew_claimed(Some(held.clone()), "w", 15, 15),
        Err(StateError::InvalidInput("job lease renewal is invalid"))
    );
    assert_eq!(should_cancel_claimed(Some(held.clone()), "w"), Ok(false));
    assert_eq!(should_cancel_claimed(Some(held.clone()), "other"), Ok(true));
    let asked = JobRecord { cancel_requested: true, ..held };
    assert_eq!(should_cancel_claimed(Some(asked), "w"), Ok(true));
    assert_eq!(should_cancel_claimed(None, "w"), Ok(true));
}

#[test]
fn cancellation_stays_in_its_vault() {
    let jobs = vec![
        job("a", Some("v"), 0, 1),
        job("b", Some("w"), 0, 1),
        job("c", None, 0, 1),
        claimed("d"),
    ];
    let (after, n) = request_cancel_all(&vault("v"), jobs.clone(), 9);
    assert_eq!(n, 2);
    assert_eq!(after[0].status, JobStatus::Cancelled);
    assert_eq!(after[1], jobs[1]);
    assert_eq!(after[2], jobs[2]);
    assert_eq!(after[3].status, JobStatus::Running);
    assert!(after[3].cancel_requested);
    let (_, n) = request_cancel_type(&vault("v"), jobs.clone(), "other", 9).unwrap();
    assert_eq!(n, 0);
    assert_eq!(
        request_cancel(&vault("w"), Some(jobs[0].clone()), 9),
        Err(StateError::InvalidInput("job is not cancellable"))
    );
}

#[test]
fn running_maintenance_is_not_interrupted() {
    for name in ["backup.create", "BACKUP.restore", "memory.consolidate", "memory.reset_pipeline"] {
        assert!(is_uninterruptible(name));
    }
    assert!(!is_uninterruptible("memory.extract"));
    assert!(!is_uninterruptible("backups"));
    let held = JobRecord { job_type: "backup.create".to_owned(), ..claimed("a") };
    assert!(request_cancel(&vault("v"), Some(held.clone()), 9).is_err());
    let waiting = JobRecord { status: JobStatus::Queued, ..held };
    assert!(request_cancel(&vault("v"), Some(waiting), 9).is_ok());
}

#[test]
fn a_retry_resumes_extraction_and_starts_others_anew() {
    let progress = Some(Json::parse("{\"n\":1}").unwrap());
    let failed = JobRecord {
        status: JobStatus::Failed,
        progress: progress.clone(),
        job_type: "memory.extract".to_owned(),
        ..job("a", Some("v"), 0, 1)
    };
    assert_eq!(request_retry(&vault("v"), Some(failed.clone()), 9).unwrap().progress, progress);
    let other = JobRecord { job_type: "scan".to_owned(), ..failed.clone() };
    assert_eq!(request_retry(&vault("v"), Some(other), 9).unwrap().progress, None);
    assert_eq!(
        request_retry(&vault("w"), Some(failed.clone()), 9),
        Err(StateError::InvalidInput("job is not retryable"))
    );
    assert_eq!(request_restart_terminal(&vault("v"), Some(failed), 9).unwrap().progress, None);
    assert_eq!(
        request_restart_terminal(&vault("v"), Some(job("b", Some("v"), 0, 1)), 9),
        Err(StateError::InvalidInput("job is not restartable"))
    );
}

#[test]
fn the_newest_unfinished_job_of_a_type_is_found() {
    let jobs = vec![
        job("a", Some("v"), 0, 1),
        job("b", Some("v"), 0, 3),
        job("c", Some("v"), 0, 3),
        job("d", Some("w"), 0, 9),
        JobRecord { status: JobStatus::Completed, ..job("e", Some("v"), 0, 9) },
    ];
    assert_eq!(find_active_by_type(&vault("v"), &jobs, "scan"), Ok(Some(2)));
    assert_eq!(find_active_by_type(&vault("v"), &jobs, "other"), Ok(None));
    assert_eq!(
        find_active_by_type(&vault("v"), &jobs, ""),
        Err(StateError::InvalidInput("job label is invalid"))
    );
    assert_eq!(has_newer_active_job(&vault("v"), &jobs, "scan", 3, &id("b")), Ok(true));
    assert_eq!(has_newer_active_job(&vault("v"), &jobs, "scan", 3, &id("c")), Ok(false));
}

fn request(job_type: &str, key: &str) -> JobRequest {
    JobRequest {
        job_type: job_type.to_owned(),
        dedup_key: key.to_owned(),
        payload: payload(),
        priority: 0,
        max_attempts: 3,
        available_at: 1,
    }
}

fn created(r: Result<Enqueued, StateError>) -> JobRecord {
    match r {
        Ok(Enqueued::Created(job)) => job,
        other => panic!("unexpected {other:?}"),
    }
}

#[test]
fn keys_are_unique_in_the_global_scope_and_apart_from_vaults() {
    let first = created(enqueue_global(&[], id("1"), &request("scan", "global-scan"), 1));
    assert_eq!(first.vault_id, None);
    let again = enqueue_global(&[first.clone()], id("2"), &request("scan", "global-scan"), 2);
    assert_eq!(again, Ok(Enqueued::Existing(first.clone())));
    let scoped =
        created(enqueue_singleton(&vault("v"), &[first], id("3"), &request("scan", "global-scan"), 3));
    assert_eq!(scoped.vault_id, Some(id("v")));
    assert_eq!(find_by_dedup(&vault("v"), &[scoped.clone()], "global-scan"), Some(0));
    assert_eq!(find_by_dedup(&vault("w"), &[scoped], "global-scan"), None);
}

#[test]
fn keys_are_unique_in_a_vault() {
    let first = created(enqueue(&vault("v"), &[], id("1"), &request("scan", "key"), 1));
    assert_eq!(first.vault_id, Some(id("v")));
    let again = enqueue(&vault("v"), &[first.clone()], id("2"), &request("scan", "key"), 2);
    assert_eq!(again, Ok(Enqueued::Existing(first.clone())));
    let next = created(enqueue(&vault("v"), &[first.clone()], id("2"), &request("scan", "new"), 2));
    assert_eq!(next.id, id("2"));
    let elsewhere = created(enqueue(&vault("w"), &[first], id("3"), &request("scan", "key"), 2));
    assert_eq!(elsewhere.vault_id, Some(id("w")));
}

#[test]
fn singletons_return_the_unfinished_job_whatever_its_key() {
    let first = created(enqueue_singleton(&vault("v"), &[], id("1"), &request("scan", "one"), 1));
    let again = enqueue_singleton(&vault("v"), &[first.clone()], id("2"), &request("scan", "two"), 2);
    assert_eq!(again, Ok(Enqueued::Existing(first.clone())));
    let over = JobRecord { status: JobStatus::Completed, ..first };
    let next = enqueue_singleton(&vault("v"), &[over.clone()], id("2"), &request("scan", "two"), 2);
    assert_eq!(created(next).id, id("2"));
    let same = enqueue_singleton(&vault("v"), &[over.clone()], id("2"), &request("scan", "one"), 2);
    assert_eq!(same, Ok(Enqueued::Existing(over)));
}

#[test]
fn admission_is_bounded() {
    let bad = |request: JobRequest| enqueue_global(&[], id("1"), &request, 1);
    assert_eq!(bad(request("", "k")), Err(StateError::InvalidInput("job label is invalid")));
    assert_eq!(
        bad(request("scan", &"k".repeat(513))),
        Err(StateError::InvalidInput("job label is invalid"))
    );
    assert_eq!(
        bad(JobRequest { max_attempts: 101, ..request("scan", "k") }),
        Err(StateError::InvalidInput("job max attempts are invalid"))
    );
    let large = Json::parse(&format!("\"{}\"", "x".repeat(262144))).unwrap();
    assert_eq!(
        bad(JobRequest { payload: large, ..request("scan", "k") }),
        Err(StateError::InvalidInput("worker payload is too large"))
    );
}

#[test]
fn lost_races_return_the_job_that_won() {
    let fault = DatabaseFault {
        kind: DatabaseFaultKind::Database,
        code: Some("2067".to_owned()),
        unique_violation: true,
        foreign_key_violation: false,
        check_violation: false,
    };
    let winner = job("a", Some("v"), 0, 1);
    assert_eq!(enqueue_after_refusal(Some(winner.clone()), fault.clone()), Ok(winner.clone()));
    assert_eq!(
        enqueue_after_refusal(None, fault.clone()),
        Err(StateError::Database(fault))
    );
    assert_eq!(singleton_after_failure(Some(winner.clone()), StateError::Conflict), Ok(winner));
    assert_eq!(singleton_after_failure(None, StateError::Conflict), Err(StateError::Conflict));
}

#[test]
fn listings_filter_and_order() {
    let jobs = vec![
        job("a", Some("v"), 0, 1),
        JobRecord { status: JobStatus::Completed, completed_at: Some(7), ..job("b", Some("v"), 0, 2) },
        JobRecord { status: JobStatus::Failed, updated_at: 9, ..job("c", Some("v"), 0, 2) },
        job("d", Some("w"), 0, 5),
        job("e", None, 0, 6),
    ];
    let v = vault("v");
    assert_eq!(list(&v, &jobs, None, None, 200, 0), Ok(vec![1, 2, 0]));
    assert_eq!(list(&v, &jobs, Some(JobStatus::Failed), None, 200, 0), Ok(vec![2]));
    assert_eq!(list(&v, &jobs, None, Some("other"), 200, 0), Ok(vec![]));
    assert_eq!(list(&v, &jobs, None, None, 1, 1), Ok(vec![2]));
    assert_eq!(
        list(&v, &jobs, None, None, 0, 0),
        Err(StateError::InvalidInput("job page is invalid"))
    );
    assert_eq!(
        list(&v, &jobs, None, Some(""), 1, 0),
        Err(StateError::InvalidInput("job label is invalid"))
    );
    assert_eq!(list_terminal(&v, &jobs, 200, 0), Ok(vec![2, 1]));
    assert_eq!(get(&v, &jobs, &id("a")), Some(0));
    assert_eq!(get(&v, &jobs, &id("d")), None);
    assert_eq!(pending_count_for(&v, &jobs), 1);
    assert_eq!(pending_count(&jobs), 3);
    let counts = count_statuses(&v, &jobs);
    assert_eq!((counts.queued, counts.completed, counts.failed), (1, 1, 1));
    assert_eq!((counts.running, counts.retry_wait, counts.cancelled), (0, 0, 0));
    assert_eq!(
        counts.queued + counts.running + counts.retry_wait,
        pending_count_for(&v, &jobs)
    );
}

#[test]
fn statuses_are_counted() {
    let row = |status: &str, count: i64| StatusCountRow { status: status.to_owned(), count };
    let counts = status_counts(&[row("queued", 2), row("failed", 5)]).unwrap();
    assert_eq!((counts.queued, counts.failed, counts.running), (2, 5, 0));
    assert_eq!(
        status_counts(&[row("paused", 1)]),
        Err(StateError::InvalidInput("stored job status is invalid"))
    );
    assert_eq!(
        status_counts(&[row("queued", -1)]),
        Err(StateError::InvalidInput("job count is invalid"))
    );
    assert_eq!(job_count(3), Ok(3));
    assert_eq!(job_count(-3), Err(StateError::InvalidInput("job count is invalid")));
}

#[test]
fn a_worker_gives_its_leases_back() {
    let held = claimed("a");
    let other = JobRecord { lease_owner: Some("x".to_owned()), ..claimed("b") };
    let after = release_worker_leases(vec![held, other.clone()], "w", 15).unwrap();
    assert_eq!(after[0].status, JobStatus::RetryWait);
    assert_eq!(after[0].lease_owner, None);
    assert_eq!(after[1], other);
}

#[test]
fn stored_jobs_are_read_back() {
    let row = JobRow {
        id: "a".to_owned(),
        vault_id: None,
        job_type: "scan".to_owned(),
        dedup_key: "k".to_owned(),
        payload_json: "{ }".to_owned(),
        status: "retry_wait".to_owned(),
        priority: -3,
        attempts: 1,
        max_attempts: 3,
        available_at: 1,
        lease_owner: None,
        lease_until: None,
        progress_json: Some("[1, 2]".to_owned()),
        last_error: None,
        created_at: 1,
        updated_at: 2,
        completed_at: None,
        cancel_requested: 1,
    };
    let job = row_to_job(row.clone()).unwrap();
    assert_eq!(job.status, JobStatus::RetryWait);
    assert_eq!(job.priority, -3);
    assert_eq!(job.payload.as_str(), "{}");
    assert_eq!(job.progress.unwrap().as_str(), "[1,2]");
    assert!(job.cancel_requested);
    assert!(row_to_job(JobRow { attempts: -1, ..row.clone() }).is_err());
    assert!(row_to_job(JobRow { priority: i64::MAX, ..row.clone() }).is_err());
    assert_eq!(
        row_to_job(JobRow { payload_json: "{".to_owned(), ..row }),
        Err(StateError::Json)
    );
}
