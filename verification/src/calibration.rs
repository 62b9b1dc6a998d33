//! Vault-scoped bounded calibration checkpoints and transport request
//! accounting.

use vstd::prelude::*;

use crate::domain::{Id, VaultContext};
use crate::error::{accepted_if, invalid, StateError};
use crate::json::Json;
use crate::order::{is_page, page, SortKey};
use crate::rows::{find, first_index, first_row, lemma_first_index, lemma_push_keeps_others};
use crate::search::{memory_search_terms, memory_terms};
use crate::text::{byte_len, bytes_of, text_eq};

pub mod laws;

verus! {

/// Configurable engineering limits; quality gates are never configurable here.
#[derive(Clone, Copy, Debug, PartialEq, Eq, Structural)]
pub struct CalibrationBudget {
    /// Actual HTTP attempts, including retries, per authorized round.
    pub max_requests: u32,
    /// Serialized HTTP request bytes per round.
    pub max_bytes: u32,
    /// Maximum unique synthetic embedding inputs.
    pub max_inputs: u32,
    /// Embedding input count per batch.
    pub batch_size: u32,
    /// Total durable round deadline, including restart downtime.
    pub timeout_seconds: u32,
}

impl Default for CalibrationBudget {
    fn default() -> (r: CalibrationBudget)
        ensures
            r == CalibrationBudget::standard(),
            r.within_limits(),
    {
        CalibrationBudget {
            max_requests: 32,
            max_bytes: 2097152,
            max_inputs: 512,
            batch_size: 16,
            timeout_seconds: 900,
        }
    }
}

impl CalibrationBudget {
    /// The budget of a round that was not configured.
    pub open spec fn standard() -> CalibrationBudget {
        CalibrationBudget {
            max_requests: 32,
            max_bytes: 2097152,
            max_inputs: 512,
            batch_size: 16,
            timeout_seconds: 900,
        }
    }

    /// Whether no limit is zero or unbounded.
    pub open spec fn within_limits(self) -> bool {
        &&& 1 <= self.max_requests <= 128
        &&& 1024 <= self.max_bytes <= 8388608
        &&& 1 <= self.max_inputs <= 512
        &&& 1 <= self.batch_size <= 64
        &&& 1 <= self.timeout_seconds <= 3600
    }

    /// Reject zero or unbounded work at the boundary.
    pub fn validate(&self) -> (r: Result<(), StateError>)
        ensures
            r == accepted_if(self.within_limits(), "calibration budget is invalid"),
    {
        if self.max_requests < 1 || self.max_requests > 128 || self.max_bytes < 1024
            || self.max_bytes > 8388608 || self.max_inputs < 1 || self.max_inputs > 512
            || self.batch_size < 1 || self.batch_size > 64 || self.timeout_seconds < 1
            || self.timeout_seconds > 3600 {
            return Err(StateError::InvalidInput("calibration budget is invalid"));
        }
        Ok(())
    }
}

/// Persisted execution state; synthetic vectors stay outside business indexes.
#[derive(Clone, Debug, PartialEq, Eq)]
pub struct CalibrationRun {
    /// Evaluated role channel.
    pub channel: String,
    /// Exact retrieval configuration signature.
    pub signature: String,
    /// Pending, running or terminal execution state.
    pub status: String,
    /// Resumable embedding cache; never returned to protocol clients.
    pub checkpoint_json: String,
    /// Bounded, content-free metrics and failed case identities.
    pub report_json: Option<String>,
    /// Actual transport attempts reserved immediately before dispatch.
    pub requests: i64,
    /// Serialized HTTP body bytes dispatched, including retries.
    pub request_bytes: i64,
    /// Authorized cumulative request ceiling; manual retries allocate a new
    /// round.
    pub request_limit: i64,
    /// Authorized cumulative serialized input ceiling.
    pub byte_limit: i64,
    /// Frozen engineering limits for this signature.
    pub budget_json: String,
    /// Initial admission time; restart cannot reset the deadline.
    pub started_at: i64,
    /// Most recent state change.
    pub updated_at: i64,
}

impl CalibrationRun {
    /// Whether the round may still make requests.
    pub open spec fn open_round(self) -> bool {
        self.status@ == "pending"@ || self.status@ == "running"@
    }

    /// Whether a round ended without being published.
    pub open spec fn retryable(self) -> bool {
        self.status@ == "failed"@ || self.status@ == "quality_failed"@ || self.status@
            == "cancelled"@
    }

    /// Whether the round is over.
    pub open spec fn ended(self) -> bool {
        self.retryable() || self.status@ == "passed"@
    }

    /// Whether one more request of `bytes` bytes fits the round at `now`.
    pub open spec fn admits(self, bytes: int, deadline_ms: i64, now: i64) -> bool {
        &&& self.open_round()
        &&& self.requests < self.request_limit
        &&& self.request_bytes + bytes <= self.byte_limit
        &&& self.started_at + deadline_ms >= now
    }

    fn is_open_round(&self) -> (r: bool)
        ensures
            r == self.open_round(),
    {
        text_eq(self.status.as_str(), "pending") || text_eq(self.status.as_str(), "running")
    }

    fn is_retryable(&self) -> (r: bool)
        ensures
            r == self.retryable(),
    {
        text_eq(self.status.as_str(), "failed") || text_eq(self.status.as_str(), "quality_failed")
            || text_eq(self.status.as_str(), "cancelled")
    }
}

/// A stored round with the vault that it belongs to.
#[derive(Clone, Debug, PartialEq, Eq)]
pub struct StoredRun {
    pub vault_id: Id,
    pub run: CalibrationRun,
}

impl StoredRun {
    /// Whether this is the round of a channel and signature in a vault.
    pub open spec fn is(self, vault: Seq<char>, channel: Seq<char>, signature: Seq<char>) -> bool {
        &&& self.vault_id@ == vault
        &&& self.run.channel@ == channel
        &&& self.run.signature@ == signature
    }
}

/// The vault's round of a channel and signature: its position.
pub fn get(context: &VaultContext, runs: &[StoredRun], channel: &str, signature: &str) -> (r: Option<
    usize,
>)
    ensures
        match r {
            Some(i) => i < runs@.len() && first_index(
                runs@,
                |stored: StoredRun| stored.is(context.id@, channel@, signature@),
            ) == Some(i as int),
            None => first_index(
                runs@,
                |stored: StoredRun| stored.is(context.id@, channel@, signature@),
            ) is None,
        },
{
    let accepts = |stored: &StoredRun| -> (yes: bool)
        ensures
            yes == stored.is(context.id@, channel@, signature@),
        {
            stored.vault_id.same(&context.id) && text_eq(stored.run.channel.as_str(), channel)
                && text_eq(stored.run.signature.as_str(), signature)
        };
    find(
        runs,
        accepts,
        Ghost(|stored: StoredRun| stored.is(context.id@, channel@, signature@)),
    )
}

/// A read sees only the requested vault, channel and signature: rounds of
/// another of these change nothing.
pub proof fn law_rounds_are_isolated(
    runs: Seq<StoredRun>,
    other: StoredRun,
    vault: Seq<char>,
    channel: Seq<char>,
    signature: Seq<char>,
)
    requires
        other.vault_id@ != vault || other.run.channel@ != channel || other.run.signature@
            != signature,
    ensures
        first_row(
            runs.push(other),
            |stored: StoredRun| stored.is(vault, channel, signature),
        ) == first_row(runs, |stored: StoredRun| stored.is(vault, channel, signature)),
        first_row(runs, |stored: StoredRun| stored.is(vault, channel, signature)) matches Some(
            stored,
        ) ==> stored.is(vault, channel, signature),
{
    let rule = |stored: StoredRun| stored.is(vault, channel, signature);
    lemma_push_keeps_others(runs, other, rule);
    lemma_first_index(runs, rule);
}

/// Admit a signature once without resetting an existing budget: an existing
/// run is returned as it is, a new one is frozen with its limits.
/// `checkpoint_json` is the cache of a run without completed batches.
pub fn ensure_with_budget(
    existing: Option<CalibrationRun>,
    channel: &str,
    signature: &str,
    budget: &CalibrationBudget,
    budget_json: String,
    checkpoint_json: String,
    now: i64,
) -> (r: Result<CalibrationRun, StateError>)
    ensures
        if !budget.within_limits() {
            r == invalid::<CalibrationRun>("calibration budget is invalid")
        } else if existing is Some && existing->0.channel@ == channel@ && existing->0.signature@
            == signature@ {
            r == Ok::<CalibrationRun, StateError>(existing->0)
        } else {
            &&& r is Ok
            &&& r->Ok_0.channel@ == channel@
            &&& r->Ok_0.signature@ == signature@
            &&& r->Ok_0.status@ == "pending"@
            &&& r->Ok_0 == (CalibrationRun {
                channel: r->Ok_0.channel,
                signature: r->Ok_0.signature,
                status: r->Ok_0.status,
                checkpoint_json,
                report_json: None,
                requests: 0,
                request_bytes: 0,
                request_limit: budget.max_requests as i64,
                byte_limit: budget.max_bytes as i64,
                budget_json,
                started_at: now,
                updated_at: now,
            })
        },
{
    match budget.validate() {
        Ok(()) => {},
        Err(error) => return Err(error),
    }
    match existing {
        Some(run) if text_eq(run.channel.as_str(), channel) && text_eq(
            run.signature.as_str(),
            signature,
        ) => Ok(run),
        _ => Ok(
            CalibrationRun {
                channel: channel.to_owned(),
                signature: signature.to_owned(),
                status: "pending".to_owned(),
                checkpoint_json,
                report_json: None,
                requests: 0,
                request_bytes: 0,
                request_limit: budget.max_requests as i64,
                byte_limit: budget.max_bytes as i64,
                budget_json,
                started_at: now,
                updated_at: now,
            },
        ),
    }
}

/// Charge one HTTP attempt before network dispatch, including retries. The
/// spent budget survives failures and process restarts.
pub fn reserve_request(run: Option<CalibrationRun>, bytes: usize, deadline_ms: i64, now: i64) -> (r: Result<
    CalibrationRun,
    StateError,
>)
    ensures
        if bytes > i64::MAX {
            r == invalid::<CalibrationRun>("calibration request too large")
        } else if run is Some && run->0.admits(bytes as int, deadline_ms, now) {
            &&& r is Ok
            &&& r->Ok_0.status@ == "running"@
            &&& r->Ok_0 == (CalibrationRun {
                requests: (run->0.requests + 1) as i64,
                request_bytes: (run->0.request_bytes + bytes) as i64,
                status: r->Ok_0.status,
                updated_at: now,
                ..run->0
            })
        } else {
            r == invalid::<CalibrationRun>("calibration budget exhausted or stopped")
        },
{
    if bytes as u128 > i64::MAX as u128 {
        return Err(StateError::InvalidInput("calibration request too large"));
    }
    match run {
        Some(run) => {
            let spent: i128 = run.request_bytes as i128 + bytes as i128;
            if run.is_open_round() && run.requests < run.request_limit && spent
                <= run.byte_limit as i128 && run.started_at as i128 + deadline_ms as i128
                >= now as i128 {
                Ok(
                    CalibrationRun {
                        requests: run.requests + 1,
                        request_bytes: spent as i64,
                        status: "running".to_owned(),
                        updated_at: now,
                        ..run
                    },
                )
            } else {
                Err(StateError::InvalidInput("calibration budget exhausted or stopped"))
            }
        },
        None => Err(StateError::InvalidInput("calibration budget exhausted or stopped")),
    }
}

/// A run whose next round was authorized, with the report that it replaces.
#[derive(Clone, Debug, PartialEq, Eq)]
pub struct RetriedRun {
    pub run: CalibrationRun,
    pub previous_report_json: Option<String>,
}

/// Sum of a spent amount and a new allowance, as far as it can be stored.
pub open spec fn ceiling(spent: i64, allowance: u32) -> i64 {
    if spent + allowance <= i64::MAX {
        (spent + allowance) as i64
    } else {
        i64::MAX
    }
}

/// An explicit retry allocates one new bounded round. Lifetime consumption is
/// retained; a restart cannot do this. `budget` are the frozen limits of the
/// run.
pub fn retry(run: Option<CalibrationRun>, budget: &CalibrationBudget, now: i64) -> (r: Option<
    RetriedRun,
>)
    ensures
        if run is Some && run->0.retryable() {
            &&& r is Some
            &&& r->0.previous_report_json == run->0.report_json
            &&& r->0.run.status@ == "pending"@
            &&& r->0.run == (CalibrationRun {
                status: r->0.run.status,
                report_json: None,
                request_limit: ceiling(run->0.requests, budget.max_requests),
                byte_limit: ceiling(run->0.request_bytes, budget.max_bytes),
                started_at: now,
                updated_at: now,
                ..run->0
            })
        } else {
            r is None
        },
{
    match run {
        Some(run) if run.is_retryable() => {
            let requests: i128 = run.requests as i128 + budget.max_requests as i128;
            let bytes: i128 = run.request_bytes as i128 + budget.max_bytes as i128;
            let request_limit: i64 = if requests <= i64::MAX as i128 {
                requests as i64
            } else {
                i64::MAX
            };
            let byte_limit: i64 = if bytes <= i64::MAX as i128 {
                bytes as i64
            } else {
                i64::MAX
            };
            let CalibrationRun {
                channel,
                signature,
                status: _,
                checkpoint_json,
                report_json,
                requests,
                request_bytes,
                request_limit: _,
                byte_limit: _,
                budget_json,
                started_at: _,
                updated_at: _,
            } = run;
            Some(
                RetriedRun {
                    run: CalibrationRun {
                        channel,
                        signature,
                        status: "pending".to_owned(),
                        checkpoint_json,
                        report_json: None,
                        requests,
                        request_bytes,
                        request_limit,
                        byte_limit,
                        budget_json,
                        started_at: now,
                        updated_at: now,
                    },
                    previous_report_json: report_json,
                },
            )
        },
        _ => None,
    }
}

/// Save a completed batch before requesting the next one.
pub fn checkpoint(run: Option<CalibrationRun>, value: Json, now: i64) -> (r: Result<
    CalibrationRun,
    StateError,
>)
    ensures
        r == (if byte_len(value@) > 33554432 {
            invalid("calibration checkpoint exceeds bound")
        } else if run is Some && run->0.open_round() {
            Ok::<CalibrationRun, StateError>(
                (CalibrationRun { checkpoint_json: value.text, updated_at: now, ..run->0 }),
            )
        } else {
            Err(StateError::Conflict)
        }),
{
    if bytes_of(value.as_str()) > 33554432 {
        return Err(StateError::InvalidInput("calibration checkpoint exceeds bound"));
    }
    match run {
        Some(run) if run.is_open_round() => Ok(
            CalibrationRun { checkpoint_json: value.text, updated_at: now, ..run },
        ),
        _ => Err(StateError::Conflict),
    }
}

/// Stop an explicitly cancelled round, including a saved report that has not
/// yet been published. Nothing is stopped elsewhere.
pub fn cancel(run: Option<CalibrationRun>, now: i64) -> (r: Option<CalibrationRun>)
    ensures
        if run is Some && (run->0.open_round() || run->0.status@ == "passed"@) {
            &&& r is Some
            &&& r->0.status@ == "cancelled"@
            &&& r->0 == (CalibrationRun { status: r->0.status, updated_at: now, ..run->0 })
        } else {
            r is None
        },
{
    match run {
        Some(run) if run.is_open_round() || text_eq(run.status.as_str(), "passed") => Some(
            CalibrationRun { status: "cancelled".to_owned(), updated_at: now, ..run },
        ),
        _ => None,
    }
}

/// Save the report before publication, permitting crash recovery to reuse it.
/// A round that is over stays as it is.
pub fn finish(run: Option<CalibrationRun>, status: &str, report: Json, now: i64) -> (r: Result<
    Option<CalibrationRun>,
    StateError,
>)
    ensures
        if byte_len(report@) > 262144 {
            r == invalid::<Option<CalibrationRun>>("calibration report exceeds bound")
        } else if run is Some && run->0.open_round() {
            &&& r is Ok
            &&& r->Ok_0 is Some
            &&& r->Ok_0->0.status@ == status@
            &&& r->Ok_0->0 == (CalibrationRun {
                status: r->Ok_0->0.status,
                report_json: Some(report.text),
                updated_at: now,
                ..run->0
            })
        } else {
            r == Ok::<Option<CalibrationRun>, StateError>(None)
        },
{
    if bytes_of(report.as_str()) > 262144 {
        return Err(StateError::InvalidInput("calibration report exceeds bound"));
    }
    match run {
        Some(run) if run.is_open_round() => Ok(
            Some(
                CalibrationRun {
                    status: status.to_owned(),
                    report_json: Some(report.text),
                    updated_at: now,
                    ..run
                },
            ),
        ),
        _ => Ok(None),
    }
}

/// Key under which a signature's published report is stored.
pub open spec fn active_key(channel: Seq<char>, signature: Seq<char>) -> Seq<char> {
    "retrieval.calibration.active."@ + channel + "."@ + signature
}

/// Key under which a signature's published report is stored.
pub fn active_setting_key(channel: &str, signature: &str) -> (r: String)
    ensures
        r@ == active_key(channel@, signature@),
{
    let mut out = String::new();
    out.push_str("retrieval.calibration.active.");
    out.push_str(channel);
    out.push_str(".");
    out.push_str(signature);
    assert(out@ =~= active_key(channel@, signature@));
    out
}

/// Different signatures of a channel are published under different keys, so an
/// obsolete round cannot overwrite another one's report.
pub proof fn law_active_keys_differ(channel: Seq<char>, a: Seq<char>, b: Seq<char>)
    ensures
        active_key(channel, a) == active_key(channel, b) ==> a == b,
{
    let head = "retrieval.calibration.active."@ + channel + "."@;
    if active_key(channel, a) == active_key(channel, b) {
        assert((head + a).skip(head.len() as int) =~= a);
        assert((head + b).skip(head.len() as int) =~= b);
    }
}

/// A published report: the setting to store.
#[derive(Clone, Debug, PartialEq, Eq)]
pub struct PublishedReport {
    pub key: String,
    pub value_json: String,
    pub revision: i64,
    pub updated_at: i64,
}

/// Publish only a saved passed report while maintenance is permitted.
/// `automatic` is the stored value of the maintenance switch and
/// `stored_revision` the revision of the setting to replace.
pub fn publish(
    run: Option<CalibrationRun>,
    report: Json,
    automatic: Option<&str>,
    stored_revision: Option<i64>,
    now: i64,
) -> (r: Result<PublishedReport, StateError>)
    requires
        stored_revision matches Some(revision) ==> revision < i64::MAX,
    ensures
        if byte_len(report@) > 262144 {
            r == invalid::<PublishedReport>("calibration report exceeds bound")
        } else if run is Some && run->0.status@ == "passed"@ && run->0.report_json is Some
            && run->0.report_json->0@ == report@ && !(automatic is Some && automatic->0@
            == "false"@) {
            &&& r is Ok
            &&& r->Ok_0.key@ == active_key(run->0.channel@, run->0.signature@)
            &&& r->Ok_0.value_json == run->0.report_json->0
            &&& r->Ok_0.revision == match stored_revision {
                Some(revision) => revision + 1,
                None => 1,
            }
            &&& r->Ok_0.updated_at == now
        } else {
            r == Err::<PublishedReport, StateError>(StateError::Conflict)
        },
{
    if bytes_of(report.as_str()) > 262144 {
        return Err(StateError::InvalidInput("calibration report exceeds bound"));
    }
    let stopped = match automatic {
        Some(value) => text_eq(value, "false"),
        None => false,
    };
    match run {
        Some(run) => {
            let key = active_setting_key(run.channel.as_str(), run.signature.as_str());
            let passed = text_eq(run.status.as_str(), "passed");
            match run.report_json {
                Some(saved) if passed && !stopped && text_eq(saved.as_str(), report.as_str()) => {
                    let revision: i64 = match stored_revision {
                        Some(revision) => revision + 1,
                        None => 1,
                    };
                    Ok(PublishedReport { key, value_json: saved, revision, updated_at: now })
                },
                _ => Err(StateError::Conflict),
            }
        },
        None => Err(StateError::Conflict),
    }
}

/// Keys of runs, newest first.
pub open spec fn run_keys(runs: Seq<CalibrationRun>) -> Seq<SortKey> {
    runs.map_values(
        |run: CalibrationRun|
            SortKey {
                first: (0 - run.updated_at) as i128,
                second: 0,
                third: 0,
                id: run.signature,
            },
    )
}

/// Which runs are history: over, and not of the effective signature.
pub open spec fn history(runs: Seq<CalibrationRun>, current: Seq<char>) -> Seq<bool> {
    runs.map_values(|run: CalibrationRun| run.signature@ != current && run.ended())
}

/// Bound obsolete history to eight ended signatures of a channel, retaining
/// the effective signature: the positions of the runs to delete together with
/// their published reports.
pub fn prune(runs: &[CalibrationRun], current: &str) -> (obsolete: Vec<usize>)
    ensures
        is_page(
            run_keys(runs@),
            history(runs@, current@),
            false,
            u32::MAX as nat,
            8,
            obsolete@,
        ),
{
    let mut keys: Vec<SortKey> = Vec::new();
    let mut eligible: Vec<bool> = Vec::new();
    let mut i: usize = 0;
    while i < runs.len()
        invariant
            i <= runs@.len(),
            keys@ == run_keys(runs@).take(i as int),
            eligible@ == history(runs@, current@).take(i as int),
        decreases runs@.len() - i,
    {
        let run = &runs[i];
        keys.push(
            SortKey {
                first: -(run.updated_at as i128),
                second: 0,
                third: 0,
                id: run.signature.clone(),
            },
        );
        eligible.push(
            !text_eq(run.signature.as_str(), current) && (run.is_retryable() || text_eq(
                run.status.as_str(),
                "passed",
            )),
        );
        i += 1;
        assert(keys@ =~= run_keys(runs@).take(i as int));
        assert(eligible@ =~= history(runs@, current@).take(i as int));
    }
    assert(keys@ =~= run_keys(runs@));
    assert(eligible@ =~= history(runs@, current@));
    page(keys.as_slice(), eligible.as_slice(), false, u32::MAX, 8)
}

/// Pruning never deletes the effective signature or a round that is not over.
pub proof fn law_pruning_keeps_live_runs(
    runs: Seq<CalibrationRun>,
    current: Seq<char>,
    obsolete: Seq<usize>,
)
    requires
        is_page(run_keys(runs), history(runs, current), false, u32::MAX as nat, 8, obsolete),
    ensures
        forall|i: int|
            0 <= i < obsolete.len() ==> (#[trigger] obsolete[i]) < runs.len()
                && runs[obsolete[i] as int].signature@ != current
                && runs[obsolete[i] as int].ended(),
{
    crate::order::law_page_is_bounded(
        run_keys(runs),
        history(runs, current),
        false,
        u32::MAX as nat,
        8,
        obsolete,
    );
}

/// A run whose spent amounts keep within its ceilings does so after every
/// reservation: the budget is never exceeded.
pub proof fn law_budget_is_never_exceeded(
    run: CalibrationRun,
    bytes: int,
    deadline_ms: i64,
    now: i64,
)
    requires
        0 <= bytes,
        run.admits(bytes, deadline_ms, now),
    ensures
        run.requests + 1 <= run.request_limit,
        run.request_bytes + bytes <= run.byte_limit,
{
}

/// A spent request budget refuses every further request, however small.
pub proof fn law_spent_budget_refuses(run: CalibrationRun, bytes: int, deadline_ms: i64, now: i64)
    requires
        run.requests >= run.request_limit,
    ensures
        !run.admits(bytes, deadline_ms, now),
{
}

/// A round that is over makes no more requests.
pub proof fn law_ended_round_is_closed(run: CalibrationRun)
    requires
        run.ended(),
    ensures
        !run.open_round(),
{
    reveal_strlit("pending");
    reveal_strlit("running");
    reveal_strlit("failed");
    reveal_strlit("quality_failed");
    reveal_strlit("cancelled");
    reveal_strlit("passed");
    assert("pending"@.len() != "failed"@.len());
    assert("pending"@.len() != "quality_failed"@.len());
    assert("pending"@.len() != "cancelled"@.len());
    assert("pending"@.len() != "passed"@.len());
    assert("running"@.len() != "failed"@.len());
    assert("running"@.len() != "quality_failed"@.len());
    assert("running"@.len() != "cancelled"@.len());
    assert("running"@.len() != "passed"@.len());
}

/// A retried run starts with exactly one fresh round on top of what it has
/// spent.
pub proof fn law_retry_allocates_one_round(run: CalibrationRun, budget: CalibrationBudget)
    requires
        budget.within_limits(),
        0 <= run.requests,
        run.requests + budget.max_requests <= i64::MAX,
    ensures
        ceiling(run.requests, budget.max_requests) - run.requests == budget.max_requests,
{
}

/// Synthetic input for an isolated, short-lived benchmark index.
#[derive(Clone, Debug, PartialEq, Eq)]
pub struct CalibrationDocument {
    /// Stable benchmark label, never a business memory identity.
    pub id: String,
    /// Synthetic path used by production note input rules.
    pub path: String,
    /// Synthetic note title.
    pub title: String,
    /// Body used by both lexical search and relevance admission.
    pub content: String,
    /// Exact production-normalized memory body.
    pub normalized_content: String,
}

/// Checks the channel and size of a benchmark corpus.
pub fn validate_corpus(channel: &str, documents: &[CalibrationDocument]) -> (r: Result<
    (),
    StateError,
>)
    ensures
        r == accepted_if(
            (channel@ == "memory"@ || channel@ == "note"@) && documents@.len() <= 512,
            "calibration corpus invalid",
        ),
{
    if !(text_eq(channel, "memory") || text_eq(channel, "note")) || documents.len() > 512 {
        return Err(StateError::InvalidInput("calibration corpus invalid"));
    }
    Ok(())
}

/// Checks the size of a benchmark query.
pub fn validate_query(fts_query: &str) -> (r: Result<(), StateError>)
    ensures
        r == accepted_if(byte_len(fts_query@) <= 16384, "calibration query exceeds bound"),
{
    if bytes_of(fts_query) > 16384 {
        return Err(StateError::InvalidInput("calibration query exceeds bound"));
    }
    Ok(())
}

/// Search terms that a benchmark document of the memory channel is indexed
/// under.
pub fn document_terms(document: &CalibrationDocument) -> (r: String)
    ensures
        r@ == memory_terms(seq![document.content@], 4096),
{
    let values: [&str; 1] = [document.content.as_str()];
    let r = memory_search_terms(&values, 4096);
    assert(values@.map_values(|value: &str| value@) =~= seq![document.content@]);
    r
}

/// Text that a benchmark document of the note channel is indexed under.
pub fn document_text(document: &CalibrationDocument) -> (r: String)
    ensures
        r@ == document.title@ + "\n\n"@ + document.content@,
{
    let mut out = String::new();
    out.push_str(document.title.as_str());
    out.push_str("\n\n");
    out.push_str(document.content.as_str());
    assert(out@ =~= document.title@ + "\n\n"@ + document.content@);
    out
}

} // verus!
