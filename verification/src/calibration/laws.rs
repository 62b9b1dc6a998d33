//! What each step of a calibration round does, in terms of its row.

use vstd::prelude::*;

use crate::calibration::{
    cancel, checkpoint, ensure_with_budget, finish, get, history, prune, publish, reserve_request,
    retry, run_keys, CalibrationBudget, CalibrationRun, PublishedReport, RetriedRun, StoredRun,
};
use crate::domain::VaultContext;
use crate::error::StateError;
use crate::json::Json;
use crate::order::laws::lemma_page_rows;
use crate::rows::lemma_first_index;

verus! {

/// Whether a round still takes requests.
pub open spec fn is_open(run: CalibrationRun) -> bool {
    run.status@ == "pending"@ || run.status@ == "running"@
}

/// Whether a budget lies within what a round may spend.
pub open spec fn is_fair(budget: CalibrationBudget) -> bool {
    &&& 1 <= budget.max_requests <= 128
    &&& 1024 <= budget.max_bytes <= 8 * 1024 * 1024
    &&& 1 <= budget.max_inputs <= 512
    &&& 1 <= budget.batch_size <= 64
    &&& 1 <= budget.timeout_seconds <= 3600
}

/// A round that is known stays as it is; a new one waits with its whole budget.
pub proof fn law_known_rounds_stay(
    existing: Option<CalibrationRun>,
    channel: &str,
    signature: &str,
    budget: &CalibrationBudget,
    budget_json: String,
    checkpoint_json: String,
    now: i64,
    r: Result<CalibrationRun, StateError>,
)
    requires
        call_ensures(
            ensure_with_budget,
            (existing, channel, signature, budget, budget_json, checkpoint_json, now),
            r,
        ),
    ensures
        r is Ok <==> is_fair(*budget),
        r matches Ok(run) ==> {
            let known = existing is Some && existing->0.channel@ == channel@
                && existing->0.signature@ == signature@;
            &&& run.channel@ == channel@
            &&& run.signature@ == signature@
            &&& known ==> run == existing->0
            &&& !known ==> {
                &&& run.status@ == "pending"@
                &&& run.requests == 0
                &&& run.request_bytes == 0
                &&& run.request_limit == budget.max_requests
                &&& run.byte_limit == budget.max_bytes
                &&& run.budget_json == budget_json
                &&& run.checkpoint_json == checkpoint_json
                &&& run.report_json is None
                &&& run.started_at == now
                &&& run.updated_at == now
            }
        },
{
}

/// A request is admitted while the round is open, has a request and the bytes
/// left, and has not run out of time; it is counted then.
pub proof fn law_requests_spend_the_budget(
    run: Option<CalibrationRun>,
    bytes: usize,
    deadline_ms: i64,
    now: i64,
    r: Result<CalibrationRun, StateError>,
)
    requires
        call_ensures(reserve_request, (run, bytes, deadline_ms, now), r),
    ensures
        r is Ok <==> {
            &&& bytes <= i64::MAX
            &&& run is Some
            &&& is_open(run->0)
            &&& run->0.requests < run->0.request_limit
            &&& run->0.request_bytes + bytes <= run->0.byte_limit
            &&& now <= run->0.started_at + deadline_ms
        },
        r matches Ok(after) ==> {
            &&& after.status@ == "running"@
            &&& after.requests == run->0.requests + 1
            &&& after.request_bytes == run->0.request_bytes + bytes
            &&& after.request_limit == run->0.request_limit
            &&& after.byte_limit == run->0.byte_limit
            &&& after.started_at == run->0.started_at
            &&& after.updated_at == now
            &&& after.checkpoint_json == run->0.checkpoint_json
            &&& after.report_json == run->0.report_json
            &&& after.channel == run->0.channel
            &&& after.signature == run->0.signature
        },
{
}

/// A failed, rejected or cancelled round starts over: it keeps what it spent and
/// its checkpoint, gets one more budget on top, and hands its report over.
pub proof fn law_retries_add_one_budget(
    run: Option<CalibrationRun>,
    budget: &CalibrationBudget,
    now: i64,
    r: Option<RetriedRun>,
)
    requires
        call_ensures(retry, (run, budget, now), r),
    ensures
        r is Some <==> run is Some && (run->0.status@ == "failed"@ || run->0.status@
            == "quality_failed"@ || run->0.status@ == "cancelled"@),
        r matches Some(again) ==> {
            &&& again.previous_report_json == run->0.report_json
            &&& again.run.status@ == "pending"@
            &&& again.run.report_json is None
            &&& again.run.requests == run->0.requests
            &&& again.run.request_bytes == run->0.request_bytes
            &&& again.run.checkpoint_json == run->0.checkpoint_json
            &&& run->0.requests + budget.max_requests <= i64::MAX ==> again.run.request_limit
                == run->0.requests + budget.max_requests
            &&& run->0.request_bytes + budget.max_bytes <= i64::MAX ==> again.run.byte_limit
                == run->0.request_bytes + budget.max_bytes
            &&& again.run.started_at == now
            &&& again.run.updated_at == now
            &&& again.run.channel == run->0.channel
            &&& again.run.signature == run->0.signature
        },
{
}

/// An open round keeps its latest checkpoint, is finished with a status and a
/// report, or is cancelled; a passed one can be cancelled too. What was spent
/// stays.
pub proof fn law_open_rounds_are_checkpointed_and_ended(
    run: Option<CalibrationRun>,
    value: Json,
    status: &str,
    now: i64,
    saved: Result<CalibrationRun, StateError>,
    ended: Result<Option<CalibrationRun>, StateError>,
    stopped: Option<CalibrationRun>,
)
    requires
        call_ensures(checkpoint, (run, value, now), saved),
        call_ensures(finish, (run, status, value, now), ended),
        call_ensures(cancel, (run, now), stopped),
    ensures
        saved is Ok <==> run is Some && is_open(run->0) && vstd::utf8::encode_utf8(value@).len()
            <= 32 * 1024 * 1024,
        saved matches Ok(after) ==> {
            &&& after.checkpoint_json == value.text
            &&& after.updated_at == now
            &&& after.status == run->0.status
            &&& after.requests == run->0.requests
            &&& after.request_bytes == run->0.request_bytes
            &&& after.report_json == run->0.report_json
        },
        ended is Ok <==> vstd::utf8::encode_utf8(value@).len() <= 256 * 1024,
        ended is Ok ==> (ended->Ok_0 is Some <==> run is Some && is_open(run->0)),
        ended is Ok && ended->Ok_0 is Some ==> {
            let after = ended->Ok_0->0;
            &&& after.status@ == status@
            &&& after.report_json == Some(value.text)
            &&& after.updated_at == now
            &&& after.checkpoint_json == run->0.checkpoint_json
            &&& after.requests == run->0.requests
            &&& after.request_bytes == run->0.request_bytes
        },
        stopped is Some <==> run is Some && (is_open(run->0) || run->0.status@ == "passed"@),
        stopped matches Some(after) ==> {
            &&& after.status@ == "cancelled"@
            &&& after.updated_at == now
            &&& after.checkpoint_json == run->0.checkpoint_json
            &&& after.report_json == run->0.report_json
            &&& after.requests == run->0.requests
        },
{
}

/// Only the report of a passed round is published, under the key of its channel
/// and signature, one revision further, and not where automatic use is off.
pub proof fn law_passed_reports_are_published(
    run: Option<CalibrationRun>,
    report: Json,
    automatic: Option<&str>,
    stored: Option<i64>,
    now: i64,
    r: Result<PublishedReport, StateError>,
)
    requires
        call_ensures(publish, (run, report, automatic, stored, now), r),
        stored matches Some(revision) ==> revision < i64::MAX,
    ensures
        r is Ok <==> {
            &&& vstd::utf8::encode_utf8(report@).len() <= 256 * 1024
            &&& run is Some
            &&& run->0.status@ == "passed"@
            &&& run->0.report_json is Some
            &&& run->0.report_json->0@ == report@
            &&& automatic is Some ==> automatic->0@ != "false"@
        },
        r matches Ok(row) ==> {
            &&& row.key@ == "retrieval.calibration.active."@ + run->0.channel@ + "."@
                + run->0.signature@
            &&& row.value_json@ == report@
            &&& row.revision == match stored {
                Some(revision) => revision + 1,
                None => 1,
            }
            &&& row.updated_at == now
        },
{
}

/// Pruning drops rounds that ended, never the current one, and keeps the eight
/// that were updated last.
pub proof fn law_pruning_drops_the_oldest_ended_rounds(
    runs: &[CalibrationRun],
    current: &str,
    r: Vec<usize>,
    i: int,
)
    requires
        call_ensures(prune, (runs, current), r),
        0 <= i < r@.len(),
    ensures
        r@[i] < runs@.len(),
        runs@[r@[i] as int].signature@ != current@,
        !is_open(runs@[r@[i] as int]),
        forall|j: int|
            0 <= j < i ==> r@[j] != r@[i] && runs@[(#[trigger] r@[j]) as int].updated_at
                >= runs@[r@[i] as int].updated_at,
{
    lemma_page_rows(run_keys(runs@), history(runs@, current@), false, u32::MAX as nat, 8, r@);
    let run = runs@[r@[i] as int];
    assert(history(runs@, current@)[r@[i] as int]);
    reveal_strlit("pending");
    reveal_strlit("running");
    reveal_strlit("failed");
    reveal_strlit("quality_failed");
    reveal_strlit("cancelled");
    reveal_strlit("passed");
    assert("pending"@[0] != "running"@[0]);
    assert("passed"@.len() == 6 && "failed"@.len() == 6);
    assert("pending"@.len() == 7 && "running"@.len() == 7);
    assert("cancelled"@.len() == 9 && "quality_failed"@.len() == 14);
}

/// A round is found by its vault, channel and signature, wherever it is stored.
pub proof fn law_rounds_are_found_in_their_vault(
    context: &VaultContext,
    runs: &[StoredRun],
    channel: &str,
    signature: &str,
    r: Option<usize>,
)
    requires
        call_ensures(get, (context, runs, channel, signature), r),
    ensures
        match r {
            Some(i) => i < runs@.len() && runs@[i as int].vault_id.text@ == context.id.text@
                && runs@[i as int].run.channel@ == channel@ && runs@[i as int].run.signature@
                == signature@,
            None => forall|k: int|
                0 <= k < runs@.len() ==> !((#[trigger] runs@[k]).vault_id.text@ == context.id.text@
                    && runs@[k].run.channel@ == channel@ && runs@[k].run.signature@ == signature@),
        },
{
    lemma_first_index(
        runs@,
        |stored: StoredRun| stored.is(context.id@, channel@, signature@),
    );
}

} // verus!
