//! What claiming, acknowledging and failing events does, in terms of the stored
//! rows.

use vstd::prelude::*;

use crate::domain::VaultContext;
use crate::error::StateError;
use crate::order::is_selection;
use crate::order::laws::{is_listing, lemma_selection_listing};
use crate::outbox::queries::{concerns, find_by_aggregate, pending_count};
use crate::outbox::{
    ack, claim_batch, claimable_events, claims_events, event_keys, release_worker_leases,
    retry_or_dead_letter, OutboxEventRecord,
};

verus! {

/// Whether an event waits for its delivery.
pub open spec fn is_waiting(event: OutboxEventRecord) -> bool {
    event.delivered_at is None && !event.dead_lettered
}

/// Whether an event is due: it waits, its time has come and no claim on it runs.
pub open spec fn is_due(event: OutboxEventRecord, now: i64) -> bool {
    &&& is_waiting(event)
    &&& event.available_at <= now
    &&& event.claimed_until is None || event.claimed_until->0 <= now
}

/// Whether a worker holds an event that waits.
pub open spec fn is_held_by(event: OutboxEventRecord, worker: Seq<char>) -> bool {
    is_waiting(event) && event.claimed_by is Some && event.claimed_by->0@ == worker
}

/// Whether two rows are of one event, with the same content and times.
pub open spec fn is_same_event(a: OutboxEventRecord, b: OutboxEventRecord) -> bool {
    &&& a.id == b.id
    &&& a.vault_id == b.vault_id
    &&& a.event_type == b.event_type
    &&& a.aggregate_type == b.aggregate_type
    &&& a.aggregate_id == b.aggregate_id
    &&& a.payload == b.payload
    &&& a.created_at == b.created_at
}

/// Whether positions list the due events, the oldest first.
pub open spec fn are_due(
    picked: Seq<usize>,
    events: Seq<OutboxEventRecord>,
    now: i64,
    limit: nat,
) -> bool {
    is_listing(
        picked,
        events.len(),
        limit,
        |k: int| is_due(events[k], now),
        |a: int, b: int| events[a].created_at <= events[b].created_at,
    )
}

/// Whether an event is claimed: leased to the worker, one attempt further.
pub open spec fn is_claimed(
    before: OutboxEventRecord,
    after: OutboxEventRecord,
    worker: Seq<char>,
    lease_until: i64,
) -> bool {
    &&& is_same_event(before, after)
    &&& is_held_by(after, worker) <==> is_waiting(before)
    &&& after.claimed_by is Some
    &&& after.claimed_by->0@ == worker
    &&& after.claimed_until == Some(lease_until)
    &&& after.attempts == if before.attempts < u32::MAX {
        before.attempts + 1
    } else {
        u32::MAX as int
    }
    &&& after.available_at == before.available_at
    &&& after.last_error == before.last_error
}

/// A claim takes due events alone, the oldest first, and leaves none out but for
/// its limit; each is leased to the worker, one attempt further.
pub proof fn law_due_events_are_claimed_oldest_first(
    events: Vec<OutboxEventRecord>,
    worker: &str,
    now: i64,
    lease_until: i64,
    limit: u32,
    r: Result<Vec<OutboxEventRecord>, StateError>,
)
    requires
        call_ensures(claim_batch, (events, worker, now, lease_until, limit), r),
    ensures
        r is Ok <==> crate::text::label_ok(worker@, 128) && now < lease_until && 1 <= limit <= 128,
        r matches Ok(claimed) ==> exists|picked: Seq<usize>|
            {
                &&& picked.len() == claimed@.len()
                &&& #[trigger] are_due(picked, events@, now, limit as nat)
                &&& forall|i: int|
                    0 <= i < picked.len() ==> is_claimed(
                        events@[picked[i] as int],
                        #[trigger] claimed@[i],
                        worker@,
                        lease_until,
                    )
            },
{
    if let Ok(claimed) = r {
        let picked = choose|picked: Seq<usize>|
            {
                &&& #[trigger] is_selection(
                    event_keys(events@),
                    claimable_events(events@, now),
                    limit as nat,
                    picked,
                )
                &&& claims_events(events@, picked, claimed@, worker@, lease_until)
            };
        let rows = events@;
        lemma_selection_listing(
            event_keys(events@),
            claimable_events(events@, now),
            limit as nat,
            picked,
            |k: int| is_due(rows[k], now),
            |a: int, b: int| rows[a].created_at <= rows[b].created_at,
        );
        assert(are_due(picked, rows, now, limit as nat));
        assert forall|i: int| 0 <= i < picked.len() implies is_claimed(
            events@[picked[i] as int],
            #[trigger] claimed@[i],
            worker@,
            lease_until,
        ) by {
            assert(events@[picked[i] as int].claimed_as(claimed@[i], worker@, lease_until));
        }
    }
}

/// Only the worker that holds an event acknowledges it; it is delivered then, and
/// held no more.
pub proof fn law_holders_acknowledge(
    event: Option<OutboxEventRecord>,
    worker: &str,
    now: i64,
    r: Result<OutboxEventRecord, StateError>,
)
    requires
        call_ensures(ack, (event, worker, now), r),
    ensures
        r is Ok <==> crate::text::label_ok(worker@, 128) && event is Some && is_held_by(
            event->0,
            worker@,
        ),
        r matches Ok(after) ==> {
            &&& is_same_event(event->0, after)
            &&& after.delivered_at == Some(now)
            &&& after.claimed_by is None
            &&& after.claimed_until is None
            &&& after.last_error is None
            &&& after.attempts == event->0.attempts
            &&& !after.dead_lettered
        },
{
}

/// A failed event is put off by the worker that holds it, and set aside for good
/// once its attempts are spent; either way with the error, and held no more.
pub proof fn law_failed_events_are_put_off_or_set_aside(
    event: Option<OutboxEventRecord>,
    worker: &str,
    available_at: i64,
    error: &str,
    max_attempts: u32,
    r: Result<(OutboxEventRecord, bool), StateError>,
)
    requires
        call_ensures(retry_or_dead_letter, (event, worker, available_at, error, max_attempts), r),
    ensures
        r is Ok <==> crate::text::label_ok(worker@, 128) && crate::text::label_ok(error@, 2048)
            && max_attempts > 0 && event is Some && is_held_by(event->0, worker@),
        r matches Ok(answer) ==> {
            let spent = event->0.attempts >= max_attempts;
            let after = answer.0;
            &&& answer.1 == spent
            &&& is_same_event(event->0, after)
            &&& after.delivered_at is None
            &&& after.claimed_by is None
            &&& after.claimed_until is None
            &&& after.attempts == event->0.attempts
            &&& after.last_error is Some
            &&& after.last_error->0@ == error@
            &&& after.dead_lettered == spent
            &&& spent ==> after.dead_letter_reason is Some && after.dead_letter_reason->0@
                == error@ && after.available_at == event->0.available_at
            &&& !spent ==> after.available_at == available_at && after.dead_letter_reason is None
        },
{
}

/// An event that was put off is not due before the time given, and is due from
/// then on.
pub proof fn law_put_off_events_wait(
    event: Option<OutboxEventRecord>,
    worker: &str,
    available_at: i64,
    error: &str,
    max_attempts: u32,
    r: Result<(OutboxEventRecord, bool), StateError>,
    now: i64,
)
    requires
        call_ensures(retry_or_dead_letter, (event, worker, available_at, error, max_attempts), r),
        r is Ok,
    ensures
        is_due(r->Ok_0.0, now) <==> !r->Ok_0.1 && available_at <= now,
{
}

/// A worker that stops gives back what it holds, and nothing else changes.
pub proof fn law_stopped_workers_give_events_back(
    events: Vec<OutboxEventRecord>,
    worker: &str,
    r: Result<Vec<OutboxEventRecord>, StateError>,
)
    requires
        call_ensures(release_worker_leases, (events, worker), r),
    ensures
        r is Ok <==> crate::text::label_ok(worker@, 128),
        r matches Ok(after) ==> after@.len() == events@.len() && forall|k: int|
            0 <= k < events@.len() ==> if is_held_by(events@[k], worker@) {
                &&& is_same_event(events@[k], #[trigger] after@[k])
                &&& after@[k].claimed_by is None
                &&& after@[k].claimed_until is None
                &&& after@[k].attempts == events@[k].attempts
                &&& after@[k].available_at == events@[k].available_at
                &&& is_waiting(after@[k])
            } else {
                after@[k] == events@[k]
            },
{
}

/// The events of an aggregate are those of the vault on it, all of them, the
/// oldest first.
pub proof fn law_aggregates_list_their_events(
    context: &VaultContext,
    events: &[OutboxEventRecord],
    aggregate_id: &str,
    r: Result<Vec<usize>, StateError>,
)
    requires
        call_ensures(find_by_aggregate, (context, events, aggregate_id), r),
    ensures
        r is Ok <==> crate::text::label_ok(aggregate_id@, 512),
        r matches Ok(picked) ==> is_listing(
            picked@,
            events@.len(),
            events@.len(),
            |k: int|
                events@[k].vault_id is Some && events@[k].vault_id->0.text@ == context.id.text@
                    && events@[k].aggregate_id@ == aggregate_id@,
            |a: int, b: int| events@[a].created_at <= events@[b].created_at,
        ),
{
    if let Ok(picked) = r {
        lemma_selection_listing(
            events@.map_values(|event: OutboxEventRecord| event.key()),
            events@.map_values(
                |event: OutboxEventRecord| concerns(event, context.id@, aggregate_id@),
            ),
            events@.len(),
            picked@,
            |k: int|
                events@[k].vault_id is Some && events@[k].vault_id->0.text@ == context.id.text@
                    && events@[k].aggregate_id@ == aggregate_id@,
            |a: int, b: int| events@[a].created_at <= events@[b].created_at,
        );
    }
}

/// The count of pending events tells those that wait.
pub proof fn law_waiting_events_are_counted(events: &[OutboxEventRecord], r: u64)
    requires
        call_ensures(pending_count, (events,), r),
    ensures
        r == events@.filter(|event: OutboxEventRecord| is_waiting(event)).len(),
{
    let counted = |event: OutboxEventRecord| event.pending();
    let waiting = |event: OutboxEventRecord| is_waiting(event);
    assert(counted =~= waiting);
}

} // verus!
