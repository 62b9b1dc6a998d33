//! Durable transactional outbox: claims, acknowledgement, retries.

use vstd::prelude::*;

use crate::background::{
    validate_batch, validate_error, validate_lease, validate_worker, MAX_BATCH_SIZE,
    MAX_ERROR_BYTES, MAX_WORKER_ID_BYTES,
};
use crate::domain::{duplicate_optional, duplicate_text, id_of, stored_id, Id};
use crate::error::{invalid, StateError};
use crate::json::{compact_json, Json};
use crate::order::{is_selection, select, SortKey};
use crate::text::{label_ok, optional_text, text_eq};

pub mod laws;
pub mod queries;

verus! {

/// One durable event awaiting handler admission or acknowledgement.
#[derive(Clone, Debug, PartialEq, Eq)]
pub struct OutboxEventRecord {
    /// Stable event identity.
    pub id: Id,
    /// Optional vault scope; file events always carry one.
    pub vault_id: Option<Id>,
    /// Stable event type.
    pub event_type: String,
    /// Aggregate category.
    pub aggregate_type: String,
    /// Aggregate identity.
    pub aggregate_id: String,
    /// Bounded event metadata.
    pub payload: Json,
    /// Creation timestamp.
    pub created_at: i64,
    /// Earliest retry timestamp.
    pub available_at: i64,
    /// Current lease owner.
    pub claimed_by: Option<String>,
    /// Current lease expiry.
    pub claimed_until: Option<i64>,
    /// Successful delivery timestamp.
    pub delivered_at: Option<i64>,
    /// Number of claim attempts.
    pub attempts: u32,
    /// Last safe error summary.
    pub last_error: Option<String>,
    /// Terminal dead-letter marker.
    pub dead_lettered: bool,
    /// Reason for terminal dead-lettering.
    pub dead_letter_reason: Option<String>,
}

/// An outbox event as stored.
#[derive(Clone, Debug, PartialEq, Eq)]
pub struct OutboxRow {
    pub id: String,
    pub vault_id: Option<String>,
    pub event_type: String,
    pub aggregate_type: String,
    pub aggregate_id: String,
    pub payload_json: String,
    pub created_at: i64,
    pub available_at: i64,
    pub claimed_by: Option<String>,
    pub claimed_until: Option<i64>,
    pub delivered_at: Option<i64>,
    pub attempts: i64,
    pub last_error: Option<String>,
    pub dead_lettered: i64,
    pub dead_letter_reason: Option<String>,
}

impl OutboxRow {
    /// Why the row cannot be read, if it cannot.
    pub open spec fn decode_error(self) -> Option<StateError> {
        if compact_json(self.payload_json@) is None {
            Some(StateError::Json)
        } else if !(0 <= self.attempts <= u32::MAX) {
            Some(StateError::InvalidInput("outbox attempts are invalid"))
        } else {
            None
        }
    }

    /// The record that the row holds.
    pub open spec fn record(self, payload: Json) -> OutboxEventRecord {
        OutboxEventRecord {
            id: Id { text: self.id },
            vault_id: id_of(self.vault_id),
            event_type: self.event_type,
            aggregate_type: self.aggregate_type,
            aggregate_id: self.aggregate_id,
            payload,
            created_at: self.created_at,
            available_at: self.available_at,
            claimed_by: self.claimed_by,
            claimed_until: self.claimed_until,
            delivered_at: self.delivered_at,
            attempts: self.attempts as u32,
            last_error: self.last_error,
            dead_lettered: self.dead_lettered != 0,
            dead_letter_reason: self.dead_letter_reason,
        }
    }
}

/// Reads a stored event.
pub fn row_to_outbox(row: OutboxRow) -> (r: Result<OutboxEventRecord, StateError>)
    ensures
        match row.decode_error() {
            Some(error) => r == Err::<OutboxEventRecord, StateError>(error),
            None => r matches Ok(event) && event == row.record(event.payload) && Some(
                event.payload@,
            ) == compact_json(row.payload_json@),
        },
{
    let payload = match Json::parse(row.payload_json.as_str()) {
        Ok(payload) => payload,
        Err(error) => return Err(error),
    };
    if row.attempts < 0 || row.attempts > u32::MAX as i64 {
        return Err(StateError::InvalidInput("outbox attempts are invalid"));
    }
    Ok(
        OutboxEventRecord {
            id: Id { text: row.id },
            vault_id: stored_id(row.vault_id),
            event_type: row.event_type,
            aggregate_type: row.aggregate_type,
            aggregate_id: row.aggregate_id,
            payload,
            created_at: row.created_at,
            available_at: row.available_at,
            claimed_by: row.claimed_by,
            claimed_until: row.claimed_until,
            delivered_at: row.delivered_at,
            attempts: row.attempts as u32,
            last_error: row.last_error,
            dead_lettered: row.dead_lettered != 0,
            dead_letter_reason: row.dead_letter_reason,
        },
    )
}

impl OutboxEventRecord {
    /// Whether the event still waits for acknowledgement.
    pub open spec fn pending(self) -> bool {
        self.delivered_at is None && !self.dead_lettered
    }

    /// Whether a worker may claim the event at `now`.
    pub open spec fn claimable(self, now: i64) -> bool {
        &&& self.pending()
        &&& self.available_at <= now
        &&& (self.claimed_until matches Some(until) ==> until <= now)
    }

    /// Whether the event is pending under the worker's claim.
    pub open spec fn held_by(self, worker: Seq<char>) -> bool {
        self.pending() && optional_text(self.claimed_by) == Some(worker)
    }

    /// What events are claimed in the order of.
    pub open spec fn key(self) -> SortKey {
        SortKey { first: self.created_at as i128, second: 0, third: 0, id: self.id.text }
    }

    /// Whether `after` is this event under a new claim.
    pub open spec fn claimed_as(
        self,
        after: OutboxEventRecord,
        worker: Seq<char>,
        lease_until: i64,
    ) -> bool {
        &&& optional_text(after.claimed_by) == Some(worker)
        &&& after == OutboxEventRecord {
            claimed_by: after.claimed_by,
            claimed_until: Some(lease_until),
            attempts: if self.attempts < u32::MAX {
                (self.attempts + 1) as u32
            } else {
                u32::MAX
            },
            ..self
        }
    }

    /// The event after its acknowledgement.
    pub open spec fn acknowledged(self, now: i64) -> OutboxEventRecord {
        OutboxEventRecord {
            delivered_at: Some(now),
            claimed_by: None,
            claimed_until: None,
            last_error: None,
            ..self
        }
    }

    /// The event without a claim.
    pub open spec fn released(self) -> OutboxEventRecord {
        OutboxEventRecord { claimed_by: None, claimed_until: None, ..self }
    }

    /// Whether `after` is this event after a failed delivery: dead-lettered
    /// where the attempt budget is spent, available again later elsewhere.
    pub open spec fn failed_as(
        self,
        after: OutboxEventRecord,
        available_at: i64,
        error: Seq<char>,
        max_attempts: u32,
    ) -> bool {
        &&& optional_text(after.last_error) == Some(error)
        &&& if self.attempts >= max_attempts {
            &&& optional_text(after.dead_letter_reason) == Some(error)
            &&& after == OutboxEventRecord {
                last_error: after.last_error,
                dead_lettered: true,
                dead_letter_reason: after.dead_letter_reason,
                claimed_by: None,
                claimed_until: None,
                ..self
            }
        } else {
            after == OutboxEventRecord {
                available_at,
                last_error: after.last_error,
                dead_lettered: false,
                dead_letter_reason: None,
                claimed_by: None,
                claimed_until: None,
                ..self
            }
        }
    }

    fn is_claimable(&self, now: i64) -> (r: bool)
        ensures
            r == self.claimable(now),
    {
        let lease_over = match self.claimed_until {
            Some(until) => until <= now,
            None => true,
        };
        !self.dead_lettered && self.delivered_at.is_none() && self.available_at <= now && lease_over
    }

    fn is_held_by(&self, worker: &str) -> (r: bool)
        ensures
            r == self.held_by(worker@),
    {
        let owned = match &self.claimed_by {
            Some(owner) => text_eq(owner.as_str(), worker),
            None => false,
        };
        !self.dead_lettered && self.delivered_at.is_none() && owned
    }
}

/// Keys of events, in order.
pub open spec fn event_keys(events: Seq<OutboxEventRecord>) -> Seq<SortKey> {
    events.map_values(|event: OutboxEventRecord| event.key())
}

/// Which events may be claimed at `now`.
pub open spec fn claimable_events(events: Seq<OutboxEventRecord>, now: i64) -> Seq<bool> {
    events.map_values(|event: OutboxEventRecord| event.claimable(now))
}

/// Whether `claimed` are the picked events under their new claim.
pub open spec fn claims_events(
    events: Seq<OutboxEventRecord>,
    picked: Seq<usize>,
    claimed: Seq<OutboxEventRecord>,
    worker: Seq<char>,
    lease_until: i64,
) -> bool {
    &&& claimed.len() == picked.len()
    &&& forall|i: int|
        0 <= i < picked.len() ==> events[#[trigger] picked[i] as int].claimed_as(
            claimed[i],
            worker,
            lease_until,
        )
}

/// Whether the arguments of a claim are well formed.
pub open spec fn claim_error(worker: Seq<char>, now: i64, lease_until: i64, limit: u32) -> Option<
    StateError,
> {
    if !label_ok(worker, MAX_WORKER_ID_BYTES as nat) {
        Some(StateError::InvalidInput("worker ID is invalid"))
    } else if lease_until <= now {
        Some(StateError::InvalidInput("lease must expire in the future"))
    } else if !(1 <= limit <= MAX_BATCH_SIZE) {
        Some(StateError::InvalidInput("worker batch size is invalid"))
    } else {
        None
    }
}

/// Checks the arguments of a claim.
pub fn validate_claim(worker: &str, now: i64, lease_until: i64, limit: u32) -> (r: Result<
    (),
    StateError,
>)
    ensures
        match claim_error(worker@, now, lease_until, limit) {
            Some(error) => r == Err::<(), StateError>(error),
            None => r == Ok::<(), StateError>(()),
        },
{
    match validate_worker(worker) {
        Ok(()) => {},
        Err(error) => return Err(error),
    }
    match validate_lease(now, lease_until) {
        Ok(()) => {},
        Err(error) => return Err(error),
    }
    match validate_batch(limit) {
        Ok(_) => Ok(()),
        Err(error) => Err(error),
    }
}

/// Claim up to `limit` available events with one lease: the oldest claimable
/// ones first.
pub fn claim_batch(
    events: Vec<OutboxEventRecord>,
    worker: &str,
    now: i64,
    lease_until: i64,
    limit: u32,
) -> (r: Result<Vec<OutboxEventRecord>, StateError>)
    ensures
        match claim_error(worker@, now, lease_until, limit) {
            Some(error) => r == Err::<Vec<OutboxEventRecord>, StateError>(error),
            None => r matches Ok(claimed) && exists|picked: Seq<usize>|
                {
                    &&& #[trigger] is_selection(
                        event_keys(events@),
                        claimable_events(events@, now),
                        limit as nat,
                        picked,
                    )
                    &&& claims_events(events@, picked, claimed@, worker@, lease_until)
                },
        },
{
    match validate_claim(worker, now, lease_until, limit) {
        Ok(()) => {},
        Err(error) => return Err(error),
    }
    let mut keys: Vec<SortKey> = Vec::new();
    let mut eligible: Vec<bool> = Vec::new();
    let mut i: usize = 0;
    while i < events.len()
        invariant
            i <= events@.len(),
            keys@ == event_keys(events@).take(i as int),
            eligible@ == claimable_events(events@, now).take(i as int),
        decreases events@.len() - i,
    {
        let event = &events[i];
        keys.push(
            SortKey {
                first: event.created_at as i128,
                second: 0,
                third: 0,
                id: event.id.text.clone(),
            },
        );
        eligible.push(event.is_claimable(now));
        i += 1;
        assert(keys@ =~= event_keys(events@).take(i as int));
        assert(eligible@ =~= claimable_events(events@, now).take(i as int));
    }
    assert(keys@ =~= event_keys(events@));
    assert(eligible@ =~= claimable_events(events@, now));
    let picked = select(keys.as_slice(), eligible.as_slice(), limit as usize);
    let mut claimed: Vec<OutboxEventRecord> = Vec::new();
    let mut n: usize = 0;
    while n < picked.len()
        invariant
            n <= picked@.len(),
            claimed@.len() == n,
            forall|k: int| 0 <= k < picked@.len() ==> #[trigger] picked@[k] < events@.len(),
            forall|k: int|
                0 <= k < n ==> events@[#[trigger] picked@[k] as int].claimed_as(
                    claimed@[k],
                    worker@,
                    lease_until,
                ),
        decreases picked@.len() - n,
    {
        let event = &events[picked[n]];
        claimed.push(claim_event(event, worker, lease_until));
        n += 1;
    }
    assert(claims_events(events@, picked@, claimed@, worker@, lease_until));
    Ok(claimed)
}

fn claim_event(event: &OutboxEventRecord, worker: &str, lease_until: i64) -> (r: OutboxEventRecord)
    ensures
        event.claimed_as(r, worker@, lease_until),
{
    OutboxEventRecord {
        id: event.id.duplicate(),
        vault_id: duplicate_optional(&event.vault_id),
        event_type: event.event_type.clone(),
        aggregate_type: event.aggregate_type.clone(),
        aggregate_id: event.aggregate_id.clone(),
        payload: event.payload.duplicate(),
        created_at: event.created_at,
        available_at: event.available_at,
        claimed_by: Some(worker.to_owned()),
        claimed_until: Some(lease_until),
        delivered_at: event.delivered_at,
        attempts: event.attempts.saturating_add(1),
        last_error: duplicate_text(&event.last_error),
        dead_lettered: event.dead_lettered,
        dead_letter_reason: duplicate_text(&event.dead_letter_reason),
    }
}

/// Mark a leased event delivered exactly once.
pub fn ack(event: Option<OutboxEventRecord>, worker: &str, now: i64) -> (r: Result<
    OutboxEventRecord,
    StateError,
>)
    ensures
        r == (if !label_ok(worker@, MAX_WORKER_ID_BYTES as nat) {
            invalid("worker ID is invalid")
        } else if event is Some && event->0.held_by(worker@) {
            Ok::<OutboxEventRecord, StateError>(event->0.acknowledged(now))
        } else {
            invalid("outbox lease is not owned")
        }),
{
    match validate_worker(worker) {
        Ok(()) => {},
        Err(error) => return Err(error),
    }
    match event {
        Some(event) if event.is_held_by(worker) => Ok(
            OutboxEventRecord {
                delivered_at: Some(now),
                claimed_by: None,
                claimed_until: None,
                last_error: None,
                ..event
            },
        ),
        _ => Err(StateError::InvalidInput("outbox lease is not owned")),
    }
}

/// Retry a leased event or dead-letter it when the attempt budget is
/// exhausted. Says whether the event was dead-lettered.
pub fn retry_or_dead_letter(
    event: Option<OutboxEventRecord>,
    worker: &str,
    available_at: i64,
    error: &str,
    max_attempts: u32,
) -> (r: Result<(OutboxEventRecord, bool), StateError>)
    ensures
        if !label_ok(worker@, MAX_WORKER_ID_BYTES as nat) {
            r == invalid::<(OutboxEventRecord, bool)>("worker ID is invalid")
        } else if !label_ok(error@, MAX_ERROR_BYTES as nat) {
            r == invalid::<(OutboxEventRecord, bool)>("worker error is invalid")
        } else if max_attempts == 0 {
            r == invalid::<(OutboxEventRecord, bool)>("outbox max attempts is invalid")
        } else if event is Some && event->0.held_by(worker@) {
            &&& r is Ok
            &&& event->0.failed_as(r->Ok_0.0, available_at, error@, max_attempts)
            &&& r->Ok_0.1 == (event->0.attempts >= max_attempts)
        } else {
            r == invalid::<(OutboxEventRecord, bool)>("outbox lease is not owned")
        },
{
    match validate_worker(worker) {
        Ok(()) => {},
        Err(error) => return Err(error),
    }
    match validate_error(error) {
        Ok(()) => {},
        Err(error) => return Err(error),
    }
    if max_attempts == 0 {
        return Err(StateError::InvalidInput("outbox max attempts is invalid"));
    }
    match event {
        Some(event) if event.is_held_by(worker) => {
            if event.attempts >= max_attempts {
                Ok(
                    (
                        OutboxEventRecord {
                            last_error: Some(error.to_owned()),
                            dead_lettered: true,
                            dead_letter_reason: Some(error.to_owned()),
                            claimed_by: None,
                            claimed_until: None,
                            ..event
                        },
                        true,
                    ),
                )
            } else {
                Ok(
                    (
                        OutboxEventRecord {
                            available_at,
                            last_error: Some(error.to_owned()),
                            dead_lettered: false,
                            dead_letter_reason: None,
                            claimed_by: None,
                            claimed_until: None,
                            ..event
                        },
                        false,
                    ),
                )
            }
        },
        _ => Err(StateError::InvalidInput("outbox lease is not owned")),
    }
}

/// Release a worker's leases immediately during graceful shutdown: pending
/// events of the worker lose their claim, all others stay as they are.
pub fn release_worker_leases(events: Vec<OutboxEventRecord>, worker: &str) -> (r: Result<
    Vec<OutboxEventRecord>,
    StateError,
>)
    ensures
        if !label_ok(worker@, MAX_WORKER_ID_BYTES as nat) {
            r == invalid::<Vec<OutboxEventRecord>>("worker ID is invalid")
        } else {
            r matches Ok(after) && after@ == events@.map_values(
                |event: OutboxEventRecord|
                    if event.held_by(worker@) {
                        event.released()
                    } else {
                        event
                    },
            )
        },
{
    match validate_worker(worker) {
        Ok(()) => {},
        Err(error) => return Err(error),
    }
    let ghost all = events@;
    let mut rest = events;
    let mut after: Vec<OutboxEventRecord> = Vec::new();
    let ghost change = |event: OutboxEventRecord|
        if event.held_by(worker@) {
            event.released()
        } else {
            event
        };
    let mut i: usize = 0;
    let n: usize = rest.len();
    while i < n
        invariant
            i <= n == all.len(),
            rest@ == all.skip(i as int),
            after@ == all.take(i as int).map_values(change),
            change == (|event: OutboxEventRecord|
                if event.held_by(worker@) {
                    event.released()
                } else {
                    event
                }),
        decreases n - i,
    {
        let event = rest.remove(0);
        if event.is_held_by(worker) {
            after.push(OutboxEventRecord { claimed_by: None, claimed_until: None, ..event });
        } else {
            after.push(event);
        }
        i += 1;
        assert(rest@ =~= all.skip(i as int));
        assert(after@ =~= all.take(i as int).map_values(change));
    }
    assert(all.take(n as int) =~= all);
    Ok(after)
}

/// A claimed event cannot be claimed again before its lease is over, whoever
/// asks.
pub proof fn law_claim_is_exclusive(
    before: OutboxEventRecord,
    after: OutboxEventRecord,
    worker: Seq<char>,
    lease_until: i64,
    later: i64,
)
    requires
        before.claimed_as(after, worker, lease_until),
        later < lease_until,
    ensures
        !after.claimable(later),
{
}

/// A claim that outlives its worker is given back by time: the event is
/// claimable again once the lease is over.
pub proof fn law_expired_claim_is_reclaimable(
    before: OutboxEventRecord,
    after: OutboxEventRecord,
    worker: Seq<char>,
    now: i64,
    lease_until: i64,
    later: i64,
)
    requires
        before.claimable(now),
        before.claimed_as(after, worker, lease_until),
        now <= later,
        lease_until <= later,
    ensures
        after.claimable(later),
{
}

/// Delivery is final: an acknowledged event can be neither claimed nor
/// acknowledged again.
pub proof fn law_acknowledged_once(
    event: OutboxEventRecord,
    now: i64,
    later: i64,
    worker: Seq<char>,
)
    ensures
        !event.acknowledged(now).claimable(later),
        !event.acknowledged(now).held_by(worker),
{
}

/// A dead-lettered event is never claimed again, and an event is dead-lettered
/// exactly when its attempts reach the budget.
pub proof fn law_dead_letters_stay_dead(
    event: OutboxEventRecord,
    after: OutboxEventRecord,
    available_at: i64,
    error: Seq<char>,
    max_attempts: u32,
    later: i64,
)
    requires
        event.pending(),
        event.failed_as(after, available_at, error, max_attempts),
    ensures
        after.dead_lettered == (event.attempts >= max_attempts),
        after.dead_lettered ==> !after.claimable(later),
        !after.dead_lettered && available_at <= later ==> after.claimable(later),
{
}

} // verus!
