//! Reading outbox events.

use vstd::prelude::*;

use crate::background::{validate_aggregate_id, MAX_DEDUP_KEY_BYTES};
use crate::domain::{optional_id, Id, VaultContext};
use crate::error::{invalid, StateError};
use crate::order::{is_selection, select, SortKey};
use crate::outbox::OutboxEventRecord;
use crate::rows::{count, count_rows, each, find, first_index, marks};
use crate::text::{label_ok, text_eq};

verus! {

/// The event with an identity.
pub fn get(events: &[OutboxEventRecord], event_id: &Id) -> (r: Option<usize>)
    ensures
        match r {
            Some(i) => i < events@.len() && first_index(
                events@,
                |event: OutboxEventRecord| event.id@ == event_id@,
            ) == Some(i as int),
            None => first_index(events@, |event: OutboxEventRecord| event.id@ == event_id@) is None,
        },
{
    let accepts = |event: &OutboxEventRecord| -> (yes: bool)
        ensures
            yes == (event.id@ == event_id@),
        { event.id.same(event_id) };
    find(events, accepts, Ghost(|event: OutboxEventRecord| event.id@ == event_id@))
}

/// Whether an event of the vault is about an aggregate.
pub open spec fn concerns(event: OutboxEventRecord, vault: Seq<char>, aggregate_id: Seq<char>) -> bool {
    optional_id(event.vault_id) == Some(vault) && event.aggregate_id@ == aggregate_id
}

/// The events of one vault about an aggregate, oldest first: their positions.
pub fn find_by_aggregate(context: &VaultContext, events: &[OutboxEventRecord], aggregate_id: &str) -> (r: Result<
    Vec<usize>,
    StateError,
>)
    ensures
        if !label_ok(aggregate_id@, MAX_DEDUP_KEY_BYTES as nat) {
            r == invalid::<Vec<usize>>("aggregate ID is invalid")
        } else {
            r matches Ok(picked) && is_selection(
                events@.map_values(|event: OutboxEventRecord| event.key()),
                events@.map_values(
                    |event: OutboxEventRecord| concerns(event, context.id@, aggregate_id@),
                ),
                events@.len(),
                picked@,
            )
        },
{
    match validate_aggregate_id(aggregate_id) {
        Ok(()) => {},
        Err(error) => return Err(error),
    }
    let place = |event: &OutboxEventRecord| -> (key: SortKey)
        ensures
            key == event.key(),
        {
            SortKey {
                first: event.created_at as i128,
                second: 0,
                third: 0,
                id: event.id.text.clone(),
            }
        };
    let order_keys = each(events, place, Ghost(|event: OutboxEventRecord| event.key()));
    let accepts = |event: &OutboxEventRecord| -> (yes: bool)
        ensures
            yes == concerns(*event, context.id@, aggregate_id@),
        {
            let in_vault = match &event.vault_id {
                Some(vault_id) => vault_id.same(&context.id),
                None => false,
            };
            in_vault && text_eq(event.aggregate_id.as_str(), aggregate_id)
        };
    let eligible = marks(
        events,
        accepts,
        Ghost(|event: OutboxEventRecord| concerns(event, context.id@, aggregate_id@)),
    );
    Ok(select(order_keys.as_slice(), eligible.as_slice(), events.len()))
}

/// Number of events that are neither delivered nor given up.
pub fn pending_count(events: &[OutboxEventRecord]) -> (r: u64)
    ensures
        r == count(events@, |event: OutboxEventRecord| event.pending()),
{
    let accepts = |event: &OutboxEventRecord| -> (yes: bool)
        ensures
            yes == event.pending(),
        { event.delivered_at.is_none() && !event.dead_lettered };
    count_rows(events, accepts, Ghost(|event: OutboxEventRecord| event.pending())) as u64
}

} // verus!
