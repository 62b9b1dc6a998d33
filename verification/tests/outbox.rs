use mcp_vault_state::json::Json;
use mcp_vault_state::outbox::queries::{find_by_aggregate, get, pending_count};
use mcp_vault_state::outbox::{
    ack, claim_batch, release_worker_leases, retry_or_dead_letter, row_to_outbox, OutboxRow,
};
use mcp_vault_state::{Id, OutboxEventRecord, StateError, VaultContext};

fn id(text: &str) -> Id {
    Id::new(text.to_owned())
}

fn vault(name: &str) -> VaultContext {
    VaultContext { id: id(name), slug: name.to_owned(), content_root: Some(format!("/srv/{name}")) }
}

fn row(name: &str, created_at: i64) -> OutboxRow {
    OutboxRow {
        id: name.to_owned(),
        vault_id: Some("v".to_owned()),
        event_type: "file.changed".to_owned(),
        aggregate_type: "file".to_owned(),
        aggregate_id: "f".to_owned(),
        payload_json: "{\"a\": 1}".to_owned(),
        created_at,
        available_at: 0,
        claimed_by: None,
        claimed_until: None,
        delivered_at: None,
        attempts: 0,
        last_error: None,
        dead_lettered: 0,
        dead_letter_reason: None,
    }
}

fn event(name: &str, created_at: i64) -> OutboxEventRecord {
    row_to_outbox(row(name, created_at)).unwrap()
}

fn held() -> OutboxEventRecord {
    claim_batch(vec![event("a", 1)], "w", 10, 20, 1).unwrap().remove(0)
}

#[test]
fn events_are_claimed_oldest_first() {
    let events = vec![event("b", 3), event("a", 3), event("c", 1), event("d", 9)];
    let batch = claim_batch(events, "w", 10, 20, 3).unwrap();
    let names: Vec<&str> = batch.iter().map(|event| event.id.as_str()).collect();
    assert_eq!(names, ["c", "a", "b"]);
    assert_eq!(batch[0].attempts, 1);
    assert_eq!(batch[0].claimed_until, Some(20));
}

#[test]
fn a_claim_is_exclusive_until_it_expires() {
    let held = held();
    assert!(claim_batch(vec![held.clone()], "x", 19, 30, 1).unwrap().is_empty());
    let again = claim_batch(vec![held], "x", 20, 30, 1).unwrap();
    assert_eq!(again[0].claimed_by.as_deref(), Some("x"));
}

#[test]
fn an_event_is_acknowledged_once() {
    let held = held();
    assert_eq!(
        ack(Some(held.clone()), "x", 15),
        Err(StateError::InvalidInput("outbox lease is not owned"))
    );
    let done = ack(Some(held), "w", 15).unwrap();
    assert_eq!(done.delivered_at, Some(15));
    assert_eq!(
        ack(Some(done.clone()), "w", 16),
        Err(StateError::InvalidInput("outbox lease is not owned"))
    );
    assert!(claim_batch(vec![done], "w", 100, 200, 1).unwrap().is_empty());
}

#[test]
fn spent_attempts_end_in_the_dead_letters() {
    let (waiting, dead) = retry_or_dead_letter(Some(held()), "w", 50, "offline", 2).unwrap();
    assert!(!dead);
    assert_eq!(waiting.available_at, 50);
    assert!(claim_batch(vec![waiting.clone()], "w", 49, 60, 1).unwrap().is_empty());
    let again = claim_batch(vec![waiting], "w", 50, 60, 1).unwrap().remove(0);
    let (lost, dead) = retry_or_dead_letter(Some(again), "w", 70, "offline", 2).unwrap();
    assert!(dead);
    assert!(lost.dead_lettered);
    assert_eq!(lost.dead_letter_reason.as_deref(), Some("offline"));
    assert!(claim_batch(vec![lost], "w", 100, 200, 1).unwrap().is_empty());
    assert_eq!(
        retry_or_dead_letter(Some(held()), "w", 1, "offline", 0),
        Err(StateError::InvalidInput("outbox max attempts is invalid"))
    );
    assert_eq!(
        retry_or_dead_letter(Some(held()), "w", 1, "", 1),
        Err(StateError::InvalidInput("worker error is invalid"))
    );
}

#[test]
fn a_worker_gives_its_claims_back() {
    let after = release_worker_leases(vec![held(), event("b", 2)], "w").unwrap();
    assert_eq!(after[0].claimed_by, None);
    assert_eq!(after[0].claimed_until, None);
    assert_eq!(after[1], event("b", 2));
}

#[test]
fn events_are_found_in_their_vault() {
    let foreign = OutboxEventRecord { vault_id: Some(id("w")), ..event("c", 1) };
    let done = ack(Some(held()), "w", 15).unwrap();
    let events = vec![event("b", 3), done, foreign];
    assert_eq!(find_by_aggregate(&vault("v"), &events, "f"), Ok(vec![1, 0]));
    assert_eq!(find_by_aggregate(&vault("w"), &events, "f"), Ok(vec![2]));
    assert_eq!(
        find_by_aggregate(&vault("v"), &events, ""),
        Err(StateError::InvalidInput("aggregate ID is invalid"))
    );
    assert_eq!(get(&events, &id("a")), Some(1));
    assert_eq!(get(&events, &id("z")), None);
    assert_eq!(pending_count(&events), 2);
}

#[test]
fn stored_events_are_read_back() {
    assert_eq!(event("a", 1).payload, Json { text: "{\"a\":1}".to_owned() });
    assert!(row_to_outbox(OutboxRow { attempts: -1, ..row("a", 1) }).is_err());
    assert_eq!(
        row_to_outbox(OutboxRow { payload_json: "nope".to_owned(), ..row("a", 1) }),
        Err(StateError::Json)
    );
}
