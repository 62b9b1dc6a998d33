//! Bounds shared by the durable outbox, jobs and scan checkpoints.

use vstd::prelude::*;

use crate::error::{accepted_if, invalid, StateError};
use crate::json::Json;
use crate::text::{byte_len, bytes_of, is_label, label_ok};

verus! {

pub const MAX_WORKER_ID_BYTES: usize = 128;

pub const MAX_JOB_TYPE_BYTES: usize = 128;

pub const MAX_DEDUP_KEY_BYTES: usize = 512;

pub const MAX_ERROR_BYTES: usize = 2048;

pub const MAX_PAYLOAD_BYTES: usize = 262144;

pub const MAX_BATCH_SIZE: u32 = 128;

/// Checks a worker identity.
pub fn validate_worker(value: &str) -> (r: Result<(), StateError>)
    ensures
        r == accepted_if(label_ok(value@, MAX_WORKER_ID_BYTES as nat), "worker ID is invalid"),
{
    if !is_label(value, MAX_WORKER_ID_BYTES) {
        return Err(StateError::InvalidInput("worker ID is invalid"));
    }
    Ok(())
}

/// Checks that a lease ends after it starts.
pub fn validate_lease(now: i64, lease_until: i64) -> (r: Result<(), StateError>)
    ensures
        r == accepted_if(now < lease_until, "lease must expire in the future"),
{
    if lease_until <= now {
        return Err(StateError::InvalidInput("lease must expire in the future"));
    }
    Ok(())
}

/// Checks the size of a claimed batch.
pub fn validate_batch(limit: u32) -> (r: Result<u32, StateError>)
    ensures
        r == (if 1 <= limit <= MAX_BATCH_SIZE {
            Ok::<u32, StateError>(limit)
        } else {
            invalid("worker batch size is invalid")
        }),
{
    if limit == 0 || limit > MAX_BATCH_SIZE {
        return Err(StateError::InvalidInput("worker batch size is invalid"));
    }
    Ok(limit)
}

/// Checks a redacted error summary.
pub fn validate_error(value: &str) -> (r: Result<(), StateError>)
    ensures
        r == accepted_if(label_ok(value@, MAX_ERROR_BYTES as nat), "worker error is invalid"),
{
    if !is_label(value, MAX_ERROR_BYTES) {
        return Err(StateError::InvalidInput("worker error is invalid"));
    }
    Ok(())
}

/// Checks an aggregate identity.
pub fn validate_aggregate_id(value: &str) -> (r: Result<(), StateError>)
    ensures
        r == accepted_if(label_ok(value@, MAX_DEDUP_KEY_BYTES as nat), "aggregate ID is invalid"),
{
    if !is_label(value, MAX_DEDUP_KEY_BYTES) {
        return Err(StateError::InvalidInput("aggregate ID is invalid"));
    }
    Ok(())
}

/// Whether a job's category and deduplication key are well formed.
pub open spec fn job_labels_ok(job_type: Seq<char>, dedup_key: Seq<char>) -> bool {
    label_ok(job_type, MAX_JOB_TYPE_BYTES as nat) && label_ok(dedup_key, MAX_DEDUP_KEY_BYTES as nat)
}

/// Checks a job's category and deduplication key.
pub fn validate_job_labels(job_type: &str, dedup_key: &str) -> (r: Result<(), StateError>)
    ensures
        r == accepted_if(job_labels_ok(job_type@, dedup_key@), "job label is invalid"),
{
    if !is_label(job_type, MAX_JOB_TYPE_BYTES) || !is_label(dedup_key, MAX_DEDUP_KEY_BYTES) {
        return Err(StateError::InvalidInput("job label is invalid"));
    }
    Ok(())
}

/// Checks a scan category or generation.
pub fn validate_scan_label(value: &str) -> (r: Result<(), StateError>)
    ensures
        r == accepted_if(label_ok(value@, 128), "scan label is invalid"),
{
    if !is_label(value, 128) {
        return Err(StateError::InvalidInput("scan label is invalid"));
    }
    Ok(())
}

/// Checks a job's attempt budget.
pub fn validate_attempts(value: u32) -> (r: Result<(), StateError>)
    ensures
        r == accepted_if(1 <= value <= 100, "job max attempts are invalid"),
{
    if value == 0 || value > 100 {
        return Err(StateError::InvalidInput("job max attempts are invalid"));
    }
    Ok(())
}

/// Checks the encoded size of a handler payload.
pub fn validate_payload(value: &Json) -> (r: Result<(), StateError>)
    ensures
        r == accepted_if(byte_len(value@) <= MAX_PAYLOAD_BYTES, "worker payload is too large"),
{
    if bytes_of(value.as_str()) > MAX_PAYLOAD_BYTES {
        return Err(StateError::InvalidInput("worker payload is too large"));
    }
    Ok(())
}

/// The stored form of a counter.
pub fn to_i64(value: u64, field: &'static str) -> (r: Result<i64, StateError>)
    ensures
        r == (if value <= i64::MAX {
            Ok::<i64, StateError>(value as i64)
        } else {
            invalid(field)
        }),
{
    if value <= i64::MAX as u64 {
        Ok(value as i64)
    } else {
        Err(StateError::InvalidInput(field))
    }
}

/// The counter of a stored number.
pub fn to_u64(value: i64, field: &'static str) -> (r: Result<u64, StateError>)
    ensures
        r == (if value >= 0 {
            Ok::<u64, StateError>(value as u64)
        } else {
            invalid(field)
        }),
{
    if value >= 0 {
        Ok(value as u64)
    } else {
        Err(StateError::InvalidInput(field))
    }
}

/// The optional counter of an optional stored one.
pub open spec fn counter_of(value: Option<i64>) -> Option<u64> {
    match value {
        Some(value) => Some(value as u64),
        None => None,
    }
}

/// Reads an optional stored counter.
pub fn stored_counter(value: Option<i64>, reason: &'static str) -> (r: Result<
    Option<u64>,
    StateError,
>)
    ensures
        r == (if value is Some && value->0 < 0 {
            Err::<Option<u64>, StateError>(StateError::InvalidInput(reason))
        } else {
            Ok(counter_of(value))
        }),
{
    match value {
        Some(value) => if value < 0 {
            Err(StateError::InvalidInput(reason))
        } else {
            Ok(Some(value as u64))
        },
        None => Ok(None),
    }
}

/// The optional number of an optional stored one.
pub open spec fn number_of(value: Option<i64>) -> Option<u32> {
    match value {
        Some(value) => Some(value as u32),
        None => None,
    }
}

/// Reads an optional stored number.
pub fn stored_number(value: Option<i64>, reason: &'static str) -> (r: Result<Option<u32>, StateError>)
    ensures
        r == (if value is Some && !(0 <= value->0 <= u32::MAX) {
            Err::<Option<u32>, StateError>(StateError::InvalidInput(reason))
        } else {
            Ok(number_of(value))
        }),
{
    match value {
        Some(value) => if value < 0 || value > u32::MAX as i64 {
            Err(StateError::InvalidInput(reason))
        } else {
            Ok(Some(value as u32))
        },
        None => Ok(None),
    }
}

/// A counter that can be stored reads back as it was.
pub proof fn law_counter_round_trip(value: u64)
    requires
        value <= i64::MAX,
    ensures
        (value as i64) >= 0,
        (value as i64) as u64 == value,
{
}

} // verus!
