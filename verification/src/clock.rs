//! Timestamps.

use vstd::prelude::*;

use crate::error::{invalid, StateError};

verus! {

/// The current UTC time in Unix milliseconds. `elapsed` is the time since the
/// Unix epoch, or `None` where the system clock is set before it.
pub fn now_millis(elapsed: Option<u128>) -> (r: Result<i64, StateError>)
    ensures
        r == (match elapsed {
            Some(millis) => if millis <= i64::MAX {
                Ok::<i64, StateError>(millis as i64)
            } else {
                invalid("system clock exceeds SQLite timestamp range")
            },
            None => invalid("system clock is before Unix epoch"),
        }),
{
    match elapsed {
        Some(millis) => {
            if millis > i64::MAX as u128 {
                return Err(
                    StateError::InvalidInput("system clock exceeds SQLite timestamp range"),
                );
            }
            Ok(millis as i64)
        },
        None => Err(StateError::InvalidInput("system clock is before Unix epoch")),
    }
}

} // verus!
