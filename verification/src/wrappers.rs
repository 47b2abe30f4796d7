//! The two calls into outside crates that the verified logic relies on:
//! fresh random identifiers and the current wall-clock time. Nothing is
//! promised of either result; every caller states what holds whatever
//! value comes back.

use vstd::prelude::*;

verus! {

/// Relies on `uuid::Uuid::new_v4` and `as_u128`: a fresh random identifier,
/// returned as its 128-bit value. Nothing can be promised of a random value.
#[verifier::external_body]
pub(crate) fn fresh_uuid() -> u128 {
    uuid::Uuid::new_v4().as_u128()
}

/// Relies on `chrono::Utc::now` and `timestamp_millis`: the current UTC time
/// as milliseconds since the epoch. Nothing can be promised of the clock.
#[verifier::external_body]
pub(crate) fn now_millis() -> i64 {
    chrono::Utc::now().timestamp_millis()
}

} // verus!
