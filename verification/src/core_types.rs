//! Identifiers and time, as plain values.
//!
//! Entity identifiers are 128-bit values (the width of a UUID); timestamps
//! are whole seconds since the Unix epoch. Both are generated through small
//! trusted wrappers over the `uuid` and `chrono` crates; everything the
//! logic does with them afterwards is ordinary verified arithmetic.

use vstd::prelude::*;

verus! {

/// An entity identifier: the 128 bits of a UUID, held as a plain integer.
pub type Id = u128;

/// A point in time: whole seconds since the Unix epoch.
pub type Timestamp = i64;

/// Relies on `uuid::Uuid::new_v4` / `Uuid::as_u128`: draws a fresh random
/// identifier. Nothing is promised of the value: distinctness from earlier
/// draws is probabilistic, so callers that need uniqueness must check it.
#[verifier::external_body]
pub fn fresh_id() -> Id {
    uuid::Uuid::new_v4().as_u128()
}

/// Relies on `chrono::Utc::now` / `DateTime::timestamp`: the current wall
/// clock, in whole seconds since the Unix epoch. Nothing is promised of the
/// value; callers state what holds whatever instant comes back.
#[verifier::external_body]
pub fn now_ts() -> Timestamp {
    chrono::Utc::now().timestamp()
}

} // verus!
