//! In-memory real-time event delivery for a collaborative-workspace backend.
//!
//! The heart of the crate is the connection registry: an index of live
//! bidirectional connections, the users they belong to, and a first-in
//! first-out outbound queue per connection. Around it sit the wire protocol
//! (a closed set of JSON-framed messages), the notification API that other
//! subsystems call, and the liveness sweep that evicts silent connections.
//! The domain entities of the surrounding product (users, files, shares,
//! drives, documents, forms, spreadsheets) are modelled as plain data with
//! their small pieces of logic verified.

use vstd::prelude::*;

pub mod auth;
pub mod codec;
pub mod config;
pub mod core_types;
pub mod entities;
pub mod error;
pub mod file_service;
pub mod message;
pub mod registry;
pub mod storage;
pub mod textform;
pub mod value_objects;

verus! {

/// Smoke-level entry point: the crate's version tag.
pub fn crate_name() -> (r: &'static str)
    ensures
        r@ == "kingshare"@,
{
    "kingshare"
}

} // verus!
