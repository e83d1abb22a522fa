//! Fresh identifiers and timestamps, drawn from outside crates.
//!
//! Plan and node identities are random; timestamps come from the system
//! clock.  Neither admits any promise about the value returned, so the
//! wrappers carry no contract and the callers state nothing of these
//! fields.

use vstd::prelude::*;

verus! {

/// Relies on `uuid::Uuid::new_v4` and `Uuid::as_u128`: a freshly drawn
/// random version-4 UUID, as its 128-bit value.  The value is random, so
/// nothing is promised of it.
#[verifier::external_body]
pub(crate) fn fresh_id() -> u128 {
    uuid::Uuid::new_v4().as_u128()
}

/// Relies on `chrono::Utc::now` and `DateTime::timestamp_millis`: the
/// current time in milliseconds since the Unix epoch.  The clock decides
/// the value, so nothing is promised of it.
#[verifier::external_body]
pub(crate) fn now_unix_millis() -> i64 {
    chrono::Utc::now().timestamp_millis()
}

} // verus!
