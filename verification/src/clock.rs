//! The one outside call the library makes: reading the clock for a new
//! note's key.

use vstd::prelude::*;

verus! {

/// Relies on chrono's `Local::now` and `DateTime::timestamp_millis`: the
/// moment of the call as milliseconds since the Unix epoch. Nothing is
/// promised of the value, which depends on the machine clock; callers must
/// test it themselves (in particular for freshness as a key). `Local::now`
/// panics when the machine clock reads before the Unix epoch or the local
/// offset cannot be looked up — environmental conditions no caller input
/// controls.
#[verifier::external_body]
pub(crate) fn now_key() -> i64 {
    chrono::Local::now().timestamp_millis()
}

} // verus!
