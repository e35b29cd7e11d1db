//! Wall-clock access for the timestamp columns of the datastore.

use vstd::prelude::*;

verus! {

/// Relies on `chrono::Utc::now` and `chrono::DateTime::timestamp_millis`:
/// the current wall-clock time as milliseconds since the Unix epoch. The
/// value depends on the clock alone, so nothing is promised of it; every
/// caller's contract holds whatever instant comes back.
#[verifier::external_body]
pub(crate) fn now_millis() -> i64 {
    chrono::Utc::now().timestamp_millis()
}

} // verus!
