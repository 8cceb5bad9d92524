use vstd::prelude::*;

verus! {

/// Relies on chrono's `Utc::now` / `timestamp`: whole seconds since the Unix
/// epoch. The value depends on the wall clock, so nothing is promised of it.
/// chrono aborts if the system clock is set before the epoch — an
/// environmental failure no precondition can exclude.
#[verifier::external_body]
pub(crate) fn now_seconds() -> i64 {
    chrono::Utc::now().timestamp()
}

/// Relies on chrono's `Utc::now` / `timestamp_millis`: milliseconds since the
/// Unix epoch. The value depends on the wall clock, so nothing is promised of
/// it. chrono aborts if the system clock is set before the epoch — an
/// environmental failure no precondition can exclude.
#[verifier::external_body]
pub(crate) fn now_millis() -> i64 {
    chrono::Utc::now().timestamp_millis()
}

} // verus!
