//! Wall-clock access for the scheduler and the worker.

use std::time::{Duration, SystemTime, UNIX_EPOCH};
use vstd::prelude::*;

verus! {

/// The standard library's wall-clock instant, carried through opaquely.
#[verifier::external_type_specification]
#[verifier::external_body]
pub struct ExSystemTime(SystemTime);

/// Calls `SystemTime::now`. The instant depends on the machine's clock, so
/// nothing is stated of it.
#[verifier::external_body]
fn system_now() -> SystemTime {
    SystemTime::now()
}

/// Calls `SystemTime::duration_since(UNIX_EPOCH)` and keeps the `Ok` value.
/// The clock may stand before the epoch, in which case the result is `None`;
/// which of the two happens depends on the clock and is not stated.
#[verifier::external_body]
fn since_unix_epoch(t: &SystemTime) -> Option<Duration> {
    t.duration_since(UNIX_EPOCH).ok()
}

/// Calls `Duration::as_secs`: the number of whole seconds in the duration.
/// The duration is opaque here, so nothing more is stated.
#[verifier::external_body]
fn whole_seconds(d: &Duration) -> u64 {
    d.as_secs()
}

/// Seconds since the Unix epoch, or 0 where the clock stands before it.
/// Every value is a possible reading of the machine's clock, so no clause
/// states the result.
pub fn current_timestamp() -> u64 {
    let now = system_now();
    match since_unix_epoch(&now) {
        Some(d) => whole_seconds(&d),
        None => 0,
    }
}

} // verus!
