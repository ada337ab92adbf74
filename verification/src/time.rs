//! Durations, through `std::time::Duration`, and the clock.

use vstd::prelude::*;
use std::time::Duration;
use crate::api::executions::Timestamp;

verus! {

/// The current time, from `chrono::Utc::now()`, as seconds and nanoseconds
/// since the epoch. Which moment it is, is the clock's; chrono builds it
/// from the time elapsed since the epoch (it panics when the system clock
/// is set before the epoch), so the seconds are not negative and the
/// nanoseconds are under one second.
#[verifier::external_body]
pub(crate) fn current_time() -> (t: Timestamp)
    ensures
        t.secs >= 0,
        t.nanos < 1_000_000_000,
{
    let t = chrono::Utc::now();
    Timestamp { secs: t.timestamp(), nanos: t.timestamp_subsec_nanos() }
}

/// The whole seconds of a duration, as `Duration::as_secs` gives them.
pub uninterp spec fn whole_secs(d: Duration) -> u64;

/// The nanoseconds past the whole seconds of a duration, as
/// `Duration::subsec_nanos` gives them.
pub uninterp spec fn sub_nanos(d: Duration) -> u32;

/// `Duration::from_secs(secs)`: its documentation says the result is
/// `secs` whole seconds, so `as_secs` gives `secs` back and `subsec_nanos`
/// gives 0.
#[verifier::external_body]
pub(crate) fn duration_from_secs(secs: u64) -> (d: Duration)
    ensures
        whole_secs(d) == secs,
        sub_nanos(d) == 0,
{
    Duration::from_secs(secs)
}

/// `Duration::as_secs`: the whole seconds, named by `whole_secs`.
#[verifier::external_body]
pub(crate) fn duration_as_secs(d: &Duration) -> (s: u64)
    ensures
        s == whole_secs(*d),
{
    d.as_secs()
}

} // verus!
