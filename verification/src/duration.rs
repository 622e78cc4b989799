//! Trusted boundary to `core::time::Duration`, which the daemon uses for
//! polling intervals and retry delays.

use vstd::prelude::*;
use core::time::Duration;

verus! {

/// The duration holding exactly this many whole seconds.
pub uninterp spec fn duration_of_secs(secs: u64) -> Duration;

/// The duration holding exactly this many milliseconds.
pub uninterp spec fn duration_of_millis(millis: u64) -> Duration;

/// Relies on `core::time::Duration::from_secs`: the result is a function of
/// the second count alone, and the call never fails.
#[verifier::external_body]
pub(crate) fn duration_from_secs(secs: u64) -> (r: Duration)
    ensures
        r == duration_of_secs(secs),
{
    Duration::from_secs(secs)
}

/// Relies on `core::time::Duration::from_millis`: the result is a function of
/// the millisecond count alone, and the call never fails.
#[verifier::external_body]
pub(crate) fn duration_from_millis(millis: u64) -> (r: Duration)
    ensures
        r == duration_of_millis(millis),
{
    Duration::from_millis(millis)
}

} // verus!
