//! Durations, read through their length in nanoseconds.

use vstd::prelude::*;

verus! {

/// `Duration` is `Copy`; its `clone` hands back the same value.
pub assume_specification[<std::time::Duration as Clone>::clone](d: &std::time::Duration) -> (r: std::time::Duration)
    ensures
        r == *d,
;

/// The length of a duration in nanoseconds.
pub uninterp spec fn spec_duration_nanos(d: std::time::Duration) -> u128;

/// The length of a duration in whole milliseconds.
pub open spec fn spec_duration_millis(d: std::time::Duration) -> u128 {
    spec_duration_nanos(d) / 1_000_000
}

/// The length of a duration in nanoseconds.
///
/// Calls `Duration::as_nanos`, which returns the total number of nanoseconds
/// the duration holds; the contract names that value.
#[verifier::external_body]
pub(crate) fn duration_nanos(d: &std::time::Duration) -> (n: u128)
    ensures
        n == spec_duration_nanos(*d),
{
    d.as_nanos()
}

/// A duration of whole seconds.
///
/// Calls `Duration::from_secs`; its documentation says the result is `secs`
/// seconds long, which the contract states in nanoseconds.
#[verifier::external_body]
pub(crate) fn duration_from_secs(secs: u64) -> (d: std::time::Duration)
    ensures
        spec_duration_nanos(d) == secs as u128 * 1_000_000_000,
{
    std::time::Duration::from_secs(secs)
}

/// A duration of whole milliseconds.
///
/// Calls `Duration::from_millis`; its documentation says the result is
/// `millis` milliseconds long, which the contract states in nanoseconds.
#[verifier::external_body]
pub(crate) fn duration_from_millis(millis: u64) -> (d: std::time::Duration)
    ensures
        spec_duration_nanos(d) == millis as u128 * 1_000_000,
{
    std::time::Duration::from_millis(millis)
}

/// The length of a duration in whole milliseconds.
pub fn duration_millis(d: &std::time::Duration) -> (m: u128)
    ensures
        m == spec_duration_millis(*d),
{
    duration_nanos(d) / 1_000_000
}

} // verus!
