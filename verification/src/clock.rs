//! Reading the clock.
//!
//! Timeouts are measured in nanoseconds elapsed since a fixed origin instant, so that the
//! timing decisions are plain arithmetic over `u128` values. The clock itself is tokio's,
//! as in the rest of the runtime; what it returns depends on the time, so nothing is
//! promised of it beyond its type. A duration's count of nanoseconds is named.

use vstd::prelude::*;

verus! {

#[verifier::external_type_specification]
#[verifier::external_body]
pub struct ExInstant(tokio::time::Instant);

/// `tokio::time::Instant::now`: the current instant. Nothing is stated of it.
#[verifier::external_body]
pub(crate) fn clock_now() -> tokio::time::Instant {
    tokio::time::Instant::now()
}

/// `tokio::time::Instant::elapsed`: the time since `origin`, zero if `origin` lies in the
/// future. Nothing is stated of it, since it depends on the time of the call.
#[verifier::external_body]
pub(crate) fn elapsed_since(origin: &tokio::time::Instant) -> core::time::Duration {
    origin.elapsed()
}

/// The whole nanoseconds that the duration `d` holds, as `Duration::as_nanos` gives them.
pub uninterp spec fn nanos_of(d: core::time::Duration) -> u128;

/// `Duration::as_nanos`: the whole nanoseconds that `d` holds, named by [`nanos_of`].
#[verifier::external_body]
pub(crate) fn duration_nanos(d: &core::time::Duration) -> (n: u128)
    ensures
        n == nanos_of(*d),
{
    d.as_nanos()
}

/// `n` is the whole-nanosecond count of a duration. Nothing in this crate stores a
/// `Duration`, so in the contract of a function that takes none as an argument such an `n`
/// is the count of a duration read from the clock during the call: a time taken then, not
/// one computed from earlier values.
pub open spec fn clock_reading(n: u128) -> bool {
    exists|d: core::time::Duration| n == #[trigger] nanos_of(d)
}

/// Nanoseconds elapsed since `origin`, as the clock reports them now.
pub(crate) fn nanos_since(origin: &tokio::time::Instant) -> (n: u128)
    ensures
        clock_reading(n),
{
    let d = elapsed_since(origin);
    let n = duration_nanos(&d);
    assert(n == nanos_of(d));
    n
}

} // verus!
