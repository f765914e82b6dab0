use vstd::prelude::*;

use std::time::{Duration, Instant};

verus! {

#[verifier::external_type_specification]
#[verifier::external_body]
pub struct ExInstant(Instant);

/// Relies on `std::time::Instant::now`: a reading of the monotonic clock.
#[verifier::external_body]
pub(crate) fn clock_now() -> (r: Instant) {
    Instant::now()
}

/// Relies on `std::time::Instant::elapsed`: the time from `origin` to now.
#[verifier::external_body]
fn elapsed(origin: &Instant) -> (r: Duration) {
    origin.elapsed()
}

/// Relies on `std::time::Duration::as_nanos`: the whole nanoseconds in `d`.
#[verifier::external_body]
fn whole_nanos(d: &Duration) -> (r: u128) {
    d.as_nanos()
}

/// Nanoseconds from `origin` to now, held at `u64::MAX` past that.
pub(crate) fn nanos_since(origin: &Instant) -> (r: u64) {
    let n = whole_nanos(&elapsed(origin));
    if n > u64::MAX as u128 {
        u64::MAX
    } else {
        n as u64
    }
}

/// Relies on `rand::random`: a byte drawn uniformly by the thread-local
/// generator. Nothing is known of its value.
#[verifier::external_body]
pub(crate) fn random_byte() -> (r: u8) {
    rand::random::<u8>()
}

} // verus!
