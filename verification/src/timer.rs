//! Timing of the measured code.
use vstd::prelude::*;
use std::time::{Duration, Instant};

verus! {

/// `std::time::Instant`, a point of the monotonic clock.
#[verifier::external_type_specification]
#[verifier::external_body]
pub struct ExInstant(Instant);

/// `std::hint::black_box`: the identity function, opaque to the optimiser.
#[verifier::external_body]
pub(crate) fn black_box<T>(value: T) -> (r: T)
    ensures
        r == value,
{
    std::hint::black_box(value)
}

/// `Instant::now`: the current time. It depends on the clock, so nothing is claimed of it.
#[verifier::external_body]
fn instant_now() -> Instant {
    Instant::now()
}

/// `Instant::elapsed`: the time since `start`. It depends on the clock, so nothing is claimed
/// of it.
#[verifier::external_body]
fn instant_elapsed(start: &Instant) -> Duration {
    start.elapsed()
}

/// `Duration::as_nanos`: the whole nanoseconds of a duration. The duration is opaque here, so
/// nothing is claimed of the result.
#[verifier::external_body]
fn duration_as_nanos(d: &Duration) -> u128 {
    d.as_nanos()
}

/// A clock that measures the time between `start` and `stop`.
pub trait Timer<T> {
    /// Starts a measurement.
    fn start() -> T;

    /// The number of nanoseconds (or clock ticks) since `start_time`.
    fn stop(start_time: T) -> u64;
}

/// The timer of the platform, based on `Instant`.
pub struct PlatformTimer;

impl Timer<Instant> for PlatformTimer {
    fn start() -> Instant {
        instant_now()
    }

    fn stop(start_time: Instant) -> u64 {
        let nanos = duration_as_nanos(&instant_elapsed(&start_time));
        #[verifier::truncate]
        (nanos as u64)
    }
}

/// The timer that measurements use.
pub type ActiveTimer = PlatformTimer;

} // verus!
