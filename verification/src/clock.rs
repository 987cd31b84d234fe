//! The monotonic clock that the watchdog measures restarts and events against.
use std::time::Duration;
use tokio::time::Instant;
use vstd::prelude::*;

verus! {

/// `tokio::time::Instant`, carried as an opaque value.
#[verifier::external_type_specification]
#[verifier::external_body]
pub struct ExInstant(Instant);

/// Calls `tokio::time::Instant::now`. The instant depends on when the call is made,
/// so nothing is stated of it.
#[verifier::external_body]
pub(crate) fn instant_now() -> Instant {
    Instant::now()
}

/// Calls `tokio::time::Instant::elapsed` on `origin`. The duration depends on when the call
/// is made, so nothing is stated of it.
#[verifier::external_body]
pub(crate) fn elapsed_since(origin: &Instant) -> Duration {
    origin.elapsed()
}

/// The whole nanoseconds in a duration, as `std::time::Duration::as_nanos` gives them.
pub uninterp spec fn nanos_of(d: Duration) -> u128;

/// Calls `std::time::Duration::as_nanos`; its result is a function of `d` alone, named
/// `nanos_of`.
#[verifier::external_body]
pub(crate) fn duration_nanos(d: Duration) -> (n: u128)
    ensures
        n == nanos_of(d),
{
    d.as_nanos()
}

/// A clock that counts nanoseconds from the moment it was started and never reads backwards.
///
/// tokio documents its instants as never going backwards, so each reading of the elapsed
/// time is at least the one before; the clock keeps its last reading so that this order is
/// checked here rather than taken on trust, and a reading that came out earlier than the last
/// one is answered with the last one.
#[derive(Clone, Copy)]
pub(crate) struct SteadyClock {
    origin: Instant,
    last: u128,
}

impl SteadyClock {
    /// The latest reading handed out; 0 before the first.
    pub(crate) closed spec fn last_reading(&self) -> u128 {
        self.last
    }

    pub(crate) fn start() -> (c: Self)
        ensures
            c.last_reading() == 0,
    {
        SteadyClock { origin: instant_now(), last: 0 }
    }

    /// Nanoseconds since the clock was started, no fewer than at the last reading.
    pub(crate) fn read(&mut self) -> (now: u128)
        ensures
            now >= old(self).last_reading(),
            final(self).last_reading() == now,
    {
        let elapsed = duration_nanos(elapsed_since(&self.origin));
        if elapsed > self.last {
            self.last = elapsed;
        }
        self.last
    }
}

} // verus!
