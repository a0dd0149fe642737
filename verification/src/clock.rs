//! The time by which a time-bounded cache judges its entries: whole seconds
//! since the clock was started, read from the monotonic clock of `std`.

use vstd::prelude::*;
use std::time::{Duration, Instant};

verus! {

/// `std::time::Instant`, a point on the monotonic clock. Nothing of it is
/// visible to proofs.
#[verifier::external_type_specification]
#[verifier::external_body]
pub struct ExInstant(std::time::Instant);

/// `Instant::now` reads the monotonic clock. Nothing is claimed of the result.
pub assume_specification[ std::time::Instant::now ]() -> (now: Instant)
;

/// `Instant::saturating_duration_since` gives the time from `earlier` to
/// `later`, or zero where `earlier` is the later one. Nothing is claimed of
/// the result.
pub assume_specification[ std::time::Instant::saturating_duration_since ](
    later: &Instant,
    earlier: Instant,
) -> (elapsed: Duration)
;

/// `Duration::as_secs` gives the whole seconds of a duration. Nothing is
/// claimed of the result.
pub assume_specification[ std::time::Duration::as_secs ](duration: &Duration) -> (seconds: u64)
;

/// A clock that counts the seconds since it was started.
pub struct Clock {
    origin: Instant,
}

impl Clock {
    /// Starts a clock.
    pub fn start() -> Clock {
        Clock { origin: Instant::now() }
    }

    /// The whole seconds since the clock was started. The reading depends on
    /// the moment of the call, so nothing is promised of it.
    pub fn seconds(&self) -> u64 {
        let now = Instant::now();
        let elapsed = now.saturating_duration_since(self.origin);
        elapsed.as_secs()
    }
}

} // verus!
