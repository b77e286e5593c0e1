//! Spans of time and the monotonic clock.
use std::time::Instant;
use vstd::prelude::*;

verus! {

/// The number of nanoseconds in a second.
pub const NANOS_PER_SEC: u32 = 1_000_000_000;

/// A span of time: whole seconds and a remainder in nanoseconds.
#[derive(Clone, Copy, Debug, PartialEq, Eq, Structural)]
pub struct Interval {
    pub secs: u64,
    pub nanos: u32,
}

impl Interval {
    /// The length of the span in nanoseconds.
    pub open spec fn total(self) -> nat {
        (self.secs * 1_000_000_000 + self.nanos) as nat
    }

    /// The span of that many milliseconds.
    pub fn from_millis(millis: u64) -> (interval: Interval)
        ensures
            interval.total() == millis * 1_000_000,
            interval.nanos < NANOS_PER_SEC,
    {
        Interval { secs: millis / 1000, nanos: (millis % 1000) as u32 * 1_000_000 }
    }

    /// The length of the span in nanoseconds.
    pub fn as_nanos(&self) -> (nanos: i128)
        ensures
            nanos == self.total(),
            0 <= nanos <= u64::MAX * 1_000_000_000 + u32::MAX,
    {
        self.secs as i128 * 1_000_000_000 + self.nanos as i128
    }

    /// The nanoseconds from `earlier` to this reading, or zero where the other
    /// reading is the later one.
    pub open spec fn nanos_since(self, earlier: Interval) -> nat {
        if self.total() >= earlier.total() {
            (self.total() - earlier.total()) as nat
        } else {
            0
        }
    }

    /// The nanoseconds from `earlier` to this reading, or zero where the other
    /// reading is the later one.
    pub fn since(&self, earlier: &Interval) -> (nanos: u128)
        ensures
            nanos == self.nanos_since(*earlier),
    {
        let now: i128 = self.as_nanos();
        let then: i128 = earlier.as_nanos();
        if now >= then {
            (now - then) as u128
        } else {
            0
        }
    }
}

/// A point on the monotonic clock of the standard library. It can only be
/// carried around and measured from.
#[verifier::external_type_specification]
#[verifier::external_body]
pub struct ExInstant(Instant);

/// Calls `std::time::Instant::now`. Which point it is depends on the moment of
/// the call, so nothing is claimed of it.
#[verifier::external_body]
fn instant_now() -> Instant {
    Instant::now()
}

/// Calls `std::time::Instant::elapsed`. How long ago the point was depends on
/// the moment of the call; all that is claimed is that the remainder below a
/// second is less than a second.
#[verifier::external_body]
fn elapsed_since(since: &Instant) -> (elapsed: Interval)
    ensures
        elapsed.nanos < NANOS_PER_SEC,
{
    let elapsed = since.elapsed();
    Interval { secs: elapsed.as_secs(), nanos: elapsed.subsec_nanos() }
}

/// A clock that reads zero at the moment it is started. Copies of it read the
/// same.
#[derive(Clone, Copy, Debug)]
pub struct Stopwatch {
    started: Instant,
}

impl Stopwatch {
    /// A clock that starts now.
    pub fn start() -> Stopwatch {
        Stopwatch { started: instant_now() }
    }

    /// What the clock reads now.
    pub fn elapsed(&self) -> (elapsed: Interval)
        ensures
            elapsed.nanos < NANOS_PER_SEC,
    {
        elapsed_since(&self.started)
    }
}

/// The time between two readings is what is missing from the earlier to the later one; it
/// never counts backwards.
pub proof fn time_between_two_readings(earlier: Interval, later: Interval)
    requires
        earlier.total() <= later.total(),
    ensures
        earlier.total() + later.nanos_since(earlier) == later.total(),
        earlier.nanos_since(later) == 0,
{
}

} // verus!
