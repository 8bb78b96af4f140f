//! A stop watch on the monotonic clock, in milliseconds.

use vstd::prelude::*;

verus! {

#[verifier::external_type_specification]
#[verifier::external_body]
pub struct ExInstant(std::time::Instant);

/// `std::time::Instant::now`: the current instant; nothing is claimed of
/// it.
#[verifier::external_body]
fn instant_now() -> std::time::Instant {
    std::time::Instant::now()
}

/// `std::time::Instant::duration_since`: the time from `earlier` to
/// `later` (zero when `earlier` is later); it depends on the clock, so
/// nothing is claimed of it.
#[verifier::external_body]
fn instant_duration_since(later: &std::time::Instant, earlier: &std::time::Instant) -> core::time::Duration {
    later.duration_since(*earlier)
}

/// `core::time::Duration::as_nanos`: whole nanoseconds of `d`; `d` comes
/// from the clock, so nothing is claimed of it.
#[verifier::external_body]
fn duration_nanos(d: &core::time::Duration) -> u128 {
    d.as_nanos()
}

/// The clock reading, in nanoseconds since `origin`.
fn nanos_since(origin: &std::time::Instant) -> u128 {
    let now = instant_now();
    let d = instant_duration_since(&now, origin);
    duration_nanos(&d)
}

/// Measures elapsed milliseconds from a start, kept as nanoseconds since
/// the watch was made.
pub struct StopWatch {
    origin: std::time::Instant,
    start_ns: u128,
}

impl View for StopWatch {
    type V = nat;

    /// The start, in nanoseconds since the watch was made.
    closed spec fn view(&self) -> nat {
        self.start_ns as nat
    }
}

impl StopWatch {
    /// A stop watch started now.
    pub fn new() -> (w: StopWatch)
        ensures
            w@ == 0,
    {
        StopWatch { origin: instant_now(), start_ns: 0 }
    }

    /// Starts again at the clock reading `now_ns` (nanoseconds since the
    /// watch was made).
    pub fn reset_at(&mut self, now_ns: u128)
        ensures
            final(self)@ == now_ns,
    {
        self.start_ns = now_ns;
    }

    /// Starts again from now.
    pub fn reset(&mut self) {
        let now = nanos_since(&self.origin);
        self.reset_at(now);
    }

    /// Whole milliseconds from the start to the clock reading `now_ns`
    /// (zero when the reading is not later).
    pub fn elapsed_at(&self, now_ns: u128) -> (r: u128)
        ensures
            r == (if now_ns >= self@ { (now_ns - self@) / 1_000_000 } else { 0 }),
    {
        if now_ns >= self.start_ns {
            (now_ns - self.start_ns) / 1_000_000
        } else {
            0
        }
    }

    /// Milliseconds since the start.
    pub fn elapsed(&self) -> u128 {
        let now = nanos_since(&self.origin);
        self.elapsed_at(now)
    }

    /// A lap at the clock reading `now_ns`: the start moves on by the time
    /// `d` from it to the reading (zero when the reading is not later), and
    /// the whole milliseconds of `d` are returned.
    pub fn lap_at(&mut self, now_ns: u128) -> (r: u128)
        ensures
            final(self)@ == (if now_ns >= old(self)@ { now_ns as nat } else { old(self)@ }),
            r == (final(self)@ - old(self)@) / 1_000_000,
    {
        let d: u128 = if now_ns >= self.start_ns {
            now_ns - self.start_ns
        } else {
            0
        };
        self.start_ns = self.start_ns + d;
        d / 1_000_000
    }

    /// Milliseconds since the start; the start moves on by exactly the time
    /// measured, so no time is lost or counted twice between two laps.
    pub fn elapsed_and_reset(&mut self) -> (r: u128)
        ensures
            final(self)@ >= old(self)@,
            r == (final(self)@ - old(self)@) / 1_000_000,
    {
        let now = nanos_since(&self.origin);
        self.lap_at(now)
    }
}

} // verus!
