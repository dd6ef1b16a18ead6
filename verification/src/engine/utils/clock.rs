//! A fixed-step update clock. Times are kept as whole nanoseconds.
use vstd::prelude::*;
use std::time::{Duration, Instant};

verus! {

#[verifier::external_type_specification]
#[verifier::external_body]
pub struct ExInstant(Instant);

/// Largest number of nanoseconds a `std::time::Duration` can hold:
/// `u64::MAX` seconds and 999 999 999 nanoseconds.
pub const MAX_DURATION_NANOS: u128 = 18_446_744_073_709_551_615_999_999_999u128;

/// Nanoseconds in one second.
pub const NANOS_PER_SEC: u128 = 1_000_000_000u128;

/// Nanoseconds in one millisecond.
pub const NANOS_PER_MILLI: u128 = 1_000_000u128;

/// Calls `Instant::now`; the reading depends on the machine's clock, so
/// nothing is stated of it.
#[verifier::external_body]
fn now() -> Instant {
    Instant::now()
}

/// Calls `Instant::elapsed`; the result depends on the machine's clock, so
/// nothing is stated of it.
#[verifier::external_body]
fn elapsed_since(start: &Instant) -> Duration {
    start.elapsed()
}

/// Calls `Duration::as_nanos`; a `Duration` never exceeds
/// `MAX_DURATION_NANOS` nanoseconds. Which value comes out is not stated, as
/// Verus sees nothing inside a `Duration`.
#[verifier::external_body]
fn duration_nanos(d: &Duration) -> (n: u128)
    ensures
        n <= MAX_DURATION_NANOS,
{
    d.as_nanos()
}

/// `acc + frame`, or what a `Duration` holds at most where the sum is larger.
pub open spec fn capped_sum(acc: u128, frame: u128) -> u128 {
    if acc + frame <= MAX_DURATION_NANOS {
        (acc + frame) as u128
    } else {
        MAX_DURATION_NANOS
    }
}

/// Counts the time that has passed and says when a fixed-length update is due.
pub struct Clock {
    previous: Instant,
    /// Time not yet consumed by updates, in nanoseconds.
    pub accumulator: u128,
    /// Length of the last frame, in nanoseconds.
    pub elapsed: u128,
    /// Length of one update step, in nanoseconds.
    pub max_ups: u128,
}

impl Clock {
    /// The instant the current frame started.
    pub closed spec fn timer(&self) -> Instant {
        self.previous
    }

    /// Time not yet consumed by updates, in nanoseconds.
    pub closed spec fn accumulated(&self) -> u128 {
        self.accumulator
    }

    /// Length of the last frame, in nanoseconds.
    pub closed spec fn last_frame(&self) -> u128 {
        self.elapsed
    }

    /// Length of one update step, in nanoseconds.
    pub closed spec fn step(&self) -> u128 {
        self.max_ups
    }

    /// A clock whose update step lasts `max_ups` milliseconds, with one
    /// second already accumulated and no frame measured yet.
    pub fn new(max_ups: u64) -> (c: Self)
        ensures
            c.accumulated() == NANOS_PER_SEC,
            c.last_frame() == 0,
            c.step() == max_ups as u128 * NANOS_PER_MILLI,
    {
        let previous = now();
        let accumulator = NANOS_PER_SEC;
        let elapsed = 0u128;
        let max_ups = max_ups as u128 * NANOS_PER_MILLI;
        Self { previous, elapsed, accumulator, max_ups }
    }

    /// Records a frame of `elapsed` nanoseconds: it becomes the last frame's
    /// length and is added to the accumulated time.
    pub fn advance(&mut self, elapsed: u128)
        requires
            old(self).accumulated() + elapsed <= MAX_DURATION_NANOS,
        ensures
            final(self).last_frame() == elapsed,
            final(self).accumulated() == old(self).accumulated() + elapsed,
            final(self).step() == old(self).step(),
            final(self).timer() == old(self).timer(),
    {
        self.elapsed = elapsed;
        self.accumulator = self.accumulator + elapsed;
    }

    /// Measures the frame that just ended, which becomes the last frame,
    /// starts a new one, and adds the frame's length to the accumulated time.
    /// The accumulated time stops at what a `Duration` holds.
    pub fn readjust(&mut self)
        ensures
            final(self).step() == old(self).step(),
            final(self).last_frame() <= MAX_DURATION_NANOS,
            final(self).accumulated() == capped_sum(old(self).accumulated(), final(self).last_frame()),
    {
        let frame = elapsed_since(&self.previous);
        let elapsed = duration_nanos(&frame);
        self.elapsed = elapsed;
        if self.accumulator <= MAX_DURATION_NANOS - elapsed {
            self.accumulator = self.accumulator + elapsed;
        } else {
            self.accumulator = MAX_DURATION_NANOS;
        }
        self.previous = now();
    }

    /// Whether at least one update step of time has accumulated.
    pub fn should_update(&self) -> (b: bool)
        ensures
            b == (self.accumulated() >= self.step()),
    {
        self.accumulator >= self.max_ups
    }

    /// Consumes one update step of accumulated time.
    pub fn update(&mut self)
        requires
            old(self).accumulated() >= old(self).step(),
        ensures
            final(self).accumulated() == old(self).accumulated() - old(self).step(),
            final(self).last_frame() == old(self).last_frame(),
            final(self).step() == old(self).step(),
            final(self).timer() == old(self).timer(),
    {
        self.accumulator = self.accumulator - self.max_ups;
    }

    /// Nanoseconds since the current frame started; read from the machine's
    /// clock.
    pub fn elapsed(&self) -> (n: u128)
        ensures
            n <= MAX_DURATION_NANOS,
    {
        let d = elapsed_since(&self.previous);
        duration_nanos(&d)
    }

    /// The instant the current frame started.
    pub fn get_timer(&self) -> (t: &Instant)
        ensures
            *t == self.timer(),
    {
        &self.previous
    }
}

/// With a positive update step `step` and `acc` nanoseconds accumulated, the
/// loop "while `should_update` holds, call `update`" runs exactly
/// `acc / step` times: before each of those calls at least one step is
/// accumulated, and afterwards `acc % step` nanoseconds remain, less than a step.
pub proof fn law_fixed_step_updates(acc: u128, step: u128)
    requires
        step > 0,
    ensures
        forall|k: int| 0 <= k < acc / step ==> #[trigger] (acc - k * step) >= step,
        acc - (acc / step) * step == acc % step,
        acc % step < step,
{
    assert forall|k: int| 0 <= k < acc / step implies #[trigger] (acc - k * step) >= step by {
        assert((k + 1) * step <= (acc / step) * step) by (nonlinear_arith)
            requires
                k + 1 <= acc / step,
                step > 0,
        ;
        assert((acc / step) * step <= acc) by (nonlinear_arith)
            requires
                step > 0,
        ;
        assert((k + 1) * step == k * step + step) by (nonlinear_arith);
    }
    assert(acc - (acc / step) * step == acc % step) by (nonlinear_arith)
        requires
            step > 0,
    ;
}

} // verus!
