//! Fixed-rate tick scheduler: drives the server's loop at 20 iterations a
//! second, corrects drift after stalls, and keeps rolling performance
//! statistics.
//!
//! Rates and usage fractions are kept in thousandths (fixed point), so a
//! full-rate loop reads 20000 and full usage reads 1000. Reading the
//! clock is trusted; everything the readings feed is verified for every
//! possible reading.

use crate::rolling_average::{seq_sum, RollingAverage};
use vstd::prelude::*;

verus! {

/// Tick period of the observed protocol: 50 ms, 20 ticks a second.
pub const TICK_PERIOD_MS: i64 = 50;

/// Target rate in thousandths of ticks per second.
pub const TARGET_RATE_MILLI: u32 = 20000;

/// Window size of the rolling diagnostics.
pub const DIAGNOSTIC_WINDOW: usize = 20;

/// Achieved-rate estimate for one iteration, in thousandths of ticks per
/// second: the inverse of the elapsed time, floored at one millisecond
/// and capped at the target rate. The true rate is positive however slow
/// the iteration, so the estimate is floored at one thousandth, the
/// smallest rate this fixed point can carry.
pub open spec fn spec_rate_milli(elapsed_ns: u64) -> u32 {
    let denom = if elapsed_ns < 1000000 {
        1000000int
    } else {
        elapsed_ns as int
    };
    vstd::math::min(
        TARGET_RATE_MILLI as int,
        vstd::math::max(1int, 1000000000000int / denom),
    ) as u32
}

/// Usage fraction for one iteration, in thousandths: elapsed time over
/// the 50 ms period, capped at one.
pub open spec fn spec_usage_milli(elapsed_ns: u64) -> u32 {
    vstd::math::min(1000int, elapsed_ns as int / 50000int) as u32
}

/// Where the next tick boundary lands: one period later, or, when the
/// loop has fallen more than a second behind, resynchronized to the
/// iteration's own start so the scheduler never fires a catch-up burst.
pub open spec fn spec_next_deadline(next_tick_ms: int, tick_start_ms: int) -> int {
    if next_tick_ms - tick_start_ms < -1000 {
        tick_start_ms
    } else if next_tick_ms + TICK_PERIOD_MS <= i64::MAX {
        next_tick_ms + TICK_PERIOD_MS
    } else {
        i64::MAX as int
    }
}

/// How long the loop should sleep until the deadline, in microseconds:
/// nothing when the deadline is not comfortably ahead of now, else the
/// gap less a millisecond of slack.
pub open spec fn spec_sleep_micros(next_tick_ms: int, current_us: int) -> Option<u64> {
    let next_us = next_tick_ms * 1000;
    if next_us - 100 > current_us {
        let allocated = next_us - current_us - 1000;
        if allocated > 0 {
            if allocated > u64::MAX {
                Some(u64::MAX)
            } else {
                Some(allocated as u64)
            }
        } else {
            None
        }
    } else {
        None
    }
}

/// The achieved-rate estimate for one iteration.
pub fn rate_milli(elapsed_ns: u64) -> (r: u32)
    ensures
        r == spec_rate_milli(elapsed_ns),
        1 <= r <= TARGET_RATE_MILLI,
{
    let denom: u64 = if elapsed_ns < 1000000 {
        1000000
    } else {
        elapsed_ns
    };
    let raw: u64 = 1000000000000u64 / denom;
    if raw > TARGET_RATE_MILLI as u64 {
        TARGET_RATE_MILLI
    } else if raw == 0 {
        1
    } else {
        raw as u32
    }
}

/// The usage fraction for one iteration.
pub fn usage_milli(elapsed_ns: u64) -> (r: u32)
    ensures
        r == spec_usage_milli(elapsed_ns),
        r <= 1000,
{
    let raw: u64 = elapsed_ns / 50000;
    if raw > 1000 {
        1000
    } else {
        raw as u32
    }
}

/// How long the loop should sleep until the deadline, in microseconds.
pub fn sleep_micros(next_tick_ms: i64, current_us: i64) -> (r: Option<u64>)
    ensures
        r == spec_sleep_micros(next_tick_ms as int, current_us as int),
{
    let next_us: i128 = next_tick_ms as i128 * 1000;
    if next_us - 100 > current_us as i128 {
        let allocated: i128 = next_us - current_us as i128 - 1000;
        if allocated > 0 {
            if allocated > u64::MAX as i128 {
                Some(u64::MAX)
            } else {
                Some(allocated as u64)
            }
        } else {
            None
        }
    } else {
        None
    }
}

/// What one booked iteration leaves behind, for the given clock
/// readings: the minimum rate and maximum usage fold in the iteration's
/// samples, both rolling windows take them, and the deadline moves as
/// [`spec_next_deadline`] says.
pub open spec fn booked_at(pre: Server, post: Server, tick_start_ms: i64, elapsed_ns: u64) -> bool {
    &&& post.tick_min_milli == vstd::math::min(
        pre.tick_min_milli as int,
        spec_rate_milli(elapsed_ns) as int,
    )
    &&& post.usage_max_milli == vstd::math::max(
        pre.usage_max_milli as int,
        spec_usage_milli(elapsed_ns) as int,
    )
    &&& post.next_tick_ms == spec_next_deadline(pre.next_tick_ms as int, tick_start_ms as int)
    &&& post.tick_avg.window() == RollingAverage::spec_pushed(
        pre.tick_avg.window(),
        spec_rate_milli(elapsed_ns),
        DIAGNOSTIC_WINDOW as int,
    )
    &&& post.usage_avg.window() == RollingAverage::spec_pushed(
        pre.usage_avg.window(),
        spec_usage_milli(elapsed_ns),
        DIAGNOSTIC_WINDOW as int,
    )
}

/// An iteration was booked for some start time and elapsed span: whatever
/// the clocks read, the scheduler recorded exactly one pair of samples
/// and moved the deadline for it.
pub open spec fn booked_iteration(pre: Server, post: Server) -> bool {
    exists|tick_start_ms: i64, elapsed_ns: u64| booked_at(pre, post, tick_start_ms, elapsed_ns)
}

/// The server's scheduler state: the tick counter, the next tick
/// boundary, and the rolling diagnostics, owned by the scheduler alone.
pub struct Server {
    /// Whether the loop should keep running.
    pub is_running: bool,
    /// Iterations completed; strictly increases by one per tick.
    pub tick: i64,
    /// Wall-clock time of the next tick boundary, milliseconds since the
    /// Unix epoch.
    pub next_tick_ms: i64,
    /// Lowest achieved rate seen so far, thousandths; never increases.
    pub tick_min_milli: u32,
    /// Highest usage seen so far, thousandths; never decreases.
    pub usage_max_milli: u32,
    /// Rolling mean of the achieved rate.
    pub tick_avg: RollingAverage,
    /// Rolling mean of the usage fraction.
    pub usage_avg: RollingAverage,
}

impl Server {
    /// The rolling windows stay sound and sized to the diagnostic window.
    pub open spec fn wf(&self) -> bool {
        &&& self.tick_avg.wf()
        &&& self.usage_avg.wf()
        &&& self.tick_avg.capacity() == DIAGNOSTIC_WINDOW
        &&& self.usage_avg.capacity() == DIAGNOSTIC_WINDOW
    }

    /// A scheduler that has not ticked yet, with its first deadline at
    /// the given current time.
    pub fn new(now_ms: i64) -> (s: Server)
        ensures
            s.wf(),
            s.is_running,
            s.tick == 0,
            s.next_tick_ms == now_ms,
            s.tick_min_milli == TARGET_RATE_MILLI,
            s.usage_max_milli == 0,
            s.tick_avg.window() == Seq::<u32>::empty(),
            s.usage_avg.window() == Seq::<u32>::empty(),
    {
        Server {
            is_running: true,
            tick: 0,
            next_tick_ms: now_ms,
            tick_min_milli: TARGET_RATE_MILLI,
            usage_max_milli: 0,
            tick_avg: RollingAverage::new(DIAGNOSTIC_WINDOW),
            usage_avg: RollingAverage::new(DIAGNOSTIC_WINDOW),
        }
    }

    /// Book one finished iteration: the tick counter advances by exactly
    /// one, the running minimum rate never increases, the running maximum
    /// usage never decreases, the rolling windows take the new samples,
    /// and the deadline advances one period or resynchronizes after a
    /// stall of more than a second.
    pub fn tick_update(&mut self, tick_start_ms: i64, elapsed_ns: u64)
        requires
            old(self).wf(),
            old(self).tick < i64::MAX,
        ensures
            final(self).wf(),
            final(self).tick == old(self).tick + 1,
            final(self).tick_min_milli == vstd::math::min(
                old(self).tick_min_milli as int,
                spec_rate_milli(elapsed_ns) as int,
            ),
            final(self).tick_min_milli <= old(self).tick_min_milli,
            final(self).usage_max_milli == vstd::math::max(
                old(self).usage_max_milli as int,
                spec_usage_milli(elapsed_ns) as int,
            ),
            final(self).usage_max_milli >= old(self).usage_max_milli,
            final(self).next_tick_ms == spec_next_deadline(
                old(self).next_tick_ms as int,
                tick_start_ms as int,
            ),
            final(self).tick_avg.window() == RollingAverage::spec_pushed(
                old(self).tick_avg.window(),
                spec_rate_milli(elapsed_ns),
                DIAGNOSTIC_WINDOW as int,
            ),
            final(self).usage_avg.window() == RollingAverage::spec_pushed(
                old(self).usage_avg.window(),
                spec_usage_milli(elapsed_ns),
                DIAGNOSTIC_WINDOW as int,
            ),
            final(self).is_running == old(self).is_running,
    {
        self.tick = self.tick + 1;

        let rate = rate_milli(elapsed_ns);
        let usage = usage_milli(elapsed_ns);

        if self.usage_max_milli < usage {
            self.usage_max_milli = usage;
        }
        if self.tick_min_milli > rate {
            self.tick_min_milli = rate;
        }

        self.tick_avg.add(rate);
        self.usage_avg.add(usage);

        if (self.next_tick_ms as i128) - (tick_start_ms as i128) < -1000 {
            self.next_tick_ms = tick_start_ms;
        } else if self.next_tick_ms <= i64::MAX - TICK_PERIOD_MS {
            self.next_tick_ms = self.next_tick_ms + TICK_PERIOD_MS;
        } else {
            self.next_tick_ms = i64::MAX;
        }
    }

    /// Rolling mean of the achieved rate, thousandths.
    pub fn tick_avg_milli(&self) -> (r: u64)
        requires
            self.wf(),
        ensures
            self.tick_avg.window().len() == 0 ==> r == 0,
            self.tick_avg.window().len() > 0 ==> r == seq_sum(self.tick_avg.window())
                / self.tick_avg.window().len() as int,
    {
        self.tick_avg.get_avg()
    }

    /// Rolling mean of the usage fraction, thousandths.
    pub fn usage_avg_milli(&self) -> (r: u64)
        requires
            self.wf(),
        ensures
            self.usage_avg.window().len() == 0 ==> r == 0,
            self.usage_avg.window().len() > 0 ==> r == seq_sum(self.usage_avg.window())
                / self.usage_avg.window().len() as int,
    {
        self.usage_avg.get_avg()
    }

    /// One scheduler iteration: read the clock around the simulation
    /// step, then book the iteration. Whatever the clock returns, the
    /// tick counter advances by one and the iteration is booked for some
    /// start time and elapsed span: the minimum rate folds in the
    /// iteration's rate sample (so it never increases), the maximum usage
    /// folds in its usage sample (so it never decreases), each rolling
    /// window takes exactly one sample, and the deadline advances one
    /// period or resynchronizes after a stall.
    pub fn tick(&mut self)
        requires
            old(self).wf(),
            old(self).tick < i64::MAX,
        ensures
            final(self).wf(),
            final(self).tick == old(self).tick + 1,
            booked_iteration(*old(self), *final(self)),
            final(self).tick_min_milli <= old(self).tick_min_milli,
            final(self).usage_max_milli >= old(self).usage_max_milli,
            final(self).is_running == old(self).is_running,
    {
        let tick_start = now_timestamp_millis();
        let started = instant_now();

        // The simulation callback runs here; its work is the caller's
        // collaborators'. This scheduler measures whatever time it took.
        let elapsed_wide = elapsed_nanos(&started);
        let elapsed: u64 = if elapsed_wide > u64::MAX as u128 {
            u64::MAX
        } else {
            elapsed_wide as u64
        };

        self.tick_update(tick_start, elapsed);
        proof {
            assert(booked_at(*old(self), *self, tick_start, elapsed));
        }
    }
}

impl Default for Server {
    /// A scheduler that has not ticked yet, with its first deadline at
    /// the wall clock's current time.
    fn default() -> (s: Server)
        ensures
            s.wf(),
            s.is_running,
            s.tick == 0,
            s.tick_min_milli == TARGET_RATE_MILLI,
            s.usage_max_milli == 0,
            s.tick_avg.window() == Seq::<u32>::empty(),
            s.usage_avg.window() == Seq::<u32>::empty(),
    {
        Server::new(now_timestamp_millis())
    }
}

#[verifier::external_type_specification]
#[verifier::external_body]
pub struct ExInstant(tokio::time::Instant);

/// Relies on std::time::SystemTime::now and
/// std::time::SystemTime::duration_since: the wall-clock time as
/// milliseconds since the Unix epoch, negative for a clock set before it
/// and saturating at the 64-bit range, so the read is total. Nothing can
/// be promised of a clock reading.
#[verifier::external_body]
fn now_timestamp_millis() -> i64 {
    let now = std::time::SystemTime::now();
    let millis: i128 = match now.duration_since(std::time::UNIX_EPOCH) {
        Ok(d) => d.as_millis() as i128,
        Err(e) => -(e.duration().as_millis() as i128),
    };
    if millis > i64::MAX as i128 {
        i64::MAX
    } else if millis < i64::MIN as i128 {
        i64::MIN
    } else {
        millis as i64
    }
}

/// Relies on tokio::time::Instant::now: an opaque monotonic time point.
#[verifier::external_body]
fn instant_now() -> tokio::time::Instant {
    tokio::time::Instant::now()
}

/// Relies on tokio::time::Instant::elapsed and
/// core::time::Duration::as_nanos: the nanoseconds since the time point
/// was taken. Nothing can be promised of a clock reading.
#[verifier::external_body]
fn elapsed_nanos(start: &tokio::time::Instant) -> u128 {
    start.elapsed().as_nanos()
}

} // verus!
