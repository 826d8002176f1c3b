//! Differential counters over monotonic cumulative readings.
//!
//! Network devices report cumulative byte counts.  A `DifferentialCounter`
//! turns successive readings into a per-second rate and a saturating running
//! total, treating a reading that went backwards as a counter reset whose
//! value is itself the increment.

use vstd::prelude::*;

verus! {

/// The increment between the previous reading and the new one: their
/// difference while the counter grows, the new reading itself after a reset.
pub open spec fn delta_of(last_reading: u64, reading: u64) -> int {
    if reading >= last_reading {
        reading - last_reading
    } else {
        reading as int
    }
}

/// Sum of two values, saturating at the largest representable total.
pub open spec fn saturated_total(total: u64, delta: int) -> int {
    if total + delta > u64::MAX {
        u64::MAX as int
    } else {
        total + delta
    }
}

/// Per-second rate of `delta` bytes over `elapsed_ms` milliseconds,
/// truncated, and capped at the largest representable rate.
pub open spec fn rate_of(delta: int, elapsed_ms: u64) -> int {
    let r = delta * 1000 / (elapsed_ms as int);
    if r > u64::MAX {
        u64::MAX as int
    } else {
        r
    }
}

/// How one `record` call relates a counter's state before and after it.
pub open spec fn counter_recorded(
    before: DifferentialCounter,
    after: DifferentialCounter,
    reading: u64,
    elapsed_ms: u64,
) -> bool {
    &&& after.last_reading == reading
    &&& (elapsed_ms == 0 ==> after.total == before.total && after.rate == before.rate)
    &&& (elapsed_ms > 0 ==> after.total == saturated_total(
        before.total,
        delta_of(before.last_reading, reading),
    ) && after.rate == rate_of(delta_of(before.last_reading, reading), elapsed_ms))
}

/// Converts a cumulative counter into a rate and a running total.
#[derive(Clone, Copy)]
pub struct DifferentialCounter {
    /// Sum of all increments seen so far, saturating.
    pub total: u64,
    /// The cumulative reading recorded by the last call.
    pub last_reading: u64,
    /// Increment per second measured by the last call, in the reading's unit.
    pub rate: u64,
}

impl DifferentialCounter {
    /// A counter seeded from its first cumulative reading: the seed reading
    /// becomes the starting total and no rate is attributed to it.
    pub fn seeded(reading: u64) -> (r: DifferentialCounter)
        ensures
            r.total == reading,
            r.last_reading == reading,
            r.rate == 0,
    {
        DifferentialCounter { total: reading, last_reading: reading, rate: 0 }
    }

    /// Record a new cumulative reading after `elapsed_ms` milliseconds.
    ///
    /// The reading is remembered unconditionally.  When no time has passed
    /// the rate and total are left alone (no division by zero, no infinite
    /// rate); otherwise the increment is added to the total, saturating, and
    /// the rate becomes the increment per second.
    pub fn record(&mut self, reading: u64, elapsed_ms: u64)
        ensures
            final(self).last_reading == reading,
            elapsed_ms == 0 ==> final(self).total == old(self).total && final(self).rate == old(
                self,
            ).rate,
            elapsed_ms > 0 ==> final(self).total == saturated_total(
                old(self).total,
                delta_of(old(self).last_reading, reading),
            ) && final(self).rate == rate_of(delta_of(old(self).last_reading, reading), elapsed_ms),
            counter_recorded(*old(self), *final(self), reading, elapsed_ms),
            final(self).total >= old(self).total,
    {
        if elapsed_ms > 0 {
            let delta = if reading >= self.last_reading {
                reading - self.last_reading
            } else {
                reading
            };
            let scaled: u128 = (delta as u128) * 1000 / (elapsed_ms as u128);
            self.rate = if scaled > u64::MAX as u128 {
                u64::MAX
            } else {
                scaled as u64
            };
            self.total = self.total.saturating_add(delta);
        }
        self.last_reading = reading;
    }
}

} // verus!
