//! Fixed-cadence scheduling for the polling loop.
//!
//! Each recurring duty carries its own cadence state — an explicit struct
//! owned by the poll loop, not a hidden global — and fires when its period
//! has elapsed on the loop's monotonic clock.

use vstd::prelude::*;

verus! {

/// One recurring duty's cadence: its period and when it last fired.
pub struct Cadence {
    /// The period between firings, in milliseconds.
    pub period_ms: u64,
    /// When the duty last fired; empty before the first firing.
    pub last_ms: Option<u64>,
}

impl Cadence {
    /// A cadence that has never fired and so is due immediately.
    pub fn new(period_ms: u64) -> (r: Cadence)
        ensures
            r.period_ms == period_ms,
            r.last_ms is None,
    {
        Cadence { period_ms, last_ms: Option::None }
    }

    /// Is the duty due at `now_ms`?  A due cadence records the firing; one
    /// that is not due — including a clock that went backwards — is left
    /// alone.
    pub fn due(&mut self, now_ms: u64) -> (r: bool)
        ensures
            final(self).period_ms == old(self).period_ms,
            match old(self).last_ms {
                Option::None => r && final(self).last_ms == Option::Some(now_ms),
                Option::Some(last) => {
                    if now_ms >= last && now_ms - last >= old(self).period_ms {
                        r && final(self).last_ms == Option::Some(now_ms)
                    } else {
                        !r && final(self).last_ms == old(self).last_ms
                    }
                },
            },
    {
        match self.last_ms {
            Option::None => {
                self.last_ms = Option::Some(now_ms);
                true
            },
            Option::Some(last) => {
                if now_ms >= last && now_ms - last >= self.period_ms {
                    self.last_ms = Option::Some(now_ms);
                    true
                } else {
                    false
                }
            },
        }
    }
}

/// The poll loop's three cadences: telemetry each second, network counters
/// every tenth of a second, installation detection every two seconds.
pub struct Scheduler {
    /// CPU, memory, disk and GPU refresh.
    pub telemetry: Cadence,
    /// Network counter refresh.
    pub network: Cadence,
    /// Installation detection.
    pub detection: Cadence,
}

impl Scheduler {
    /// A scheduler with every duty due immediately.
    pub fn new() -> (r: Scheduler)
        ensures
            r.telemetry.period_ms == 1000 && r.telemetry.last_ms is None,
            r.network.period_ms == 100 && r.network.last_ms is None,
            r.detection.period_ms == 2000 && r.detection.last_ms is None,
    {
        Scheduler {
            telemetry: Cadence::new(1000),
            network: Cadence::new(100),
            detection: Cadence::new(2000),
        }
    }
}

} // verus!
