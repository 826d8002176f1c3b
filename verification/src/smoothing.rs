//! Exponential moving-average smoothing of a displayed quantity.
//!
//! A `SmoothedValue` carries the value currently shown and the value it is
//! converging to.  Each frame tick advances the shown value toward the target
//! by the fraction `1 - d^dt`, where `d` is a fixed per-millisecond decay
//! factor; everything is computed in 16-bit fixed point, so the update is
//! exact integer arithmetic.

use vstd::arithmetic::div_mod::{
    lemma_div_is_ordered,
    lemma_div_multiples_vanish,
    lemma_div_pos_is_pos,
};
use vstd::prelude::*;

verus! {

/// Fixed-point unit: a factor of 1.0 is represented as 65536.
pub const FP_ONE: u64 = 65536;

/// Per-millisecond decay of the remaining distance to the target, in fixed
/// point.  65014 / 65536 approximates the decay of an exponential smoother
/// with rate constant 8 per second over one millisecond.
pub const DECAY_PER_MS: u64 = 65014;

/// Remaining fraction of the distance to the target after `dt_ms`
/// milliseconds: `DECAY_PER_MS^dt_ms`, truncated at each fixed-point step.
pub open spec fn decay_fp(dt_ms: nat) -> int
    decreases dt_ms,
{
    if dt_ms == 0 {
        FP_ONE as int
    } else {
        decay_fp((dt_ms - 1) as nat) * (DECAY_PER_MS as int) / (FP_ONE as int)
    }
}

/// Scaling a nonnegative quantity by a fixed-point factor of at most one
/// shrinks it, and keeps it nonnegative.
proof fn lemma_fp_scale(x: int, a: int)
    requires
        0 <= x,
        0 <= a <= FP_ONE as int,
    ensures
        0 <= x * a / (FP_ONE as int) <= x,
{
    assert(x * a <= x * (FP_ONE as int) && 0 <= x * a) by (nonlinear_arith)
        requires 0 <= x, 0 <= a <= FP_ONE as int;
    lemma_div_pos_is_pos(x * a, FP_ONE as int);
    lemma_div_is_ordered(x * a, x * (FP_ONE as int), FP_ONE as int);
    lemma_div_multiples_vanish(x, FP_ONE as int);
}

/// The decay factor stays between zero and one, and is strictly below one as
/// soon as any time has passed.
pub proof fn lemma_decay_fp_bounds(dt_ms: nat)
    ensures
        0 <= decay_fp(dt_ms) <= FP_ONE as int,
        dt_ms > 0 ==> decay_fp(dt_ms) <= DECAY_PER_MS as int,
    decreases dt_ms,
{
    if dt_ms > 0 {
        lemma_decay_fp_bounds((dt_ms - 1) as nat);
        let prev = decay_fp((dt_ms - 1) as nat);
        assert(prev * (DECAY_PER_MS as int) <= (FP_ONE as int) * (DECAY_PER_MS as int)
            && 0 <= prev * (DECAY_PER_MS as int)) by (nonlinear_arith)
            requires 0 <= prev <= FP_ONE as int;
        lemma_div_pos_is_pos(prev * (DECAY_PER_MS as int), FP_ONE as int);
        lemma_div_is_ordered(
            prev * (DECAY_PER_MS as int),
            (FP_ONE as int) * (DECAY_PER_MS as int),
            FP_ONE as int,
        );
        lemma_div_multiples_vanish(DECAY_PER_MS as int, FP_ONE as int);
    }
}

/// One smoothing step: move `cur` toward `tgt` by the fraction
/// `1 - decay_fp(dt_ms)`, never past the target, and by at least one unit
/// whenever time passed and the two differ.
pub open spec fn smoothed_step(cur: u64, tgt: u64, dt_ms: nat) -> int {
    let alpha = FP_ONE as int - decay_fp(dt_ms);
    if cur <= tgt {
        let step = (tgt - cur) * alpha / (FP_ONE as int);
        if step == 0 && alpha > 0 && cur != tgt {
            cur + 1
        } else {
            cur + step
        }
    } else {
        let step = (cur - tgt) * alpha / (FP_ONE as int);
        if step == 0 && alpha > 0 {
            cur - 1
        } else {
            cur - step
        }
    }
}

/// A scalar display quantity that glides toward the value it was last set to.
///
/// The scale of `current` and `target` is the caller's choice; the smoother
/// only ever moves `current` between its old value and `target`.
#[derive(Clone, Copy)]
pub struct SmoothedValue {
    /// The value currently displayed.
    pub current: u64,
    /// The value `current` converges to.
    pub target: u64,
}

impl SmoothedValue {
    /// A smoother at rest at `value`.
    pub fn new(value: u64) -> (r: SmoothedValue)
        ensures
            r.current == value,
            r.target == value,
    {
        SmoothedValue { current: value, target: value }
    }

    /// Store a new target; the displayed value is untouched.
    pub fn set_target(&mut self, value: u64)
        ensures
            final(self).target == value,
            final(self).current == old(self).current,
    {
        self.target = value;
    }

    /// Advance the displayed value toward the target for `dt_ms` elapsed
    /// milliseconds.  A zero interval leaves it unchanged; otherwise it moves
    /// strictly closer without ever overshooting.
    pub fn update(&mut self, dt_ms: u64)
        ensures
            final(self).target == old(self).target,
            final(self).current == smoothed_step(old(self).current, old(self).target, dt_ms as nat),
    {
        let alpha = FP_ONE - decay_total(dt_ms);
        if self.current <= self.target {
            let diff = self.target - self.current;
            proof {
                lemma_fp_scale(diff as int, alpha as int);
            }
            let step: u64 = ((diff as u128) * (alpha as u128) / (FP_ONE as u128)) as u64;
            if step == 0 && alpha > 0 && diff != 0 {
                self.current = self.current + 1;
            } else {
                self.current = self.current + step;
            }
        } else {
            let diff = self.current - self.target;
            proof {
                lemma_fp_scale(diff as int, alpha as int);
            }
            let step: u64 = ((diff as u128) * (alpha as u128) / (FP_ONE as u128)) as u64;
            if step == 0 && alpha > 0 {
                self.current = self.current - 1;
            } else {
                self.current = self.current - step;
            }
        }
    }
}

/// Compute `decay_fp(dt_ms)` by repeated fixed-point multiplication.
fn decay_total(dt_ms: u64) -> (d: u64)
    ensures
        d == decay_fp(dt_ms as nat),
        d <= FP_ONE,
{
    let mut d: u64 = FP_ONE;
    let mut i: u64 = 0;
    while i < dt_ms
        invariant
            i <= dt_ms,
            d == decay_fp(i as nat),
            d <= FP_ONE,
        decreases dt_ms - i,
    {
        proof {
            lemma_fp_scale(DECAY_PER_MS as int, d as int);
            assert(d * DECAY_PER_MS == (DECAY_PER_MS as int) * (d as int)) by (nonlinear_arith);
        }
        d = d * DECAY_PER_MS / FP_ONE;
        i = i + 1;
    }
    d
}

/// Distance between two values on the common display scale.
pub open spec fn dist(a: int, b: int) -> int {
    if a <= b {
        b - a
    } else {
        a - b
    }
}

/// Law: for any elapsed time the updated value lies between the old value and
/// the target (no overshoot), is unchanged when no time passed, and is
/// strictly closer to the target when time passed and the two differed.
pub proof fn lemma_smoothed_step_approach(cur: u64, tgt: u64, dt_ms: nat)
    ensures
        cur <= tgt ==> cur <= smoothed_step(cur, tgt, dt_ms) <= tgt,
        tgt <= cur ==> tgt <= smoothed_step(cur, tgt, dt_ms) <= cur,
        dt_ms == 0 ==> smoothed_step(cur, tgt, dt_ms) == cur,
        dt_ms > 0 && cur != tgt ==> dist(smoothed_step(cur, tgt, dt_ms), tgt as int) < dist(
            cur as int,
            tgt as int,
        ),
{
    lemma_decay_fp_bounds(dt_ms);
    let alpha = FP_ONE as int - decay_fp(dt_ms);
    if cur <= tgt {
        lemma_fp_scale(tgt - cur, alpha);
    } else {
        lemma_fp_scale(cur - tgt, alpha);
    }
    if dt_ms == 0 {
        assert(alpha == 0);
        assert((tgt - cur) * 0 == 0) by (nonlinear_arith);
        assert((cur - tgt) * 0 == 0) by (nonlinear_arith);
    }
}

} // verus!
