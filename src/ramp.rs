//! Time-weighted ramp of the amplification parameter.
use vstd::arithmetic::div_mod::{lemma_div_is_ordered, lemma_div_by_multiple};
use vstd::arithmetic::mul::lemma_mul_inequality;
use vstd::prelude::*;

use crate::widen;

verus! {

/// The amplification in force at `now` on the ramp from `a0` at time `t0`
/// to `a1` at time `t1`, or `None` where a step of the computation fails
/// (`now` before `t0`, or a product that leaves `u64`).
pub open spec fn ramp_value(a0: u64, t0: u64, a1: u64, t1: u64, now: u64) -> Option<int> {
    if now >= t1 {
        Some(a1 as int)
    } else if now < t0 {
        None
    } else if a1 > a0 {
        let step = (a1 - a0) * (now - t0);
        if step > u64::MAX {
            None
        } else {
            Some(a0 + step / (t1 - t0))
        }
    } else {
        let step = (a0 - a1) * (now - t0);
        if step > u64::MAX {
            None
        } else {
            Some(a0 - step / (t1 - t0))
        }
    }
}

/// Linear interpolation of the amplification between two checkpoints.
/// The clock reading `now` is supplied by the caller.
pub fn get_a(a0: u64, t0: u64, a1: u64, t1: u64, now: u64) -> (r: Option<u64>)
    ensures
        widen(r) == ramp_value(a0, t0, a1, t1, now),
        now >= t1 ==> r == Some(a1),
{
    if now < t1 {
        let time_diff: u64 = match now.checked_sub(t0) {
            Some(v) => v,
            None => return None,
        };
        let time_diff_div: u64 = t1 - t0;
        if a1 > a0 {
            let diff: u64 = a1 - a0;
            let step: u64 = match diff.checked_mul(time_diff) {
                Some(v) => v,
                None => return None,
            };
            let amount: u64 = step / time_diff_div;
            proof {
                lemma_step_bounded(diff as int, time_diff as int, time_diff_div as int);
            }
            Some(a0 + amount)
        } else {
            let diff: u64 = a0 - a1;
            let step: u64 = match diff.checked_mul(time_diff) {
                Some(v) => v,
                None => return None,
            };
            let amount: u64 = step / time_diff_div;
            proof {
                lemma_step_bounded(diff as int, time_diff as int, time_diff_div as int);
            }
            Some(a0 - amount)
        }
    } else {
        Some(a1)
    }
}

/// The ramp moves toward its target as time passes: between two readings
/// `n1 <= n2` taken from `t0` on, a rising ramp does not go down and a
/// falling ramp does not go up, whether or not `t1` lies between them.
pub proof fn lemma_ramp_monotonic(a0: u64, t0: u64, a1: u64, t1: u64, n1: u64, n2: u64)
    requires
        t0 <= n1 <= n2,
        ramp_value(a0, t0, a1, t1, n1) is Some,
        ramp_value(a0, t0, a1, t1, n2) is Some,
    ensures
        a1 >= a0 ==> ramp_value(a0, t0, a1, t1, n1)->0 <= ramp_value(a0, t0, a1, t1, n2)->0,
        a1 <= a0 ==> ramp_value(a0, t0, a1, t1, n1)->0 >= ramp_value(a0, t0, a1, t1, n2)->0,
{
    if n1 < t1 {
        let span = t1 - t0;
        let diff: int = if a1 > a0 { a1 - a0 } else { a0 - a1 };
        lemma_step_bounded(diff, n1 - t0, span);
        if n2 < t1 {
            lemma_mul_inequality(n1 - t0, n2 - t0, diff);
            assert((n1 - t0) * diff == diff * (n1 - t0)) by (nonlinear_arith);
            assert((n2 - t0) * diff == diff * (n2 - t0)) by (nonlinear_arith);
            lemma_div_is_ordered(diff * (n1 - t0), diff * (n2 - t0), span);
        }
    }
}

/// The ramp is complete from `t1` on: the amplification is the target `a1`.
pub proof fn lemma_ramp_complete(a0: u64, t0: u64, a1: u64, t1: u64, now: u64)
    requires
        now >= t1,
    ensures
        ramp_value(a0, t0, a1, t1, now) == Some(a1 as int),
{
}

/// A fraction `elapsed / span` of `diff` is at most `diff` while `elapsed <= span`.
proof fn lemma_step_bounded(diff: int, elapsed: int, span: int)
    requires
        0 <= diff,
        0 <= elapsed <= span,
        0 < span,
    ensures
        diff * elapsed / span <= diff,
{
    lemma_mul_inequality(elapsed, span, diff);
    assert(elapsed * diff == diff * elapsed) by (nonlinear_arith);
    assert(span * diff == diff * span) by (nonlinear_arith);
    lemma_div_is_ordered(diff * elapsed, diff * span, span);
    lemma_div_by_multiple(diff, span);
}

} // verus!
