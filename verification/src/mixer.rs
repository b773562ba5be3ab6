//! The drive mixer: from steering error, momentum and base speed to a pair of
//! wheel speeds.

use vstd::prelude::*;
use crate::lerp::{lerp, lerp_num, lemma_lerp_between};
use crate::momentum::{Momentum, FULL};
use crate::sensor::SteeringError;

verus! {

/// Base speed of the first, exploring lap, in thousandths of full power.
pub const SCOUT_SPEED: u16 = 300;

/// Base speed of the second lap, in thousandths of full power.
pub const FAST_SPEED: u16 = 350;

/// A wheel speed of one thousandth of full power, in the unit in which
/// `WheelCommand` counts.  A base speed of `s` thousandths is `s * UNIT`.
pub const UNIT: i64 = 8_000_000_000_000;

/// The square of `FULL`: the scale of a squared momentum.
pub const FULL_SQUARED: i64 = 1_000_000_000_000;

/// Speeds for the left and the right wheel, each in units of `1 / UNIT` of a
/// thousandth of full power.  Negative is backwards.
#[derive(Clone, Copy, Debug, PartialEq, Eq, Structural)]
pub struct WheelCommand {
    pub left: i64,
    pub right: i64,
}

/// The share of the base speed that goes to the left wheel before
/// sharpening, in eighths: with `n = (e + 1) / 2` for the error `e`, of `q`
/// quarters, it is `n * speed`.
pub open spec fn baseline_left(q: int, speed: int) -> int {
    (q + 4) * speed
}

/// The share that goes to the right wheel before sharpening, in eighths:
/// `(1 - n) * speed`.
pub open spec fn baseline_right(q: int, speed: int) -> int {
    (4 - q) * speed
}

/// Where the left wheel ends up in a full pivot, in eighths: for a line to
/// the left it is the inner wheel and runs backwards at the base speed; for a
/// line to the right it is the outer wheel and runs forwards at it.
pub open spec fn pivot_left(q: int, speed: int) -> int {
    if q < 0 {
        -8 * speed
    } else {
        8 * speed
    }
}

/// Where the right wheel ends up in a full pivot, in eighths: the opposite
/// of the left wheel.
pub open spec fn pivot_right(q: int, speed: int) -> int {
    -pivot_left(q, speed)
}

/// The left wheel's speed for an error of `q` quarters, a momentum of `m`
/// millionths and a base speed of `speed` thousandths.  On the line it is the
/// baseline.  Off it, the baseline is blended towards the pivot by the square
/// of the momentum.
pub open spec fn mixed_left(q: int, m: int, speed: int) -> int {
    if q == 0 {
        baseline_left(q, speed) * FULL_SQUARED
    } else {
        lerp_num(baseline_left(q, speed), pivot_left(q, speed), m * m, FULL_SQUARED as int)
    }
}

/// The right wheel's speed, as `mixed_left` gives the left one.
pub open spec fn mixed_right(q: int, m: int, speed: int) -> int {
    if q == 0 {
        baseline_right(q, speed) * FULL_SQUARED
    } else {
        lerp_num(baseline_right(q, speed), pivot_right(q, speed), m * m, FULL_SQUARED as int)
    }
}

/// The drive mixer.  Both speeds lie between the base speed backwards and the
/// base speed forwards.
pub fn mix(error: SteeringError, momentum: Momentum, speed: u16) -> (command: WheelCommand)
    ensures
        command.left == mixed_left(error@, momentum@, speed as int),
        command.right == mixed_right(error@, momentum@, speed as int),
        -speed * UNIT <= command.left <= speed * UNIT,
        -speed * UNIT <= command.right <= speed * UNIT,
{
    let q: i64 = error.quarters() as i64;
    let m: i64 = momentum.millionths() as i64;
    let s: i64 = speed as i64;
    proof {
        lemma_mixed_in_range(q as int, m as int, s as int);
    }
    let base_left: i64 = (q + 4) * s;
    let base_right: i64 = (4 - q) * s;
    if q == 0 {
        return WheelCommand { left: base_left * FULL_SQUARED, right: base_right * FULL_SQUARED };
    }
    proof {
        lemma_square_in_range(m as int);
    }
    let applied: i64 = m * m;
    let target_left: i64 = if q < 0 {
        -8 * s
    } else {
        8 * s
    };
    let left: i64 = lerp(base_left, target_left, applied, FULL_SQUARED);
    let right: i64 = lerp(base_right, -target_left, applied, FULL_SQUARED);
    WheelCommand { left, right }
}

/// The square of a momentum is a fraction of `FULL_SQUARED`.
pub proof fn lemma_square_in_range(m: int)
    requires
        Momentum::admits(m),
    ensures
        0 <= m * m <= FULL_SQUARED,
{
    assert(0 <= m * m <= FULL * FULL) by (nonlinear_arith)
        requires
            0 <= m <= FULL,
    ;
}

/// No wheel is ever asked for more than the base speed, in either direction.
pub proof fn lemma_mixed_in_range(q: int, m: int, speed: int)
    requires
        SteeringError::admits(q),
        Momentum::admits(m),
        0 <= speed,
    ensures
        -speed * UNIT <= mixed_left(q, m, speed) <= speed * UNIT,
        -speed * UNIT <= mixed_right(q, m, speed) <= speed * UNIT,
        0 <= baseline_left(q, speed) <= 8 * speed,
        0 <= baseline_right(q, speed) <= 8 * speed,
{
    lemma_square_in_range(m);
    assert(0 <= (q + 4) * speed <= 8 * speed) by (nonlinear_arith)
        requires
            -4 <= q <= 4,
            0 <= speed,
    ;
    assert(0 <= (4 - q) * speed <= 8 * speed) by (nonlinear_arith)
        requires
            -4 <= q <= 4,
            0 <= speed,
    ;
    let scale = FULL_SQUARED as int;
    lemma_lerp_between(baseline_left(q, speed), pivot_left(q, speed), m * m, scale);
    lemma_lerp_between(baseline_right(q, speed), pivot_right(q, speed), m * m, scale);
    assert(speed * UNIT == (8 * speed) * scale) by (nonlinear_arith)
        requires
            scale == 1_000_000_000_000,
    ;
    assert(-speed * UNIT == (-8 * speed) * scale) by (nonlinear_arith)
        requires
            scale == 1_000_000_000_000,
    ;
    let bl = baseline_left(q, speed);
    let br = baseline_right(q, speed);
    assert((-8 * speed) * scale <= 0 <= bl * scale <= (8 * speed) * scale) by (nonlinear_arith)
        requires
            0 <= bl <= 8 * speed,
            scale > 0,
    ;
    assert((-8 * speed) * scale <= 0 <= br * scale <= (8 * speed) * scale) by (nonlinear_arith)
        requires
            0 <= br <= 8 * speed,
            scale > 0,
    ;
}

/// On the line both wheels get the same speed, half the base speed, whatever
/// the momentum.
pub proof fn lemma_centered_drives_straight(m: int, speed: int)
    ensures
        mixed_left(0, m, speed) == mixed_right(0, m, speed),
        2 * mixed_left(0, m, speed) == speed * UNIT,
{
    assert(2 * ((4 * speed) * FULL_SQUARED) == speed * UNIT) by (nonlinear_arith);
}

/// At the far left with full momentum the robot pivots: the left wheel runs
/// at exactly the base speed backwards, the right wheel at exactly the base
/// speed forwards.
pub proof fn lemma_full_left_pivots(speed: int)
    ensures
        mixed_left(-4, FULL as int, speed) == -speed * UNIT,
        mixed_right(-4, FULL as int, speed) == speed * UNIT,
{
    let scale = FULL_SQUARED as int;
    assert((FULL as int) * (FULL as int) == scale);
    lemma_lerp_between(baseline_left(-4, speed), pivot_left(-4, speed), scale, scale);
    lemma_lerp_between(baseline_right(-4, speed), pivot_right(-4, speed), scale, scale);
    assert((-8 * speed) * scale == -speed * UNIT) by (nonlinear_arith)
        requires
            scale == 1_000_000_000_000,
    ;
    assert((8 * speed) * scale == speed * UNIT) by (nonlinear_arith)
        requires
            scale == 1_000_000_000_000,
    ;
}

/// At the far right with full momentum the robot pivots the other way: the
/// left wheel runs at exactly the base speed forwards, the right wheel at
/// exactly the base speed backwards.
pub proof fn lemma_full_right_pivots(speed: int)
    ensures
        mixed_left(4, FULL as int, speed) == speed * UNIT,
        mixed_right(4, FULL as int, speed) == -speed * UNIT,
{
    let scale = FULL_SQUARED as int;
    assert((FULL as int) * (FULL as int) == scale);
    lemma_lerp_between(baseline_left(4, speed), pivot_left(4, speed), scale, scale);
    lemma_lerp_between(baseline_right(4, speed), pivot_right(4, speed), scale, scale);
    assert((-8 * speed) * scale == -speed * UNIT) by (nonlinear_arith)
        requires
            scale == 1_000_000_000_000,
    ;
    assert((8 * speed) * scale == speed * UNIT) by (nonlinear_arith)
        requires
            scale == 1_000_000_000_000,
    ;
}

/// Without momentum the wheels get the baseline: steering is proportional to
/// the error alone.
pub proof fn lemma_no_momentum_is_baseline(q: int, speed: int)
    ensures
        mixed_left(q, 0, speed) == baseline_left(q, speed) * FULL_SQUARED,
        mixed_right(q, 0, speed) == baseline_right(q, speed) * FULL_SQUARED,
{
    let scale = FULL_SQUARED as int;
    lemma_lerp_between(baseline_left(q, speed), pivot_left(q, speed), 0, scale);
    lemma_lerp_between(baseline_right(q, speed), pivot_right(q, speed), 0, scale);
}

} // verus!
