//! Linear interpolation in exact integer arithmetic.

use vstd::prelude::*;

verus! {

/// Largest magnitude of an end point that `lerp` takes.
pub const END_LIMIT: i64 = 1_048_576;

/// Largest scale that `lerp` takes.
pub const SCALE_LIMIT: i64 = 1_099_511_627_776;

/// The point the fraction `t / scale` of the way from `a` to `b`, that is
/// `a + (b - a) * t / scale`, as a numerator over `scale`.
pub open spec fn lerp_num(a: int, b: int, t: int, scale: int) -> int {
    a * scale + (b - a) * t
}

/// A point between two end points lies between them: for a fraction in
/// [0, 1] the interpolation is a convex combination.
pub proof fn lemma_lerp_between(a: int, b: int, t: int, scale: int)
    requires
        0 <= t <= scale,
    ensures
        a <= b ==> a * scale <= lerp_num(a, b, t, scale) <= b * scale,
        b <= a ==> b * scale <= lerp_num(a, b, t, scale) <= a * scale,
        lerp_num(a, b, 0, scale) == a * scale,
        lerp_num(a, b, scale, scale) == b * scale,
{
    assert(a <= b ==> 0 <= (b - a) * t <= (b - a) * scale) by (nonlinear_arith)
        requires
            0 <= t <= scale,
    ;
    assert(b <= a ==> (b - a) * scale <= (b - a) * t <= 0) by (nonlinear_arith)
        requires
            0 <= t <= scale,
    ;
    assert(a * scale + (b - a) * scale == b * scale) by (nonlinear_arith);
    assert((b - a) * 0 == 0);
}

/// Interpolates from `a` to `b` by the fraction `t / scale`.  The result is
/// exact: it is the numerator of the interpolated point over `scale`.
pub fn lerp(a: i64, b: i64, t: i64, scale: i64) -> (r: i64)
    requires
        -END_LIMIT <= a <= END_LIMIT,
        -END_LIMIT <= b <= END_LIMIT,
        0 <= t <= scale <= SCALE_LIMIT,
    ensures
        r == lerp_num(a as int, b as int, t as int, scale as int),
        a <= b ==> a * scale <= r <= b * scale,
        b <= a ==> b * scale <= r <= a * scale,
{
    proof {
        lemma_lerp_between(a as int, b as int, t as int, scale as int);
        assert(-END_LIMIT * SCALE_LIMIT <= a * scale <= END_LIMIT * SCALE_LIMIT)
            by (nonlinear_arith)
            requires
                -END_LIMIT <= a <= END_LIMIT,
                0 <= scale <= SCALE_LIMIT,
        ;
        assert(-END_LIMIT * SCALE_LIMIT <= b * scale <= END_LIMIT * SCALE_LIMIT)
            by (nonlinear_arith)
            requires
                -END_LIMIT <= b <= END_LIMIT,
                0 <= scale <= SCALE_LIMIT,
        ;
        assert(-2 * END_LIMIT * SCALE_LIMIT <= (b - a) * t <= 2 * END_LIMIT * SCALE_LIMIT)
            by (nonlinear_arith)
            requires
                -2 * END_LIMIT <= b - a <= 2 * END_LIMIT,
                0 <= t <= SCALE_LIMIT,
        ;
    }
    a * scale + (b - a) * t
}

} // verus!
