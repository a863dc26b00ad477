//! Angles in radians as fixed-point scalars, with sine, cosine and arctangent
//! evaluated by short alternating series.

use vstd::prelude::*;
use crate::scalar::{Scalar, ONE, clamp, floor_div_mod, clamped, difference, lemma_ratio_unit, magnitude, product, ratio, sat_abs, sat_add, sat_div, sat_mul, sat_sub, sum};

verus! {

/// A quarter of pi.
pub const QUARTER_PI: Scalar = 3373259426;

/// Half of pi.
pub const HALF_PI: Scalar = 6746518852;

/// Pi.
pub const PI: Scalar = 13493037704;

/// A full turn.
pub const TWO_PI: Scalar = 26986075408;

/// The tangent of an eighth of pi.
pub const TAN_EIGHTH_PI: Scalar = 1779033704;

/// The angle in `[-PI, PI)` that differs from `a` by whole turns.
pub open spec fn wrapped_angle(a: int) -> Scalar {
    (((a + PI) % (TWO_PI as int)) - PI) as i64
}

/// One step of the nested form `1 - x² * inverse * rest`.
pub open spec fn series_step(x2: Scalar, inverse: Scalar, rest: Scalar) -> Scalar {
    difference(ONE, product(product(x2, inverse), rest))
}

/// `x - x³/3! + x⁵/5! - ... - x¹¹/11!`, in nested form.
#[verifier::opaque]
pub open spec fn sine_series(x: Scalar) -> Scalar {
    let x2 = product(x, x);
    product(
        x,
        series_step(
            x2,
            715827882,
            series_step(
                x2,
                214748364,
                series_step(x2, 102261126, series_step(x2, 59652323, series_step(x2, 39045157, ONE))),
            ),
        ),
    )
}

/// `1 - x²/2! + x⁴/4! - ... - x¹⁰/10!`, in nested form.
#[verifier::opaque]
pub open spec fn cosine_series(x: Scalar) -> Scalar {
    let x2 = product(x, x);
    series_step(
        x2,
        2147483648,
        series_step(
            x2,
            357913941,
            series_step(x2, 143165576, series_step(x2, 76695844, series_step(x2, 47721858, ONE))),
        ),
    )
}

/// The sine of an angle `r` of the first quadrant, `0 <= r < HALF_PI`. Past a
/// quarter of pi it is taken from the cosine of the complement, which keeps the
/// series argument small.
pub open spec fn quadrant_sine(r: Scalar) -> Scalar {
    clamped(
        if r > QUARTER_PI {
            cosine_series((HALF_PI - r) as i64)
        } else {
            sine_series(r)
        },
        0,
        ONE,
    )
}

/// The cosine of an angle `r` of the first quadrant.
pub open spec fn quadrant_cosine(r: Scalar) -> Scalar {
    clamped(
        if r > QUARTER_PI {
            sine_series((HALF_PI - r) as i64)
        } else {
            cosine_series(r)
        },
        0,
        ONE,
    )
}

/// The quadrant, 0 to 3, in which the angle `a` lies.
pub open spec fn quadrant(a: Scalar) -> int {
    ((a as int) % (TWO_PI as int)) / (HALF_PI as int)
}

/// How far the angle `a` reaches into its quadrant.
pub open spec fn quadrant_offset(a: Scalar) -> Scalar {
    (((a as int) % (TWO_PI as int)) % (HALF_PI as int)) as i64
}

/// The sine of `a`.
pub open spec fn sine(a: Scalar) -> Scalar {
    let r = quadrant_offset(a);
    let k = quadrant(a);
    if k == 0 {
        quadrant_sine(r)
    } else if k == 1 {
        quadrant_cosine(r)
    } else if k == 2 {
        (-quadrant_sine(r)) as i64
    } else {
        (-quadrant_cosine(r)) as i64
    }
}

/// The cosine of `a`.
pub open spec fn cosine(a: Scalar) -> Scalar {
    let r = quadrant_offset(a);
    let k = quadrant(a);
    if k == 0 {
        quadrant_cosine(r)
    } else if k == 1 {
        (-quadrant_sine(r)) as i64
    } else if k == 2 {
        (-quadrant_cosine(r)) as i64
    } else {
        quadrant_sine(r)
    }
}

/// One step of the nested form `coefficient - u² * rest`.
pub open spec fn arctangent_step(u2: Scalar, coefficient: Scalar, rest: Scalar) -> Scalar {
    difference(coefficient, product(u2, rest))
}

/// `u - u³/3 + u⁵/5 - ... + u¹⁷/17`, in nested form.
#[verifier::opaque]
pub open spec fn arctangent_series(u: Scalar) -> Scalar {
    let u2 = product(u, u);
    product(
        u,
        arctangent_step(
            u2,
            ONE,
            arctangent_step(
                u2,
                1431655765,
                arctangent_step(
                    u2,
                    858993459,
                    arctangent_step(
                        u2,
                        613566756,
                        arctangent_step(
                            u2,
                            477218588,
                            arctangent_step(
                                u2,
                                390451572,
                                arctangent_step(u2, 330382099, arctangent_step(u2, 286331153, 252645135)),
                            ),
                        ),
                    ),
                ),
            ),
        ),
    )
}

/// The arctangent of a slope `t` with `0 <= t <= ONE`, between 0 and a quarter
/// of pi. A steep slope is first turned into a shallow one by
/// `atan t = pi/4 - atan((1 - t) / (1 + t))`.
pub open spec fn unit_arctangent(t: Scalar) -> Scalar {
    clamped(
        if t > TAN_EIGHTH_PI {
            difference(
                QUARTER_PI,
                arctangent_series(ratio(difference(ONE, t), sum(ONE, t))),
            )
        } else {
            arctangent_series(t)
        },
        0,
        QUARTER_PI,
    )
}

/// The angle of the half-line from the origin through `(x, y)`, counted from
/// the positive x axis, in `[-PI, PI]`. The origin itself has angle 0.
pub open spec fn arctangent(y: Scalar, x: Scalar) -> Scalar {
    let ax = magnitude(x);
    let ay = magnitude(y);
    if ax == 0 && ay == 0 {
        0
    } else {
        let octant = if ay <= ax {
            unit_arctangent(ratio(ay, ax))
        } else {
            (HALF_PI - unit_arctangent(ratio(ax, ay))) as i64
        };
        let half = if x < 0 {
            (PI - octant) as i64
        } else {
            octant
        };
        if y < 0 {
            (-half) as i64
        } else {
            half
        }
    }
}

/// The angle in `[-PI, PI)` that differs from `a` by whole turns.
pub fn wrap_angle(a: Scalar) -> (r: Scalar)
    ensures
        r == wrapped_angle(a as int),
        -PI <= r < PI,
{
    wrap_wide_angle(a as i128)
}

/// Wraps an angle that may exceed the scalar range, such as the exact sum or
/// difference of two scalars.
pub fn wrap_wide_angle(a: i128) -> (r: Scalar)
    requires
        -0x1_0000_0000_0000_0000 <= a <= 0x1_0000_0000_0000_0000,
    ensures
        r == wrapped_angle(a as int),
        -PI <= r < PI,
{
    let (_turns, e): (i128, i128) = floor_div_mod(a + PI as i128, TWO_PI as i128);
    (e - PI as i128) as i64
}

fn series_step_exec(x2: Scalar, inverse: Scalar, rest: Scalar) -> (r: Scalar)
    ensures
        r == series_step(x2, inverse, rest),
{
    sat_sub(ONE, sat_mul(sat_mul(x2, inverse), rest))
}

fn sine_series_exec(x: Scalar) -> (r: Scalar)
    ensures
        r == sine_series(x),
{
    reveal(sine_series);
    let x2: Scalar = sat_mul(x, x);
    let t5: Scalar = series_step_exec(x2, 39045157, ONE);
    let t4: Scalar = series_step_exec(x2, 59652323, t5);
    let t3: Scalar = series_step_exec(x2, 102261126, t4);
    let t2: Scalar = series_step_exec(x2, 214748364, t3);
    let t1: Scalar = series_step_exec(x2, 715827882, t2);
    sat_mul(x, t1)
}

fn cosine_series_exec(x: Scalar) -> (r: Scalar)
    ensures
        r == cosine_series(x),
{
    reveal(cosine_series);
    let x2: Scalar = sat_mul(x, x);
    let t5: Scalar = series_step_exec(x2, 47721858, ONE);
    let t4: Scalar = series_step_exec(x2, 76695844, t5);
    let t3: Scalar = series_step_exec(x2, 143165576, t4);
    let t2: Scalar = series_step_exec(x2, 357913941, t3);
    series_step_exec(x2, 2147483648, t2)
}

/// The sine and the cosine of `a`, in that order.
pub fn sin_cos(a: Scalar) -> (r: (Scalar, Scalar))
    ensures
        r.0 == sine(a),
        r.1 == cosine(a),
        -ONE <= r.0 <= ONE,
        -ONE <= r.1 <= ONE,
{
    let (_turns, t): (i128, i128) = floor_div_mod(a as i128, TWO_PI as i128);
    let (k, offset): (i128, i128) = floor_div_mod(t, HALF_PI as i128);
    let r: i64 = offset as i64;
    let (s, c): (Scalar, Scalar) = if r > QUARTER_PI {
        let back: i64 = HALF_PI - r;
        (clamp(cosine_series_exec(back), 0, ONE), clamp(sine_series_exec(back), 0, ONE))
    } else {
        (clamp(sine_series_exec(r), 0, ONE), clamp(cosine_series_exec(r), 0, ONE))
    };
    if k == 0 {
        (s, c)
    } else if k == 1 {
        (c, -s)
    } else if k == 2 {
        (-s, -c)
    } else {
        (-c, s)
    }
}

fn arctangent_step_exec(u2: Scalar, coefficient: Scalar, rest: Scalar) -> (r: Scalar)
    ensures
        r == arctangent_step(u2, coefficient, rest),
{
    sat_sub(coefficient, sat_mul(u2, rest))
}

fn arctangent_series_exec(u: Scalar) -> (r: Scalar)
    ensures
        r == arctangent_series(u),
{
    reveal(arctangent_series);
    let u2: Scalar = sat_mul(u, u);
    let t7: Scalar = arctangent_step_exec(u2, 286331153, 252645135);
    let t6: Scalar = arctangent_step_exec(u2, 330382099, t7);
    let t5: Scalar = arctangent_step_exec(u2, 390451572, t6);
    let t4: Scalar = arctangent_step_exec(u2, 477218588, t5);
    let t3: Scalar = arctangent_step_exec(u2, 613566756, t4);
    let t2: Scalar = arctangent_step_exec(u2, 858993459, t3);
    let t1: Scalar = arctangent_step_exec(u2, 1431655765, t2);
    let t0: Scalar = arctangent_step_exec(u2, ONE, t1);
    sat_mul(u, t0)
}

fn unit_arctangent_exec(t: Scalar) -> (r: Scalar)
    requires
        0 <= t <= ONE,
    ensures
        r == unit_arctangent(t),
        0 <= r <= QUARTER_PI,
{
    let raw: Scalar = if t > TAN_EIGHTH_PI {
        let u: Scalar = sat_div(sat_sub(ONE, t), sat_add(ONE, t));
        sat_sub(QUARTER_PI, arctangent_series_exec(u))
    } else {
        arctangent_series_exec(t)
    };
    clamp(raw, 0, QUARTER_PI)
}

/// The angle of the half-line from the origin through `(x, y)`.
pub fn atan2(y: Scalar, x: Scalar) -> (r: Scalar)
    ensures
        r == arctangent(y, x),
        -PI <= r <= PI,
{
    let ax: Scalar = sat_abs(x);
    let ay: Scalar = sat_abs(y);
    if ax == 0 && ay == 0 {
        return 0;
    }
    let octant: Scalar = if ay <= ax {
        proof {
            lemma_ratio_unit(ay, ax);
        }
        unit_arctangent_exec(sat_div(ay, ax))
    } else {
        proof {
            lemma_ratio_unit(ax, ay);
        }
        HALF_PI - unit_arctangent_exec(sat_div(ax, ay))
    };
    let half: Scalar = if x < 0 {
        PI - octant
    } else {
        octant
    };
    if y < 0 {
        -half
    } else {
        half
    }
}

/// Heading 0 has sine 0 and cosine 1.
pub proof fn lemma_zero_angle()
    ensures
        sine(0) == 0,
        cosine(0) == ONE,
{
    reveal(sine_series);
    reveal(cosine_series);
    assert(product(0, 0) == 0);
    assert(product(0, 47721858) == 0);
}

/// Sine and cosine never leave the interval from -1 to 1.
pub proof fn lemma_sine_cosine_bounded(a: Scalar)
    ensures
        -ONE <= sine(a) <= ONE,
        -ONE <= cosine(a) <= ONE,
{
}

} // verus!
