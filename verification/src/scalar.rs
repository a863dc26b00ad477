//! Fixed-point scalars with saturating arithmetic.
//!
//! A scalar `v` is held as the integer `floor(v * 2^32)` in an `i64`. Every
//! operation is total: a result outside the representable range is replaced by
//! the nearest representable value.

use vstd::prelude::*;
use vstd::arithmetic::div_mod::{lemma_fundamental_div_mod, lemma_fundamental_div_mod_converse, lemma_mod_bound, lemma_mod_pos_bound};

verus! {

/// A fixed-point number with 32 fractional bits, held as its raw integer.
pub type Scalar = i64;

/// The scalar 1.
pub const ONE: Scalar = 0x1_0000_0000;

/// The nearest representable raw value to `x`.
pub open spec fn saturate(x: int) -> Scalar {
    if x < i64::MIN {
        i64::MIN
    } else if x > i64::MAX {
        i64::MAX
    } else {
        x as i64
    }
}

/// `a + b`, saturated.
pub open spec fn sum(a: Scalar, b: Scalar) -> Scalar {
    saturate(a + b)
}

/// `a - b`, saturated.
pub open spec fn difference(a: Scalar, b: Scalar) -> Scalar {
    saturate(a - b)
}

/// `a * b` as scalars, rounded down and saturated.
pub open spec fn product(a: Scalar, b: Scalar) -> Scalar {
    saturate((a * b) / (ONE as int))
}

/// `a / b` as scalars, rounded down and saturated. Meaningful for `b > 0`.
pub open spec fn ratio(a: Scalar, b: Scalar) -> Scalar {
    saturate((a * ONE) / (b as int))
}

/// `x` limited to the interval from `lo` to `hi`.
pub open spec fn clamped(x: Scalar, lo: Scalar, hi: Scalar) -> Scalar {
    if x < lo {
        lo
    } else if x > hi {
        hi
    } else {
        x
    }
}

/// `|a|`, saturated.
pub open spec fn magnitude(a: Scalar) -> Scalar {
    if a >= 0 {
        a
    } else {
        saturate(-a)
    }
}

/// The scalar that stands for the whole number `n`, saturated.
pub open spec fn whole(n: int) -> Scalar {
    saturate(n * ONE)
}

fn narrow(wide: i128) -> (r: Scalar)
    ensures
        r == saturate(wide as int),
{
    if wide < i64::MIN as i128 {
        i64::MIN
    } else if wide > i64::MAX as i128 {
        i64::MAX
    } else {
        wide as i64
    }
}

/// `a + b`, saturated.
pub fn sat_add(a: Scalar, b: Scalar) -> (r: Scalar)
    ensures
        r == sum(a, b),
{
    narrow(a as i128 + b as i128)
}

/// `a - b`, saturated.
pub fn sat_sub(a: Scalar, b: Scalar) -> (r: Scalar)
    ensures
        r == difference(a, b),
{
    narrow(a as i128 - b as i128)
}

/// `|a|`, saturated.
pub fn sat_abs(a: Scalar) -> (r: Scalar)
    ensures
        r == magnitude(a),
        r >= 0,
{
    if a >= 0 {
        a
    } else {
        narrow(-(a as i128))
    }
}

/// The quotient and the remainder of `n` by `d`, the quotient rounded down and
/// the remainder never negative.
pub fn floor_div_mod(n: i128, d: i128) -> (r: (i128, i128))
    requires
        d > 0,
        n > i128::MIN,
    ensures
        r.0 == (n as int) / (d as int),
        r.1 == (n as int) % (d as int),
        0 <= r.1 < d,
{
    proof {
        lemma_mod_bound(n as int, d as int);
    }
    if n >= 0 {
        (n / d, n % d)
    } else {
        let m: i128 = -n;
        let q: i128 = m / d;
        let rem: i128 = m % d;
        proof {
            lemma_negative_division(m as int, d as int);
        }
        if rem == 0 {
            (-q, 0)
        } else {
            (-q - 1, d - rem)
        }
    }
}

/// `a * b` as scalars, rounded down and saturated.
pub fn sat_mul(a: Scalar, b: Scalar) -> (r: Scalar)
    ensures
        r == product(a, b),
{
    proof {
        lemma_product_fits(a as int, b as int);
    }
    let wide: i128 = a as i128 * b as i128;
    let (floor, _rem): (i128, i128) = floor_div_mod(wide, 0x1_0000_0000);
    narrow(floor)
}

/// `a / b` as scalars, rounded down and saturated.
pub fn sat_div(a: Scalar, b: Scalar) -> (r: Scalar)
    requires
        b > 0,
    ensures
        r == ratio(a, b),
{
    let wide: i128 = a as i128 * 0x1_0000_0000;
    let (floor, _rem): (i128, i128) = floor_div_mod(wide, b as i128);
    narrow(floor)
}

/// `x` limited to the interval from `lo` to `hi`.
pub fn clamp(x: Scalar, lo: Scalar, hi: Scalar) -> (r: Scalar)
    ensures
        r == clamped(x, lo, hi),
{
    if x < lo {
        lo
    } else if x > hi {
        hi
    } else {
        x
    }
}

/// The scalar that stands for a count.
pub fn from_count(n: usize) -> (r: Scalar)
    ensures
        r == whole(n as int),
        r >= 0,
{
    narrow(n as i128 * 0x1_0000_0000)
}

/// The product of two 64-bit values fits in 128 bits.
pub proof fn lemma_product_fits(a: int, b: int)
    by (nonlinear_arith)
    requires
        -0x8000_0000_0000_0000 <= a <= 0x7fff_ffff_ffff_ffff,
        -0x8000_0000_0000_0000 <= b <= 0x7fff_ffff_ffff_ffff,
    ensures
        -0x4000_0000_0000_0000_0000_0000_0000_0000 <= a * b
            <= 0x4000_0000_0000_0000_0000_0000_0000_0000,
{
}

/// Dividing a negative number rounds away from zero where the division of its
/// size rounds towards zero.
pub proof fn lemma_negative_division(m: int, d: int)
    requires
        m > 0,
        d > 0,
    ensures
        (-m) / d == if m % d == 0 { -(m / d) } else { -(m / d) - 1 },
        (-m) % d == if m % d == 0 { 0 } else { d - m % d },
{
    lemma_fundamental_div_mod(m, d);
    lemma_mod_pos_bound(m, d);
    let q = m / d;
    let r = m % d;
    if r == 0 {
        assert(-m == (-q) * d + 0) by (nonlinear_arith)
            requires
                m == d * q + r,
                r == 0,
        ;
        lemma_fundamental_div_mod_converse(-m, d, -q, 0);
    } else {
        assert(-m == (-q - 1) * d + (d - r)) by (nonlinear_arith)
            requires
                m == d * q + r,
        ;
        lemma_fundamental_div_mod_converse(-m, d, -q - 1, d - r);
    }
}

/// Multiplying a non-negative scalar by a factor between 0 and 1 does not
/// enlarge it.
pub proof fn lemma_product_shrinks(a: Scalar, f: Scalar)
    requires
        a >= 0,
        0 <= f <= ONE,
    ensures
        0 <= product(a, f) <= a,
{
    assert(0 <= (a * f) / (ONE as int) <= a) by (nonlinear_arith)
        requires
            a >= 0,
            0 <= f <= ONE,
            ONE == 0x1_0000_0000,
    ;
}

/// The ratio of a part to a positive whole lies between 0 and 1, and is exactly
/// 1 when the part is the whole.
pub proof fn lemma_ratio_unit(a: Scalar, b: Scalar)
    requires
        0 <= a <= b,
        b > 0,
    ensures
        0 <= ratio(a, b) <= ONE,
        a == b ==> ratio(a, b) == ONE,
        a == 0 ==> ratio(a, b) == 0,
{
    assert(0 <= (a * ONE) / (b as int) <= ONE && (a == b ==> (a * ONE) / (b as int) == ONE) && (a
        == 0 ==> (a * ONE) / (b as int) == 0)) by (nonlinear_arith)
        requires
            0 <= a <= b,
            b > 0,
            ONE == 0x1_0000_0000,
    ;
}

} // verus!
