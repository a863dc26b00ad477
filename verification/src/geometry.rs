//! Points of the unit torus and the distance between them.

use vstd::prelude::*;
use crate::scalar::{Scalar, ONE, floor_div_mod, saturate};

verus! {

/// A point of the plane. On the unit torus both coordinates lie in `[0, 1)`.
#[derive(Clone, Copy, Debug)]
pub struct Point {
    pub x: Scalar,
    pub y: Scalar,
}

/// The coordinate in `[0, 1)` that differs from `v` by a whole number.
pub open spec fn wrapped_coordinate(v: int) -> Scalar {
    (v % (ONE as int)) as i64
}

/// `r` is the square root of `n`, rounded down.
pub open spec fn is_floor_sqrt(n: int, r: int) -> bool {
    0 <= r && r * r <= n < (r + 1) * (r + 1)
}

/// The square root of `n`, rounded down.
pub open spec fn floor_sqrt(n: int) -> int {
    choose|r: int| is_floor_sqrt(n, r)
}

/// The square of the distance between two points, in raw units.
pub open spec fn squared_distance(a: Point, b: Point) -> int {
    (a.x - b.x) * (a.x - b.x) + (a.y - b.y) * (a.y - b.y)
}

/// The Euclidean distance between two points, rounded down to a scalar.
pub open spec fn distance_between(a: Point, b: Point) -> Scalar {
    saturate(floor_sqrt(squared_distance(a, b)))
}

impl Point {
    /// Both coordinates lie in `[0, 1)`.
    pub open spec fn on_torus(self) -> bool {
        0 <= self.x < ONE && 0 <= self.y < ONE
    }

    /// The point of the torus that `(x, y)` wraps to.
    pub fn new(x: Scalar, y: Scalar) -> (p: Point)
        ensures
            p.x == wrapped_coordinate(x as int),
            p.y == wrapped_coordinate(y as int),
            p.on_torus(),
    {
        Point { x: wrap_coordinate(x), y: wrap_coordinate(y) }
    }
}

/// The coordinate in `[0, 1)` that differs from `v` by a whole number.
pub fn wrap_coordinate(v: Scalar) -> (r: Scalar)
    ensures
        r == wrapped_coordinate(v as int),
        0 <= r < ONE,
{
    let (_whole, part): (i128, i128) = floor_div_mod(v as i128, ONE as i128);
    part as i64
}

/// At most one number is the rounded-down square root of `n`.
pub proof fn lemma_floor_sqrt_unique(n: int, r: int, s: int)
    by (nonlinear_arith)
    requires
        is_floor_sqrt(n, r),
        is_floor_sqrt(n, s),
    ensures
        r == s,
{
    if r < s {
        assert((r + 1) * (r + 1) <= s * s);
    } else if s < r {
        assert((s + 1) * (s + 1) <= r * r);
    }
}

/// The square root of `n`, rounded down.
pub fn isqrt(n: u128) -> (r: u64)
    ensures
        is_floor_sqrt(n as int, r as int),
        r == floor_sqrt(n as int),
{
    let mut lo: u128 = 0;
    let mut hi: u128 = 0x1_0000_0000_0000_0000;
    assert(hi * hi > n) by (nonlinear_arith)
        requires
            hi == 0x1_0000_0000_0000_0000,
            n <= 0xffff_ffff_ffff_ffff_ffff_ffff_ffff_ffff,
    ;
    while hi - lo > 1
        invariant
            lo < hi <= 0x1_0000_0000_0000_0000,
            lo * lo <= n < hi * hi,
        decreases hi - lo,
    {
        let mid: u128 = lo + (hi - lo) / 2;
        assert(mid * mid <= 0xffff_ffff_ffff_ffff * 0xffff_ffff_ffff_ffff) by (nonlinear_arith)
            requires
                0 <= mid <= 0xffff_ffff_ffff_ffff,
        ;
        if mid * mid <= n {
            lo = mid;
        } else {
            hi = mid;
        }
    }
    proof {
        assert(is_floor_sqrt(n as int, lo as int));
        lemma_floor_sqrt_unique(n as int, lo as int, floor_sqrt(n as int));
    }
    lo as u64
}

/// The Euclidean distance between two points of the torus.
pub fn distance(a: &Point, b: &Point) -> (d: Scalar)
    requires
        a.on_torus(),
        b.on_torus(),
    ensures
        d == distance_between(*a, *b),
        is_floor_sqrt(squared_distance(*a, *b), d as int),
{
    let dx: i64 = a.x - b.x;
    let dy: i64 = a.y - b.y;
    assert(0 <= dx * dx <= 0x1_0000_0000 * 0x1_0000_0000 && 0 <= dy * dy <= 0x1_0000_0000
        * 0x1_0000_0000) by (nonlinear_arith)
        requires
            -0x1_0000_0000 < dx < 0x1_0000_0000,
            -0x1_0000_0000 < dy < 0x1_0000_0000,
    ;
    let square: u128 = (dx as i128 * dx as i128 + dy as i128 * dy as i128) as u128;
    let root: u64 = isqrt(square);
    assert(square == squared_distance(*a, *b));
    assert(root < 0x2_0000_0000) by (nonlinear_arith)
        requires
            root * root <= square,
            square <= 0x2_0000_0000_0000_0000,
    ;
    root as i64
}

/// Two points at the same place are at distance 0.
pub proof fn lemma_distance_to_self(a: Point)
    ensures
        distance_between(a, a) == 0,
{
    assert(is_floor_sqrt(0, 0));
    lemma_floor_sqrt_unique(0, 0, floor_sqrt(0));
}

} // verus!
