//! The source of randomness, and the maps from raw random words to the
//! quantities that the simulation draws.
//!
//! Only two functions touch the generator. Everything that is decided from a
//! random word is decided by a function that takes the word as an argument.

use vstd::prelude::*;
use rand::{Rng, RngCore};
use rand_chacha::ChaCha8Rng;
use crate::angle::{PI, TWO_PI};
use crate::geometry::Point;
use crate::scalar::{Scalar, ONE, product, sat_mul};

verus! {

/// The generator `ChaCha8Rng` of `rand_chacha`, of which nothing is known
/// here but that it exists.
#[verifier::external_type_specification]
#[verifier::external_body]
pub struct ExChaCha8Rng(rand_chacha::ChaCha8Rng);

/// Calls `RngCore::next_u32` of `rand`. Nothing is claimed of the word that
/// comes back.
#[verifier::external_body]
pub(crate) fn next_word(rng: &mut ChaCha8Rng) -> (word: u32) {
    rng.next_u32()
}

/// Calls `Rng::random_range` of `rand` on the half-open range from 0 to
/// `bound`. The claim is the documented one: the value lies in the range. The
/// call panics on an empty range, which `bound > 0` rules out.
#[verifier::external_body]
pub(crate) fn draw_below(rng: &mut ChaCha8Rng, bound: u128) -> (value: u128)
    requires
        bound > 0,
    ensures
        value < bound,
{
    rng.random_range(0..bound)
}

/// The scalar in `[-1, 1)` that a random word stands for: its upper 23 bits,
/// read as a fraction of the interval.
pub open spec fn signed_unit_of(word: u32) -> Scalar {
    (((word / 512) - 4194304) * 1024) as i64
}

/// The scalar in `[0, 1)` that a random word stands for: its upper 24 bits,
/// read as a fraction.
pub open spec fn unit_of(word: u32) -> Scalar {
    ((word / 256) * 256) as i64
}

/// The angle in `[-PI, PI)` that a random word stands for.
pub open spec fn angle_of(word: u32) -> Scalar {
    (product(unit_of(word), TWO_PI) - PI) as i64
}

/// The point is one that two random words stand for, the first for its x
/// coordinate and the second for its y coordinate.
pub open spec fn drawn_point(p: Point) -> bool {
    exists|wx: u32, wy: u32| p.x == #[trigger] unit_of(wx) && p.y == #[trigger] unit_of(wy)
}

/// Whether an event of probability `chance` happens on this word: the word,
/// read as a fraction of `2^32`, lies below the chance.
pub open spec fn happens_on(word: u32, chance: Scalar) -> bool {
    (word as int) < (chance as int)
}

/// Whether a fair coin shows heads on this word.
pub open spec fn heads_on(word: u32) -> bool {
    word < 0x8000_0000
}

/// The scalar in `[-1, 1)` that a random word stands for.
pub fn signed_unit(word: u32) -> (r: Scalar)
    ensures
        r == signed_unit_of(word),
        -ONE <= r < ONE,
{
    let upper: i64 = (word / 512) as i64;
    (upper - 4194304) * 1024
}

/// The scalar in `[0, 1)` that a random word stands for.
pub fn unit(word: u32) -> (r: Scalar)
    ensures
        r == unit_of(word),
        0 <= r < ONE,
{
    let upper: i64 = (word / 256) as i64;
    upper * 256
}

/// The angle in `[-PI, PI)` that a random word stands for.
pub fn angle(word: u32) -> (r: Scalar)
    ensures
        r == angle_of(word),
        -PI <= r < PI,
{
    let fraction: Scalar = unit(word);
    proof {
        assert(0 <= (TWO_PI * fraction) / (ONE as int) < TWO_PI) by (nonlinear_arith)
            requires
                0 <= fraction < ONE,
                ONE == 0x1_0000_0000,
                TWO_PI == 26986075408,
        ;
        assert(TWO_PI * fraction == fraction * TWO_PI) by (nonlinear_arith);
    }
    sat_mul(fraction, TWO_PI) - PI
}

/// Whether an event of probability `chance` happens on this word.
pub fn happens(word: u32, chance: Scalar) -> (r: bool)
    ensures
        r == happens_on(word, chance),
{
    (word as i64) < chance
}

/// Whether a fair coin shows heads on this word.
pub fn heads(word: u32) -> (r: bool)
    ensures
        r == heads_on(word),
{
    word < 0x8000_0000
}

/// Draws a scalar in `[-1, 1)`.
pub fn random_signed_unit(rng: &mut ChaCha8Rng) -> (r: Scalar)
    ensures
        -ONE <= r < ONE,
        exists|word: u32| r == signed_unit_of(word),
{
    let word: u32 = next_word(rng);
    signed_unit(word)
}

/// Draws an angle in `[-PI, PI)`.
pub fn random_angle(rng: &mut ChaCha8Rng) -> (r: Scalar)
    ensures
        -PI <= r < PI,
        exists|word: u32| r == angle_of(word),
{
    let word: u32 = next_word(rng);
    angle(word)
}

/// Draws a point of the torus, the x coordinate first.
pub fn random_point(rng: &mut ChaCha8Rng) -> (p: Point)
    ensures
        p.on_torus(),
        drawn_point(p),
{
    let wx: u32 = next_word(rng);
    let wy: u32 = next_word(rng);
    Point { x: unit(wx), y: unit(wy) }
}

/// Draws an index below `len`.
pub fn random_index(rng: &mut ChaCha8Rng, len: usize) -> (i: usize)
    requires
        len > 0,
    ensures
        i < len,
{
    draw_below(rng, len as u128) as usize
}

} // verus!
