//! The eye: what an animal senses of the food around it, as one intensity
//! for each sector of its field of view.

use vstd::prelude::*;
use crate::angle::{arctangent, atan2, wrap_wide_angle, wrapped_angle, PI};
use crate::food::{all_on_torus, Food};
use crate::geometry::{distance, distance_between, lemma_distance_to_self, Point};
use crate::scalar::{
    Scalar, ONE, difference, floor_div_mod, lemma_ratio_unit, ratio, sat_add, sat_div, sat_sub, sum,
};

verus! {

/// How far an eye sees by default: a quarter of the width of the world.
pub const FOV_RANGE: Scalar = 1073741824;

/// How wide an eye sees by default: pi and a quarter of pi.
pub const FOV_ANGLE: Scalar = 16866297130;

/// How many sectors an eye has by default.
pub const CELLS: usize = 9;

/// The greatest number of sectors an eye may have.
pub const MAX_CELLS: usize = 0x7fff_ffff;

/// An eye: its range, the width of its field of view, and the number of
/// sectors into which the field is cut.
#[derive(Clone, Copy, Debug)]
pub struct Eye {
    pub fov_range: Scalar,
    pub fov_angle: Scalar,
    pub cells: usize,
}

/// The angle at which `target` appears from `position` to an observer that
/// looks along `heading`, in `[-PI, PI)`: 0 is straight ahead. A target at the
/// observer's own place is taken to be straight ahead.
pub open spec fn relative_angle(position: Point, heading: Scalar, target: Point) -> Scalar {
    if target.x == position.x && target.y == position.y {
        0
    } else {
        wrapped_angle(
            arctangent((position.x - target.x) as i64, (target.y - position.y) as i64) - heading,
        )
    }
}

impl Eye {
    /// The range and the angle are positive, and there are between 1 and
    /// `MAX_CELLS` sectors.
    pub open spec fn wf(self) -> bool {
        &&& self.fov_range > 0
        &&& self.fov_angle > 0
        &&& 0 < self.cells <= MAX_CELLS
    }

    /// Whether an angle lies inside the field of view: no more than half its
    /// width to either side of straight ahead.
    pub open spec fn in_view(self, angle: Scalar) -> bool {
        -self.fov_angle <= 2 * angle <= self.fov_angle
    }

    /// Whether the eye at `position`, looking along `heading`, sees `target`:
    /// it is no farther than the range and its angle lies inside the field of
    /// view.
    pub open spec fn sees(self, position: Point, heading: Scalar, target: Point) -> bool {
        &&& distance_between(position, target) <= self.fov_range
        &&& self.in_view(relative_angle(position, heading, target))
    }

    /// The sector of an angle inside the field of view: the field is cut into
    /// equal sectors from the edge at `-fov_angle / 2`, where sector 0 begins,
    /// to the edge at `fov_angle / 2`, which belongs to the last sector.
    pub open spec fn sector(self, angle: Scalar) -> int {
        let raw = ((2 * angle + self.fov_angle) * self.cells) / (2 * self.fov_angle);
        if raw >= self.cells {
            self.cells - 1
        } else {
            raw
        }
    }

    /// The intensity of a target in range: 1 at the eye itself, falling in
    /// proportion to the distance to 0 at the edge of the range.
    pub open spec fn energy(self, position: Point, target: Point) -> Scalar {
        ratio(difference(self.fov_range, distance_between(position, target)), self.fov_range)
    }

    /// What the eye senses of `foods`: for each sector the sum of the
    /// intensities of the items that it sees there.
    pub open spec fn vision(self, position: Point, heading: Scalar, foods: Seq<Food>) -> Seq<Scalar>
        decreases foods.len(),
    {
        if foods.len() == 0 {
            Seq::new(self.cells as nat, |i: int| 0i64)
        } else {
            let seen = self.vision(position, heading, foods.drop_last());
            let target = foods.last().position;
            if self.sees(position, heading, target) {
                let k = self.sector(relative_angle(position, heading, target));
                seen.update(k, sum(seen[k], self.energy(position, target)))
            } else {
                seen
            }
        }
    }

    /// An eye with the given range, field of view and number of sectors.
    pub fn new(fov_range: Scalar, fov_angle: Scalar, cells: usize) -> (eye: Eye)
        requires
            fov_range > 0,
            fov_angle > 0,
            0 < cells <= MAX_CELLS,
        ensures
            eye.fov_range == fov_range,
            eye.fov_angle == fov_angle,
            eye.cells == cells,
            eye.wf(),
    {
        Eye { fov_range, fov_angle, cells }
    }

    /// The number of sectors.
    pub fn cells(&self) -> (n: usize)
        ensures
            n == self.cells,
    {
        self.cells
    }

    /// The angle at which `target` appears.
    pub fn relative_angle_to(position: Point, heading: Scalar, target: Point) -> (angle: Scalar)
        requires
            position.on_torus(),
            target.on_torus(),
        ensures
            angle == relative_angle(position, heading, target),
            -PI <= angle < PI,
    {
        if target.x == position.x && target.y == position.y {
            0
        } else {
            let bearing: Scalar = atan2(position.x - target.x, target.y - position.y);
            wrap_wide_angle(bearing as i128 - heading as i128)
        }
    }

    /// Whether an angle lies inside the field of view.
    pub fn sees_angle(&self, angle: Scalar) -> (r: bool)
        ensures
            r == self.in_view(angle),
    {
        let twice: i128 = 2 * (angle as i128);
        -(self.fov_angle as i128) <= twice && twice <= self.fov_angle as i128
    }

    /// The sector of an angle inside the field of view.
    pub fn sector_of(&self, angle: Scalar) -> (k: usize)
        requires
            self.wf(),
            self.in_view(angle),
        ensures
            k == self.sector(angle),
            k < self.cells,
    {
        let offset: i128 = 2 * (angle as i128) + self.fov_angle as i128;
        let width: i128 = 2 * (self.fov_angle as i128);
        proof {
            assert(0 <= offset * self.cells <= 0xffff_ffff_ffff_fffe * 0x7fff_ffff)
                by (nonlinear_arith)
                requires
                    0 <= offset <= 0xffff_ffff_ffff_fffe,
                    0 < self.cells <= 0x7fff_ffff,
            ;
        }
        let (raw, _rest): (i128, i128) = floor_div_mod(offset * self.cells as i128, width);
        proof {
            assert(raw >= 0) by (nonlinear_arith)
                requires
                    raw == (offset * self.cells) / (width as int),
                    offset * self.cells >= 0,
                    width > 0,
            ;
        }
        if raw >= self.cells as i128 {
            self.cells - 1
        } else {
            raw as usize
        }
    }

    /// What the eye at `position`, looking along `rotation`, senses of `foods`.
    pub fn process_vision(&self, position: Point, rotation: Scalar, foods: &[Food]) -> (cells: Vec<
        Scalar,
    >)
        requires
            self.wf(),
            position.on_torus(),
            all_on_torus(foods@),
        ensures
            cells@ == self.vision(position, rotation, foods@),
            cells.len() == self.cells,
    {
        let mut cells: Vec<Scalar> = Vec::new();
        let mut c: usize = 0;
        while c < self.cells
            invariant
                c <= self.cells,
                cells.len() == c,
                forall|k: int| 0 <= k < c ==> cells[k] == 0,
            decreases self.cells - c,
        {
            cells.push(0);
            c += 1;
        }
        proof {
            assert(foods@.take(0) =~= Seq::<Food>::empty());
            assert(cells@ =~= self.vision(position, rotation, foods@.take(0)));
        }
        let mut i: usize = 0;
        while i < foods.len()
            invariant
                i <= foods.len(),
                self.wf(),
                position.on_torus(),
                all_on_torus(foods@),
                cells.len() == self.cells,
                cells@ == self.vision(position, rotation, foods@.take(i as int)),
            decreases foods.len() - i,
        {
            let target: Point = foods[i].position;
            proof {
                assert(foods@.take(i + 1).drop_last() =~= foods@.take(i as int));
                assert(foods@.take(i + 1).last() == foods[i as int]);
                assert(foods[i as int].position.on_torus());
            }
            let dist: Scalar = distance(&position, &target);
            if dist <= self.fov_range {
                let angle: Scalar = Eye::relative_angle_to(position, rotation, target);
                if self.sees_angle(angle) {
                    let k: usize = self.sector_of(angle);
                    let energy: Scalar = sat_div(sat_sub(self.fov_range, dist), self.fov_range);
                    let seen: Scalar = cells[k];
                    cells.set(k, sat_add(seen, energy));
                }
            }
            i += 1;
        }
        proof {
            assert(foods@.take(foods.len() as int) =~= foods@);
        }
        cells
    }
}

/// The eye that animals have unless they are given another.
pub open spec fn default_eye() -> Eye {
    Eye { fov_range: FOV_RANGE, fov_angle: FOV_ANGLE, cells: CELLS }
}

impl Default for Eye {
    fn default() -> (eye: Eye)
        ensures
            eye == default_eye(),
            eye.wf(),
    {
        Eye { fov_range: FOV_RANGE, fov_angle: FOV_ANGLE, cells: CELLS }
    }
}

/// The eye has one intensity per sector, whatever it looks at.
pub proof fn lemma_vision_length(eye: Eye, position: Point, heading: Scalar, foods: Seq<Food>)
    requires
        eye.wf(),
    ensures
        eye.vision(position, heading, foods).len() == eye.cells,
    decreases foods.len(),
{
    if foods.len() > 0 {
        lemma_vision_length(eye, position, heading, foods.drop_last());
    }
}

/// The sector of an angle inside the field of view is one of the eye's
/// sectors: the first at the one edge of the field, the last at the other,
/// and the one in the middle straight ahead where their number is odd.
pub proof fn lemma_sector_in_range(eye: Eye, angle: Scalar)
    requires
        eye.wf(),
        eye.in_view(angle),
    ensures
        0 <= eye.sector(angle) < eye.cells,
        2 * angle == -eye.fov_angle ==> eye.sector(angle) == 0,
        2 * angle == eye.fov_angle ==> eye.sector(angle) == eye.cells - 1,
        angle == 0 && eye.cells % 2 == 1 ==> eye.sector(angle) == (eye.cells - 1) / 2,
{
    let offset = 2 * angle + eye.fov_angle;
    let width = 2 * eye.fov_angle;
    let cells = eye.cells as int;
    assert((offset * cells) / width >= 0) by (nonlinear_arith)
        requires
            offset >= 0,
            cells > 0,
            width > 0,
    ;
    if 2 * angle == -eye.fov_angle {
        assert(offset * cells == 0) by (nonlinear_arith)
            requires
                offset == 0,
        ;
    }
    if 2 * angle == eye.fov_angle {
        assert(offset * cells == cells * width) by (nonlinear_arith)
            requires
                offset == width,
        ;
        vstd::arithmetic::div_mod::lemma_fundamental_div_mod_converse(
            offset * cells,
            width,
            cells,
            0,
        );
    }
    if angle == 0 && cells % 2 == 1 {
        let middle = (cells - 1) / 2;
        assert(offset * cells == middle * width + eye.fov_angle) by (nonlinear_arith)
            requires
                offset == eye.fov_angle,
                width == 2 * eye.fov_angle,
                cells == 2 * middle + 1,
        ;
        vstd::arithmetic::div_mod::lemma_fundamental_div_mod_converse(
            offset * cells,
            width,
            middle,
            eye.fov_angle as int,
        );
    }
}

/// Food at the eye's own place is seen, whatever the heading, with the
/// greatest intensity, 1, and counts for the sector straight ahead.
pub proof fn lemma_food_at_eye(eye: Eye, position: Point, heading: Scalar)
    requires
        eye.wf(),
    ensures
        eye.sees(position, heading, position),
        eye.energy(position, position) == ONE,
        relative_angle(position, heading, position) == 0,
{
    lemma_distance_to_self(position);
    lemma_ratio_unit(eye.fov_range, eye.fov_range);
}

/// Food exactly at the edge of the range has intensity 0.
pub proof fn lemma_food_at_range(eye: Eye, position: Point, target: Point)
    requires
        eye.wf(),
        distance_between(position, target) == eye.fov_range,
    ensures
        eye.energy(position, target) == 0,
{
    lemma_ratio_unit(0, eye.fov_range);
}

/// Food that the eye does not see, because it is beyond the range or outside
/// the field of view, changes no sector.
pub proof fn lemma_unseen_food(eye: Eye, position: Point, heading: Scalar, foods: Seq<Food>, food: Food)
    requires
        distance_between(position, food.position) > eye.fov_range || 2 * relative_angle(
            position,
            heading,
            food.position,
        ) < -eye.fov_angle || 2 * relative_angle(position, heading, food.position)
            > eye.fov_angle,
    ensures
        eye.vision(position, heading, foods.push(food)) == eye.vision(position, heading, foods),
{
    assert(foods.push(food).drop_last() =~= foods);
}

/// Food that the eye sees adds its intensity to the sector of its angle and
/// changes no other sector.
pub proof fn lemma_seen_food(eye: Eye, position: Point, heading: Scalar, foods: Seq<Food>, food: Food)
    requires
        eye.wf(),
        eye.sees(position, heading, food.position),
    ensures
        ({
            let before = eye.vision(position, heading, foods);
            let after = eye.vision(position, heading, foods.push(food));
            let k = eye.sector(relative_angle(position, heading, food.position));
            &&& after.len() == before.len()
            &&& 0 <= k < after.len()
            &&& after[k] == sum(before[k], eye.energy(position, food.position))
            &&& forall|j: int| 0 <= j < after.len() && j != k ==> after[j] == before[j]
        }),
{
    assert(foods.push(food).drop_last() =~= foods);
    lemma_vision_length(eye, position, heading, foods);
    lemma_sector_in_range(eye, relative_angle(position, heading, food.position));
}

} // verus!
