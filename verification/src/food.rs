//! Food: a point of the torus that animals eat.

use vstd::prelude::*;
use rand_chacha::ChaCha8Rng;
use crate::geometry::Point;
use crate::random::{drawn_point, random_point};

verus! {

/// One item of food.
#[derive(Clone, Copy, Debug)]
pub struct Food {
    pub position: Point,
}

impl Food {
    /// Food at a place drawn at random.
    pub fn random(rng: &mut ChaCha8Rng) -> (food: Food)
        ensures
            food.position.on_torus(),
            drawn_point(food.position),
    {
        Food { position: random_point(rng) }
    }

    /// Where the food lies.
    pub fn position(&self) -> (p: Point)
        ensures
            p == self.position,
    {
        self.position
    }
}

/// Every item lies on the torus.
pub open spec fn all_on_torus(foods: Seq<Food>) -> bool {
    forall|i: int| 0 <= i < foods.len() ==> (#[trigger] foods[i]).position.on_torus()
}

/// Every item lies at a place drawn at random.
pub open spec fn all_drawn(foods: Seq<Food>) -> bool {
    forall|i: int| 0 <= i < foods.len() ==> drawn_point((#[trigger] foods[i]).position)
}

} // verus!
