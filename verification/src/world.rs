//! The world: the animals and the food.

use vstd::prelude::*;
use rand_chacha::ChaCha8Rng;
use crate::animal::Animal;
use crate::config::Config;
use crate::eye::default_eye;
use crate::angle::PI;
use crate::food::{all_drawn, all_on_torus, Food};
use crate::scalar::{whole, Scalar};

verus! {

/// How many animals a random world has.
pub const ANIMALS: usize = 40;

/// How many items of food a random world has.
pub const FOODS: usize = 60;

/// The animals and the food of one simulation.
#[derive(Debug)]
pub struct World {
    pub animals: Vec<Animal>,
    pub foods: Vec<Food>,
}

/// Every animal is well formed, and all eyes have the same number of
/// sectors, so that all brains have the same number of genes.
pub open spec fn herd(animals: Seq<Animal>) -> bool {
    &&& animals.len() > 0
    &&& forall|i: int| 0 <= i < animals.len() ==> (#[trigger] animals[i]).wf()
    &&& forall|i: int| 0 <= i < animals.len() ==> (#[trigger] animals[i]).eye.cells == animals[0].eye.cells
}

/// The fitness of each animal: the number of its meals.
pub open spec fn fitness_of_animals(animals: Seq<Animal>) -> Seq<Scalar> {
    Seq::new(animals.len(), |i: int| whole(animals[i].satiation as int))
}

/// The genes of each animal.
pub open spec fn genes_of_animals(animals: Seq<Animal>) -> Seq<Seq<Scalar>> {
    Seq::new(animals.len(), |i: int| animals[i].brain.genes())
}

impl World {
    /// There is at least one animal, the animals form a herd, and all food is
    /// on the torus.
    pub open spec fn wf(self) -> bool {
        &&& herd(self.animals@)
        &&& all_on_torus(self.foods@)
    }

    /// A world of `ANIMALS` random animals and `FOODS` random items of food.
    pub fn random(rng: &mut ChaCha8Rng, config: &Config) -> (world: World)
        requires
            config.wf(),
        ensures
            world.wf(),
            world.animals.len() == ANIMALS,
            world.foods.len() == FOODS,
            forall|i: int|
                0 <= i < world.animals.len() ==> {
                    &&& (#[trigger] world.animals[i]).satiation == 0
                    &&& config.speed_min <= world.animals[i].speed <= config.speed_max
                    &&& -PI <= world.animals[i].rotation < PI
                    &&& world.animals[i].eye == default_eye()
                    &&& world.animals[i].brain.nn.within_unit()
                },
            all_drawn(world.foods@),
    {
        let mut animals: Vec<Animal> = Vec::new();
        let mut i: usize = 0;
        while i < ANIMALS
            invariant
                i <= ANIMALS,
                config.wf(),
                animals.len() == i,
                forall|k: int| 0 <= k < i ==> (#[trigger] animals[k]).wf(),
                forall|k: int|
                    0 <= k < i ==> {
                        &&& (#[trigger] animals[k]).satiation == 0
                        &&& config.speed_min <= animals[k].speed <= config.speed_max
                        &&& -PI <= animals[k].rotation < PI
                        &&& animals[k].eye == default_eye()
                        &&& animals[k].brain.nn.within_unit()
                    },
            decreases ANIMALS - i,
        {
            let animal = Animal::random(rng, config);
            animals.push(animal);
            i += 1;
        }
        let mut foods: Vec<Food> = Vec::new();
        let mut j: usize = 0;
        while j < FOODS
            invariant
                j <= FOODS,
                foods.len() == j,
                all_on_torus(foods@),
                all_drawn(foods@),
            decreases FOODS - j,
        {
            let food = Food::random(rng);
            foods.push(food);
            j += 1;
        }
        World { animals, foods }
    }

    /// The animals.
    pub fn animals(&self) -> (a: &Vec<Animal>)
        ensures
            a@ == self.animals@,
    {
        &self.animals
    }

    /// The food.
    pub fn foods(&self) -> (f: &Vec<Food>)
        ensures
            f@ == self.foods@,
    {
        &self.foods
    }
}

/// Animals that keep their eyes and their brains and stay on the torus stay
/// a herd.
pub proof fn lemma_herd_kept(before: Seq<Animal>, after: Seq<Animal>)
    requires
        herd(before),
        after.len() == before.len(),
        forall|k: int|
            0 <= k < after.len() ==> {
                &&& (#[trigger] after[k]).eye == before[k].eye
                &&& after[k].brain == before[k].brain
                &&& after[k].position.on_torus()
            },
    ensures
        herd(after),
{
    assert forall|k: int| 0 <= k < after.len() implies (#[trigger] after[k]).wf() && after[k].eye.cells
        == after[0].eye.cells by {
        assert(before[k].wf());
        assert(before[0].wf());
    }
}

} // verus!
