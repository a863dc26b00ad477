//! The animal as the genetic algorithm sees it: a fitness and a chromosome.

use vstd::prelude::*;
use rand_chacha::ChaCha8Rng;
use crate::angle::PI;
use crate::animal::Animal;
use crate::config::Config;
use crate::brain::genome_length;
use crate::eye::Eye;
use crate::genetic::{Chromosome, Individual};
use crate::scalar::{from_count, whole, Scalar};

verus! {

/// What evolution keeps of an animal: how much it ate, and the genes of its
/// brain.
#[derive(Debug)]
pub struct AnimalIndividual {
    pub satiation: usize,
    pub chromosome: Chromosome,
}

impl AnimalIndividual {
    /// What evolution keeps of `animal`.
    pub fn from_animal(animal: &Animal) -> (individual: AnimalIndividual)
        ensures
            individual.satiation == animal.satiation,
            individual.chromosome@ == animal.brain.genes(),
    {
        AnimalIndividual { satiation: animal.satiation, chromosome: animal.as_chromosome() }
    }

    /// A new animal with these genes and the given eye. The chromosome must
    /// have the length that the eye asks for.
    pub fn into_animal(self, eye: Eye, rng: &mut ChaCha8Rng, config: &Config) -> (animal: Animal)
        requires
            eye.wf(),
            config.wf(),
            self.chromosome.len() == genome_length(eye.cells),
        ensures
            animal.wf(),
            animal.satiation == 0,
            config.speed_min <= animal.speed <= config.speed_max,
            -PI <= animal.rotation < PI,
            animal.eye == eye,
            animal.brain.genes() == self.chromosome@,
    {
        Animal::from_chromosome(self.chromosome, eye, rng, config)
    }
}

impl Individual for AnimalIndividual {
    open spec fn genes(&self) -> Seq<Scalar> {
        self.chromosome@
    }

    /// The fitness of an animal is the number of its meals.
    open spec fn fitness_value(&self) -> Scalar {
        whole(self.satiation as int)
    }

    fn create(chromosome: Chromosome) -> (r: Self) {
        AnimalIndividual { satiation: 0, chromosome }
    }

    fn chromosome(&self) -> (c: &Chromosome) {
        &self.chromosome
    }

    fn fitness(&self) -> (f: Scalar) {
        from_count(self.satiation)
    }
}

} // verus!
