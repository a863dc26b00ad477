//! The simulation: a world, the genetic algorithm that renews its animals,
//! and the age of the current generation in steps.

use vstd::prelude::*;
use rand_chacha::ChaCha8Rng;
use crate::angle::PI;
use crate::animal::{fed, Animal};
use crate::animal_individual::AnimalIndividual;
use crate::brain::lemma_fitting_brain;
use crate::config::{default_config, Config, SPEED_MAX, SPEED_MIN};
use crate::eye::{default_eye, Eye};
use crate::food::{all_drawn, all_on_torus, Food};
use crate::genetic::{
    fitness_of, genes_of, GaussianMutation, GeneticAlgorithm, Individual, MutationMethod,
    RouletteWheelSelection, Statistics, UniformCrossover,
};
use crate::random::drawn_point;
use crate::scalar::Scalar;
use crate::world::{
    fitness_of_animals, genes_of_animals, herd, lemma_herd_kept, World, ANIMALS, FOODS,
};

verus! {

/// The chance that evolution changes a gene, 0.01.
pub const MUTATION_CHANCE: Scalar = 42949672;

/// The greatest change that evolution makes to a gene, 0.3.
pub const MUTATION_COEFF: Scalar = 1288490188;

/// The genetic algorithm of the simulation.
pub type Evolution = GeneticAlgorithm<RouletteWheelSelection, UniformCrossover, GaussianMutation>;

/// One simulation.
pub struct Simulation {
    pub world: World,
    pub ga: Evolution,
    pub config: Config,
    pub age: usize,
}

/// The animals after each has let its brain steer it in sight of `foods`.
pub open spec fn thought(animals: Seq<Animal>, foods: Seq<Food>, config: Config) -> Seq<Animal> {
    Seq::new(animals.len(), |i: int| animals[i].after_thinking(foods, config))
}

/// The animals after each has moved one step.
pub open spec fn walked(animals: Seq<Animal>) -> Seq<Animal> {
    Seq::new(animals.len(), |i: int| animals[i].after_moving())
}

/// Animal `i` has eaten in its turn: it found the food as `trace[i]` and left
/// it as `trace[i + 1]`, and counted as meals the items that were in its reach.
pub open spec fn took_turn(
    before: Seq<Animal>,
    after: Seq<Animal>,
    trace: Seq<Seq<Food>>,
    range: Scalar,
    i: int,
) -> bool {
    &&& fed(before[i].position, trace[i], trace[i + 1], range)
    &&& after[i] == before[i].after_eating(trace[i], range)
}

/// The animals have eaten in turn: `trace` holds the food before the first
/// animal, between each animal and the next, and after the last. Each animal
/// counts the items in its reach as it finds them, and each item eaten comes
/// back somewhere on the torus before the next animal looks.
pub open spec fn grazed(
    before: Seq<Animal>,
    foods_before: Seq<Food>,
    after: Seq<Animal>,
    foods_after: Seq<Food>,
    trace: Seq<Seq<Food>>,
    range: Scalar,
) -> bool {
    &&& after.len() == before.len()
    &&& trace.len() == before.len() + 1
    &&& trace[0] == foods_before
    &&& trace[before.len() as int] == foods_after
    &&& forall|i: int| 0 <= i < before.len() ==> #[trigger] took_turn(before, after, trace, range, i)
}

/// One step without evolution: the animals eat in turn, then each steers in
/// sight of the food as it then lies, then each moves.
pub open spec fn stepped(
    before: Seq<Animal>,
    foods_before: Seq<Food>,
    after: Seq<Animal>,
    foods_after: Seq<Food>,
    config: Config,
) -> bool {
    exists|eaten: Seq<Animal>, trace: Seq<Seq<Food>>|
        #[trigger] grazed(before, foods_before, eaten, foods_after, trace, config.eat_range)
            && after == walked(thought(eaten, foods_after, config))
}

/// `n` steps without evolution, one after the other, lead from the animals
/// and the food `before` to the animals and the food `after`.
pub open spec fn stepped_times(
    before: Seq<Animal>,
    foods_before: Seq<Food>,
    after: Seq<Animal>,
    foods_after: Seq<Food>,
    config: Config,
    n: nat,
) -> bool
    decreases n,
{
    if n == 0 {
        after == before && foods_after == foods_before
    } else {
        exists|middle: Seq<Animal>, foods_middle: Seq<Food>|
            stepped_times(before, foods_before, middle, foods_middle, config, (n - 1) as nat)
                && #[trigger] stepped(middle, foods_middle, after, foods_after, config)
    }
}

/// The animals `after` are a generation bred from the animals `before`: as
/// many, each with the eye of the animal whose place it takes, no meals yet,
/// a speed that the settings allow, and a brain whose genes the genetic
/// algorithm may breed from `before`.
pub open spec fn bred(ga: Evolution, config: Config, before: Seq<Animal>, after: Seq<Animal>) -> bool {
    &&& after.len() == before.len()
    &&& forall|k: int|
        0 <= k < after.len() ==> {
            &&& (#[trigger] after[k]).wf()
            &&& after[k].satiation == 0
            &&& config.speed_min <= after[k].speed <= config.speed_max
            &&& -PI <= after[k].rotation < PI
            &&& after[k].eye == before[k].eye
            &&& ga.bred_from(
                fitness_of_animals(before),
                genes_of_animals(before),
                after[k].brain.genes(),
            )
        }
}

impl Simulation {
    /// The world is well formed, the mutation has valid parameters, and the
    /// generation is not older than a generation gets.
    pub open spec fn wf(self) -> bool {
        &&& self.world.wf()
        &&& self.ga.mutation_method.valid()
        &&& self.config.wf()
        &&& self.age <= self.config.generation_length
    }

    /// A simulation of a random world.
    pub fn random(rng: &mut ChaCha8Rng) -> (sim: Simulation)
        ensures
            sim.wf(),
            sim.age == 0,
            sim.config == default_config(),
            sim.world.animals.len() == ANIMALS,
            sim.world.foods.len() == FOODS,
            forall|i: int|
                0 <= i < sim.world.animals.len() ==> {
                    &&& (#[trigger] sim.world.animals[i]).satiation == 0
                    &&& SPEED_MIN <= sim.world.animals[i].speed <= SPEED_MAX
                    &&& -PI <= sim.world.animals[i].rotation < PI
                    &&& sim.world.animals[i].eye == default_eye()
                    &&& sim.world.animals[i].brain.nn.within_unit()
                },
            all_drawn(sim.world.foods@),
            sim.ga.mutation_method.chance == MUTATION_CHANCE,
            sim.ga.mutation_method.coeff == MUTATION_COEFF,
    {
        let config: Config = Config::default();
        let world: World = World::random(rng, &config);
        Simulation::new(world)
    }

    /// A simulation of the given world with the default settings and the
    /// default mutation, at age 0.
    pub fn new(world: World) -> (sim: Simulation)
        requires
            world.wf(),
        ensures
            sim.wf(),
            sim.age == 0,
            sim.world == world,
            sim.config == default_config(),
            sim.ga.mutation_method.chance == MUTATION_CHANCE,
            sim.ga.mutation_method.coeff == MUTATION_COEFF,
    {
        let ga: Evolution = GeneticAlgorithm::new(
            RouletteWheelSelection,
            UniformCrossover,
            GaussianMutation::new(MUTATION_CHANCE, MUTATION_COEFF),
        );
        Simulation { world, ga, config: Config::default(), age: 0 }
    }

    /// A simulation of the given world with the given genetic algorithm and
    /// settings, at age 0.
    pub fn with_config(world: World, ga: Evolution, config: Config) -> (sim: Simulation)
        requires
            world.wf(),
            ga.mutation_method.valid(),
            config.wf(),
        ensures
            sim.wf(),
            sim.age == 0,
            sim.world == world,
            sim.ga == ga,
            sim.config == config,
    {
        Simulation { world, ga, config, age: 0 }
    }

    /// The settings.
    pub fn config(&self) -> (c: &Config)
        ensures
            *c == self.config,
    {
        &self.config
    }

    /// The world as it is now.
    pub fn world(&self) -> (w: &World)
        ensures
            *w == self.world,
    {
        &self.world
    }

    /// How many steps the current generation has lived.
    pub fn age(&self) -> (a: usize)
        ensures
            a == self.age,
    {
        self.age
    }

    /// One step of the simulation. Where the generation has reached its full
    /// age the animals are then replaced by their offspring, and the
    /// statistics of the generation that ends are returned.
    pub fn step(&mut self, rng: &mut ChaCha8Rng) -> (r: Option<Statistics>)
        requires
            old(self).wf(),
        ensures
            final(self).wf(),
            final(self).ga == old(self).ga,
            final(self).config == old(self).config,
            final(self).world.animals.len() == old(self).world.animals.len(),
            final(self).world.foods.len() == old(self).world.foods.len(),
            r is Some <==> old(self).age == old(self).config.generation_length,
            r is Some ==> all_drawn(final(self).world.foods@),
            final(self).age == if r is Some {
                0
            } else {
                old(self).age + 1
            },
            exists|animals: Seq<Animal>, foods: Seq<Food>|
                {
                    &&& #[trigger] stepped(
                        old(self).world.animals@,
                        old(self).world.foods@,
                        animals,
                        foods,
                        old(self).config,
                    )
                    &&& match r {
                        None => final(self).world.animals@ == animals && final(self).world.foods@
                            == foods,
                        Some(stats) => stats.summarises(fitness_of_animals(animals)) && bred(
                            old(self).ga,
                            old(self).config,
                            animals,
                            final(self).world.animals@,
                        ),
                    }
                },
    {
        self.process_collisions(rng);
        let ghost eaten = self.world.animals@;
        let ghost foods = self.world.foods@;
        self.process_brains();
        self.process_movements();
        let ghost animals = self.world.animals@;
        proof {
            assert(stepped(
                old(self).world.animals@,
                old(self).world.foods@,
                animals,
                foods,
                old(self).config,
            ));
        }
        self.age += 1;
        if self.age > self.config.generation_length {
            Some(self.evolve(rng))
        } else {
            None
        }
    }

    /// Steps until the generation ends: as many steps as the generation has
    /// left to live and one more, the last of which replaces the animals.
    /// Returns the statistics of the animals as they were when it ended.
    pub fn train(&mut self, rng: &mut ChaCha8Rng) -> (stats: Statistics)
        requires
            old(self).wf(),
        ensures
            final(self).wf(),
            final(self).age == 0,
            final(self).ga == old(self).ga,
            final(self).config == old(self).config,
            final(self).world.animals.len() == old(self).world.animals.len(),
            final(self).world.foods.len() == old(self).world.foods.len(),
            all_drawn(final(self).world.foods@),
            exists|animals: Seq<Animal>, foods: Seq<Food>|
                {
                    &&& #[trigger] stepped_times(
                        old(self).world.animals@,
                        old(self).world.foods@,
                        animals,
                        foods,
                        old(self).config,
                        (old(self).config.generation_length - old(self).age + 1) as nat,
                    )
                    &&& stats.summarises(fitness_of_animals(animals))
                    &&& bred(old(self).ga, old(self).config, animals, final(self).world.animals@)
                },
    {
        loop
            invariant
                self.wf(),
                self.ga == old(self).ga,
                self.config == old(self).config,
                self.world.animals.len() == old(self).world.animals.len(),
                self.world.foods.len() == old(self).world.foods.len(),
                self.age >= old(self).age,
                stepped_times(
                    old(self).world.animals@,
                    old(self).world.foods@,
                    self.world.animals@,
                    self.world.foods@,
                    self.config,
                    (self.age - old(self).age) as nat,
                ),
            decreases self.config.generation_length - self.age,
        {
            let ghost here = self.world.animals@;
            let ghost foods_here = self.world.foods@;
            let ghost taken = (self.age - old(self).age) as nat;
            match self.step(rng) {
                Some(stats) => {
                    proof {
                        let (animals, foods) = choose|animals: Seq<Animal>, foods: Seq<Food>|
                            {
                                &&& #[trigger] stepped(here, foods_here, animals, foods, self.config)
                                &&& stats.summarises(fitness_of_animals(animals))
                                &&& bred(self.ga, self.config, animals, self.world.animals@)
                            };
                        assert(stepped(here, foods_here, animals, foods, self.config));
                        assert(stepped_times(
                            old(self).world.animals@,
                            old(self).world.foods@,
                            animals,
                            foods,
                            self.config,
                            taken + 1,
                        ));
                    }
                    return stats;
                },
                None => {
                    proof {
                        assert(stepped(
                            here,
                            foods_here,
                            self.world.animals@,
                            self.world.foods@,
                            self.config,
                        ));
                        assert(stepped_times(
                            old(self).world.animals@,
                            old(self).world.foods@,
                            self.world.animals@,
                            self.world.foods@,
                            self.config,
                            taken + 1,
                        ));
                    }
                },
            }
        }
    }

    /// The animals eat in turn: each item of food in reach of an animal counts
    /// as one meal for it and comes back at a random place.
    pub fn process_collisions(&mut self, rng: &mut ChaCha8Rng)
        requires
            old(self).wf(),
        ensures
            final(self).wf(),
            final(self).ga == old(self).ga,
            final(self).config == old(self).config,
            final(self).age == old(self).age,
            final(self).world.foods.len() == old(self).world.foods.len(),
            exists|trace: Seq<Seq<Food>>|
                grazed(
                    old(self).world.animals@,
                    old(self).world.foods@,
                    final(self).world.animals@,
                    final(self).world.foods@,
                    trace,
                    old(self).config.eat_range,
                ),
    {
        let ghost mut trace: Seq<Seq<Food>> = seq![self.world.foods@];
        let mut i: usize = 0;
        while i < self.world.animals.len()
            invariant
                i <= self.world.animals.len(),
                old(self).wf(),
                self.ga == old(self).ga,
                self.config == old(self).config,
                self.age == old(self).age,
                self.world.animals.len() == old(self).world.animals.len(),
                self.world.foods.len() == old(self).world.foods.len(),
                all_on_torus(self.world.foods@),
                trace.len() == i + 1,
                trace[0] == old(self).world.foods@,
                trace[i as int] == self.world.foods@,
                forall|k: int|
                    0 <= k < i ==> #[trigger] took_turn(
                        old(self).world.animals@,
                        self.world.animals@,
                        trace,
                        self.config.eat_range,
                        k,
                    ),
                forall|k: int|
                    i <= k < self.world.animals.len() ==> #[trigger] self.world.animals[k] == old(
                        self,
                    ).world.animals[k],
            decreases self.world.animals.len() - i,
        {
            proof {
                assert(old(self).world.animals[i as int].wf());
            }
            let ghost before = self.world.animals@;
            let ghost foods_before = self.world.foods@;
            let range: Scalar = self.config.eat_range;
            self.world.animals[i].eat(&mut self.world.foods, rng, range);
            proof {
                assert(forall|k: int|
                    0 <= k < before.len() && k != i ==> self.world.animals[k] == before[k]);
                let longer = trace.push(self.world.foods@);
                assert(fed(
                    old(self).world.animals[i as int].position,
                    foods_before,
                    self.world.foods@,
                    range,
                ));
                assert forall|k: int| 0 <= k < i + 1 implies #[trigger] took_turn(
                    old(self).world.animals@,
                    self.world.animals@,
                    longer,
                    range,
                    k,
                ) by {
                    if k < i {
                        assert(took_turn(old(self).world.animals@, before, trace, range, k));
                        assert(longer[k] == trace[k]);
                        assert(longer[k + 1] == trace[k + 1]);
                        assert(self.world.animals[k] == before[k]);
                    } else {
                        assert(longer[k] == foods_before);
                        assert(longer[k + 1] == self.world.foods@);
                    }
                }
                trace = longer;
            }
            i += 1;

        }
        proof {
            assert(grazed(
                old(self).world.animals@,
                old(self).world.foods@,
                self.world.animals@,
                self.world.foods@,
                trace,
                self.config.eat_range,
            ));
            assert forall|k: int| 0 <= k < self.world.animals.len() implies (
            #[trigger] self.world.animals[k]) == old(self).world.animals[k].after_eating(
                trace[k],
                self.config.eat_range,
            ) by {
                assert(took_turn(
                    old(self).world.animals@,
                    self.world.animals@,
                    trace,
                    self.config.eat_range,
                    k,
                ));
            }
            lemma_herd_kept(old(self).world.animals@, self.world.animals@);
        }
    }

    /// Each animal lets its brain steer it in sight of the food.
    pub fn process_brains(&mut self)
        requires
            old(self).wf(),
        ensures
            final(self).wf(),
            final(self).ga == old(self).ga,
            final(self).config == old(self).config,
            final(self).age == old(self).age,
            final(self).world.foods@ == old(self).world.foods@,
            final(self).world.animals@ == thought(
                old(self).world.animals@,
                old(self).world.foods@,
                old(self).config,
            ),
    {
        let mut i: usize = 0;
        while i < self.world.animals.len()
            invariant
                i <= self.world.animals.len(),
                old(self).wf(),
                self.ga == old(self).ga,
                self.config == old(self).config,
                self.age == old(self).age,
                self.world.foods@ == old(self).world.foods@,
                self.world.animals.len() == old(self).world.animals.len(),
                forall|k: int|
                    0 <= k < i ==> #[trigger] self.world.animals[k] == old(
                        self,
                    ).world.animals[k].after_thinking(old(self).world.foods@, old(self).config),
                forall|k: int|
                    i <= k < self.world.animals.len() ==> #[trigger] self.world.animals[k] == old(
                        self,
                    ).world.animals[k],
            decreases self.world.animals.len() - i,
        {
            proof {
                assert(old(self).world.animals[i as int].wf());
            }
            let ghost before = self.world.animals@;
            self.world.animals[i].think(self.world.foods.as_slice(), &self.config);
            proof {
                assert(forall|k: int|
                    0 <= k < before.len() && k != i ==> self.world.animals[k] == before[k]);
            }
            i += 1;
        }
        proof {
            assert(self.world.animals@ =~= thought(
                old(self).world.animals@,
                old(self).world.foods@,
                old(self).config,
            ));
            lemma_herd_kept(old(self).world.animals@, self.world.animals@);
        }
    }

    /// Each animal moves one step along its heading, around the torus.
    pub fn process_movements(&mut self)
        requires
            old(self).wf(),
        ensures
            final(self).wf(),
            final(self).ga == old(self).ga,
            final(self).config == old(self).config,
            final(self).age == old(self).age,
            final(self).world.foods@ == old(self).world.foods@,
            final(self).world.animals@ == walked(old(self).world.animals@),
    {
        let mut i: usize = 0;
        while i < self.world.animals.len()
            invariant
                i <= self.world.animals.len(),
                old(self).wf(),
                self.ga == old(self).ga,
                self.config == old(self).config,
                self.age == old(self).age,
                self.world.foods@ == old(self).world.foods@,
                self.world.animals.len() == old(self).world.animals.len(),
                forall|k: int|
                    0 <= k < i ==> #[trigger] self.world.animals[k] == old(
                        self,
                    ).world.animals[k].after_moving(),
                forall|k: int|
                    i <= k < self.world.animals.len() ==> #[trigger] self.world.animals[k] == old(
                        self,
                    ).world.animals[k],
            decreases self.world.animals.len() - i,
        {
            proof {
                assert(old(self).world.animals[i as int].wf());
            }
            let ghost before = self.world.animals@;
            self.world.animals[i].advance();
            proof {
                assert(forall|k: int|
                    0 <= k < before.len() && k != i ==> self.world.animals[k] == before[k]);
            }
            i += 1;
        }
        proof {
            assert(self.world.animals@ =~= walked(old(self).world.animals@));
            assert forall|k: int| 0 <= k < self.world.animals.len() implies (
            #[trigger] self.world.animals[k]).position.on_torus() by {
                crate::animal::lemma_moved_on_torus(
                    old(self).world.animals[k].position,
                    old(self).world.animals[k].rotation,
                    old(self).world.animals[k].speed,
                );
            }
            lemma_herd_kept(old(self).world.animals@, self.world.animals@);
        }
    }

    /// Ends the generation: the animals are replaced by as many offspring,
    /// bred by the genetic algorithm with the number of meals as fitness, every
    /// item of food comes back at a place drawn at random, and the age starts
    /// again at 0. Returns the statistics of the generation that ends.
    pub fn evolve(&mut self, rng: &mut ChaCha8Rng) -> (stats: Statistics)
        requires
            old(self).world.wf(),
            old(self).ga.mutation_method.valid(),
            old(self).config.wf(),
        ensures
            final(self).world.wf(),
            final(self).age == 0,
            final(self).ga == old(self).ga,
            final(self).config == old(self).config,
            final(self).world.foods.len() == old(self).world.foods.len(),
            all_drawn(final(self).world.foods@),
            stats.summarises(fitness_of_animals(old(self).world.animals@)),
            bred(
                old(self).ga,
                old(self).config,
                old(self).world.animals@,
                final(self).world.animals@,
            ),
    {
        self.age = 0;
        let count: usize = self.world.animals.len();
        let mut population: Vec<AnimalIndividual> = Vec::new();
        let mut i: usize = 0;
        while i < count
            invariant
                i <= count,
                count == self.world.animals.len(),
                population.len() == i,
                forall|k: int|
                    0 <= k < i ==> (#[trigger] population[k]).satiation
                        == self.world.animals[k].satiation && population[k].chromosome@
                        == self.world.animals[k].brain.genes(),
            decreases count - i,
        {
            let individual = AnimalIndividual::from_animal(&self.world.animals[i]);
            population.push(individual);
            i += 1;
        }
        let ghost before = self.world.animals@;
        proof {
            assert(fitness_of(population@) =~= fitness_of_animals(before));
            assert(genes_of(population@) =~= genes_of_animals(before));
            assert forall|a: int, b: int|
                0 <= a < population.len() && 0 <= b < population.len() implies population[a].genes().len()
                == population[b].genes().len() by {
                assert(before[a].wf() && before[b].wf());
                lemma_fitting_brain(before[a].brain, before[a].eye);
                lemma_fitting_brain(before[b].brain, before[b].eye);
            }
        }
        let (mut evolved, stats): (Vec<AnimalIndividual>, Statistics) = self.ga.evolve(
            rng,
            population.as_slice(),
        );
        let ghost all = evolved@;
        let mut animals: Vec<Animal> = Vec::new();
        let mut k: usize = 0;
        while k < count
            invariant
                k <= count,
                count == before.len(),
                self.config == old(self).config,
                self.config.wf(),
                self.world.animals@ == before,
                herd(before),
                all.len() == count,
                evolved@ == all.subrange(k as int, count as int),
                animals.len() == k,
                forall|j: int|
                    0 <= j < count ==> (#[trigger] all[j]).genes().len() == before[0].brain.genes().len(),
                forall|j: int|
                    0 <= j < k ==> {
                        &&& (#[trigger] animals[j]).wf()
                        &&& animals[j].satiation == 0
                        &&& self.config.speed_min <= animals[j].speed <= self.config.speed_max
                        &&& -PI <= animals[j].rotation < PI
                        &&& animals[j].eye == before[j].eye
                        &&& animals[j].brain.genes() == all[j].genes()
                    },
            decreases count - k,
        {
            let eye: Eye = self.world.animals[k].eye;
            proof {
                assert(before[k as int].wf() && before[0].wf());
                lemma_fitting_brain(before[0].brain, before[0].eye);
                assert(evolved@[0] == all[k as int]);
            }
            let individual: AnimalIndividual = evolved.remove(0);
            proof {
                assert(evolved@ =~= all.subrange(k + 1, count as int));
            }
            let animal: Animal = individual.into_animal(eye, rng, &self.config);
            animals.push(animal);
            k += 1;
        }
        self.world.animals = animals;
        let mut f: usize = 0;
        while f < self.world.foods.len()
            invariant
                f <= self.world.foods.len(),
                self.world.foods.len() == old(self).world.foods.len(),
                self.world.animals@ == animals@,
                self.ga == old(self).ga,
                self.config == old(self).config,
                self.age == 0,
                forall|j: int|
                    0 <= j < f ==> (#[trigger] self.world.foods[j]).position.on_torus() && drawn_point(
                        self.world.foods[j].position,
                    ),
            decreases self.world.foods.len() - f,
        {
            let fresh: Food = Food::random(rng);
            self.world.foods.set(f, fresh);
            f += 1;
        }
        proof {
            assert forall|j: int| 0 <= j < animals.len() implies self.ga.bred_from(
                fitness_of_animals(before),
                genes_of_animals(before),
                (#[trigger] animals[j]).brain.genes(),
            ) by {
                assert(self.ga.bred_from(
                    fitness_of(population@),
                    genes_of(population@),
                    all[j].genes(),
                ));
            }
            assert forall|j: int| 0 <= j < animals.len() implies (#[trigger] animals[j]).eye.cells
                == animals[0].eye.cells by {
                assert(before[j].wf());
            }
        }
        stats
    }
}

} // verus!
