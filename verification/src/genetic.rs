//! The genetic algorithm: roulette-wheel selection, uniform crossover and
//! bounded random mutation over chromosomes of scalars, and the statistics of
//! the population that an evolution replaces.

use vstd::prelude::*;
use vstd::arithmetic::div_mod::lemma_fundamental_div_mod_converse;
use rand_chacha::ChaCha8Rng;
use crate::random::{
    draw_below, happens, happens_on, heads, heads_on, next_word, random_index, unit, unit_of,
};
use crate::scalar::{
    Scalar, ONE, difference, floor_div_mod, lemma_product_shrinks, product, sat_add, sat_mul,
    sat_sub, sum,
};

verus! {

/// The heritable state of one individual: its genes, in order.
pub type Chromosome = Vec<Scalar>;

/// Anything that has a fitness and a chromosome and can be made from a
/// chromosome.
pub trait Individual: Sized {
    /// The genes of this individual.
    spec fn genes(&self) -> Seq<Scalar>;

    /// The fitness of this individual.
    spec fn fitness_value(&self) -> Scalar;

    /// The individual with these genes.
    fn create(chromosome: Chromosome) -> (r: Self)
        ensures
            r.genes() == chromosome@,
    ;

    /// The chromosome that holds the genes.
    fn chromosome(&self) -> (c: &Chromosome)
        ensures
            c@ == self.genes(),
    ;

    /// The fitness, which is never negative.
    fn fitness(&self) -> (f: Scalar)
        ensures
            f == self.fitness_value(),
            f >= 0,
    ;
}

/// A way to pick one parent from a population.
pub trait SelectionMethod {
    /// Whether this method may pick the individual at `index`.
    spec fn eligible(&self, fitness: Seq<Scalar>, index: int) -> bool;

    /// The index of the individual picked.
    fn select<I: Individual>(&self, rng: &mut ChaCha8Rng, population: &[I]) -> (index: usize)
        requires
            population.len() > 0,
        ensures
            index < population.len(),
            self.eligible(fitness_of(population@), index as int),
    ;
}

/// A way to make one chromosome from two.
pub trait CrossoverMethod {
    /// Whether `child` may come from the parents `a` and `b`.
    spec fn offspring(&self, a: Seq<Scalar>, b: Seq<Scalar>, child: Seq<Scalar>) -> bool;

    /// A child of two parents of equal length, as long as they are.
    fn crossover(&self, rng: &mut ChaCha8Rng, parent_a: &Chromosome, parent_b: &Chromosome) -> (child:
        Chromosome)
        requires
            parent_a.len() == parent_b.len(),
        ensures
            child.len() == parent_a.len(),
            self.offspring(parent_a@, parent_b@, child@),
    ;
}

/// A way to change a chromosome in place.
pub trait MutationMethod {
    /// The parameters of the method are in their ranges.
    spec fn valid(&self) -> bool;

    /// Whether `after` may come from `before`.
    spec fn mutant(&self, before: Seq<Scalar>, after: Seq<Scalar>) -> bool;

    /// Changes `child` in place and keeps its length.
    fn mutate(&self, rng: &mut ChaCha8Rng, child: &mut Chromosome)
        requires
            self.valid(),
        ensures
            final(child).len() == old(child).len(),
            self.mutant(old(child)@, final(child)@),
    ;
}

/// The fitness of each individual of a population, in order.
pub open spec fn fitness_of<I: Individual>(population: Seq<I>) -> Seq<Scalar> {
    Seq::new(population.len(), |i: int| population[i].fitness_value())
}

/// The genes of each individual of a population, in order.
pub open spec fn genes_of<I: Individual>(population: Seq<I>) -> Seq<Seq<Scalar>> {
    Seq::new(population.len(), |i: int| population[i].genes())
}

/// The sum of some values.
pub open spec fn total(values: Seq<Scalar>) -> int
    decreases values.len(),
{
    if values.len() == 0 {
        0
    } else {
        total(values.drop_last()) + values.last()
    }
}

/// The least, the greatest and the mean fitness of a population.
#[derive(Debug, Clone, Copy)]
pub struct Statistics {
    pub min_fitness: Scalar,
    pub max_fitness: Scalar,
    pub avg_fitness: Scalar,
}

impl Statistics {
    /// These are the statistics of `values`: the least and the greatest of
    /// them, and their arithmetic mean rounded down.
    pub open spec fn summarises(self, values: Seq<Scalar>) -> bool {
        &&& values.len() > 0
        &&& exists|i: int| 0 <= i < values.len() && values[i] == self.min_fitness
        &&& exists|i: int| 0 <= i < values.len() && values[i] == self.max_fitness
        &&& forall|i: int|
            0 <= i < values.len() ==> self.min_fitness <= #[trigger] values[i] && values[i]
                <= self.max_fitness
        &&& self.avg_fitness == total(values) / (values.len() as int)
    }

    /// The statistics of some fitness values.
    pub fn of(values: &Vec<Scalar>) -> (stats: Statistics)
        requires
            values.len() > 0,
        ensures
            stats.summarises(values@),
            stats.min_fitness <= stats.avg_fitness <= stats.max_fitness,
    {
        let mut least: Scalar = values[0];
        let mut greatest: Scalar = values[0];
        let mut acc: i128 = values[0] as i128;
        let mut i: usize = 1;
        proof {
            assert(values@.take(1).drop_last() =~= Seq::<Scalar>::empty());
            assert(total(values@.take(1)) == values[0]) by {
                assert(total(values@.take(1).drop_last()) == 0);
            }
            assert(1 * least == least && 1 * greatest == greatest);
        }
        while i < values.len()
            invariant
                1 <= i <= values.len(),
                acc == total(values@.take(i as int)),
                i * least <= acc <= i * greatest,
                exists|k: int| 0 <= k < i && values[k] == least,
                exists|k: int| 0 <= k < i && values[k] == greatest,
                forall|k: int| 0 <= k < i ==> least <= #[trigger] values[k] && values[k] <= greatest,
            decreases values.len() - i,
        {
            let value: Scalar = values[i];
            let ghost old_least = least;
            let ghost old_greatest = greatest;
            if value < least {
                least = value;
            }
            if value > greatest {
                greatest = value;
            }
            proof {
                assert(values@.take(i + 1).drop_last() =~= values@.take(i as int));
                lemma_mean_bounds_grow(
                    i as int,
                    acc as int,
                    old_least as int,
                    old_greatest as int,
                    value as int,
                    least as int,
                    greatest as int,
                );
                lemma_count_bounds(i as int + 1, least as int, greatest as int);
            }
            acc = acc + value as i128;
            i += 1;
        }
        proof {
            assert(values@.take(values.len() as int) =~= values@);
            lemma_mean_between(values.len() as int, acc as int, least as int, greatest as int);
            lemma_count_bounds(values.len() as int, least as int, greatest as int);
        }
        let (mean, _rest): (i128, i128) = floor_div_mod(acc, values.len() as i128);
        Statistics { min_fitness: least, max_fitness: greatest, avg_fitness: mean as i64 }
    }
}

/// Adding one value keeps a sum between the count times the least and the
/// count times the greatest.
pub proof fn lemma_mean_bounds_grow(
    n: int,
    acc: int,
    lo: int,
    hi: int,
    value: int,
    new_lo: int,
    new_hi: int,
)
    by (nonlinear_arith)
    requires
        n >= 0,
        n * lo <= acc <= n * hi,
        new_lo <= lo,
        new_lo <= value,
        hi <= new_hi,
        value <= new_hi,
    ensures
        (n + 1) * new_lo <= acc + value <= (n + 1) * new_hi,
{
}

/// A count of 64-bit values times a 64-bit value stays well inside 128 bits.
pub proof fn lemma_count_bounds(n: int, lo: int, hi: int)
    by (nonlinear_arith)
    requires
        0 <= n <= 0xffff_ffff_ffff_ffff,
        -0x8000_0000_0000_0000 <= lo <= hi <= 0x7fff_ffff_ffff_ffff,
    ensures
        -0x8000_0000_0000_0000_0000_0000_0000_0000 < n * lo,
        n * hi < 0x7fff_ffff_ffff_ffff_ffff_ffff_ffff_ffff,
{
}

/// The mean of values between `lo` and `hi` lies between `lo` and `hi`.
pub proof fn lemma_mean_between(n: int, acc: int, lo: int, hi: int)
    requires
        n > 0,
        n * lo <= acc <= n * hi,
    ensures
        lo <= acc / n <= hi,
{
    let q = acc / n;
    let r = acc % n;
    vstd::arithmetic::div_mod::lemma_fundamental_div_mod(acc, n);
    vstd::arithmetic::div_mod::lemma_mod_bound(acc, n);
    assert(lo <= q <= hi) by (nonlinear_arith)
        requires
            n > 0,
            n * lo <= acc <= n * hi,
            acc == n * q + r,
            0 <= r < n,
    ;
}

/// The fitness values of a population.
pub fn fitness_values<I: Individual>(population: &[I]) -> (values: Vec<Scalar>)
    ensures
        values@ == fitness_of(population@),
        forall|i: int| 0 <= i < values.len() ==> values[i] >= 0,
{
    let mut values: Vec<Scalar> = Vec::new();
    let mut i: usize = 0;
    while i < population.len()
        invariant
            i <= population.len(),
            values.len() == i,
            forall|k: int| 0 <= k < i ==> values[k] == (#[trigger] population[k]).fitness_value(),
            forall|k: int| 0 <= k < i ==> values[k] >= 0,
        decreases population.len() - i,
    {
        let f: Scalar = population[i].fitness();
        values.push(f);
        i += 1;
    }
    proof {
        assert(values@ =~= fitness_of(population@));
    }
    values
}

/// Selection with a probability proportional to fitness. Where every fitness
/// is 0 the pick is uniform over the population.
#[derive(Debug, Clone, Copy, Default)]
pub struct RouletteWheelSelection;

/// The slot of the wheel on which `draw` falls: the first index at which the
/// running sum of the fitness values exceeds the draw.
pub open spec fn on_wheel(fitness: Seq<Scalar>, draw: int, index: int) -> bool {
    &&& 0 <= index < fitness.len()
    &&& total(fitness.take(index)) <= draw < total(fitness.take(index + 1))
}

/// The index of the slot of the wheel on which `draw` falls.
pub fn wheel_index(fitness: &Vec<Scalar>, draw: u128) -> (index: usize)
    requires
        forall|i: int| 0 <= i < fitness.len() ==> fitness[i] >= 0,
        draw < total(fitness@),
    ensures
        on_wheel(fitness@, draw as int, index as int),
        fitness[index as int] > 0,
{
    let mut acc: u128 = 0;
    let mut i: usize = 0;
    proof {
        assert(fitness@.take(0) =~= Seq::<Scalar>::empty());
    }
    while i < fitness.len()
        invariant
            i <= fitness.len(),
            forall|k: int| 0 <= k < fitness.len() ==> fitness[k] >= 0,
            acc == total(fitness@.take(i as int)),
            acc <= draw < total(fitness@),
        decreases fitness.len() - i,
    {
        let slot: u128 = fitness[i] as u128;
        proof {
            assert(fitness@.take(i + 1).drop_last() =~= fitness@.take(i as int));
        }
        if draw - acc < slot {
            return i;
        }
        acc = acc + slot;
        i += 1;
    }
    proof {
        assert(fitness@.take(fitness.len() as int) =~= fitness@);
        assert(false);
    }
    0
}

/// The total fitness of the wheel.
pub fn wheel_total(fitness: &Vec<Scalar>) -> (sum: u128)
    requires
        forall|i: int| 0 <= i < fitness.len() ==> fitness[i] >= 0,
    ensures
        sum == total(fitness@),
{
    let mut acc: u128 = 0;
    let mut i: usize = 0;
    proof {
        assert(fitness@.take(0) =~= Seq::<Scalar>::empty());
    }
    while i < fitness.len()
        invariant
            i <= fitness.len(),
            forall|k: int| 0 <= k < fitness.len() ==> fitness[k] >= 0,
            acc == total(fitness@.take(i as int)),
            acc <= i * 0x7fff_ffff_ffff_ffff,
        decreases fitness.len() - i,
    {
        proof {
            assert(fitness@.take(i + 1).drop_last() =~= fitness@.take(i as int));
        }
        acc = acc + fitness[i] as u128;
        i += 1;
    }
    proof {
        assert(fitness@.take(fitness.len() as int) =~= fitness@);
    }
    acc
}

impl SelectionMethod for RouletteWheelSelection {
    /// An individual of fitness 0 is picked only where every fitness is 0.
    open spec fn eligible(&self, fitness: Seq<Scalar>, index: int) -> bool {
        &&& 0 <= index < fitness.len()
        &&& total(fitness) > 0 ==> fitness[index] > 0
    }

    fn select<I: Individual>(&self, rng: &mut ChaCha8Rng, population: &[I]) -> (index: usize) {
        let fitness: Vec<Scalar> = fitness_values(population);
        let sum: u128 = wheel_total(&fitness);
        if sum == 0 {
            random_index(rng, population.len())
        } else {
            let draw: u128 = draw_below(rng, sum);
            wheel_index(&fitness, draw)
        }
    }
}

/// Crossover that takes each gene from one parent or the other with equal
/// chance.
#[derive(Debug, Clone, Copy, Default)]
pub struct UniformCrossover;

/// The gene that a child gets on this random word: that of the first parent on
/// heads, that of the second on tails.
pub open spec fn picked_gene(word: u32, a: Scalar, b: Scalar) -> Scalar {
    if heads_on(word) {
        a
    } else {
        b
    }
}

/// The gene that a child gets on this random word.
pub fn pick_gene(word: u32, a: Scalar, b: Scalar) -> (gene: Scalar)
    ensures
        gene == picked_gene(word, a, b),
{
    if heads(word) {
        a
    } else {
        b
    }
}

impl CrossoverMethod for UniformCrossover {
    /// The child is as long as its parents, and each of its genes is the gene
    /// of one parent at the same place.
    open spec fn offspring(&self, a: Seq<Scalar>, b: Seq<Scalar>, child: Seq<Scalar>) -> bool {
        &&& child.len() == a.len()
        &&& forall|i: int| 0 <= i < child.len() ==> child[i] == a[i] || child[i] == b[i]
    }

    fn crossover(&self, rng: &mut ChaCha8Rng, parent_a: &Chromosome, parent_b: &Chromosome) -> (child:
        Chromosome) {
        let mut child: Vec<Scalar> = Vec::new();
        let mut i: usize = 0;
        while i < parent_a.len()
            invariant
                i <= parent_a.len(),
                parent_a.len() == parent_b.len(),
                child.len() == i,
                forall|k: int| 0 <= k < i ==> child[k] == parent_a[k] || child[k] == parent_b[k],
            decreases parent_a.len() - i,
        {
            let word: u32 = next_word(rng);
            child.push(pick_gene(word, parent_a[i], parent_b[i]));
            i += 1;
        }
        child
    }
}

/// Mutation that, with a given chance for each gene, adds to it or takes from
/// it a random amount of at most a given size.
#[derive(Debug, Clone, Copy)]
pub struct GaussianMutation {
    /// The probability that a gene is changed, from 0 to 1.
    pub chance: Scalar,
    /// The greatest size of a change.
    pub coeff: Scalar,
}

impl GaussianMutation {
    /// A mutation with the given chance for each gene and the given greatest
    /// size of a change.
    pub fn new(chance: Scalar, coeff: Scalar) -> (m: GaussianMutation)
        requires
            0 <= chance <= ONE,
            coeff >= 0,
        ensures
            m.chance == chance,
            m.coeff == coeff,
            m.valid(),
    {
        GaussianMutation { chance, coeff }
    }

    /// What becomes of a gene on three random words: whether it changes at
    /// all, by how much, and in which direction.
    pub open spec fn mutated_gene(
        self,
        gene: Scalar,
        sign_word: u32,
        chance_word: u32,
        size_word: u32,
    ) -> Scalar {
        if happens_on(chance_word, self.chance) {
            let step = product(self.coeff, unit_of(size_word));
            if heads_on(sign_word) {
                difference(gene, step)
            } else {
                sum(gene, step)
            }
        } else {
            gene
        }
    }

    /// `after` is what some three random words make of the gene `before`.
    pub open spec fn gene_outcome(self, before: Scalar, after: Scalar) -> bool {
        exists|sign_word: u32, chance_word: u32, size_word: u32|
            after == #[trigger] self.mutated_gene(before, sign_word, chance_word, size_word)
    }

    /// What becomes of a gene on three random words.
    pub fn mutate_gene(&self, gene: Scalar, sign_word: u32, chance_word: u32, size_word: u32) -> (r:
        Scalar)
        requires
            self.valid(),
        ensures
            r == self.mutated_gene(gene, sign_word, chance_word, size_word),
            -self.coeff <= r - gene <= self.coeff,
            self.chance == 0 ==> r == gene,
            self.coeff == 0 ==> r == gene,
    {
        if happens(chance_word, self.chance) {
            let fraction: Scalar = unit(size_word);
            proof {
                lemma_product_shrinks(self.coeff, fraction);
            }
            let step: Scalar = sat_mul(self.coeff, fraction);
            if heads(sign_word) {
                sat_sub(gene, step)
            } else {
                sat_add(gene, step)
            }
        } else {
            gene
        }
    }
}

impl MutationMethod for GaussianMutation {
    open spec fn valid(&self) -> bool {
        0 <= self.chance <= ONE && self.coeff >= 0
    }

    /// Every gene is what three random words of its own make of it: left as
    /// it was, or moved up or down by a share of the coefficient. So no gene
    /// moves by more than the coefficient, and with a chance of 0 or a
    /// coefficient of 0 no gene moves at all.
    open spec fn mutant(&self, before: Seq<Scalar>, after: Seq<Scalar>) -> bool {
        &&& after.len() == before.len()
        &&& forall|i: int|
            0 <= i < after.len() ==> #[trigger] self.gene_outcome(before[i], after[i])
        &&& forall|i: int|
            0 <= i < after.len() ==> -self.coeff <= #[trigger] after[i] - before[i] <= self.coeff
        &&& self.chance == 0 || self.coeff == 0 ==> after == before
    }

    fn mutate(&self, rng: &mut ChaCha8Rng, child: &mut Chromosome) {
        let mut i: usize = 0;
        while i < child.len()
            invariant
                i <= child.len(),
                self.valid(),
                child.len() == old(child).len(),
                forall|k: int| i <= k < child.len() ==> child[k] == old(child)[k],
                forall|k: int|
                    0 <= k < i ==> #[trigger] self.gene_outcome(old(child)[k], child[k]),
                forall|k: int|
                    0 <= k < i ==> -self.coeff <= #[trigger] child[k] - old(child)[k] <= self.coeff,
                self.chance == 0 || self.coeff == 0 ==> forall|k: int|
                    0 <= k < i ==> child[k] == old(child)[k],
            decreases child.len() - i,
        {
            let sign_word: u32 = next_word(rng);
            let chance_word: u32 = next_word(rng);
            let size_word: u32 = next_word(rng);
            let gene: Scalar = child[i];
            let changed: Scalar = self.mutate_gene(gene, sign_word, chance_word, size_word);
            proof {
                assert(self.gene_outcome(gene, changed));
            }
            child.set(i, changed);
            i += 1;
        }
        proof {
            if self.chance == 0 || self.coeff == 0 {
                assert(child@ =~= old(child)@);
            }
        }
    }
}

/// The three methods that together make one generation from the last.
pub struct GeneticAlgorithm<S, C, M> {
    pub selection_method: S,
    pub crossover_method: C,
    pub mutation_method: M,
}

impl<S: SelectionMethod, C: CrossoverMethod, M: MutationMethod> GeneticAlgorithm<S, C, M> {
    /// A genetic algorithm made of the three methods.
    pub fn new(selection_method: S, crossover_method: C, mutation_method: M) -> (ga: Self)
        ensures
            ga.selection_method == selection_method,
            ga.crossover_method == crossover_method,
            ga.mutation_method == mutation_method,
    {
        GeneticAlgorithm { selection_method, crossover_method, mutation_method }
    }

    /// `child` may be bred from a population with these fitness values and
    /// these genes: two individuals that the selection may pick have an
    /// offspring of which `child` is a mutant.
    pub open spec fn bred_from(
        self,
        fitness: Seq<Scalar>,
        genes: Seq<Seq<Scalar>>,
        child: Seq<Scalar>,
    ) -> bool {
        exists|a: int, b: int, mixed: Seq<Scalar>|
            {
                &&& 0 <= a < genes.len()
                &&& 0 <= b < genes.len()
                &&& self.selection_method.eligible(fitness, a)
                &&& self.selection_method.eligible(fitness, b)
                &&& #[trigger] self.crossover_method.offspring(genes[a], genes[b], mixed)
                &&& self.mutation_method.mutant(mixed, child)
            }
    }

    /// One generation: as many new individuals as there were, each bred from
    /// two parents picked from `population`, and the statistics of
    /// `population` itself.
    pub fn evolve<I: Individual>(&self, rng: &mut ChaCha8Rng, population: &[I]) -> (r: (
        Vec<I>,
        Statistics,
    ))
        requires
            population.len() > 0,
            self.mutation_method.valid(),
            forall|i: int, j: int|
                0 <= i < population.len() && 0 <= j < population.len() ==> population[i].genes().len()
                    == population[j].genes().len(),
        ensures
            r.0.len() == population.len(),
            r.1.summarises(fitness_of(population@)),
            forall|k: int|
                0 <= k < r.0.len() ==> (#[trigger] r.0[k]).genes().len() == population[0].genes().len(),
            forall|k: int| 0 <= k < r.0.len() ==> self.bred_from(
                    fitness_of(population@),
                    genes_of(population@),
                    (#[trigger] r.0[k]).genes(),
                ),
    {
        let fitness: Vec<Scalar> = fitness_values(population);
        let stats: Statistics = Statistics::of(&fitness);
        let mut next: Vec<I> = Vec::new();
        let mut n: usize = 0;
        while n < population.len()
            invariant
                n <= population.len(),
                population.len() > 0,
                self.mutation_method.valid(),
                forall|i: int, j: int|
                    0 <= i < population.len() && 0 <= j < population.len()
                        ==> population[i].genes().len() == population[j].genes().len(),
                next.len() == n,
                forall|k: int|
                    0 <= k < n ==> (#[trigger] next[k]).genes().len() == population[0].genes().len(),
                forall|k: int| 0 <= k < n ==> self.bred_from(
                        fitness_of(population@),
                        genes_of(population@),
                        (#[trigger] next[k]).genes(),
                    ),
            decreases population.len() - n,
        {
            let a: usize = self.selection_method.select(rng, population);
            let b: usize = self.selection_method.select(rng, population);
            let parent_a: &Chromosome = population[a].chromosome();
            let parent_b: &Chromosome = population[b].chromosome();
            let mut child: Chromosome = self.crossover_method.crossover(rng, parent_a, parent_b);
            let ghost mixed = child@;
            self.mutation_method.mutate(rng, &mut child);
            let ghost genes = child@;
            let individual: I = I::create(child);
            proof {
                assert(self.crossover_method.offspring(
                    genes_of(population@)[a as int],
                    genes_of(population@)[b as int],
                    mixed,
                ));
                assert(self.bred_from(fitness_of(population@), genes_of(population@), genes));
                assert(individual.genes().len() == population[0].genes().len());
            }
            next.push(individual);
            n += 1;
        }
        (next, stats)
    }
}

/// An empty population offers nothing to pick: no index is eligible, and no
/// draw falls on a slot.
pub proof fn lemma_empty_population_offers_nothing(
    method: RouletteWheelSelection,
    fitness: Seq<Scalar>,
    draw: int,
    index: int,
)
    requires
        fitness.len() == 0,
    ensures
        !method.eligible(fitness, index),
        !on_wheel(fitness, draw, index),
{
}

/// On a wheel of equal slots the slot on which a draw falls is the draw
/// divided by the width of a slot, so that every individual owns an equal
/// share of the draws.
pub proof fn lemma_equal_fitness_equal_shares(
    fitness: Seq<Scalar>,
    width: Scalar,
    draw: int,
    index: int,
)
    requires
        width > 0,
        forall|i: int| 0 <= i < fitness.len() ==> fitness[i] == width,
        on_wheel(fitness, draw, index),
    ensures
        index == draw / (width as int),
{
    lemma_equal_total(fitness.take(index), width);
    lemma_equal_total(fitness.take(index + 1), width);
    let rest = draw - index * width;
    assert((index + 1) * width == index * width + width) by (nonlinear_arith);
    lemma_fundamental_div_mod_converse(draw, width as int, index, rest);
}

/// The sum of equal values is their count times the value.
pub proof fn lemma_equal_total(values: Seq<Scalar>, value: Scalar)
    requires
        forall|i: int| 0 <= i < values.len() ==> values[i] == value,
    ensures
        total(values) == values.len() * value,
    decreases values.len(),
{
    if values.len() > 0 {
        lemma_equal_total(values.drop_last(), value);
        assert(values.len() * value == (values.len() - 1) * value + value) by (nonlinear_arith);
    } else {
        assert(values.len() * value == 0) by (nonlinear_arith)
            requires
                values.len() == 0,
        ;
    }
}

/// A gene of a child of uniform crossover is never a blend: it is the gene of
/// one parent, and where the parents agree the child agrees with both.
pub proof fn lemma_crossover_keeps_genes(
    method: UniformCrossover,
    a: Seq<Scalar>,
    b: Seq<Scalar>,
    child: Seq<Scalar>,
    i: int,
)
    requires
        a.len() == b.len(),
        method.offspring(a, b, child),
        0 <= i < a.len(),
    ensures
        child.len() == a.len(),
        child[i] == a[i] || child[i] == b[i],
        a[i] == b[i] ==> child[i] == a[i],
{
}

} // verus!
