//! The brain: the network that turns what the eye senses into steering.

use vstd::prelude::*;
use rand_chacha::ChaCha8Rng;
use crate::eye::{Eye, MAX_CELLS};
use crate::genetic::Chromosome;
use crate::network::{lemma_fitting_network, parameter_count, LayerTopology, Network};
use crate::scalar::Scalar;

verus! {

/// The brain of an animal.
#[derive(Debug)]
pub struct Brain {
    pub nn: Network,
}

/// The topology of the brain behind an eye of `cells` sectors: one input per
/// sector, a hidden layer of twice that size, and two outputs, for the change
/// of speed and the change of rotation.
pub open spec fn brain_topology(cells: usize) -> Seq<LayerTopology> {
    seq![
        LayerTopology { neurons: cells },
        LayerTopology { neurons: (2 * cells) as usize },
        LayerTopology { neurons: 2 },
    ]
}

/// The number of genes of the brain behind an eye of `cells` sectors.
pub open spec fn genome_length(cells: usize) -> nat {
    parameter_count(brain_topology(cells))
}

impl Brain {
    /// The network has the topology that belongs to `eye`.
    pub open spec fn fits(self, eye: Eye) -> bool {
        self.nn.fits(brain_topology(eye.cells))
    }

    /// The genes of the brain: the parameters of its network.
    pub open spec fn genes(self) -> Seq<Scalar> {
        self.nn.parameters()
    }

    /// A brain for `eye` with random parameters.
    pub fn random(rng: &mut ChaCha8Rng, eye: &Eye) -> (brain: Brain)
        requires
            eye.wf(),
        ensures
            brain.fits(*eye),
            brain.nn.within_unit(),
    {
        let topology: Vec<LayerTopology> = Brain::topology(eye);
        Brain { nn: Network::random(rng, topology.as_slice()) }
    }

    /// The brain for `eye` whose genes are `chromosome`, which must have the
    /// length that the eye asks for.
    pub fn from_chromosome(chromosome: Chromosome, eye: &Eye) -> (brain: Brain)
        requires
            eye.wf(),
            chromosome.len() == genome_length(eye.cells),
        ensures
            brain.fits(*eye),
            brain.genes() == chromosome@,
    {
        let topology: Vec<LayerTopology> = Brain::topology(eye);
        Brain { nn: Network::from_weights(topology.as_slice(), chromosome) }
    }

    /// The genes of the brain.
    pub fn as_chromosome(&self) -> (c: Chromosome)
        ensures
            c@ == self.genes(),
    {
        self.nn.weights()
    }

    /// The topology of the brain behind `eye`.
    pub fn topology(eye: &Eye) -> (t: Vec<LayerTopology>)
        requires
            eye.wf(),
        ensures
            t@ == brain_topology(eye.cells),
    {
        let mut t: Vec<LayerTopology> = Vec::new();
        t.push(LayerTopology { neurons: eye.cells() });
        t.push(LayerTopology { neurons: 2 * eye.cells() });
        t.push(LayerTopology { neurons: 2 });
        proof {
            assert(t@ =~= brain_topology(eye.cells));
        }
        t
    }
}

/// The brain behind an eye of `cells` sectors has `(cells + 1) * 2 * cells`
/// genes for its hidden layer and `(2 * cells + 1) * 2` for its outputs.
pub proof fn lemma_genome_length(cells: usize)
    requires
        cells <= MAX_CELLS,
    ensures
        genome_length(cells) == (cells + 1) * (2 * cells) + (2 * cells + 1) * 2,
{
    let t = brain_topology(cells);
    reveal_with_fuel(parameter_count, 4);
    assert(t.drop_last() =~= seq![
        LayerTopology { neurons: cells },
        LayerTopology { neurons: (2 * cells) as usize },
    ]);
    assert(t.drop_last().drop_last() =~= seq![LayerTopology { neurons: cells }]);
    assert((cells + 1) * (2 * cells) >= 0 && (2 * cells + 1) * 2 >= 0) by (nonlinear_arith)
        requires
            cells >= 0,
    ;
}

/// A brain that fits an eye takes one input per sector, gives two outputs, and
/// has as many genes as the eye asks for.
pub proof fn lemma_fitting_brain(brain: Brain, eye: Eye)
    requires
        brain.fits(eye),
    ensures
        brain.nn.accepts(eye.cells as nat),
        brain.nn.layers.len() == 2,
        brain.nn.layers[1].neurons.len() == 2,
        brain.genes().len() == genome_length(eye.cells),
{
    lemma_fitting_network(brain.nn, brain_topology(eye.cells));
}

} // verus!
