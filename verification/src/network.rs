//! The feed-forward network: neurons with a rectified-linear activation, in
//! layers, with its parameters readable as one flat sequence and buildable
//! from one.

use vstd::prelude::*;
use rand_chacha::ChaCha8Rng;
use crate::random::random_signed_unit;
use crate::scalar::{Scalar, ONE, product, sat_add, sat_mul, sum};

verus! {

/// The size of one layer of a network.
#[derive(Debug)]
pub struct LayerTopology {
    pub neurons: usize,
}

/// One neuron: a bias and one weight per input.
#[derive(Debug)]
pub struct Neuron {
    pub bias: Scalar,
    pub weights: Vec<Scalar>,
}

/// One layer: its neurons, one per output.
#[derive(Debug)]
pub struct Layer {
    pub neurons: Vec<Neuron>,
}

/// A network: its layers, from the input side to the output side.
#[derive(Debug)]
pub struct Network {
    pub layers: Vec<Layer>,
}

/// The sum of the products of weights and inputs, pair by pair from the first.
pub open spec fn dot(weights: Seq<Scalar>, inputs: Seq<Scalar>) -> Scalar
    decreases weights.len(),
{
    if weights.len() == 0 {
        0
    } else {
        sum(
            dot(weights.drop_last(), inputs),
            product(inputs[weights.len() - 1], weights.last()),
        )
    }
}

/// The rectified-linear activation: negative values become 0.
pub open spec fn rectified(x: Scalar) -> Scalar {
    if x > 0 {
        x
    } else {
        0
    }
}

/// The parameters of some neurons in a row: for each its bias, then its
/// weights.
pub open spec fn layer_parameters(neurons: Seq<Neuron>) -> Seq<Scalar>
    decreases neurons.len(),
{
    if neurons.len() == 0 {
        Seq::empty()
    } else {
        layer_parameters(neurons.drop_last()) + neurons.last().parameters()
    }
}

/// The parameters of some layers in a row.
pub open spec fn network_parameters(layers: Seq<Layer>) -> Seq<Scalar>
    decreases layers.len(),
{
    if layers.len() == 0 {
        Seq::empty()
    } else {
        network_parameters(layers.drop_last()) + layers.last().parameters()
    }
}

/// What comes out of some layers in a row when `inputs` goes in.
#[verifier::opaque]
pub open spec fn propagated(layers: Seq<Layer>, inputs: Seq<Scalar>) -> Seq<Scalar>
    decreases layers.len(),
{
    if layers.len() == 0 {
        inputs
    } else {
        layers.last().outputs(propagated(layers.drop_last(), inputs))
    }
}

/// How many parameters a network of this topology has: for each layer after
/// the first, one bias and one weight per input, for each of its neurons.
pub open spec fn parameter_count(topology: Seq<LayerTopology>) -> nat
    decreases topology.len(),
{
    if topology.len() < 2 {
        0
    } else {
        parameter_count(topology.drop_last()) + ((topology[topology.len() - 2].neurons + 1)
            * topology.last().neurons) as nat
    }
}

/// `network` is the network of this topology whose parameters are `weights`.
pub open spec fn rebuilt_from(
    topology: Seq<LayerTopology>,
    weights: Seq<Scalar>,
    network: Network,
) -> bool {
    network.fits(topology) && network.parameters() == weights
}

impl Neuron {
    /// The output for `inputs`: the bias plus the weighted inputs, rectified.
    pub open spec fn output(self, inputs: Seq<Scalar>) -> Scalar {
        rectified(sum(self.bias, dot(self.weights@, inputs)))
    }

    /// The bias, then the weights.
    pub open spec fn parameters(self) -> Seq<Scalar> {
        seq![self.bias] + self.weights@
    }

    /// Every parameter lies in `[-1, 1)`.
    pub open spec fn within_unit(self) -> bool {
        &&& -ONE <= self.bias < ONE
        &&& forall|i: int| 0 <= i < self.weights.len() ==> -ONE <= #[trigger] self.weights[i] < ONE
    }

    /// The output for `inputs`, which must be one per weight.
    pub fn propagate(&self, inputs: &[Scalar]) -> (r: Scalar)
        requires
            inputs.len() == self.weights.len(),
        ensures
            r == self.output(inputs@),
            r >= 0,
    {
        let mut acc: Scalar = 0;
        let mut i: usize = 0;
        while i < self.weights.len()
            invariant
                i <= self.weights.len(),
                inputs.len() == self.weights.len(),
                acc == dot(self.weights@.take(i as int), inputs@),
            decreases self.weights.len() - i,
        {
            proof {
                assert(self.weights@.take(i + 1).drop_last() =~= self.weights@.take(i as int));
            }
            acc = sat_add(acc, sat_mul(inputs[i], self.weights[i]));
            i += 1;
        }
        proof {
            assert(self.weights@.take(self.weights.len() as int) =~= self.weights@);
        }
        let total: Scalar = sat_add(self.bias, acc);
        if total > 0 {
            total
        } else {
            0
        }
    }

    /// A neuron with `input_size` weights, the bias and each weight drawn from
    /// `[-1, 1)`, the bias first.
    pub fn random(rng: &mut ChaCha8Rng, input_size: usize) -> (n: Neuron)
        ensures
            n.weights.len() == input_size,
            n.within_unit(),
    {
        let bias: Scalar = random_signed_unit(rng);
        let mut weights: Vec<Scalar> = Vec::new();
        let mut i: usize = 0;
        while i < input_size
            invariant
                i <= input_size,
                weights.len() == i,
                forall|k: int| 0 <= k < i ==> -ONE <= #[trigger] weights[k] < ONE,
            decreases input_size - i,
        {
            let weight: Scalar = random_signed_unit(rng);
            weights.push(weight);
            i += 1;
        }
        Neuron { bias, weights }
    }

    /// The neuron whose bias is `source[start]` and whose `input_size` weights
    /// follow it.
    pub fn from_weights(input_size: usize, source: &Vec<Scalar>, start: usize) -> (n: Neuron)
        requires
            start + input_size + 1 <= source.len(),
        ensures
            n.weights.len() == input_size,
            n.parameters() == source@.subrange(start as int, start + input_size + 1),
    {
        let bias: Scalar = source[start];
        let mut weights: Vec<Scalar> = Vec::new();
        let mut i: usize = 0;
        while i < input_size
            invariant
                i <= input_size,
                start + input_size + 1 <= source.len(),
                weights@ == source@.subrange(start + 1, start + 1 + i),
            decreases input_size - i,
        {
            weights.push(source[start + 1 + i]);
            proof {
                assert(weights@ =~= source@.subrange(start + 1, start + 1 + i + 1));
            }
            i += 1;
        }
        let n = Neuron { bias, weights };
        proof {
            assert(n.parameters() =~= source@.subrange(start as int, start + input_size + 1));
        }
        n
    }

    /// Appends the bias and the weights to `out`.
    pub fn append_parameters(&self, out: &mut Vec<Scalar>)
        ensures
            final(out)@ == old(out)@ + self.parameters(),
    {
        out.push(self.bias);
        let mut i: usize = 0;
        while i < self.weights.len()
            invariant
                i <= self.weights.len(),
                out@ == old(out)@ + (seq![self.bias] + self.weights@.take(i as int)),
            decreases self.weights.len() - i,
        {
            out.push(self.weights[i]);
            proof {
                assert(out@ =~= old(out)@ + (seq![self.bias] + self.weights@.take(i + 1)));
            }
            i += 1;
        }
        proof {
            assert(self.weights@.take(self.weights.len() as int) =~= self.weights@);
        }
    }
}

impl Layer {
    /// Every neuron has `n` weights.
    pub open spec fn takes(self, n: nat) -> bool {
        forall|i: int| 0 <= i < self.neurons.len() ==> (#[trigger] self.neurons[i]).weights.len() == n
    }

    /// The outputs for `inputs`, one per neuron.
    pub open spec fn outputs(self, inputs: Seq<Scalar>) -> Seq<Scalar> {
        Seq::new(self.neurons.len() as nat, |i: int| self.neurons[i].output(inputs))
    }

    /// The parameters of the neurons, in order.
    pub open spec fn parameters(self) -> Seq<Scalar> {
        layer_parameters(self.neurons@)
    }

    /// Every parameter lies in `[-1, 1)`.
    pub open spec fn within_unit(self) -> bool {
        forall|i: int| 0 <= i < self.neurons.len() ==> (#[trigger] self.neurons[i]).within_unit()
    }

    /// The outputs for `inputs`, one per neuron.
    pub fn propagate(&self, inputs: Vec<Scalar>) -> (r: Vec<Scalar>)
        requires
            self.takes(inputs.len() as nat),
        ensures
            r@ == self.outputs(inputs@),
            r.len() == self.neurons.len(),
            forall|i: int| 0 <= i < r.len() ==> r[i] >= 0,
    {
        let mut out: Vec<Scalar> = Vec::new();
        let mut i: usize = 0;
        while i < self.neurons.len()
            invariant
                i <= self.neurons.len(),
                self.takes(inputs.len() as nat),
                out.len() == i,
                forall|k: int| 0 <= k < i ==> out[k] == (#[trigger] self.neurons[k]).output(inputs@),
            decreases self.neurons.len() - i,
        {
            let value: Scalar = self.neurons[i].propagate(inputs.as_slice());
            out.push(value);
            i += 1;
        }
        proof {
            assert(out@ =~= self.outputs(inputs@));
        }
        out
    }

    /// A layer of `output_size` neurons with `input_size` weights each, every
    /// parameter drawn from `[-1, 1)`.
    pub fn random(rng: &mut ChaCha8Rng, input_size: usize, output_size: usize) -> (l: Layer)
        ensures
            l.neurons.len() == output_size,
            l.takes(input_size as nat),
            l.within_unit(),
    {
        let mut neurons: Vec<Neuron> = Vec::new();
        let mut i: usize = 0;
        while i < output_size
            invariant
                i <= output_size,
                neurons.len() == i,
                forall|k: int| 0 <= k < i ==> (#[trigger] neurons[k]).weights.len() == input_size,
                forall|k: int| 0 <= k < i ==> (#[trigger] neurons[k]).within_unit(),
            decreases output_size - i,
        {
            let neuron = Neuron::random(rng, input_size);
            neurons.push(neuron);
            i += 1;
        }
        Layer { neurons }
    }

    /// The layer of `output_size` neurons with `input_size` weights each, read
    /// from `source` at `start`.
    pub fn from_weights(
        input_size: usize,
        output_size: usize,
        source: &Vec<Scalar>,
        start: usize,
    ) -> (l: Layer)
        requires
            start + output_size * (input_size + 1) <= source.len(),
        ensures
            l.neurons.len() == output_size,
            l.takes(input_size as nat),
            l.parameters() == source@.subrange(
                start as int,
                start + output_size * (input_size + 1),
            ),
    {
        let mut neurons: Vec<Neuron> = Vec::new();
        let mut pos: usize = start;
        let mut j: usize = 0;
        proof {
            assert(0 * (input_size + 1) == 0);
            assert(output_size * (input_size + 1) >= 0) by (nonlinear_arith)
                requires
                    output_size >= 0,
                    input_size >= 0,
            ;
            assert(source@.subrange(start as int, start as int) =~= Seq::<Scalar>::empty());
        }
        while j < output_size
            invariant
                j <= output_size,
                start + output_size * (input_size + 1) <= source.len(),
                start <= pos <= source.len(),
                pos == start + j * (input_size + 1),
                neurons.len() == j,
                forall|k: int| 0 <= k < j ==> (#[trigger] neurons[k]).weights.len() == input_size,
                layer_parameters(neurons@) == source@.subrange(start as int, pos as int),
            decreases output_size - j,
        {
            proof {
                lemma_neurons_fit(j as int, output_size as int, input_size as int);
            }
            let neuron = Neuron::from_weights(input_size, source, pos);
            proof {
                let grown = neurons@.push(neuron);
                assert(grown.drop_last() =~= neurons@);
                assert(layer_parameters(grown) =~= source@.subrange(
                    start as int,
                    pos + input_size + 1,
                ));
            }
            neurons.push(neuron);
            pos = pos + input_size + 1;
            j += 1;
        }
        Layer { neurons }
    }

    /// Appends the parameters of every neuron to `out`.
    pub fn append_parameters(&self, out: &mut Vec<Scalar>)
        ensures
            final(out)@ == old(out)@ + self.parameters(),
    {
        let mut i: usize = 0;
        while i < self.neurons.len()
            invariant
                i <= self.neurons.len(),
                out@ == old(out)@ + layer_parameters(self.neurons@.take(i as int)),
            decreases self.neurons.len() - i,
        {
            proof {
                assert(self.neurons@.take(i + 1).drop_last() =~= self.neurons@.take(i as int));
                assert(self.neurons@.take(i + 1).last() == self.neurons[i as int]);
            }
            self.neurons[i].append_parameters(out);
            proof {
                assert(out@ =~= old(out)@ + layer_parameters(self.neurons@.take(i + 1)));
            }
            i += 1;
        }
        proof {
            assert(self.neurons@.take(self.neurons.len() as int) =~= self.neurons@);
        }
    }
}

impl Network {
    /// The network can take an input of `n` scalars: the first layer has `n`
    /// weights per neuron, and each later layer one weight per neuron of the
    /// layer before it.
    pub open spec fn accepts(self, n: nat) -> bool {
        forall|i: int|
            0 <= i < self.layers.len() ==> (#[trigger] self.layers[i]).takes(self.input_size(n, i))
    }

    /// How many scalars layer `i` is given when the network is given `n`: `n`
    /// itself for the first layer, and for each later layer one for each
    /// neuron of the layer before it.
    #[verifier::opaque]
    pub open spec fn input_size(self, n: nat, i: int) -> nat {
        if i == 0 {
            n
        } else {
            self.layers[i - 1].neurons.len() as nat
        }
    }

    /// The network has the shape that `topology` describes.
    pub open spec fn fits(self, topology: Seq<LayerTopology>) -> bool {
        &&& self.layers.len() + 1 == topology.len()
        &&& forall|i: int|
            0 <= i < self.layers.len() ==> (#[trigger] self.layers[i]).neurons.len()
                == topology[i + 1].neurons
        &&& forall|i: int|
            0 <= i < self.layers.len() ==> (#[trigger] self.layers[i]).takes(
                topology[i].neurons as nat,
            )
    }

    /// What comes out when `inputs` goes in.
    pub open spec fn outputs(self, inputs: Seq<Scalar>) -> Seq<Scalar> {
        propagated(self.layers@, inputs)
    }

    /// All parameters as one sequence: layer by layer, neuron by neuron, the
    /// bias before the weights.
    pub open spec fn parameters(self) -> Seq<Scalar> {
        network_parameters(self.layers@)
    }

    /// Every parameter lies in `[-1, 1)`.
    pub open spec fn within_unit(self) -> bool {
        forall|i: int| 0 <= i < self.layers.len() ==> (#[trigger] self.layers[i]).within_unit()
    }

    /// Feeds `inputs` through the layers in order.
    pub fn propagate(&self, inputs: Vec<Scalar>) -> (r: Vec<Scalar>)
        requires
            self.accepts(inputs.len() as nat),
        ensures
            r@ == self.outputs(inputs@),
            self.layers.len() == 0 ==> r@ == inputs@,
            self.layers.len() > 0 ==> r.len() == self.layers[self.layers.len() - 1].neurons.len(),
            self.layers.len() > 0 ==> forall|i: int| 0 <= i < r.len() ==> r[i] >= 0,
    {
        let ghost given = inputs@;
        let mut current: Vec<Scalar> = inputs;
        let mut i: usize = 0;
        proof {
            lemma_propagated_none(self.layers@, given);
        }
        while i < self.layers.len()
            invariant
                i <= self.layers.len(),
                self.accepts(given.len()),
                current@ == propagated(self.layers@.take(i as int), given),
                i == 0 ==> current.len() == given.len(),
                i > 0 ==> current.len() == self.layers[i - 1].neurons.len(),
                i > 0 ==> forall|k: int| 0 <= k < current.len() ==> current[k] >= 0,
            decreases self.layers.len() - i,
        {
            proof {
                lemma_propagated_step(self.layers@, i as int, given);
                lemma_input_size(*self, given.len(), i as int);
            }
            current = self.layers[i].propagate(current);
            i += 1;
        }
        proof {
            assert(self.layers@.take(self.layers.len() as int) =~= self.layers@);
        }
        current
    }

    /// A network of the given topology with every parameter drawn from
    /// `[-1, 1)`, in the order in which `weights` lists them.
    pub fn random(rng: &mut ChaCha8Rng, layers: &[LayerTopology]) -> (network: Network)
        requires
            layers.len() > 1,
        ensures
            network.fits(layers@),
            network.within_unit(),
    {
        let mut built: Vec<Layer> = Vec::new();
        let mut i: usize = 0;
        while i + 1 < layers.len()
            invariant
                i + 1 <= layers.len(),
                built.len() == i,
                forall|k: int| 0 <= k < i ==> (#[trigger] built[k]).neurons.len() == layers[k + 1].neurons,
                forall|k: int| 0 <= k < i ==> (#[trigger] built[k]).takes(layers[k].neurons as nat),
                forall|k: int| 0 <= k < i ==> (#[trigger] built[k]).within_unit(),
            decreases layers.len() - i,
        {
            let layer = Layer::random(rng, layers[i].neurons, layers[i + 1].neurons);
            built.push(layer);
            i += 1;
        }
        Network { layers: built }
    }

    /// All parameters as one sequence.
    pub fn weights(&self) -> (w: Vec<Scalar>)
        ensures
            w@ == self.parameters(),
    {
        let mut out: Vec<Scalar> = Vec::new();
        let mut i: usize = 0;
        while i < self.layers.len()
            invariant
                i <= self.layers.len(),
                out@ == network_parameters(self.layers@.take(i as int)),
            decreases self.layers.len() - i,
        {
            proof {
                assert(self.layers@.take(i + 1).drop_last() =~= self.layers@.take(i as int));
                assert(self.layers@.take(i + 1).last() == self.layers[i as int]);
            }
            self.layers[i].append_parameters(&mut out);
            i += 1;
        }
        proof {
            assert(self.layers@.take(self.layers.len() as int) =~= self.layers@);
        }
        out
    }

    /// How many parameters a network of this topology has, or nothing where
    /// the number is too great to be the length of a sequence.
    pub fn count_parameters(layers: &[LayerTopology]) -> (r: Option<usize>)
        ensures
            r matches Some(n) ==> n == parameter_count(layers@),
            r is None ==> parameter_count(layers@) > usize::MAX,
    {
        if layers.len() < 2 {
            return Some(0);
        }
        let mut count: usize = 0;
        let mut i: usize = 0;
        while i + 1 < layers.len()
            invariant
                i + 1 <= layers.len(),
                count == parameter_count(layers@.take(i + 1)),
            decreases layers.len() - i,
        {
            let input_size: usize = layers[i].neurons;
            let output_size: usize = layers[i + 1].neurons;
            proof {
                assert(layers@.take(i + 2).drop_last() =~= layers@.take(i + 1));
                lemma_parameter_count_grows(layers@, i + 2);
                lemma_layer_size(input_size as int, output_size as int);
            }
            if output_size > 0 {
                if input_size == usize::MAX {
                    return None;
                }
                match (input_size + 1).checked_mul(output_size) {
                    None => {
                        return None;
                    },
                    Some(size) => match count.checked_add(size) {
                        None => {
                            return None;
                        },
                        Some(more) => {
                            count = more;
                        },
                    },
                }
            }
            i += 1;
        }
        proof {
            assert(layers@.take(layers.len() as int) =~= layers@);
        }
        Some(count)
    }

    /// The network of the given topology whose parameters are `weights`, read
    /// in the order in which `weights()` lists them. The scalars must be
    /// exactly as many as the topology counts.
    pub fn from_weights(layers: &[LayerTopology], weights: Vec<Scalar>) -> (network: Network)
        requires
            layers.len() > 1,
            weights.len() == parameter_count(layers@),
        ensures
            rebuilt_from(layers@, weights@, network),
    {
        let mut built: Vec<Layer> = Vec::new();
        let mut pos: usize = 0;
        let mut i: usize = 0;
        proof {
            assert(weights@.subrange(0, 0) =~= Seq::<Scalar>::empty());
        }
        while i + 1 < layers.len()
            invariant
                i + 1 <= layers.len(),
                weights.len() == parameter_count(layers@),
                built.len() == i,
                pos <= weights.len(),
                pos == parameter_count(layers@.take(i + 1)),
                forall|k: int| 0 <= k < i ==> (#[trigger] built[k]).neurons.len() == layers[k + 1].neurons,
                forall|k: int| 0 <= k < i ==> (#[trigger] built[k]).takes(layers[k].neurons as nat),
                network_parameters(built@) == weights@.subrange(0, pos as int),
            decreases layers.len() - i,
        {
            let input_size: usize = layers[i].neurons;
            let output_size: usize = layers[i + 1].neurons;
            proof {
                assert(layers@.take(i + 2).drop_last() =~= layers@.take(i + 1));
                lemma_parameter_count_grows(layers@, i + 2);
                lemma_layer_size(input_size as int, output_size as int);
            }
            let layer = Layer::from_weights(input_size, output_size, &weights, pos);
            proof {
                let grown = built@.push(layer);
                assert(grown.drop_last() =~= built@);
                assert(network_parameters(grown) =~= weights@.subrange(
                    0,
                    pos + output_size * (input_size + 1),
                ));
            }
            built.push(layer);
            if output_size > 0 {
                pos = pos + output_size * (input_size + 1);
            }
            i += 1;
        }
        proof {
            assert(layers@.take(layers.len() as int) =~= layers@);
            assert(weights@.subrange(0, pos as int) =~= weights@);
        }
        Network { layers: built }
    }
}

/// The size of one layer, written either way round, and what it is at least.
pub proof fn lemma_layer_size(input_size: int, output_size: int)
    by (nonlinear_arith)
    requires
        0 <= input_size,
        0 <= output_size,
    ensures
        (input_size + 1) * output_size == output_size * (input_size + 1),
        output_size * (input_size + 1) >= 0,
        output_size == 0 ==> output_size * (input_size + 1) == 0,
        output_size >= 1 ==> output_size * (input_size + 1) >= input_size + 1,
{
}

/// Where the scalars suffice for a whole layer, they suffice for each of its
/// neurons in turn.
pub proof fn lemma_neurons_fit(j: int, output_size: int, input_size: int)
    by (nonlinear_arith)
    requires
        0 <= j < output_size,
        0 <= input_size,
    ensures
        (j + 1) * (input_size + 1) <= output_size * (input_size + 1),
        (j + 1) * (input_size + 1) == j * (input_size + 1) + input_size + 1,
{
}

/// How many scalars layer `i` is given, written out.
pub proof fn lemma_input_size(network: Network, n: nat, i: int)
    ensures
        network.input_size(n, i) == if i == 0 {
            n
        } else {
            network.layers[i - 1].neurons.len() as nat
        },
{
    reveal(Network::input_size);
}

/// What comes out of no layers is what went in.
pub proof fn lemma_propagated_none(layers: Seq<Layer>, inputs: Seq<Scalar>)
    ensures
        propagated(layers.take(0), inputs) == inputs,
        layers.len() == 0 ==> propagated(layers, inputs) == inputs,
{
    reveal(propagated);
}

/// What comes out of the first `i + 1` layers is what layer `i` makes of what
/// comes out of the first `i`.
pub proof fn lemma_propagated_step(layers: Seq<Layer>, i: int, inputs: Seq<Scalar>)
    requires
        0 <= i < layers.len(),
    ensures
        propagated(layers.take(i + 1), inputs) == layers[i].outputs(
            propagated(layers.take(i), inputs),
        ),
{
    reveal(propagated);
    assert(layers.take(i + 1).drop_last() =~= layers.take(i));
    assert(layers.take(i + 1).last() == layers[i]);
}

/// A topology needs at least as many parameters as any of its beginnings.
pub proof fn lemma_parameter_count_grows(topology: Seq<LayerTopology>, k: int)
    requires
        0 <= k <= topology.len(),
    ensures
        parameter_count(topology.take(k)) <= parameter_count(topology),
    decreases topology.len(),
{
    if k < topology.len() {
        assert(topology.drop_last().take(k) =~= topology.take(k));
        lemma_parameter_count_grows(topology.drop_last(), k);
    } else {
        assert(topology.take(k) =~= topology);
    }
}

/// A network that fits a topology accepts inputs of the size of the
/// topology's first layer, and has as many parameters as the topology counts.
pub proof fn lemma_fitting_network(network: Network, topology: Seq<LayerTopology>)
    requires
        network.fits(topology),
    ensures
        network.accepts(topology[0].neurons as nat),
        network.parameters().len() == parameter_count(topology),
{
    lemma_fitting_layers(network.layers@, topology);
    let n = topology[0].neurons as nat;
    assert forall|i: int| 0 <= i < network.layers.len() implies (#[trigger] network.layers[i]).takes(
        network.input_size(n, i),
    ) by {
        lemma_input_size(network, n, i);
    }
}

/// The parameters of layers that follow a topology are as many as the
/// topology counts.
pub proof fn lemma_fitting_layers(layers: Seq<Layer>, topology: Seq<LayerTopology>)
    requires
        layers.len() + 1 == topology.len(),
        forall|i: int| 0 <= i < layers.len() ==> (#[trigger] layers[i]).neurons.len() == topology[i + 1].neurons,
        forall|i: int| 0 <= i < layers.len() ==> (#[trigger] layers[i]).takes(topology[i].neurons as nat),
    ensures
        network_parameters(layers).len() == parameter_count(topology),
    decreases layers.len(),
{
    if layers.len() > 0 {
        let last = layers.last();
        assert(last == layers[layers.len() - 1]);
        lemma_fitting_layers(layers.drop_last(), topology.drop_last());
        lemma_layer_parameter_count(last.neurons@, topology[topology.len() - 2].neurons as nat);
        assert((topology[topology.len() - 2].neurons + 1) * topology.last().neurons
            == topology.last().neurons * (topology[topology.len() - 2].neurons + 1))
            by (nonlinear_arith);
    }
}

/// Neurons with `n` weights each have `n + 1` parameters each.
pub proof fn lemma_layer_parameter_count(neurons: Seq<Neuron>, n: nat)
    requires
        forall|i: int| 0 <= i < neurons.len() ==> (#[trigger] neurons[i]).weights.len() == n,
    ensures
        layer_parameters(neurons).len() == neurons.len() * (n + 1),
    decreases neurons.len(),
{
    if neurons.len() > 0 {
        lemma_layer_parameter_count(neurons.drop_last(), n);
        assert(neurons.last() == neurons[neurons.len() - 1]);
        assert(neurons.len() * (n + 1) == (neurons.len() - 1) * (n + 1) + (n + 1))
            by (nonlinear_arith);
    } else {
        assert(neurons.len() * (n + 1) == 0) by (nonlinear_arith)
            requires
                neurons.len() == 0,
        ;
    }
}

/// A network can be rebuilt from its own parameters, which are as many as
/// its topology counts, and the rebuilt network has the same parameters:
/// flattening loses nothing.
pub proof fn lemma_round_trip(network: Network, topology: Seq<LayerTopology>, rebuilt: Network)
    requires
        network.fits(topology),
        rebuilt_from(topology, network.parameters(), rebuilt),
    ensures
        network.parameters().len() == parameter_count(topology),
        rebuilt.fits(topology),
        rebuilt.parameters() == network.parameters(),
{
    lemma_fitting_network(network, topology);
}

/// No network of a topology has parameters that are fewer or more than the
/// topology counts: a sequence of another length cannot be rebuilt from.
pub proof fn lemma_wrong_length_fits_nothing(
    topology: Seq<LayerTopology>,
    weights: Seq<Scalar>,
    network: Network,
)
    requires
        weights.len() != parameter_count(topology),
    ensures
        !rebuilt_from(topology, weights, network),
{
    if network.fits(topology) {
        lemma_fitting_network(network, topology);
    }
}

/// A network that fits a topology gives one output for each neuron that the
/// topology's last entry counts, and none of them is negative.
pub proof fn lemma_outputs_rectified(
    network: Network,
    topology: Seq<LayerTopology>,
    inputs: Seq<Scalar>,
)
    requires
        topology.len() > 1,
        network.fits(topology),
    ensures
        network.outputs(inputs).len() == topology.last().neurons,
        forall|i: int| 0 <= i < network.outputs(inputs).len() ==> network.outputs(inputs)[i] >= 0,
{
    reveal(propagated);
    assert(network.layers@.last() == network.layers[network.layers.len() - 1]);
}

} // verus!
