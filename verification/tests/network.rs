use approx::RelativeEq;
use lib_simulation::network::{Layer, LayerTopology, Network, Neuron};
use lib_simulation::scalar::ONE;
use rand::SeedableRng;
use rand_chacha::ChaCha8Rng;

fn fx(v: f32) -> i64 {
    (v as f64 * 4294967296.0).floor() as i64
}

fn fl(raw: i64) -> f32 {
    (raw as f64 / 4294967296.0) as f32
}

fn close(actual: i64, expected: f32) -> bool {
    fl(actual).relative_eq(&expected, f32::EPSILON, f32::EPSILON)
}

fn all_close(actual: &[i64], expected: &[f32]) -> bool {
    actual.len() == expected.len() && actual.iter().zip(expected).all(|(a, e)| close(*a, *e))
}

fn scalars(values: &[f32]) -> Vec<i64> {
    values.iter().map(|v| fx(*v)).collect()
}

fn neuron(bias: f32, weights: &[f32]) -> Neuron {
    Neuron { bias: fx(bias), weights: scalars(weights) }
}

// Neuron tests
#[test]
fn random_neuron() {
    let mut rng = ChaCha8Rng::from_seed(Default::default());
    let neuron = Neuron::random(&mut rng, 4);

    assert!(close(neuron.bias, -0.6255188));
    assert!(all_close(
        neuron.weights.as_slice(),
        [0.67383933, 0.81812596, 0.26284885, 0.5238805].as_ref()
    ));
}

#[test]
fn propagate_neuron() {
    let neuron = neuron(0.5, &[-0.3, 0.8]);

    assert!(close(neuron.propagate(&[fx(-10.0), fx(-10.0)]), 0.0));

    assert!(close(
        neuron.propagate(&[fx(0.5), fx(1.0)]),
        (-0.3 * 0.5) + (0.8 * 1.0) + 0.5,
    ));
}

// Layer tests
#[test]
fn random_layer() {
    let mut rng = ChaCha8Rng::from_seed(Default::default());
    let layer = Layer::random(&mut rng, 3, 2);

    // test all elements of first neuron
    assert!(close(layer.neurons[0].bias, -0.6255188));
    assert!(all_close(
        layer.neurons[0].weights.as_slice(),
        [0.67383933, 0.81812596, 0.26284885].as_ref()
    ));

    assert!(close(layer.neurons[1].bias, 0.5238805));
    assert!(all_close(
        layer.neurons[1].weights.as_slice(),
        [-0.5351684, 0.0693696, -0.7648182].as_ref()
    ));
}

#[test]
fn propagate_layer() {
    let layer = Layer {
        neurons: vec![neuron(0.5, &[-0.3, 0.8]), neuron(0.2, &[0.2, -0.4])],
    };

    assert!(all_close(
        layer.propagate(scalars(&[-10.0, -10.0])).as_slice(),
        [0.0, 2.2].as_ref()
    ));
    assert!(all_close(
        layer.propagate(scalars(&[0.7, 0.8])).as_slice(),
        [
            (-0.3 * 0.7) + (0.8 * 0.8) + 0.5,
            (0.2 * 0.7) + (-0.4 * 0.8) + 0.2
        ]
        .as_ref()
    ));
}

// Tests for Network
#[test]
fn random_network() {
    let mut rng = ChaCha8Rng::from_seed(Default::default());
    let network = Network::random(
        &mut rng,
        &[
            LayerTopology { neurons: 4 },
            LayerTopology { neurons: 3 },
            LayerTopology { neurons: 2 },
        ],
    );

    println!("{:?}", network);
    assert!(close(network.layers[0].neurons[0].bias, -0.6255188));
    assert!(close(network.layers[0].neurons[1].bias, -0.5351684));
    assert!(close(network.layers[0].neurons[2].bias, -0.19277143));

    assert!(close(network.layers[1].neurons[0].bias, -0.4766221));
    assert!(close(network.layers[1].neurons[1].bias, 0.35662675));

    assert!(all_close(
        network.layers[0].neurons[0].weights.as_slice(),
        [0.67383933, 0.81812596, 0.26284885, 0.5238805].as_ref()
    ));
    assert!(all_close(
        network.layers[0].neurons[1].weights.as_slice(),
        [0.069369555, -0.7648182, -0.102499485, -0.48879623].as_ref()
    ));
    assert!(all_close(
        network.layers[0].neurons[2].weights.as_slice(),
        [-0.8020501, 0.27546048, -0.98680043, 0.4452355].as_ref()
    ));

    assert!(all_close(
        network.layers[1].neurons[0].weights.as_slice(),
        [-0.89078736, -0.36127806, -0.14956546].as_ref()
    ));
    assert!(all_close(
        network.layers[1].neurons[1].weights.as_slice(),
        [-0.8566594, 0.3330984, 0.11767411].as_ref(),
    ));
}

#[test]
fn propagate_network() {
    let network = Network {
        layers: vec![
            Layer {
                neurons: vec![neuron(0.5, &[-0.3, 0.8]), neuron(0.2, &[0.2, -0.4])],
            },
            Layer {
                neurons: vec![neuron(0.4, &[-0.7, 0.9])],
            },
        ],
    };

    assert!(all_close(
        network.propagate(scalars(&[10.0, 10.0])).as_slice(),
        [0.0].as_ref()
    ));
    assert!(all_close(
        network.propagate(scalars(&[-0.7, -0.8])).as_slice(),
        [(((-0.3 * -0.7) + (0.8 * -0.8) + 0.5) * -0.7)
            + (((0.2 * -0.7) + (-0.4 * -0.8) + 0.2) * 0.9)
            + 0.4]
        .as_ref()
    ));
}

#[test]
fn weights() {
    let network = Network {
        layers: vec![
            Layer {
                neurons: vec![neuron(0.1, &[0.2, 0.3, 0.4])],
            },
            Layer {
                neurons: vec![neuron(0.5, &[0.6, 0.7, 0.8])],
            },
        ],
    };

    let actual = network.weights();
    let expected = vec![0.1, 0.2, 0.3, 0.4, 0.5, 0.6, 0.7, 0.8];

    assert!(all_close(actual.as_slice(), expected.as_slice()));
}

#[test]
fn from_weights() {
    let layers = &[LayerTopology { neurons: 3 }, LayerTopology { neurons: 2 }];

    let weights = vec![0.1, 0.2, 0.3, 0.4, 0.5, 0.6, 0.7, 0.8];
    let network = Network::from_weights(layers, scalars(&weights));
    let actual: Vec<_> = network.weights().into_iter().collect();

    assert!(all_close(actual.as_slice(), weights.as_slice()));
}

#[test]
fn neuron_output_is_exact() {
    // 0.5 + 1.5 * 2 + (-0.25) * 4 = 2.5
    let neuron = Neuron { bias: ONE / 2, weights: vec![3 * ONE / 2, -ONE / 4] };
    assert_eq!(neuron.propagate(&[2 * ONE, 4 * ONE]), 5 * ONE / 2);
    // 0.5 + 1.5 * (-2) + (-0.25) * 4 = -3.5, rectified to 0
    assert_eq!(neuron.propagate(&[-2 * ONE, 4 * ONE]), 0);
}

#[test]
fn neuron_output_saturates() {
    let neuron = Neuron { bias: 0, weights: vec![i64::MAX, i64::MAX] };
    assert_eq!(neuron.propagate(&[i64::MAX, i64::MAX]), i64::MAX);
    let neuron = Neuron { bias: 0, weights: vec![i64::MIN] };
    assert_eq!(neuron.propagate(&[i64::MAX]), 0);
}

#[test]
fn propagate_gives_one_output_per_last_neuron_and_none_negative() {
    let mut rng = ChaCha8Rng::seed_from_u64(7);
    let topology = [
        LayerTopology { neurons: 5 },
        LayerTopology { neurons: 7 },
        LayerTopology { neurons: 4 },
        LayerTopology { neurons: 3 },
    ];
    let network = Network::random(&mut rng, &topology);
    for round in 0..50i64 {
        let inputs: Vec<i64> = (0..5i64).map(|k| (round - 25) * ONE / 3 + k * ONE / 7).collect();
        let outputs = network.propagate(inputs);
        assert_eq!(outputs.len(), 3);
        assert!(outputs.iter().all(|o| *o >= 0));
    }
}

#[test]
fn network_without_layers_hands_the_input_back() {
    let network = Network { layers: vec![] };
    assert_eq!(network.propagate(vec![-ONE, 5]), vec![-ONE, 5]);
}

#[test]
fn random_network_has_the_shape_of_its_topology() {
    let mut rng = ChaCha8Rng::seed_from_u64(11);
    let topology = [
        LayerTopology { neurons: 3 },
        LayerTopology { neurons: 0 },
        LayerTopology { neurons: 2 },
    ];
    let network = Network::random(&mut rng, &topology);
    assert_eq!(network.layers.len(), 2);
    assert_eq!(network.layers[0].neurons.len(), 0);
    assert_eq!(network.layers[1].neurons.len(), 2);
    assert!(network.layers[1].neurons.iter().all(|n| n.weights.is_empty()));
    assert_eq!(network.weights().len(), 2);
}

#[test]
fn random_parameters_lie_in_the_unit_interval() {
    let mut rng = ChaCha8Rng::seed_from_u64(3);
    let topology = [LayerTopology { neurons: 9 }, LayerTopology { neurons: 18 }, LayerTopology { neurons: 2 }];
    let network = Network::random(&mut rng, &topology);
    let weights = network.weights();
    assert_eq!(weights.len(), (9 + 1) * 18 + (18 + 1) * 2);
    assert!(weights.iter().all(|w| -ONE <= *w && *w < ONE));
    assert!(weights.iter().any(|w| *w != weights[0]));
}

#[test]
fn round_trip_is_lossless() {
    let mut rng = ChaCha8Rng::seed_from_u64(99);
    let topology = [
        LayerTopology { neurons: 4 },
        LayerTopology { neurons: 6 },
        LayerTopology { neurons: 2 },
    ];
    let network = Network::random(&mut rng, &topology);
    let flat = network.weights();
    assert_eq!(Network::count_parameters(&topology), Some(flat.len()));
    let rebuilt = Network::from_weights(&topology, flat.clone());
    assert_eq!(rebuilt.weights(), flat);
    assert_eq!(rebuilt.layers.len(), 2);
    assert_eq!(rebuilt.layers[0].neurons[3].bias, network.layers[0].neurons[3].bias);
    assert_eq!(rebuilt.layers[1].neurons[1].weights, network.layers[1].neurons[1].weights);
    let inputs = vec![ONE, -ONE / 2, ONE / 3, 2 * ONE];
    assert_eq!(rebuilt.propagate(inputs.clone()), network.propagate(inputs));
}

#[test]
fn from_weights_reads_bias_before_weights() {
    let layers = [LayerTopology { neurons: 2 }, LayerTopology { neurons: 2 }];
    let network = Network::from_weights(&layers, vec![1, 2, 3, 4, 5, 6]);
    assert_eq!(network.layers[0].neurons[0].bias, 1);
    assert_eq!(network.layers[0].neurons[0].weights, vec![2, 3]);
    assert_eq!(network.layers[0].neurons[1].bias, 4);
    assert_eq!(network.layers[0].neurons[1].weights, vec![5, 6]);
}

#[test]
fn a_topology_counts_its_parameters() {
    let layers = [LayerTopology { neurons: 3 }, LayerTopology { neurons: 2 }];
    assert_eq!(Network::count_parameters(&layers), Some(8));
    let brain = [LayerTopology { neurons: 9 }, LayerTopology { neurons: 18 }, LayerTopology { neurons: 2 }];
    assert_eq!(Network::count_parameters(&brain), Some(218));
    let empty = [LayerTopology { neurons: 3 }, LayerTopology { neurons: 0 }, LayerTopology { neurons: 4 }];
    assert_eq!(Network::count_parameters(&empty), Some(4));
    assert_eq!(Network::count_parameters(&[LayerTopology { neurons: 7 }]), Some(0));
    assert_eq!(Network::count_parameters(&[]), Some(0));
    let idle = [LayerTopology { neurons: usize::MAX }, LayerTopology { neurons: 0 }];
    assert_eq!(Network::count_parameters(&idle), Some(0));
    assert!(Network::from_weights(&idle, vec![]).layers[0].neurons.is_empty());
}

#[test]
fn a_count_that_does_not_fit_is_not_given() {
    let wide = [LayerTopology { neurons: usize::MAX }, LayerTopology { neurons: 1 }];
    assert_eq!(Network::count_parameters(&wide), None);
    let tall = [LayerTopology { neurons: usize::MAX - 1 }, LayerTopology { neurons: 2 }];
    assert_eq!(Network::count_parameters(&tall), None);
    let just = [LayerTopology { neurons: usize::MAX - 1 }, LayerTopology { neurons: 1 }];
    assert_eq!(Network::count_parameters(&just), Some(usize::MAX));
    let sum = [
        LayerTopology { neurons: usize::MAX - 1 },
        LayerTopology { neurons: 1 },
        LayerTopology { neurons: 1 },
    ];
    assert_eq!(Network::count_parameters(&sum), None);
}

#[test]
fn single_neurons_are_read_at_their_place() {
    let source = vec![10, 20, 30, 40, 50];
    let neuron = Neuron::from_weights(2, &source, 1);
    assert_eq!(neuron.bias, 20);
    assert_eq!(neuron.weights, vec![30, 40]);
    let last = Neuron::from_weights(0, &source, 4);
    assert_eq!(last.bias, 50);
    assert!(last.weights.is_empty());
    let layer = Layer::from_weights(1, 2, &source, 1);
    assert_eq!(layer.neurons[0].bias, 20);
    assert_eq!(layer.neurons[0].weights, vec![30]);
    assert_eq!(layer.neurons[1].bias, 40);
    assert_eq!(layer.neurons[1].weights, vec![50]);
    assert!(Layer::from_weights(usize::MAX, 0, &source, 5).neurons.is_empty());
}
