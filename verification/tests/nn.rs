//! Tests of the neural-network stack: neurons, layers, networks, and the
//! flatten/rebuild round trip.

use evosim::layer::Layer;
use evosim::network::Network;
use evosim::neuron::Neuron;

use rand::SeedableRng;

fn rng(seed: u64) -> rand::rngs::StdRng {
    rand::rngs::StdRng::seed_from_u64(seed)
}

// One unit in fixed-point millionths.
const UNIT: i64 = 1_000_000;

#[test]
fn returns_propagated_input() {
    // bias 0.1, weights [-0.3, 0.6, 0.9], inputs [0.5, -0.6, 0.7]:
    // 0.1 - 0.15 - 0.36 + 0.63 = 0.22
    let neuron = Neuron::new(100_000, vec![-300_000, 600_000, 900_000]);
    let actual = neuron.propagate(&vec![500_000, -600_000, 700_000]);
    assert_eq!(actual, 220_000);
}

#[test]
fn restricts_output() {
    let neuron = Neuron::new(0, vec![500_000]);
    let v1 = neuron.propagate(&vec![-UNIT]);
    let v2 = neuron.propagate(&vec![-500_000]);
    let v3 = neuron.propagate(&vec![0]);
    let v4 = neuron.propagate(&vec![500_000]);
    let v5 = neuron.propagate(&vec![UNIT]);

    // Negative pre-activations are all floored to exactly zero...
    assert_eq!(v1, 0);
    assert_eq!(v2, 0);
    assert_eq!(v3, 0);
    // ...and positive ones pass through.
    assert_eq!(v4, 250_000);
    assert_eq!(v5, 500_000);
}

#[test]
fn neuron_test() {
    // Rebuilding a neuron from a flat sequence consumes bias first, then
    // the weights, in order.
    let weights = vec![100_000, 200_000, 300_000, 400_000];
    let mut pos = 0;
    let neuron = Neuron::from_weights(3, &weights, &mut pos);
    assert_eq!(pos, 4);
    assert_eq!(neuron.bias, 100_000);
    assert_eq!(neuron.weights, vec![200_000, 300_000, 400_000]);
}

#[test]
fn layer_test() {
    // A layer propagates each neuron independently, in order.
    let neurons = vec![
        Neuron::new(0, vec![100_000, 200_000, 300_000]),
        Neuron::new(0, vec![400_000, 500_000, 600_000]),
    ];
    let first = neurons[0].clone();
    let second = neurons[1].clone();
    let layer = Layer::new(neurons);

    let inputs = vec![-500_000, 0, 500_000];
    let actual = layer.propagate(&inputs);
    let expected = vec![first.propagate(&inputs), second.propagate(&inputs)];
    assert_eq!(actual, expected);
}

#[test]
fn layer_from_weights_test() {
    let weights = vec![
        100_000, 200_000, 300_000, 400_000, 500_000, 600_000, 700_000, 800_000,
    ];
    let mut pos = 0;
    let layer = Layer::from_weights(3, 2, &weights, &mut pos);
    assert_eq!(pos, 8);
    assert_eq!(layer.neurons.len(), 2);
    assert_eq!(layer.neurons[0].bias, 100_000);
    assert_eq!(layer.neurons[0].weights, vec![200_000, 300_000, 400_000]);
    assert_eq!(layer.neurons[1].bias, 500_000);
    assert_eq!(layer.neurons[1].weights, vec![600_000, 700_000, 800_000]);
}

#[test]
fn random() {
    // Identical seeds give identical networks: identical weights and
    // identical outputs on identical inputs.
    let mut rng_a = rng(42);
    let mut rng_b = rng(42);
    let topology = vec![3usize, 2, 1];

    let net_a = Network::random(&mut rng_a, &topology);
    let net_b = Network::random(&mut rng_b, &topology);

    assert_eq!(net_a.weights(), net_b.weights());

    let out_a = net_a.propagate(vec![100_000, 200_000, 300_000]);
    let out_b = net_b.propagate(vec![100_000, 200_000, 300_000]);
    assert_eq!(out_a, out_b);

    // The structure honours the topology: two layers, shaped 3 -> 2 -> 1.
    assert_eq!(net_a.layers.len(), 2);
    assert_eq!(net_a.layers[0].neurons.len(), 2);
    assert_eq!(net_a.layers[0].neurons[0].weights.len(), 3);
    assert_eq!(net_a.layers[1].neurons.len(), 1);
    assert_eq!(net_a.layers[1].neurons[0].weights.len(), 2);

    // Every drawn parameter lies in [-1, 1].
    for w in net_a.weights() {
        assert!(-UNIT <= w && w <= UNIT);
    }
}

#[test]
fn from_weights() {
    // Round trip: rebuilding from a flat sequence of the exact demanded
    // length and flattening again returns the same sequence.
    let topology = vec![3usize, 2];
    let weights = vec![
        100_000, 200_000, 300_000, 400_000, 500_000, 600_000, 700_000, 800_000,
    ];
    let actual = Network::from_weights(&topology, &weights).weights();
    assert_eq!(actual, weights);
}

#[test]
fn from_weights_three_layers() {
    let topology = vec![2usize, 2, 1];
    // (2+1)*2 + (3)*1 = 9 scalars.
    let weights: Vec<i64> = (1..=9).map(|k| k * 10_000).collect();
    let net = Network::from_weights(&topology, &weights);
    assert_eq!(net.weights(), weights);
}

#[test]
fn propagate() {
    let layer0 = Layer::new(vec![
        Neuron::new(0, vec![-500_000, -400_000, -300_000]),
        Neuron::new(0, vec![-200_000, -100_000, 0]),
    ]);
    let layer1 = Layer::new(vec![Neuron::new(0, vec![-500_000, 500_000])]);
    let network = Network::new(vec![layer0.clone(), layer1.clone()]);

    let actual = network.propagate(vec![500_000, 600_000, 700_000]);
    let expected = layer1.propagate(&layer0.propagate(&vec![500_000, 600_000, 700_000]));
    assert_eq!(actual, expected);
}

#[test]
fn propagate_output_never_negative() {
    let mut r = rng(7);
    let topology = vec![4usize, 3, 2];
    let net = Network::random(&mut r, &topology);
    for seed in 0..20u64 {
        let mut r2 = rng(seed);
        let input: Vec<i64> = (0..4)
            .map(|_| rand::Rng::gen_range(&mut r2, -UNIT..UNIT))
            .collect();
        for v in net.propagate(input) {
            assert!(v >= 0);
        }
    }
}

#[test]
fn weights() {
    let network = Network::new(vec![
        Layer::new(vec![Neuron::new(100_000, vec![200_000, 300_000, 400_000])]),
        Layer::new(vec![Neuron::new(500_000, vec![600_000])]),
    ]);
    let actual = network.weights();
    let expected = vec![100_000, 200_000, 300_000, 400_000, 500_000, 600_000];
    assert_eq!(actual, expected);
}
