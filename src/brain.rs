use vstd::prelude::*;

use neural_network_study::{ActivationFunction, NeuralNetwork, NeuralNetworkError};

verus! {

/// A feedforward network of the outside crate; its weights are opaque here.
#[verifier::external_type_specification]
#[verifier::external_body]
pub struct ExNeuralNetwork(NeuralNetwork);

/// Why the outside crate refused to build a network.
#[verifier::external_type_specification]
#[verifier::external_body]
pub struct ExNeuralNetworkError(NeuralNetworkError);

/// Inputs of the network: what `Senses` holds, as fourteen numbers.
pub const INPUTS: usize = 14;

/// Neurons of the hidden layer.
pub const HIDDEN: usize = 16;

/// Outputs of the network, one per heading: up, down, left, right.
pub const OUTPUTS: usize = 4;

/// The activation function a network applies to its hidden and output layers.
#[derive(Clone, Copy, Debug, PartialEq, Eq, Structural)]
pub enum Activation {
    Sigmoid,
    Tanh,
    Linear,
}

/// The layer sizes a network was built with, input layer first.
pub uninterp spec fn layers_of(nn: NeuralNetwork) -> Seq<usize>;

/// The activation function a network applies.
pub uninterp spec fn activation_of(nn: NeuralNetwork) -> Activation;

/// Relies on `NeuralNetwork::new`: it refuses fewer than two layers and any
/// layer of size zero, and otherwise builds a network that keeps those layer
/// sizes, has random weights drawn from `rng`, and applies the default
/// activation, the sigmoid.
#[verifier::external_body]
fn network_with_layers(layer_sizes: Vec<usize>, rng: &mut rand::rngs::StdRng) -> (r: Result<
    NeuralNetwork,
    NeuralNetworkError,
>)
    ensures
        r is Ok <==> (layer_sizes.len() >= 2 && forall|i: int|
            0 <= i < layer_sizes.len() ==> #[trigger] layer_sizes@[i] > 0),
        r matches Ok(nn) ==> layers_of(nn) == layer_sizes@ && activation_of(nn)
            == Activation::Sigmoid,
{
    NeuralNetwork::new(layer_sizes, Some(rng))
}

/// Relies on `NeuralNetwork::set_activation_function`: it stores the given
/// activation and changes nothing else.
#[verifier::external_body]
fn set_activation(nn: &mut NeuralNetwork, activation: Activation)
    ensures
        activation_of(*final(nn)) == activation,
        layers_of(*final(nn)) == layers_of(*old(nn)),
{
    nn.set_activation_function(
        match activation {
            Activation::Sigmoid => ActivationFunction::Sigmoid,
            Activation::Tanh => ActivationFunction::Tanh,
            Activation::Linear => ActivationFunction::Linear,
        },
    )
}

/// The network that steers one snake.
pub struct Brain {
    pub nn: NeuralNetwork,
}

impl Brain {
    /// A network of `INPUTS`, `HIDDEN` and `OUTPUTS` neurons with random
    /// weights and tanh activation.
    pub fn new(rng: &mut rand::rngs::StdRng) -> (r: Brain)
        ensures
            layers_of(r.nn) == seq![INPUTS, HIDDEN, OUTPUTS],
            activation_of(r.nn) == Activation::Tanh,
    {
        let sizes: Vec<usize> = vec![INPUTS, HIDDEN, OUTPUTS];
        assert(sizes@ == seq![INPUTS, HIDDEN, OUTPUTS]);
        let mut nn = network_with_layers(sizes, rng).unwrap();
        set_activation(&mut nn, Activation::Tanh);
        Brain { nn }
    }
}

} // verus!
