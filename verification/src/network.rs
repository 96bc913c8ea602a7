//! Architecture of the multilayer perceptron: activation kinds, the network
//! configuration, and the rules that turn a configuration into a sequence of
//! layers.

use vstd::prelude::*;
use crate::error::GateLearnerError;
use crate::text::{decimal, decimal_text};

verus! {

/// Type of activation function.
#[derive(Debug, Clone, Copy, PartialEq, Eq, Structural)]
pub enum ActivationType {
    /// Sigmoid activation function.
    Sigmoid,
    /// `ReLU` activation function.
    Relu,
}

/// Configuration for the artificial neural network architecture.
#[derive(Debug, Clone)]
pub struct NetworkConfig {
    /// Number of neurons in the input layer (matches the N-input of the logic gate).
    pub input_size: usize,
    /// Number of neurons in each hidden layer.
    pub hidden_sizes: Vec<usize>,
    /// Number of neurons in the output layer (typically 1 for logic gates).
    pub output_size: usize,
    /// Activation function for the hidden layers.
    pub hidden_activation: ActivationType,
}

/// The shape of one layer: how many inputs and outputs it has, and its activation.
#[derive(Debug, Clone, Copy, PartialEq, Eq, Structural)]
pub struct LayerShape {
    /// Number of input neurons.
    pub input_size: usize,
    /// Number of output neurons.
    pub output_size: usize,
    /// Activation function used by this layer.
    pub activation: ActivationType,
}

/// `k` is the first index of a zero in `hidden`.
pub open spec fn is_first_zero(hidden: Seq<usize>, k: int) -> bool {
    &&& 0 <= k < hidden.len()
    &&& hidden[k] == 0
    &&& forall|j: int| 0 <= j < k ==> hidden[j] != 0
}

/// Why an architecture is refused, as the text of its error; `None` when it is valid.
/// The input size is checked first, then the output size, then the hidden layers in order.
pub open spec fn architecture_error(input_size: usize, hidden: Seq<usize>, output_size: usize) -> Option<Seq<char>> {
    if input_size == 0 {
        Some("Input size cannot be zero"@)
    } else if output_size == 0 {
        Some("Output size cannot be zero"@)
    } else if exists|k: int| 0 <= k < hidden.len() && hidden[k] == 0 {
        let k = choose|k: int| is_first_zero(hidden, k);
        Some("Hidden layer "@ + decimal(k as nat) + " size cannot be zero"@)
    } else {
        None
    }
}

/// The layers of a network: one per hidden size, each fed by the one before it
/// (the first by the input), with the hidden activation, then an output layer
/// with the sigmoid activation.
pub open spec fn planned_layers(input_size: usize, hidden: Seq<usize>, output_size: usize, act: ActivationType) -> Seq<LayerShape> {
    Seq::new(hidden.len() + 1, |l: int| LayerShape {
        input_size: if l == 0 { input_size } else { hidden[l - 1] },
        output_size: if l == hidden.len() { output_size } else { hidden[l] },
        activation: if l == hidden.len() { ActivationType::Sigmoid } else { act },
    })
}

impl NetworkConfig {
    /// Why this configuration is refused, if it is.
    pub open spec fn error_text(&self) -> Option<Seq<char>> {
        architecture_error(self.input_size, self.hidden_sizes@, self.output_size)
    }

    /// The layers that this configuration describes.
    pub open spec fn layers(&self) -> Seq<LayerShape> {
        planned_layers(self.input_size, self.hidden_sizes@, self.output_size, self.hidden_activation)
    }
}

/// Checks a network configuration and lays out its layers.
///
/// Fails with `InvalidArchitecture` if the input size, the output size or a
/// hidden layer size is zero; the message names the first offending size.
pub fn plan_layers(config: &NetworkConfig) -> (r: Result<Vec<LayerShape>, GateLearnerError>)
    ensures
        r is Ok <==> config.error_text() is None,
        r matches Ok(layers) ==> layers@ == config.layers(),
        r matches Err(e) ==> e matches GateLearnerError::InvalidArchitecture(m) && config.error_text() == Some(m@),
{
    if config.input_size == 0 {
        return Err(GateLearnerError::InvalidArchitecture(String::from_str("Input size cannot be zero")));
    }
    if config.output_size == 0 {
        return Err(GateLearnerError::InvalidArchitecture(String::from_str("Output size cannot be zero")));
    }
    let hidden = &config.hidden_sizes;
    for i in 0..hidden.len()
        invariant
            hidden@ == config.hidden_sizes@,
            config.input_size != 0,
            config.output_size != 0,
            forall|j: int| 0 <= j < i ==> hidden@[j] != 0,
    {
        if hidden[i] == 0 {
            let mut m = String::from_str("Hidden layer ");
            let d = decimal_text(i);
            m.append(d.as_str());
            m.append(" size cannot be zero");
            proof {
                assert(is_first_zero(hidden@, i as int));
                let k = choose|k: int| is_first_zero(hidden@, k);
                assert(k == i);
            }
            return Err(GateLearnerError::InvalidArchitecture(m));
        }
    }
    assert(!(exists|k: int| 0 <= k < hidden@.len() && hidden@[k] == 0));
    let ghost goal = config.layers();
    let mut layers: Vec<LayerShape> = Vec::new();
    let mut prev_size = config.input_size;
    for l in 0..hidden.len()
        invariant
            goal == config.layers(),
            hidden@ == config.hidden_sizes@,
            goal.len() == hidden@.len() + 1,
            layers@ == goal.take(l as int),
            prev_size == goal[l as int].input_size,
    {
        let hidden_size = hidden[l];
        assert(goal[l as int] == LayerShape {
            input_size: prev_size,
            output_size: hidden_size,
            activation: config.hidden_activation,
        });
        assert(goal[l + 1].input_size == hidden_size);
        layers.push(LayerShape {
            input_size: prev_size,
            output_size: hidden_size,
            activation: config.hidden_activation,
        });
        prev_size = hidden_size;
        assert(layers@ =~= goal.take(l + 1));
    }
    assert(goal[hidden@.len() as int] == LayerShape {
        input_size: prev_size,
        output_size: config.output_size,
        activation: ActivationType::Sigmoid,
    });
    layers.push(LayerShape {
        input_size: prev_size,
        output_size: config.output_size,
        activation: ActivationType::Sigmoid,
    });
    assert(layers@ =~= goal);
    Ok(layers)
}

/// The planned layers form a chain: the first takes the network's input, each
/// feeds the next, the last gives the network's output with the sigmoid
/// activation, and every other layer uses the hidden activation.
pub proof fn lemma_planned_layers_chain(config: NetworkConfig)
    ensures
        config.layers().len() == config.hidden_sizes@.len() + 1,
        config.layers()[0].input_size == config.input_size,
        config.layers().last().output_size == config.output_size,
        config.layers().last().activation == ActivationType::Sigmoid,
        forall|l: int| 0 <= l < config.hidden_sizes@.len() ==> {
            &&& (#[trigger] config.layers()[l]).output_size == config.layers()[l + 1].input_size
            &&& config.layers()[l].output_size == config.hidden_sizes@[l]
            &&& config.layers()[l].activation == config.hidden_activation
        },
{
}

/// A configuration is refused exactly when its input size, its output size or
/// one of its hidden sizes is zero. The refusal names the input size first,
/// then the output size, then the first hidden layer of size zero, by index.
pub proof fn lemma_refused_exactly_on_a_zero_size(config: NetworkConfig, k: int)
    ensures
        config.error_text() is None <==> (config.input_size > 0 && config.output_size > 0
            && forall|j: int| 0 <= j < config.hidden_sizes@.len() ==> #[trigger] config.hidden_sizes@[j] > 0),
        config.input_size == 0 ==> config.error_text() == Some("Input size cannot be zero"@),
        config.input_size > 0 && config.output_size == 0 ==> config.error_text() == Some("Output size cannot be zero"@),
        config.input_size > 0 && config.output_size > 0 && 0 <= k < config.hidden_sizes@.len()
            && config.hidden_sizes@[k] == 0
            && (forall|j: int| 0 <= j < k ==> #[trigger] config.hidden_sizes@[j] > 0)
            ==> config.error_text() == Some("Hidden layer "@ + decimal(k as nat) + " size cannot be zero"@),
{
    let h = config.hidden_sizes@;
    if config.input_size > 0 && config.output_size > 0 && 0 <= k < h.len() && h[k] == 0
        && (forall|j: int| 0 <= j < k ==> #[trigger] h[j] > 0) {
        assert(is_first_zero(h, k));
        let c = choose|c: int| is_first_zero(h, c);
        assert(c == k) by {
            if c < k { assert(h[c] > 0); }
            if c > k { assert(h[k] != 0); }
        }
    }
    if exists|j: int| 0 <= j < h.len() && h[j] == 0 {
        let j = choose|j: int| 0 <= j < h.len() && h[j] == 0;
        assert(!(h[j] > 0));
    }
}

/// A valid configuration has no zero size among its layers.
pub proof fn lemma_valid_layers_nonzero(config: NetworkConfig)
    requires
        config.error_text() is None,
    ensures
        forall|l: int| 0 <= l < config.layers().len() ==>
            (#[trigger] config.layers()[l]).input_size > 0 && config.layers()[l].output_size > 0,
{
    assert forall|l: int| 0 <= l < config.layers().len() implies
        (#[trigger] config.layers()[l]).input_size > 0 && config.layers()[l].output_size > 0 by {
        if l > 0 {
            assert(config.hidden_sizes@[l - 1] != 0);
        }
        if l < config.hidden_sizes@.len() {
            assert(config.hidden_sizes@[l] != 0);
        }
    }
}

} // verus!
