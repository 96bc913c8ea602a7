use gate_learner::buffers::{AdamMoments, LayerDims, TrainingBuffers};
use gate_learner::network::{plan_layers, ActivationType, LayerShape, NetworkConfig};
use gate_learner::error::GateLearnerError;

fn dims_of(layers: &[LayerShape]) -> Vec<LayerDims> {
    layers
        .iter()
        .map(|l| LayerDims {
            input_size: l.input_size,
            output_size: l.output_size,
            weight_count: l.input_size * l.output_size,
            bias_count: l.output_size,
        })
        .collect()
}

fn create_test_buffers(
    input_size: usize,
    hidden_sizes: Vec<usize>,
    output_size: usize,
    hidden_activation: ActivationType,
) -> (Vec<LayerDims>, TrainingBuffers<f32>) {
    let config = NetworkConfig {
        input_size,
        hidden_sizes,
        output_size,
        hidden_activation,
    };
    let dims = dims_of(&plan_layers(&config).unwrap());
    let mut buffers = TrainingBuffers::new();
    buffers.ensure(&dims, 0.0f32);
    (dims, buffers)
}

#[test]
fn test_invalid_architecture_input_zero() {
    let config = NetworkConfig {
        input_size: 0,
        hidden_sizes: vec![3],
        output_size: 1,
        hidden_activation: ActivationType::Relu,
    };
    let err = plan_layers(&config).unwrap_err();
    assert!(matches!(err, GateLearnerError::InvalidArchitecture(_)));
    assert_eq!(
        err.to_string(),
        "invalid network architecture: Input size cannot be zero"
    );
}

#[test]
fn test_invalid_architecture_output_zero() {
    let config = NetworkConfig {
        input_size: 2,
        hidden_sizes: vec![3],
        output_size: 0,
        hidden_activation: ActivationType::Relu,
    };
    let err = plan_layers(&config).unwrap_err();
    assert!(matches!(err, GateLearnerError::InvalidArchitecture(_)));
    assert_eq!(
        err.to_string(),
        "invalid network architecture: Output size cannot be zero"
    );
}

#[test]
fn test_invalid_architecture_hidden_zero() {
    let config = NetworkConfig {
        input_size: 2,
        hidden_sizes: vec![3, 0],
        output_size: 1,
        hidden_activation: ActivationType::Relu,
    };
    let err = plan_layers(&config).unwrap_err();
    assert!(matches!(err, GateLearnerError::InvalidArchitecture(_)));
    assert_eq!(
        err.to_string(),
        "invalid network architecture: Hidden layer 1 size cannot be zero"
    );
}

#[test]
fn first_zero_hidden_layer_is_named() {
    let mut hidden = vec![5usize; 12];
    hidden[10] = 0;
    hidden[11] = 0;
    let config = NetworkConfig {
        input_size: 2,
        hidden_sizes: hidden,
        output_size: 1,
        hidden_activation: ActivationType::Sigmoid,
    };
    assert_eq!(
        plan_layers(&config).unwrap_err().to_string(),
        "invalid network architecture: Hidden layer 10 size cannot be zero"
    );
    let both_zero = NetworkConfig {
        input_size: 0,
        hidden_sizes: vec![0],
        output_size: 0,
        hidden_activation: ActivationType::Relu,
    };
    assert_eq!(
        plan_layers(&both_zero).unwrap_err().to_string(),
        "invalid network architecture: Input size cannot be zero"
    );
}

#[test]
fn planned_layers_chain() {
    let config = NetworkConfig {
        input_size: 2,
        hidden_sizes: vec![3, 4],
        output_size: 1,
        hidden_activation: ActivationType::Relu,
    };
    let layers = plan_layers(&config).unwrap();
    assert_eq!(
        layers,
        vec![
            LayerShape { input_size: 2, output_size: 3, activation: ActivationType::Relu },
            LayerShape { input_size: 3, output_size: 4, activation: ActivationType::Relu },
            LayerShape { input_size: 4, output_size: 1, activation: ActivationType::Sigmoid },
        ]
    );
    let no_hidden = NetworkConfig {
        input_size: 3,
        hidden_sizes: vec![],
        output_size: 2,
        hidden_activation: ActivationType::Relu,
    };
    assert_eq!(
        plan_layers(&no_hidden).unwrap(),
        vec![LayerShape { input_size: 3, output_size: 2, activation: ActivationType::Sigmoid }]
    );
}

#[test]
fn test_buffer_allocation() {
    let (dims, buffers) = create_test_buffers(2, vec![3, 4], 1, ActivationType::Relu);

    let num_layers = dims.len();
    assert_eq!(buffers.activations.len(), num_layers + 1);
    assert_eq!(buffers.activations[0].len(), 2);
    assert_eq!(buffers.activations[1].len(), 3);
    assert_eq!(buffers.activations[2].len(), 4);
    assert_eq!(buffers.activations[3].len(), 1);

    assert_eq!(buffers.deltas.len(), num_layers);
    assert_eq!(buffers.deltas[0].len(), 3);
    assert_eq!(buffers.deltas[1].len(), 4);
    assert_eq!(buffers.deltas[2].len(), 1);

    assert_eq!(buffers.weight_grads.len(), num_layers);
    assert_eq!(buffers.weight_grads[0].len(), 2 * 3);
    assert_eq!(buffers.weight_grads[1].len(), 3 * 4);
    assert_eq!(buffers.weight_grads[2].len(), 4);

    assert_eq!(buffers.bias_grads.len(), num_layers);
    assert_eq!(buffers.bias_grads[0].len(), 3);
    assert_eq!(buffers.bias_grads[1].len(), 4);
    assert_eq!(buffers.bias_grads[2].len(), 1);
}

#[test]
fn test_zero_gradients() {
    let (dims, mut buffers) = create_test_buffers(2, vec![3], 1, ActivationType::Relu);
    buffers.weight_grads[0].fill(0.5f32);
    buffers.bias_grads[0].fill(0.5f32);

    buffers.zero_gradients(&dims, 0.0f32);

    for grads in &buffers.weight_grads {
        assert!(grads.iter().all(|&g| g.abs() < f32::EPSILON));
    }
    for grads in &buffers.bias_grads {
        assert!(grads.iter().all(|&g| g.abs() < f32::EPSILON));
    }
}

#[test]
fn ensure_keeps_correctly_sized_buffers() {
    let (dims, mut buffers) = create_test_buffers(2, vec![3], 1, ActivationType::Relu);
    buffers.activations[1][2] = 7.5;
    buffers.ensure(&dims, 0.0f32);
    assert_eq!(buffers.activations[1], vec![0.0, 0.0, 7.5]);
    let once = buffers.clone();
    buffers.ensure(&dims, 0.0f32);
    assert_eq!(buffers.activations, once.activations);
    assert_eq!(buffers.weight_grads, once.weight_grads);
}

#[test]
fn ensure_rebuilds_buffers_with_wrong_row_count() {
    let (_, mut buffers) = create_test_buffers(2, vec![3], 1, ActivationType::Relu);
    buffers.deltas[0][0] = 1.0;
    let wider = vec![
        LayerDims { input_size: 2, output_size: 5, weight_count: 10, bias_count: 5 },
        LayerDims { input_size: 5, output_size: 2, weight_count: 10, bias_count: 2 },
        LayerDims { input_size: 2, output_size: 1, weight_count: 2, bias_count: 1 },
    ];
    buffers.ensure(&wider, 0.0f32);
    assert_eq!(buffers.activations, vec![vec![0.0; 2], vec![0.0; 5], vec![0.0; 2], vec![0.0; 1]]);
    assert_eq!(buffers.deltas, vec![vec![0.0; 5], vec![0.0; 2], vec![0.0; 1]]);
    assert_eq!(buffers.weight_grads, vec![vec![0.0; 10], vec![0.0; 10], vec![0.0; 2]]);
}

#[test]
fn adam_moments_match_layer_shapes() {
    let (dims, _) = create_test_buffers(2, vec![3, 4], 1, ActivationType::Relu);
    let moments = AdamMoments::new(&dims, 0.0f32);
    assert_eq!(moments.m_weights.len(), dims.len());
    assert_eq!(moments.v_biases.len(), dims.len());
    for l in 0..dims.len() {
        assert_eq!(moments.m_weights[l].len(), dims[l].weight_count);
        assert_eq!(moments.v_weights[l].len(), dims[l].weight_count);
        assert_eq!(moments.m_biases[l].len(), dims[l].bias_count);
        assert_eq!(moments.v_biases[l].len(), dims[l].bias_count);
        assert!(moments.m_weights[l].iter().all(|&v| v == 0.0f32));
        assert!(moments.v_weights[l].iter().all(|&v| v == 0.0f32));
        assert!(moments.m_biases[l].iter().all(|&v| v == 0.0f32));
        assert!(moments.v_biases[l].iter().all(|&v| v == 0.0f32));
    }
}

#[test]
fn ensure_resizes_after_a_wider_first_layer() {
    let (_, mut buffers) = create_test_buffers(2, vec![3], 1, ActivationType::Relu);
    let wider = dims_of(&plan_layers(&NetworkConfig {
        input_size: 4,
        hidden_sizes: vec![3],
        output_size: 1,
        hidden_activation: ActivationType::Relu,
    })
    .unwrap());
    buffers.ensure(&wider, 0.0f32);
    assert_eq!(buffers.activations[0].len(), 4);
    assert_eq!(buffers.weight_grads[0].len(), 12);
    assert_eq!(buffers.activations[1].len(), 3);
    assert_eq!(buffers.bias_grads, vec![vec![0.0; 3], vec![0.0; 1]]);
}

#[test]
fn ensure_rebuilds_a_buffer_with_a_wrong_row_length() {
    let (dims, mut buffers) = create_test_buffers(2, vec![3], 1, ActivationType::Relu);
    buffers.deltas[1].push(9.0);
    buffers.deltas[0][0] = 2.0;
    buffers.weight_grads[0][0] = 3.0;
    buffers.ensure(&dims, 0.0f32);
    assert_eq!(buffers.deltas, vec![vec![0.0; 3], vec![0.0; 1]]);
    assert_eq!(buffers.weight_grads[0][0], 3.0);
}

#[test]
fn fresh_buffers_meet_the_invariant() {
    let (dims, buffers) = create_test_buffers(3, vec![5, 2], 2, ActivationType::Sigmoid);
    assert_eq!(buffers.activations.len(), dims.len() + 1);
    assert_eq!(buffers.activations[0].len(), dims[0].input_size);
    for k in 0..dims.len() {
        assert_eq!(buffers.activations[k + 1].len(), dims[k].output_size);
        assert_eq!(buffers.deltas[k].len(), dims[k].output_size);
        assert_eq!(buffers.bias_grads[k].len(), dims[k].output_size);
        assert_eq!(buffers.weight_grads[k].len(), dims[k].weight_count);
        assert!(buffers.weight_grads[k].iter().all(|&g| g == 0.0));
        assert!(buffers.bias_grads[k].iter().all(|&g| g == 0.0));
    }
}
