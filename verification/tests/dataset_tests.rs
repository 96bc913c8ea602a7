use gate_learner::cli::{generate_dataset, GateType};
use gate_learner::dataset::{generate_or, generate_xor};
use gate_learner::error::GateLearnerError;

/// The bits of a row as the network reads them.
fn floats(bits: &[u8]) -> Vec<f32> {
    bits.iter().map(|&b| f32::from(b)).collect()
}

#[test]
fn test_generate_or_2_inputs() {
    let dataset = generate_or(2).unwrap();
    assert_eq!(dataset.len(), 4);
    assert_eq!(floats(&dataset[0].0), vec![0.0f32, 0.0f32]);
    assert_eq!(floats(&dataset[0].1), vec![0.0f32]);
    assert_eq!(floats(&dataset[1].0), vec![1.0f32, 0.0f32]);
    assert_eq!(floats(&dataset[1].1), vec![1.0f32]);
    assert_eq!(floats(&dataset[2].0), vec![0.0f32, 1.0f32]);
    assert_eq!(floats(&dataset[2].1), vec![1.0f32]);
    assert_eq!(floats(&dataset[3].0), vec![1.0f32, 1.0f32]);
    assert_eq!(floats(&dataset[3].1), vec![1.0f32]);
}

#[test]
fn test_generate_or_1_input() {
    let dataset = generate_or(1).unwrap();
    assert_eq!(dataset.len(), 2);
    assert_eq!(floats(&dataset[0].0), vec![0.0f32]);
    assert_eq!(floats(&dataset[0].1), vec![0.0f32]);
    assert_eq!(floats(&dataset[1].0), vec![1.0f32]);
    assert_eq!(floats(&dataset[1].1), vec![1.0f32]);
}

#[test]
fn test_generate_or_3_inputs() {
    let dataset = generate_or(3).unwrap();
    assert_eq!(dataset.len(), 8);
    assert_eq!(floats(&dataset[0].0), vec![0.0f32, 0.0f32, 0.0f32]);
    assert_eq!(floats(&dataset[0].1), vec![0.0f32]);
    assert_eq!(floats(&dataset[1].0), vec![1.0f32, 0.0f32, 0.0f32]);
    assert_eq!(floats(&dataset[1].1), vec![1.0f32]);
    assert_eq!(floats(&dataset[2].0), vec![0.0f32, 1.0f32, 0.0f32]);
    assert_eq!(floats(&dataset[2].1), vec![1.0f32]);
    assert_eq!(floats(&dataset[7].0), vec![1.0f32, 1.0f32, 1.0f32]);
    assert_eq!(floats(&dataset[7].1), vec![1.0f32]);
}

#[test]
fn test_generate_xor_2_inputs() {
    let dataset = generate_xor(2).unwrap();
    assert_eq!(dataset.len(), 4);
    assert_eq!(floats(&dataset[0].0), vec![0.0f32, 0.0f32]);
    assert_eq!(floats(&dataset[0].1), vec![0.0f32]);
    assert_eq!(floats(&dataset[1].0), vec![1.0f32, 0.0f32]);
    assert_eq!(floats(&dataset[1].1), vec![1.0f32]);
    assert_eq!(floats(&dataset[2].0), vec![0.0f32, 1.0f32]);
    assert_eq!(floats(&dataset[2].1), vec![1.0f32]);
    assert_eq!(floats(&dataset[3].0), vec![1.0f32, 1.0f32]);
    assert_eq!(floats(&dataset[3].1), vec![0.0f32]);
}

#[test]
fn test_generate_xor_1_input() {
    let dataset = generate_xor(1).unwrap();
    assert_eq!(dataset.len(), 2);
    assert_eq!(floats(&dataset[0].0), vec![0.0f32]);
    assert_eq!(floats(&dataset[0].1), vec![0.0f32]);
    assert_eq!(floats(&dataset[1].0), vec![1.0f32]);
    assert_eq!(floats(&dataset[1].1), vec![1.0f32]);
}

#[test]
fn test_generate_xor_3_inputs() {
    let dataset = generate_xor(3).unwrap();
    assert_eq!(dataset.len(), 8);
    assert_eq!(floats(&dataset[0].0), vec![0.0f32, 0.0f32, 0.0f32]);
    assert_eq!(floats(&dataset[0].1), vec![0.0f32]);
    assert_eq!(floats(&dataset[1].0), vec![1.0f32, 0.0f32, 0.0f32]);
    assert_eq!(floats(&dataset[1].1), vec![1.0f32]);
    assert_eq!(floats(&dataset[2].0), vec![0.0f32, 1.0f32, 0.0f32]);
    assert_eq!(floats(&dataset[2].1), vec![1.0f32]);
    assert_eq!(floats(&dataset[3].0), vec![1.0f32, 1.0f32, 0.0f32]);
    assert_eq!(floats(&dataset[3].1), vec![0.0f32]);
    assert_eq!(floats(&dataset[7].0), vec![1.0f32, 1.0f32, 1.0f32]);
    assert_eq!(floats(&dataset[7].1), vec![1.0f32]);
}

#[test]
fn test_generate_or_large_inputs_error() {
    let err = generate_or(20).unwrap_err();
    assert!(matches!(err, GateLearnerError::InvalidArchitecture(_)));
    assert_eq!(
        err.to_string(),
        "invalid network architecture: N-input value (20) is too large, max supported is 19."
    );
}

#[test]
fn test_generate_xor_large_inputs_error() {
    let err = generate_xor(20).unwrap_err();
    assert!(matches!(err, GateLearnerError::InvalidArchitecture(_)));
    assert_eq!(
        err.to_string(),
        "invalid network architecture: N-input value (20) is too large, max supported is 19."
    );
}

#[test]
fn largest_table_has_nineteen_inputs() {
    let dataset = generate_or(19).unwrap();
    assert_eq!(dataset.len(), 1 << 19);
    assert_eq!(dataset[(1 << 19) - 1].0, vec![1u8; 19]);
    let err = generate_xor(123).unwrap_err();
    assert_eq!(
        err.to_string(),
        "invalid network architecture: N-input value (123) is too large, max supported is 19."
    );
}

#[test]
fn zero_inputs_give_one_empty_row() {
    let or = generate_or(0).unwrap();
    assert_eq!(or, vec![(vec![], vec![0u8])]);
    let xor = generate_xor(0).unwrap();
    assert_eq!(xor, vec![(vec![], vec![0u8])]);
}

#[test]
fn every_combination_appears_once() {
    for n in 0..8usize {
        let table = generate_xor(n).unwrap();
        let mut seen = std::collections::HashSet::new();
        for (input, _) in &table {
            assert_eq!(input.len(), n);
            assert!(seen.insert(input.clone()));
        }
        assert_eq!(seen.len(), 1 << n);
    }
}

#[test]
fn input_bit_is_bit_of_row_index() {
    let table = generate_or(5).unwrap();
    for (i, (input, _)) in table.iter().enumerate() {
        for (b, &bit) in input.iter().enumerate() {
            assert_eq!(bit as usize, (i >> b) & 1);
        }
    }
}

#[test]
fn or_and_xor_share_inputs() {
    let or = generate_or(4).unwrap();
    let xor = generate_xor(4).unwrap();
    assert_eq!(or.len(), xor.len());
    for (a, b) in or.iter().zip(xor.iter()) {
        assert_eq!(a.0, b.0);
    }
}

#[test]
fn or_target_zero_only_on_first_row() {
    let table = generate_or(4).unwrap();
    for (i, (_, target)) in table.iter().enumerate() {
        assert_eq!(target, &vec![if i == 0 { 0u8 } else { 1u8 }]);
    }
}

#[test]
fn xor_target_is_parity() {
    let table = generate_xor(4).unwrap();
    for (i, (_, target)) in table.iter().enumerate() {
        assert_eq!(target, &vec![(i.count_ones() % 2) as u8]);
    }
    assert_eq!(table[7].1, vec![1u8]);
    assert_eq!(table[15].1, vec![0u8]);
}

#[test]
fn gate_selects_its_table() {
    assert_eq!(generate_dataset(GateType::Or, 3).unwrap(), generate_or(3).unwrap());
    assert_eq!(generate_dataset(GateType::Xor, 3).unwrap(), generate_xor(3).unwrap());
    assert!(matches!(
        generate_dataset(GateType::Xor, 20),
        Err(GateLearnerError::InvalidArchitecture(_))
    ));
}
