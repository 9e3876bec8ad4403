use perceptron::neuron::{NeuronError, RosenblattNeuron};
use perceptron::serializer::RosenblattNeuronSerializer;

fn bits(values: &[f64]) -> Vec<u64> {
    values.iter().map(|v| v.to_bits()).collect()
}

fn neuron(weights: &[f64], bias: f64, learning_rate: f64) -> RosenblattNeuron {
    RosenblattNeuron::new(bits(weights), bias.to_bits(), learning_rate.to_bits())
}

#[test]
fn predict_returns_only_zero_or_one() {
    let samples: [(&[f64], &[f64], f64); 5] = [
        (&[0.5, -0.5], &[1.0, 1.0], 0.0),
        (&[0.1, 0.2, 0.3], &[-1.0, 2.0, 0.5], -0.25),
        (&[-2.0], &[3.5], 1.0),
        (&[0.0, 0.0], &[7.25, -8.5], -1.0),
        (&[1e300, -1e300], &[1e10, 1e10], 0.5),
    ];
    for (weights, input, bias) in samples {
        let n = neuron(weights, bias, 0.5);
        let out = n.predict(&bits(input)).unwrap();
        assert_eq!(out.len(), 1);
        let activation = f64::from_bits(out[0]);
        assert!(activation == 0.0 || activation == 1.0);
    }
}

#[test]
fn predict_exact_activations() {
    let n = neuron(&[0.5, -0.5], 0.0, 0.5);
    let out = n.predict(&bits(&[1.0, 1.0])).unwrap();
    // 0.5 - 0.5 + 0.0 is exactly zero, and the step at zero is one.
    assert_eq!(f64::from_bits(out[0]), 1.0);

    let below = neuron(&[1.0], -2.0, 0.5);
    let out = below.predict(&bits(&[1.0])).unwrap();
    assert_eq!(f64::from_bits(out[0]), 0.0);

    let above = neuron(&[2.0, 3.0], 1.0, 0.5);
    let out = above.predict(&bits(&[1.0, -0.5])).unwrap();
    // 2.0 - 1.5 + 1.0 = 1.5 >= 0.
    assert_eq!(f64::from_bits(out[0]), 1.0);
}

#[test]
fn heaviside_edge_cases() {
    assert_eq!(RosenblattNeuron::heaviside(0.0f64.to_bits()), 1.0f64.to_bits());
    assert_eq!(RosenblattNeuron::heaviside((-0.0f64).to_bits()), 1.0f64.to_bits());
    assert_eq!(RosenblattNeuron::heaviside(f64::INFINITY.to_bits()), 1.0f64.to_bits());
    assert_eq!(RosenblattNeuron::heaviside(1e-308f64.to_bits()), 1.0f64.to_bits());
    assert_eq!(RosenblattNeuron::heaviside((-1e-308f64).to_bits()), 0.0f64.to_bits());
    assert_eq!(RosenblattNeuron::heaviside(f64::NEG_INFINITY.to_bits()), 0.0f64.to_bits());
    // NaN compares false against zero, whatever its sign bit.
    assert_eq!(RosenblattNeuron::heaviside(f64::NAN.to_bits()), 0.0f64.to_bits());
    assert_eq!(RosenblattNeuron::heaviside(f64::NAN.to_bits() | (1u64 << 63)), 0.0f64.to_bits());
}

#[test]
fn predict_dimension_mismatch() {
    let n = neuron(&[0.5, -0.5], 0.0, 0.5);
    let err = n.predict(&bits(&[1.0])).unwrap_err();
    assert_eq!(err, NeuronError::DimensionMismatch { input_len: 1, weight_count: 2 });
    let err = n.predict(&bits(&[1.0, 2.0, 3.0])).unwrap_err();
    assert_eq!(err, NeuronError::DimensionMismatch { input_len: 3, weight_count: 2 });
}

#[test]
fn evaluate_dimension_mismatch_leaves_state_unchanged() {
    let mut n = neuron(&[0.5, -0.5], 0.25, 0.5);
    let before = n.clone();
    let err = n.evaluate(bits(&[1.0, 2.0, 3.0]), bits(&[1.0])).unwrap_err();
    assert_eq!(err, NeuronError::DimensionMismatch { input_len: 3, weight_count: 2 });
    assert_eq!(n, before);
}

#[test]
fn evaluate_label_cardinality_leaves_state_unchanged() {
    let mut n = neuron(&[0.5, -0.5], 0.25, 0.5);
    let before = n.clone();
    let err = n.evaluate(bits(&[1.0, 1.0]), bits(&[])).unwrap_err();
    assert_eq!(err, NeuronError::LabelCardinalityError { expected_len: 0 });
    assert_eq!(n, before);
    let err = n.evaluate(bits(&[1.0, 1.0]), bits(&[1.0, 0.0])).unwrap_err();
    assert_eq!(err, NeuronError::LabelCardinalityError { expected_len: 2 });
    assert_eq!(n, before);
}

#[test]
fn evaluate_checks_labels_before_dimensions() {
    // Both vectors are wrong; the label check comes first.
    let mut n = neuron(&[0.5, -0.5], 0.0, 0.5);
    let err = n.evaluate(bits(&[1.0]), bits(&[1.0, 0.0])).unwrap_err();
    assert_eq!(err, NeuronError::LabelCardinalityError { expected_len: 2 });
}

#[test]
fn evaluate_deterministic_update() {
    // weights [0.5, -0.5], bias 0.0, learning rate 0.5; input [1.0, 1.0],
    // expected [0.0]. The prediction is the step at exactly zero, so 1.0;
    // the error is -1.0; the weights become [0.0, -1.0] and the bias -0.5.
    let mut n = neuron(&[0.5, -0.5], 0.0, 0.5);
    n.evaluate(bits(&[1.0, 1.0]), bits(&[0.0])).unwrap();
    assert_eq!(n.weights, bits(&[0.0, -1.0]));
    assert_eq!(n.bias, (-0.5f64).to_bits());
    assert_eq!(n.learning_rate, 0.5f64.to_bits());
}

#[test]
fn evaluate_no_error_keeps_values() {
    // A correctly classified sample gives error 0.0, so every field keeps
    // its numeric value.
    let mut n = neuron(&[2.0, 1.0], 1.0, 0.5);
    n.evaluate(bits(&[1.0, 1.0]), bits(&[1.0])).unwrap();
    assert_eq!(f64::from_bits(n.weights[0]), 2.0);
    assert_eq!(f64::from_bits(n.weights[1]), 1.0);
    assert_eq!(f64::from_bits(n.bias), 1.0);
}

#[test]
fn build_size_and_bounds() {
    let factory = RosenblattNeuronSerializer::new(3, 0.0f64.to_bits());
    let n = factory.build();
    assert_eq!(n.weights.len(), 3);
    for &w in n.weights.iter() {
        let value = f64::from_bits(w);
        assert!((-0.3..=0.3).contains(&value));
    }
    assert_eq!(n.bias, 0.0f64.to_bits());
    assert_eq!(n.learning_rate, 0.5f64.to_bits());
}

#[test]
fn build_respects_size_and_bias() {
    let factory = RosenblattNeuronSerializer::new(17, (-1.25f64).to_bits());
    let n = factory.build();
    assert_eq!(n.weights.len(), 17);
    assert_eq!(f64::from_bits(n.bias), -1.25);
    for &w in n.weights.iter() {
        let value = f64::from_bits(w);
        assert!((-0.3..=0.3).contains(&value));
    }
}

#[test]
fn encode_exact_layout() {
    let s = RosenblattNeuronSerializer::new(0, 0);
    let n = neuron(&[1.0], 2.5, 0.5);
    let buffer = s.encode(&n);
    let mut expected: Vec<u8> = Vec::new();
    expected.extend_from_slice(&1u64.to_le_bytes());
    expected.extend_from_slice(&1.0f64.to_bits().to_le_bytes());
    expected.extend_from_slice(&2.5f64.to_bits().to_le_bytes());
    expected.extend_from_slice(&0.5f64.to_bits().to_le_bytes());
    assert_eq!(buffer, expected);
}

#[test]
fn round_trip_bit_identical() {
    let s = RosenblattNeuronSerializer::new(0, 0);
    // Values with awkward bit patterns: a rounded sum, both zeros, a NaN,
    // infinities and a subnormal.
    let weights = vec![
        (0.1f64 + 0.2f64).to_bits(),
        0.0f64.to_bits(),
        (-0.0f64).to_bits(),
        f64::NAN.to_bits(),
        f64::INFINITY.to_bits(),
        f64::NEG_INFINITY.to_bits(),
        5e-324f64.to_bits(),
    ];
    let n = RosenblattNeuron::new(weights, (-12.75f64).to_bits(), 0.5f64.to_bits());
    let restored = s.decode(&s.encode(&n)).unwrap();
    assert_eq!(restored.weights, n.weights);
    assert_eq!(restored.bias, n.bias);
    assert_eq!(restored.learning_rate, n.learning_rate);
}

#[test]
fn round_trip_empty_weights() {
    let s = RosenblattNeuronSerializer::new(0, 0);
    let n = RosenblattNeuron::new(Vec::new(), 0.25f64.to_bits(), 0.5f64.to_bits());
    let restored = s.decode(&s.encode(&n)).unwrap();
    assert_eq!(restored, n);
}

#[test]
fn decode_twice_yields_equal_neurons() {
    let s = RosenblattNeuronSerializer::new(0, 0);
    let n = neuron(&[0.25, -0.125, 3.5], 1.5, 0.5);
    let buffer = s.encode(&n);
    let first = s.decode(&buffer).unwrap();
    let second = s.decode(&buffer).unwrap();
    assert_eq!(first.weights, second.weights);
    assert_eq!(first.bias, second.bias);
    assert_eq!(first.learning_rate, second.learning_rate);
}

#[test]
fn decode_rejects_short_buffer() {
    let s = RosenblattNeuronSerializer::new(0, 0);
    assert_eq!(s.decode(&Vec::new()).unwrap_err(), NeuronError::DecodeError);
    assert_eq!(s.decode(&vec![0u8; 23]).unwrap_err(), NeuronError::DecodeError);
}

#[test]
fn decode_rejects_truncated_weights() {
    let s = RosenblattNeuronSerializer::new(0, 0);
    let n = neuron(&[1.0, 2.0], 0.0, 0.5);
    let mut buffer = s.encode(&n);
    // Dropping one weight's bytes leaves a count that no longer fits.
    buffer.truncate(buffer.len() - 8);
    assert_eq!(s.decode(&buffer).unwrap_err(), NeuronError::DecodeError);
}

#[test]
fn decode_rejects_trailing_garbage() {
    let s = RosenblattNeuronSerializer::new(0, 0);
    let n = neuron(&[1.0, 2.0], 0.0, 0.5);
    let mut buffer = s.encode(&n);
    buffer.extend_from_slice(&[0u8; 8]);
    assert_eq!(s.decode(&buffer).unwrap_err(), NeuronError::DecodeError);
    let mut ragged = s.encode(&n);
    ragged.push(0);
    assert_eq!(s.decode(&ragged).unwrap_err(), NeuronError::DecodeError);
}

#[test]
fn decode_rejects_wrong_count_prefix() {
    let s = RosenblattNeuronSerializer::new(0, 0);
    let n = neuron(&[1.0, 2.0], 0.0, 0.5);
    let mut buffer = s.encode(&n);
    buffer[0] = 3;
    assert_eq!(s.decode(&buffer).unwrap_err(), NeuronError::DecodeError);
}

#[test]
fn build_with_custom_learning_rate() {
    let factory = RosenblattNeuronSerializer::new(2, 0.0f64.to_bits());
    let n = factory.build_with_learning_rate(0.125f64.to_bits());
    assert_eq!(n.weights.len(), 2);
    assert_eq!(f64::from_bits(n.learning_rate), 0.125);
    for &w in n.weights.iter() {
        let value = f64::from_bits(w);
        assert!((-0.3..=0.3).contains(&value));
    }
}

#[test]
fn build_weights_lie_on_grid() {
    // Every drawn weight is a dyadic value m / 2^54 with m at most the grid
    // maximum, so scaling by 2^54 must give an integer of bounded size.
    let factory = RosenblattNeuronSerializer::new(64, 0.0f64.to_bits());
    let n = factory.build();
    for &w in n.weights.iter() {
        let scaled = f64::from_bits(w) * 2f64.powi(54);
        assert_eq!(scaled, scaled.trunc());
        assert!(scaled.abs() <= 5404319552844595.0);
    }
}
