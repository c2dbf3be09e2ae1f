use env_awareness::neural::{fast_sigmoid, NeuralNetwork};

#[test]
fn test_neural_network_creation() {
    let nn = NeuralNetwork::new(4, 8, 2);
    assert_eq!(nn.input_count(), 4);
    assert_eq!(nn.hidden_count(), 8);
    assert_eq!(nn.output_count(), 2);
}

#[test]
fn test_forward_pass() {
    let nn = NeuralNetwork::new(4, 8, 2);
    let input = vec![500_000, 300_000, 800_000, 200_000];
    let output = nn.forward(&input);

    assert_eq!(output.len(), 2);
    for &val in &output {
        assert!(val >= 0 && val <= 1_000_000, "Output should be in [0, 1]");
    }
}

#[test]
fn test_batch_forward() {
    let nn = NeuralNetwork::new(4, 8, 2);
    let batch = vec![
        vec![500_000, 300_000, 800_000, 200_000],
        vec![100_000, 900_000, 400_000, 600_000],
    ];
    let outputs = nn.forward_batch(&batch);

    assert_eq!(outputs.len(), 2);
    assert_eq!(outputs[0].len(), 2);
}

#[test]
fn scoring_is_a_function_of_the_inputs() {
    let nn = NeuralNetwork::new(4, 8, 2);
    let input = vec![500_000, 300_000, 800_000, 200_000];
    assert_eq!(nn.forward(&input), nn.forward(&input));
    let batch = vec![input.clone(), vec![0, 0, 0, 0]];
    let outputs = nn.forward_batch(&batch);
    assert_eq!(outputs[0], nn.forward(&input));
    assert_eq!(outputs[1], nn.forward(&[0, 0, 0, 0]));
}

#[test]
fn extra_inputs_are_not_read_and_short_ones_are_accepted() {
    let nn = NeuralNetwork::new(4, 8, 2);
    let four = vec![500_000, 300_000, 800_000, 200_000];
    let six = vec![500_000, 300_000, 800_000, 200_000, 123, i32::MAX];
    assert_eq!(nn.forward(&four), nn.forward(&six));
    assert_eq!(nn.forward(&[]).len(), 2);
    assert_eq!(nn.forward(&[i32::MIN, i32::MAX]).len(), 2);
}

#[test]
fn zero_biases_square_the_empty_layers() {
    // Without hidden units every output sees a pre-activation of zero.
    let nn = NeuralNetwork::new(4, 0, 3);
    assert_eq!(nn.forward(&[1, 2, 3, 4]), vec![500_000, 500_000, 500_000]);
    let none = NeuralNetwork::new(0, 0, 0);
    assert!(none.forward(&[1, 2]).is_empty());
    // Without inputs every hidden unit is at one half.
    let blind = NeuralNetwork::new(0, 5, 1);
    let out = blind.forward(&[9, 9, 9]);
    assert_eq!(out.len(), 1);
    assert!((0..=1_000_000).contains(&out[0]));
}

#[test]
fn extreme_inputs_stay_in_the_unit_interval() {
    for _ in 0..20 {
        let nn = NeuralNetwork::new(4, 8, 2);
        for input in [[i32::MAX; 4], [i32::MIN; 4], [0; 4], [i32::MAX, i32::MIN, 1, -1]] {
            for v in nn.forward(&input) {
                assert!((0..=1_000_000).contains(&v));
            }
        }
    }
}

#[test]
fn squashing_function() {
    assert_eq!(fast_sigmoid(0), 500_000);
    // 1/2 + 1 / (2 * 2)
    assert_eq!(fast_sigmoid(1_000_000), 750_000);
    assert_eq!(fast_sigmoid(-1_000_000), 250_000);
    // 1/2 + 3 / (2 * 4)
    assert_eq!(fast_sigmoid(3_000_000), 875_000);
    assert_eq!(fast_sigmoid(-250_000), 400_000);
    assert_eq!(fast_sigmoid(1), 500_000);
    assert_eq!(fast_sigmoid(-1), 499_999);
    assert_eq!(fast_sigmoid(1 << 100), 999_999);
    assert_eq!(fast_sigmoid(-(1 << 100)), 0);
}
