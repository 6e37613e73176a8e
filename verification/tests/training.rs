//! End-to-end training scenario: the library holds the network state,
//! the schedule and the scoring; this harness supplies the floating-point
//! kernels, exactly as a caller of the library does.

use nn_core::encode::one_hot;
use nn_core::eval::score;
use nn_core::matrix::Matrix;
use nn_core::network::Network;
use nn_core::schedule::TrainSchedule;

fn sigmoid(v: f64) -> f64 {
    1.0 / (1.0 + (-v).exp())
}

fn to_codes(m: &[Vec<f64>]) -> Vec<Vec<u64>> {
    m.iter().map(|r| r.iter().map(|v| v.to_bits()).collect()).collect()
}

fn code_matrix(m: &[Vec<f64>]) -> Matrix {
    let rows = m.len();
    let cols = if rows == 0 { 0 } else { m[0].len() };
    Matrix::new(to_codes(m), rows, cols).unwrap()
}

fn from_code_matrix(m: &Matrix) -> Vec<Vec<f64>> {
    (0..m.rows())
        .map(|i| m.row_at(i).iter().map(|c| f64::from_bits(*c)).collect())
        .collect()
}

fn matmul(a: &[Vec<f64>], b: &[Vec<f64>]) -> Vec<Vec<f64>> {
    let n = a.len();
    let k = b.len();
    let c = if k == 0 { 0 } else { b[0].len() };
    let mut out = vec![vec![0.0; c]; n];
    for i in 0..n {
        for j in 0..c {
            let mut acc = 0.0;
            for t in 0..k {
                acc += a[i][t] * b[t][j];
            }
            out[i][j] = acc;
        }
    }
    out
}

fn transpose(a: &[Vec<f64>]) -> Vec<Vec<f64>> {
    let n = a.len();
    let c = if n == 0 { 0 } else { a[0].len() };
    let mut out = vec![vec![0.0; n]; c];
    for i in 0..n {
        for j in 0..c {
            out[j][i] = a[i][j];
        }
    }
    out
}

fn map_sigmoid(a: &[Vec<f64>]) -> Vec<Vec<f64>> {
    a.iter().map(|r| r.iter().map(|v| sigmoid(*v)).collect()).collect()
}

/// Deterministic weights in [-0.5, 0.5) from a linear congruential draw.
fn init_weights(rows: usize, cols: usize, state: &mut u64) -> Vec<Vec<f64>> {
    let mut out = vec![vec![0.0; cols]; rows];
    for row in out.iter_mut() {
        for v in row.iter_mut() {
            *state = state
                .wrapping_mul(6364136223846793005)
                .wrapping_add(1442695040888963407);
            let unit = (*state >> 11) as f64 / (1u64 << 53) as f64;
            *v = unit - 0.5;
        }
    }
    out
}

fn forward(net: &Network, x: &[Vec<f64>]) -> (Vec<Vec<f64>>, Vec<Vec<f64>>) {
    let w1 = from_code_matrix(&net.w1);
    let w2 = from_code_matrix(&net.w2);
    let hidden = map_sigmoid(&matmul(x, &w1));
    let output = map_sigmoid(&matmul(&hidden, &w2));
    (hidden, output)
}

fn train(net: &mut Network, x: &[Vec<f64>], y: &[Vec<f64>], epochs: usize, lr: f64) {
    let mut schedule = TrainSchedule::new(epochs);
    while !schedule.is_complete() {
        let (hidden, output) = forward(net, x);
        let mut w1 = from_code_matrix(&net.w1);
        let mut w2 = from_code_matrix(&net.w2);

        let n = x.len();
        let c = net.output_size;
        let h = net.hidden_size;
        let mut output_delta = vec![vec![0.0; c]; n];
        for i in 0..n {
            for j in 0..c {
                let err = y[i][j] - output[i][j];
                output_delta[i][j] = err * output[i][j] * (1.0 - output[i][j]);
            }
        }
        let hidden_error = matmul(&output_delta, &transpose(&w2));
        let mut hidden_delta = vec![vec![0.0; h]; n];
        for i in 0..n {
            for j in 0..h {
                hidden_delta[i][j] = hidden_error[i][j] * hidden[i][j] * (1.0 - hidden[i][j]);
            }
        }
        let dw2 = matmul(&transpose(&hidden), &output_delta);
        let dw1 = matmul(&transpose(x), &hidden_delta);
        for i in 0..w2.len() {
            for j in 0..w2[i].len() {
                w2[i][j] += lr * dw2[i][j];
            }
        }
        for i in 0..w1.len() {
            for j in 0..w1[i].len() {
                w1[i][j] += lr * dw1[i][j];
            }
        }
        net.apply_update(code_matrix(&w1), code_matrix(&w2)).unwrap();
        schedule.step();
    }
}

fn accuracy(net: &Network, x: &[Vec<f64>], y: &[Vec<f64>]) -> f64 {
    net.check_input(&code_matrix(x)).unwrap();
    let (_, output) = forward(net, x);
    let (correct, total) = score(&code_matrix(&output), &code_matrix(y)).unwrap();
    correct as f64 / total as f64 * 100.0
}

fn and_gate_data() -> (Vec<Vec<f64>>, Vec<Vec<f64>>) {
    let x = vec![
        vec![0.0, 0.0],
        vec![0.0, 1.0],
        vec![1.0, 0.0],
        vec![1.0, 1.0],
    ];
    let labels: Vec<usize> = x
        .iter()
        .map(|r| usize::from(r[0] == 1.0 && r[1] == 1.0))
        .collect();
    assert_eq!(labels, vec![0, 0, 0, 1]);
    let y: Vec<Vec<f64>> = one_hot(&labels, 2)
        .iter()
        .map(|r| r.iter().map(|b| f64::from(*b)).collect())
        .collect();
    assert_eq!(y[0], vec![1.0, 0.0]);
    assert_eq!(y[3], vec![0.0, 1.0]);
    (x, y)
}

fn and_gate_network() -> Network {
    let mut state: u64 = 41;
    let w1 = init_weights(2, 4, &mut state);
    let w2 = init_weights(4, 2, &mut state);
    Network::new(2, 4, 2, 0.5f64.to_bits(), code_matrix(&w1), code_matrix(&w2)).unwrap()
}

#[test]
fn and_gate_reaches_high_accuracy() {
    let (x, y) = and_gate_data();
    let mut net = and_gate_network();
    train(&mut net, &x, &y, 1000, 0.5);
    let acc = accuracy(&net, &x, &y);
    assert!(acc >= 75.0, "accuracy after training: {acc}");
}

#[test]
fn and_gate_accuracy_does_not_drop_with_training() {
    let (x, y) = and_gate_data();
    let mut untrained = and_gate_network();
    train(&mut untrained, &x, &y, 0, 0.5);
    let mut trained = and_gate_network();
    train(&mut trained, &x, &y, 1000, 0.5);
    assert!(accuracy(&untrained, &x, &y) <= accuracy(&trained, &x, &y));
}

#[test]
fn zero_epochs_leave_weights_unchanged() {
    let (x, y) = and_gate_data();
    let mut net = and_gate_network();
    let w1_before = from_code_matrix(&net.w1);
    let w2_before = from_code_matrix(&net.w2);
    train(&mut net, &x, &y, 0, 0.5);
    assert_eq!(from_code_matrix(&net.w1), w1_before);
    assert_eq!(from_code_matrix(&net.w2), w2_before);
}

#[test]
fn prediction_is_stable_under_fixed_weights() {
    let (x, y) = and_gate_data();
    let mut net = and_gate_network();
    train(&mut net, &x, &y, 50, 0.5);
    let (_, first) = forward(&net, &x);
    let (_, second) = forward(&net, &x);
    assert_eq!(first, second);
}
