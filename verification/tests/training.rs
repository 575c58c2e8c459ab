// End-to-end training through the library: a test-side sigmoid kernel
// drives the verified layer chain with `set_input_data`, `store_forward`
// and `store_backward`, following the orders `forward_order` and
// `backward_order` give.

use feedforward::layer::dense_layer::DenseLayer;
use feedforward::layer::input_layer::InputLayer;
use feedforward::layer::layer_holder::LayerHolder;
use feedforward::layer::output_layer::OutputLayer;
use feedforward::layer::Layer;

fn to_f32(bits: &Vec<u32>) -> Vec<f32> {
    bits.iter().map(|b| f32::from_bits(*b)).collect()
}

fn to_bits(xs: &[f32]) -> Vec<u32> {
    xs.iter().map(|x| x.to_bits()).collect()
}

fn sigmoid(x: f32) -> f32 {
    1.0 / (1.0 + (-x).exp())
}

fn sigmoid_deriv(y: f32) -> f32 {
    y * (1.0 - y)
}

fn feed_forward(holder: &mut LayerHolder, input: &[f32]) -> Vec<f32> {
    holder.set_input_data(&to_bits(input)).unwrap();
    for li in holder.forward_order() {
        let prev = to_f32(holder.layer_at(li - 1).neuron_values());
        let layer = holder.layer_at(li);
        let weights = to_f32(layer.weights().unwrap());
        let biases = to_f32(layer.biases().unwrap());
        let n = layer.neuron_count();
        let m = prev.len();
        let mut values = Vec::with_capacity(n);
        for i in 0..n {
            let mut sum = 0.0f32;
            for j in 0..m {
                sum += prev[j] * weights[i * m + j];
            }
            values.push(sigmoid(sum + biases[i]));
        }
        holder.store_forward(li, to_bits(&values)).unwrap();
    }
    to_f32(holder.layer_at(holder.layer_count() - 1).neuron_values())
}

fn train_step(holder: &mut LayerHolder, input: &[f32], desired: &[f32], learning_rate: f32) {
    feed_forward(holder, input);
    let count = holder.layer_count();
    for li in holder.backward_order() {
        let prev = to_f32(holder.layer_at(li - 1).neuron_values());
        let layer = holder.layer_at(li);
        let values = to_f32(layer.neuron_values());
        let mut weights = to_f32(layer.weights().unwrap());
        let mut biases = to_f32(layer.biases().unwrap());
        let n = values.len();
        let m = prev.len();
        let mut errors = vec![0.0f32; n];
        if li == count - 1 {
            for i in 0..n {
                errors[i] = desired[i] - values[i];
            }
            for i in 0..n {
                let delta = learning_rate * errors[i] * sigmoid_deriv(values[i]);
                for j in 0..m {
                    weights[i * m + j] += delta * prev[j];
                }
                biases[i] += delta;
            }
        } else {
            let following = holder.layer_at(li + 1);
            let f_errors = to_f32(following.errors());
            let f_weights = to_f32(following.weights().unwrap());
            for idx in 0..n {
                let mut err = 0.0f32;
                for k in 0..f_errors.len() {
                    err += f_errors[k] * f_weights[k * n + idx];
                }
                let mut error = err * sigmoid_deriv(values[idx]);
                errors[idx] = error;
                error *= learning_rate;
                for j in 0..m {
                    weights[idx * m + j] += error * prev[j];
                }
                biases[idx] += error;
            }
        }
        holder
            .store_backward(li, to_bits(&errors), to_bits(&weights), to_bits(&biases))
            .unwrap();
    }
}

fn mean_squared_error(predictions: &[f32], target: &[f32]) -> f32 {
    predictions
        .iter()
        .zip(target.iter())
        .map(|(p, t)| (p - t) * (p - t))
        .sum::<f32>()
        / predictions.len() as f32
}

// a small deterministic generator for reproducible initialization
fn seeded_scalars(seed: &mut u32, count: usize) -> Vec<u32> {
    (0..count)
        .map(|_| {
            *seed = seed.wrapping_mul(1664525).wrapping_add(1013904223);
            let unit = (*seed >> 8) as f32 / (1u32 << 24) as f32;
            (2.0 * unit - 1.0).to_bits()
        })
        .collect()
}

#[test]
fn xor_training_converges() {
    let mut seed: u32 = 7;
    let hidden_biases = seeded_scalars(&mut seed, 4);
    let output_biases = seeded_scalars(&mut seed, 1);
    let init = seeded_scalars(&mut seed, 4 * 2 + 1 * 4);
    let mut holder = LayerHolder::new()
        .add_layer(Layer::Input(InputLayer::new(2)))
        .add_layer(Layer::Dense(DenseLayer::new(4, hidden_biases)))
        .add_layer(Layer::Output(OutputLayer::new(1, output_biases)))
        .build(init)
        .unwrap();

    let inputs: [[f32; 2]; 4] = [[0.0, 0.0], [0.0, 1.0], [1.0, 0.0], [1.0, 1.0]];
    let desired: [[f32; 1]; 4] = [[0.0], [1.0], [1.0], [0.0]];

    let epochs = 4000;
    let mut first_epoch_loss = 0.0f32;
    let mut first_epoch_predictions: Vec<f32> = Vec::new();
    let mut last_epoch_loss = 0.0f32;
    for epoch in 0..epochs {
        let mut total_loss = 0.0f32;
        for row in 0..4 {
            let predictions = feed_forward(&mut holder, &inputs[row]);
            total_loss += mean_squared_error(&predictions, &desired[row]);
            if epoch == 0 {
                first_epoch_predictions.push(predictions[0]);
            }
            train_step(&mut holder, &inputs[row], &desired[row], 0.5);
        }
        total_loss /= 4.0;
        if epoch == 0 {
            first_epoch_loss = total_loss;
        }
        last_epoch_loss = total_loss;
    }

    assert!(last_epoch_loss < first_epoch_loss);

    for row in 0..4 {
        let prediction = feed_forward(&mut holder, &inputs[row])[0];
        let final_err = (prediction - desired[row][0]).abs();
        let first_err = (first_epoch_predictions[row] - desired[row][0]).abs();
        assert!(final_err < first_err);
        assert!(final_err < 0.2);
    }
}

#[test]
fn forward_is_deterministic_for_fixed_weights() {
    let mut run = || {
        let mut seed: u32 = 42;
        let hidden_biases = seeded_scalars(&mut seed, 3);
        let output_biases = seeded_scalars(&mut seed, 2);
        let init = seeded_scalars(&mut seed, 3 * 2 + 2 * 3);
        let mut holder = LayerHolder::new()
            .add_layer(Layer::Input(InputLayer::new(2)))
            .add_layer(Layer::Dense(DenseLayer::new(3, hidden_biases)))
            .add_layer(Layer::Output(OutputLayer::new(2, output_biases)))
            .build(init)
            .unwrap();
        let a = feed_forward(&mut holder, &[0.3, -0.7]);
        let b = feed_forward(&mut holder, &[0.3, -0.7]);
        assert_eq!(to_bits(&a), to_bits(&b));
        to_bits(&a)
    };
    assert_eq!(run(), run());
}
