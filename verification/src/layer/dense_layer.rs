use vstd::prelude::*;

use crate::scalar;

verus! {

/// A hidden (dense) layer: per-neuron values, biases and errors, plus a
/// flattened weight matrix toward its predecessor. The matrix is empty
/// until the holder's `build` step allocates it against the now-known
/// predecessor size; entry for neuron `i` and predecessor neuron `j`
/// lives at offset `i * m + j`, where `m` is the predecessor's size.
#[derive(Debug)]
pub struct DenseLayer {
    pub biases: Vec<u32>,
    pub neuron_values: Vec<u32>,
    pub errors: Vec<u32>,
    pub weights: Vec<u32>,
}

impl DenseLayer {
    /// A dense layer of `size` neurons. The initial bias scalars are
    /// injected by the caller (one per neuron), so that initialization is
    /// deterministic and testable; values and errors start zeroed and the
    /// weight matrix stays empty until `build`.
    pub fn new(size: usize, biases: Vec<u32>) -> (r: DenseLayer)
        requires
            biases@.len() == size,
        ensures
            r.biases == biases,
            r.neuron_values@.len() == size,
            r.errors@.len() == size,
            r.weights@.len() == 0,
            forall|i: int| 0 <= i < size ==> r.neuron_values@[i] == 0u32,
            forall|i: int| 0 <= i < size ==> r.errors@[i] == 0u32,
    {
        DenseLayer {
            biases,
            neuron_values: scalar::zeros(size),
            errors: scalar::zeros(size),
            weights: Vec::new(),
        }
    }

    /// Replaces the flattened weight matrix; every other buffer is kept.
    pub fn set_weights(&mut self, weights: Vec<u32>)
        ensures
            final(self).weights == weights,
            final(self).biases == old(self).biases,
            final(self).neuron_values == old(self).neuron_values,
            final(self).errors == old(self).errors,
    {
        self.weights = weights;
    }
}

} // verus!
