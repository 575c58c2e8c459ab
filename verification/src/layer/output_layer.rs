use vstd::prelude::*;

use crate::scalar;

verus! {

/// The last layer of a network: like a dense layer it carries values,
/// biases, errors and a flattened weight matrix toward its predecessor,
/// but no layer ever follows it.
#[derive(Debug)]
pub struct OutputLayer {
    pub biases: Vec<u32>,
    pub neuron_values: Vec<u32>,
    pub errors: Vec<u32>,
    pub weights: Vec<u32>,
}

impl OutputLayer {
    /// An output layer of `size` neurons. The initial bias scalars are
    /// injected by the caller (one per neuron); values and errors start
    /// zeroed and the weight matrix stays empty until `build`.
    pub fn new(size: usize, biases: Vec<u32>) -> (r: OutputLayer)
        requires
            biases@.len() == size,
        ensures
            r.biases == biases,
            r.neuron_values@.len() == size,
            r.errors@.len() == size,
            r.weights@.len() == 0,
            forall|i: int| 0 <= i < size ==> r.neuron_values@[i] == 0u32,
            forall|i: int| 0 <= i < size ==> r.errors@[i] == 0u32,
    {
        OutputLayer {
            biases,
            neuron_values: scalar::zeros(size),
            errors: scalar::zeros(size),
            weights: Vec::new(),
        }
    }

    /// Replaces the flattened weight matrix; every other buffer is kept.
    pub fn set_weights(&mut self, weights: Vec<u32>)
        ensures
            final(self).weights == weights,
            final(self).biases == old(self).biases,
            final(self).neuron_values == old(self).neuron_values,
            final(self).errors == old(self).errors,
    {
        self.weights = weights;
    }
}

} // verus!
