use vstd::prelude::*;

use crate::error::NetworkError;
use crate::scalar;

verus! {

/// The first layer of a network: it holds externally injected data and an
/// (unused) error buffer, and has neither biases nor a weight matrix.
#[derive(Debug)]
pub struct InputLayer {
    pub neuron_values: Vec<u32>,
    pub errors: Vec<u32>,
}

impl InputLayer {
    /// An input layer of `size` neurons with zeroed buffers.
    pub fn new(size: usize) -> (r: InputLayer)
        ensures
            r.neuron_values@.len() == size,
            r.errors@.len() == size,
            forall|i: int| 0 <= i < size ==> r.neuron_values@[i] == 0u32,
            forall|i: int| 0 <= i < size ==> r.errors@[i] == 0u32,
    {
        InputLayer { neuron_values: scalar::zeros(size), errors: scalar::zeros(size) }
    }

    /// Copies `input` into the neuron values, element for element.
    ///
    /// The data must match the declared size exactly: a shorter or longer
    /// vector is rejected with `DimensionMismatch` and the layer is left
    /// unchanged.
    pub fn set_input_data(&mut self, input: &Vec<u32>) -> (r: Result<(), NetworkError>)
        ensures
            r is Ok <==> input@.len() == old(self).neuron_values@.len(),
            r is Ok ==> final(self).neuron_values@ == input@ && final(self).errors@ == old(
                self,
            ).errors@,
            r is Err ==> *final(self) == *old(self) && r->Err_0 == NetworkError::DimensionMismatch,
    {
        if input.len() != self.neuron_values.len() {
            return Err(NetworkError::DimensionMismatch);
        }
        self.neuron_values = scalar::copy_all(input);
        Ok(())
    }
}

} // verus!
