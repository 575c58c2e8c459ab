use vstd::prelude::*;

verus! {

/// The error taxonomy of the engine.
///
/// Every operation on a network either succeeds or fails fast with one of
/// these kinds; wrongly shaped data is never coerced or silently accepted.
#[derive(Clone, Copy, Debug, PartialEq, Eq, Structural)]
pub enum NetworkError {
    /// `build` found fewer than three layers, a first layer that is not an
    /// input layer, a last layer that is not an output layer, a middle
    /// layer that is not a hidden layer, or an initialization vector whose
    /// length disagrees with the total weight-matrix size.
    StructuralError,
    /// An operation that needs the adjacency established by `build` was
    /// invoked on a holder that was never built.
    WiringError,
    /// An injected input, a stored value, error or bias vector, or a
    /// weight matrix disagrees in length with the declared neuron counts.
    DimensionMismatch,
    /// An operation was invoked on a layer variant that does not support
    /// it, such as a forward or backward store aimed at the input layer.
    InvalidOperation,
}

} // verus!
