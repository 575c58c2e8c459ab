//! A minimal feed-forward network engine: an ordered chain of layers that
//! propagates activations forward and error signals backward, updating
//! weights and biases in place.
//!
//! Scalars are carried as opaque 32-bit values (`u32`): the engine itself
//! never computes with them, so every structural rule — topology validation,
//! the flattened-weight-matrix shape invariant, dimension checks, and the
//! exact effect of every state change — is stated and verified here, while
//! the caller supplies the per-scalar numeric kernels and the initial
//! weight and bias values.

pub mod error;
pub mod layer;
pub mod math;
pub mod scalar;
