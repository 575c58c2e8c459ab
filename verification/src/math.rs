use vstd::prelude::*;

verus! {

/// The activation kinds the layer library knows.
///
/// The forward and backward recurrences of this engine use exactly one kind
/// (the logistic sigmoid); the enumeration exists so that a layer can be
/// parameterized by activation kind later. The numeric pair
/// `activate(x)` / `derivative(y)` for each kind is supplied by the caller,
/// since it computes on floating-point scalars that are opaque here.
#[derive(Clone, Copy, Debug, PartialEq, Eq, Structural)]
pub enum ActivationType {
    Sigmoid,
    Relu,
    Softmax,
    TanH,
    LeakyRelu,
    ELU,
    Swish,
}

impl ActivationType {
    /// Whether this kind's derivative formula is stated over the value
    /// already produced by `activate`. It is for every kind except `TanH`
    /// and `Swish`, whose formulas are stated over the pre-activation
    /// input.
    pub open spec fn derivative_reads_activated(self) -> bool {
        !(self is TanH || self is Swish)
    }

    /// Executable form of [`Self::derivative_reads_activated`].
    pub fn derivative_input_is_activated(&self) -> (r: bool)
        ensures
            r == self.derivative_reads_activated(),
    {
        match self {
            ActivationType::TanH => false,
            ActivationType::Swish => false,
            _ => true,
        }
    }
}

} // verus!
