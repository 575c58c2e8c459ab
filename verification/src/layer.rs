use vstd::prelude::*;

pub mod dense_layer;
pub mod input_layer;
pub mod layer_holder;
pub mod output_layer;

use crate::layer::dense_layer::DenseLayer;
use crate::layer::input_layer::InputLayer;
use crate::layer::output_layer::OutputLayer;

verus! {

/// A layer of the chain: exactly one of the three variants. Unsupported
/// operations per variant surface as typed errors at the holder, never as
/// silent no-ops.
#[derive(Debug)]
pub enum Layer {
    Input(InputLayer),
    Dense(DenseLayer),
    Output(OutputLayer),
}

impl Layer {
    /// The declared neuron count: the length of the value buffer.
    pub open spec fn size(self) -> nat {
        self.values_seq().len()
    }

    /// The current activated outputs, one per neuron.
    pub open spec fn values_seq(self) -> Seq<u32> {
        match self {
            Layer::Input(l) => l.neuron_values@,
            Layer::Dense(l) => l.neuron_values@,
            Layer::Output(l) => l.neuron_values@,
        }
    }

    /// The backward-pass error signal, one per neuron.
    pub open spec fn errors_seq(self) -> Seq<u32> {
        match self {
            Layer::Input(l) => l.errors@,
            Layer::Dense(l) => l.errors@,
            Layer::Output(l) => l.errors@,
        }
    }

    /// The per-neuron biases; the input variant has none.
    pub open spec fn biases_seq(self) -> Seq<u32> {
        match self {
            Layer::Input(_) => Seq::empty(),
            Layer::Dense(l) => l.biases@,
            Layer::Output(l) => l.biases@,
        }
    }

    /// The flattened weight matrix toward the predecessor; the input
    /// variant has none.
    pub open spec fn weights_seq(self) -> Seq<u32> {
        match self {
            Layer::Input(_) => Seq::empty(),
            Layer::Dense(l) => l.weights@,
            Layer::Output(l) => l.weights@,
        }
    }

    /// Buffer lengths agree with the declared neuron count.
    pub open spec fn wf(self) -> bool {
        &&& self.errors_seq().len() == self.size()
        &&& (self !is Input ==> self.biases_seq().len() == self.size())
    }

    /// Both layers are the same variant.
    pub open spec fn same_kind(self, other: Layer) -> bool {
        &&& (self is Input <==> other is Input)
        &&& (self is Dense <==> other is Dense)
        &&& (self is Output <==> other is Output)
    }

    /// Both layers are observationally equal: same variant and equal
    /// buffers.
    pub open spec fn same_obs(self, other: Layer) -> bool {
        &&& self.same_kind(other)
        &&& self.values_seq() == other.values_seq()
        &&& self.errors_seq() == other.errors_seq()
        &&& self.biases_seq() == other.biases_seq()
        &&& self.weights_seq() == other.weights_seq()
    }

    /// `post` is `pre` with only the neuron values replaced by `vals`.
    pub open spec fn with_values(pre: Layer, post: Layer, vals: Seq<u32>) -> bool {
        &&& pre.same_kind(post)
        &&& post.values_seq() == vals
        &&& post.errors_seq() == pre.errors_seq()
        &&& post.biases_seq() == pre.biases_seq()
        &&& post.weights_seq() == pre.weights_seq()
    }

    /// `post` is `pre` with the errors, weights and biases replaced (the
    /// effect of one backward step on one layer); the values are kept.
    pub open spec fn with_training(
        pre: Layer,
        post: Layer,
        errs: Seq<u32>,
        ws: Seq<u32>,
        bs: Seq<u32>,
    ) -> bool {
        &&& pre.same_kind(post)
        &&& post.values_seq() == pre.values_seq()
        &&& post.errors_seq() == errs
        &&& post.weights_seq() == ws
        &&& post.biases_seq() == bs
    }

    /// The declared neuron count.
    pub fn neuron_count(&self) -> (r: usize)
        ensures
            r == self.size(),
    {
        match self {
            Layer::Input(l) => l.neuron_values.len(),
            Layer::Dense(l) => l.neuron_values.len(),
            Layer::Output(l) => l.neuron_values.len(),
        }
    }

    /// Read-only view of the neuron values.
    pub fn neuron_values(&self) -> (r: &Vec<u32>)
        ensures
            r@ == self.values_seq(),
    {
        match self {
            Layer::Input(l) => &l.neuron_values,
            Layer::Dense(l) => &l.neuron_values,
            Layer::Output(l) => &l.neuron_values,
        }
    }

    /// Read-only view of the error signals.
    pub fn errors(&self) -> (r: &Vec<u32>)
        ensures
            r@ == self.errors_seq(),
    {
        match self {
            Layer::Input(l) => &l.errors,
            Layer::Dense(l) => &l.errors,
            Layer::Output(l) => &l.errors,
        }
    }

    /// Read-only view of the biases; `None` on the input variant, which
    /// has none.
    pub fn biases(&self) -> (r: Option<&Vec<u32>>)
        ensures
            self is Input ==> r is None,
            self !is Input ==> (r matches Some(b) && b@ == self.biases_seq()),
    {
        match self {
            Layer::Input(_) => None,
            Layer::Dense(l) => Some(&l.biases),
            Layer::Output(l) => Some(&l.biases),
        }
    }

    /// Read-only view of the flattened weight matrix; `None` on the input
    /// variant, which has none.
    pub fn weights(&self) -> (r: Option<&Vec<u32>>)
        ensures
            self is Input ==> r is None,
            self !is Input ==> (r matches Some(w) && w@ == self.weights_seq()),
    {
        match self {
            Layer::Input(_) => None,
            Layer::Dense(l) => Some(&l.weights),
            Layer::Output(l) => Some(&l.weights),
        }
    }

    /// Whether this is the input variant.
    pub fn is_input(&self) -> (r: bool)
        ensures
            r == (self is Input),
    {
        match self {
            Layer::Input(_) => true,
            _ => false,
        }
    }

    /// Whether this is the hidden (dense) variant.
    pub fn is_dense(&self) -> (r: bool)
        ensures
            r == (self is Dense),
    {
        match self {
            Layer::Dense(_) => true,
            _ => false,
        }
    }

    /// Whether this is the output variant.
    pub fn is_output(&self) -> (r: bool)
        ensures
            r == (self is Output),
    {
        match self {
            Layer::Output(_) => true,
            _ => false,
        }
    }
}

} // verus!
