use vstd::prelude::*;

use crate::error::NetworkError;
use crate::layer::Layer;
use crate::scalar;

verus! {

/// The orchestrator: it alone owns the ordered layer chain. Layers are
/// appended while unbuilt; a one-time `build` validates the topology,
/// allocates every non-input layer's weight matrix from an injected flat
/// initialization vector, and freezes the shape. Adjacency is positional:
/// layer `i`'s predecessor is layer `i - 1`, so links can never dangle.
#[derive(Debug)]
pub struct LayerHolder {
    pub layers: Vec<Layer>,
    pub built: bool,
}

impl LayerHolder {
    /// The topology invariant `build` validates: at least three layers,
    /// the first an input layer, the last an output layer, every layer in
    /// between hidden.
    pub open spec fn topology_ok(self) -> bool {
        &&& self.layers@.len() >= 3
        &&& self.layers@[0] is Input
        &&& self.layers@[self.layers@.len() - 1] is Output
        &&& forall|i: int|
            1 <= i < self.layers@.len() - 1 ==> #[trigger] self.layers@[i] is Dense
    }

    /// The flattened weight matrix size owed to layer `i`: its own neuron
    /// count times its predecessor's.
    pub open spec fn weight_need(self, i: int) -> nat {
        self.layers@[i].size() * self.layers@[i - 1].size()
    }

    /// Offset of layer `i`'s matrix inside one flat initialization vector
    /// that covers layers `1 .. i` in order.
    pub open spec fn weight_offset(self, i: int) -> nat
        decreases i,
    {
        if i <= 1 {
            0
        } else {
            self.weight_offset(i - 1) + self.weight_need(i - 1)
        }
    }

    /// Total initialization scalars `build` consumes: one per weight.
    pub open spec fn weight_total(self) -> nat {
        self.weight_offset(self.layers@.len() as int)
    }

    /// The shape invariant: every non-input layer's flattened weight
    /// matrix has length `size(layer) * size(predecessor)`.
    pub open spec fn shapes_ok(self) -> bool {
        forall|i: int|
            1 <= i < self.layers@.len() ==> self.layers@[i].weights_seq().len()
                == #[trigger] self.weight_need(i)
    }

    /// Every layer's buffers agree in length with its neuron count.
    pub open spec fn wf(self) -> bool {
        forall|i: int| 0 <= i < self.layers@.len() ==> (#[trigger] self.layers@[i]).wf()
    }

    /// Both holders are observationally equal: same build state, same
    /// layer count, and layer-for-layer equal variants and buffers.
    pub open spec fn same_state(self, other: LayerHolder) -> bool {
        &&& self.built == other.built
        &&& self.layers@.len() == other.layers@.len()
        &&& forall|i: int|
            0 <= i < self.layers@.len() ==> (#[trigger] self.layers@[i]).same_obs(
                other.layers@[i],
            )
    }

    /// `post` is `pre` with only layer `li`'s neuron values replaced by
    /// `vals`: the exact effect of a successful forward store.
    pub open spec fn stores_values(
        pre: LayerHolder,
        post: LayerHolder,
        li: int,
        vals: Seq<u32>,
    ) -> bool {
        &&& post.built == pre.built
        &&& post.layers@.len() == pre.layers@.len()
        &&& forall|j: int|
            0 <= j < pre.layers@.len() && j != li ==> #[trigger] post.layers@[j]
                == pre.layers@[j]
        &&& Layer::with_values(pre.layers@[li], post.layers@[li], vals)
    }

    /// `post` is `pre` with only layer `li`'s errors, weights and biases
    /// replaced: the exact effect of a successful backward store.
    pub open spec fn stores_training(
        pre: LayerHolder,
        post: LayerHolder,
        li: int,
        errs: Seq<u32>,
        ws: Seq<u32>,
        bs: Seq<u32>,
    ) -> bool {
        &&& post.built == pre.built
        &&& post.layers@.len() == pre.layers@.len()
        &&& forall|j: int|
            0 <= j < pre.layers@.len() && j != li ==> #[trigger] post.layers@[j]
                == pre.layers@[j]
        &&& Layer::with_training(pre.layers@[li], post.layers@[li], errs, ws, bs)
    }

    /// Layer `i` of a built holder, related to the unbuilt holder `pre`
    /// it came from: same variant, values, errors and biases; for a
    /// non-input layer the weight matrix is its slice of the flat
    /// initialization vector `init`, laid out in layer order.
    pub open spec fn layer_built_from(
        post_layer: Layer,
        pre: LayerHolder,
        i: int,
        init: Seq<u32>,
    ) -> bool {
        &&& pre.layers@[i].same_kind(post_layer)
        &&& post_layer.values_seq() == pre.layers@[i].values_seq()
        &&& post_layer.errors_seq() == pre.layers@[i].errors_seq()
        &&& post_layer.biases_seq() == pre.layers@[i].biases_seq()
        &&& (if i == 0 {
            post_layer.weights_seq() == pre.layers@[i].weights_seq()
        } else {
            post_layer.weights_seq() == init.subrange(
                pre.weight_offset(i) as int,
                pre.weight_offset(i) as int + pre.weight_need(i) as int,
            )
        })
    }

    /// `post` is the built image of `pre` under the initialization vector
    /// `init`: same chain, layer for layer as `layer_built_from` says.
    pub open spec fn built_from(post: LayerHolder, pre: LayerHolder, init: Seq<u32>) -> bool {
        &&& post.built
        &&& post.layers@.len() == pre.layers@.len()
        &&& forall|i: int|
            0 <= i < pre.layers@.len() ==> LayerHolder::layer_built_from(
                #[trigger] post.layers@[i],
                pre,
                i,
                init,
            )
    }

    /// Weight offsets grow along the chain: the flat initialization
    /// vector is consumed left to right.
    pub proof fn lemma_weight_offset_mono(self, i: int, j: int)
        requires
            1 <= i <= j,
        ensures
            self.weight_offset(i) <= self.weight_offset(j),
        decreases j - i,
    {
        if i < j {
            self.lemma_weight_offset_mono(i, j - 1);
        }
    }

    /// Determinism of the forward-pass state changes: from
    /// observationally equal holders, storing the same values into the
    /// same layer — injection into the input layer is the case `li == 0`
    /// — yields observationally equal holders. The network has no hidden
    /// state beyond the declared buffers.
    pub proof fn lemma_stores_values_deterministic(
        a0: LayerHolder,
        a1: LayerHolder,
        b0: LayerHolder,
        b1: LayerHolder,
        li: int,
        vals: Seq<u32>,
    )
        requires
            0 <= li < a0.layers@.len(),
            a0.same_state(b0),
            LayerHolder::stores_values(a0, a1, li, vals),
            LayerHolder::stores_values(b0, b1, li, vals),
        ensures
            a1.same_state(b1),
    {
        assert forall|i: int| 0 <= i < a1.layers@.len() implies (#[trigger] a1.layers@[i]).same_obs(
            b1.layers@[i],
        ) by {
            assert(a0.layers@[i].same_obs(b0.layers@[i]));
            if i != li {
                assert(a1.layers@[i] == a0.layers@[i]);
                assert(b1.layers@[i] == b0.layers@[i]);
            }
        }
    }

    /// Determinism of the backward-pass state changes: from
    /// observationally equal holders, storing the same errors, weights
    /// and biases into the same layer yields observationally equal
    /// holders.
    pub proof fn lemma_stores_training_deterministic(
        a0: LayerHolder,
        a1: LayerHolder,
        b0: LayerHolder,
        b1: LayerHolder,
        li: int,
        errs: Seq<u32>,
        ws: Seq<u32>,
        bs: Seq<u32>,
    )
        requires
            0 <= li < a0.layers@.len(),
            a0.same_state(b0),
            LayerHolder::stores_training(a0, a1, li, errs, ws, bs),
            LayerHolder::stores_training(b0, b1, li, errs, ws, bs),
        ensures
            a1.same_state(b1),
    {
        assert forall|i: int| 0 <= i < a1.layers@.len() implies (#[trigger] a1.layers@[i]).same_obs(
            b1.layers@[i],
        ) by {
            assert(a0.layers@[i].same_obs(b0.layers@[i]));
            if i != li {
                assert(a1.layers@[i] == a0.layers@[i]);
                assert(b1.layers@[i] == b0.layers@[i]);
            }
        }
    }

    /// The shape invariant survives a forward store of correctly sized
    /// values: no weight matrix is touched and no neuron count changes.
    pub proof fn lemma_stores_values_preserves_shapes(
        pre: LayerHolder,
        post: LayerHolder,
        li: int,
        vals: Seq<u32>,
    )
        requires
            0 <= li < pre.layers@.len(),
            pre.shapes_ok(),
            LayerHolder::stores_values(pre, post, li, vals),
            vals.len() == pre.layers@[li].size(),
        ensures
            post.shapes_ok(),
    {
        assert forall|k: int|
            0 <= k < post.layers@.len() implies (#[trigger] post.layers@[k]).size()
            == pre.layers@[k].size() by {
            if k != li {
                assert(post.layers@[k] == pre.layers@[k]);
            }
        }
        assert forall|k: int|
            1 <= k < post.layers@.len() implies post.layers@[k].weights_seq().len()
            == #[trigger] post.weight_need(k) by {
            if k != li {
                assert(post.layers@[k] == pre.layers@[k]);
            }
            assert(pre.layers@[k].weights_seq().len() == pre.weight_need(k));
            assert(post.layers@[k].size() == pre.layers@[k].size());
            assert(post.layers@[k - 1].size() == pre.layers@[k - 1].size());
        }
    }

    /// The shape invariant survives a backward store whose replacement
    /// matrix has the owed flattened size.
    pub proof fn lemma_stores_training_preserves_shapes(
        pre: LayerHolder,
        post: LayerHolder,
        li: int,
        errs: Seq<u32>,
        ws: Seq<u32>,
        bs: Seq<u32>,
    )
        requires
            1 <= li < pre.layers@.len(),
            pre.shapes_ok(),
            LayerHolder::stores_training(pre, post, li, errs, ws, bs),
            ws.len() == pre.weight_need(li),
        ensures
            post.shapes_ok(),
    {
        assert forall|k: int|
            0 <= k < post.layers@.len() implies (#[trigger] post.layers@[k]).size()
            == pre.layers@[k].size() by {
            if k != li {
                assert(post.layers@[k] == pre.layers@[k]);
            }
        }
        assert forall|k: int|
            1 <= k < post.layers@.len() implies post.layers@[k].weights_seq().len()
            == #[trigger] post.weight_need(k) by {
            if k != li {
                assert(post.layers@[k] == pre.layers@[k]);
                assert(pre.layers@[k].weights_seq().len() == pre.weight_need(k));
            }
            assert(post.layers@[k].size() == pre.layers@[k].size());
            assert(post.layers@[k - 1].size() == pre.layers@[k - 1].size());
        }
    }

    /// An empty, unbuilt holder.
    pub fn new() -> (r: LayerHolder)
        ensures
            r.layers@.len() == 0,
            !r.built,
    {
        LayerHolder { layers: Vec::new(), built: false }
    }

    /// Appends a layer to the end of the (still unbuilt) chain and returns
    /// the holder for chaining.
    pub fn add_layer(self, layer: Layer) -> (r: LayerHolder)
        ensures
            r.layers@ == self.layers@.push(layer),
            r.built == self.built,
            self.wf() && layer.wf() ==> r.wf(),
    {
        let mut r = self;
        r.layers.push(layer);
        r
    }

    /// The number of layers.
    pub fn layer_count(&self) -> (r: usize)
        ensures
            r == self.layers@.len(),
    {
        self.layers.len()
    }

    /// Read-only access to layer `li`.
    pub fn layer_at(&self, li: usize) -> (r: &Layer)
        requires
            li < self.layers@.len(),
        ensures
            *r == self.layers@[li as int],
    {
        &self.layers[li]
    }

    /// The weight from neuron `j` of layer `li`'s predecessor to neuron
    /// `i` of layer `li`: entry `i * m + j` of the row-major flattened
    /// matrix, where `m` is the predecessor's neuron count.
    pub fn weight_at(&self, li: usize, i: usize, j: usize) -> (r: u32)
        requires
            1 <= li < self.layers@.len(),
            self.layers@[li as int].weights_seq().len() == self.weight_need(li as int),
            i < self.layers@[li as int].size(),
            j < self.layers@[li as int - 1].size(),
        ensures
            r == self.layers@[li as int].weights_seq()[i * self.layers@[li as int - 1].size()
                + j],
    {
        let m = self.layers[li - 1].neuron_count();
        match self.layers[li].weights() {
            Some(w) => {
                let len = w.len();
                proof {
                    let gi = i as int;
                    let gj = j as int;
                    let gm = m as int;
                    let gn = self.layers@[li as int].size() as int;
                    assert(gi * gm + gj < gn * gm) by (nonlinear_arith)
                        requires
                            0 <= gi < gn,
                            0 <= gj < gm,
                    ;
                    assert(len == gn * gm);
                }
                w[i * m + j]
            },
            None => {
                proof {
                    let gn = self.layers@[li as int].size() as int;
                    let gm = self.layers@[li as int - 1].size() as int;
                    assert(gn * gm > 0) by (nonlinear_arith)
                        requires
                            gn > 0,
                            gm > 0,
                    ;
                    assert(false);
                }
                0
            },
        }
    }

    /// The forward traversal order: every layer after the input layer,
    /// in ascending index order. A forward pass visits exactly these
    /// indices, first to last.
    pub fn forward_order(&self) -> (r: Vec<usize>)
        ensures
            self.layers@.len() == 0 ==> r@.len() == 0,
            self.layers@.len() > 0 ==> r@.len() == self.layers@.len() - 1,
            forall|k: int| 0 <= k < r@.len() ==> r@[k] == k + 1,
    {
        let n = self.layers.len();
        let mut r: Vec<usize> = Vec::new();
        let mut i: usize = 1;
        while i < n
            invariant
                1 <= i <= n || (n == 0 && i == 1),
                r@.len() == i - 1,
                forall|k: int| 0 <= k < r@.len() ==> r@[k] == k + 1,
            decreases n - i,
        {
            r.push(i);
            i = i + 1;
        }
        r
    }

    /// The backward traversal order: every layer after the input layer,
    /// in strictly descending index order. A backward pass visits exactly
    /// these indices and updates each layer eagerly when it is visited,
    /// so a hidden layer visited later reads its successor's already
    /// updated weights — an observable ordering that callers must keep.
    pub fn backward_order(&self) -> (r: Vec<usize>)
        ensures
            self.layers@.len() == 0 ==> r@.len() == 0,
            self.layers@.len() > 0 ==> r@.len() == self.layers@.len() - 1,
            forall|k: int| 0 <= k < r@.len() ==> r@[k] == self.layers@.len() - 1 - k,
    {
        let n = self.layers.len();
        let mut r: Vec<usize> = Vec::new();
        let mut i: usize = n;
        while i > 1
            invariant
                1 <= i <= n || (n == 0 && i == 0),
                n == self.layers@.len(),
                r@.len() == n - i,
                forall|k: int| 0 <= k < r@.len() ==> r@[k] == n - 1 - k,
            decreases i,
        {
            r.push(i - 1);
            i = i - 1;
        }
        r
    }

    /// Injects a data vector into the input layer, element for element.
    ///
    /// Fails with `InvalidOperation` when there is no first layer or the
    /// first layer is not an input layer, and with `DimensionMismatch`
    /// when the data length disagrees with the input layer's declared
    /// size (both shorter and longer vectors are rejected); on failure the
    /// holder is unchanged.
    pub fn set_input_data(&mut self, input: &Vec<u32>) -> (r: Result<(), NetworkError>)
        ensures
            r is Ok <==> (old(self).layers@.len() > 0 && old(self).layers@[0] is Input
                && input@.len() == old(self).layers@[0].size()),
            r is Err ==> *final(self) == *old(self),
            !(old(self).layers@.len() > 0 && old(self).layers@[0] is Input) ==> (r matches Err(e)
                && e == NetworkError::InvalidOperation),
            (old(self).layers@.len() > 0 && old(self).layers@[0] is Input && input@.len()
                != old(self).layers@[0].size()) ==> (r matches Err(e)
                && e == NetworkError::DimensionMismatch),
            r is Ok ==> LayerHolder::stores_values(*old(self), *final(self), 0, input@),
            r is Ok ==> (old(self).wf() ==> final(self).wf()),
    {
        if self.layers.len() == 0 {
            return Err(NetworkError::InvalidOperation);
        }
        if !self.layers[0].is_input() {
            return Err(NetworkError::InvalidOperation);
        }
        if input.len() != self.layers[0].neuron_count() {
            return Err(NetworkError::DimensionMismatch);
        }
        let ghost pre = *self;
        let l = self.layers.remove(0);
        let l2 = match l {
            Layer::Input(mut inner) => {
                inner.neuron_values = scalar::copy_all(input);
                Layer::Input(inner)
            },
            other => other,
        };
        self.layers.insert(0, l2);
        proof {
            assert(self.layers@ =~= pre.layers@.update(0, self.layers@[0]));
            if pre.wf() {
                assert forall|k: int| 0 <= k < self.layers@.len() implies (
                #[trigger] self.layers@[k]).wf() by {
                    assert(pre.layers@[k].wf());
                    if k != 0 {
                        assert(self.layers@[k] == pre.layers@[k]);
                    }
                }
            }
        }
        Ok(())
    }

    /// Stores the result of one forward step: replaces layer `li`'s
    /// neuron values with `values`, computed by the caller's numeric
    /// kernel from the predecessor's values and this layer's weights and
    /// biases.
    ///
    /// A forward step aimed at the input layer is an `InvalidOperation`;
    /// on an unbuilt holder it is a `WiringError` (the adjacency a
    /// forward step reads was never established); a value vector whose
    /// length disagrees with the layer's neuron count is a
    /// `DimensionMismatch`. On failure the holder is unchanged.
    pub fn store_forward(&mut self, li: usize, values: Vec<u32>) -> (r: Result<
        (),
        NetworkError,
    >)
        requires
            li < old(self).layers@.len(),
        ensures
            r is Ok <==> (li != 0 && old(self).built && values@.len() == old(
                self,
            ).layers@[li as int].size()),
            r is Err ==> *final(self) == *old(self),
            li == 0 ==> (r matches Err(e) && e == NetworkError::InvalidOperation),
            li != 0 && !old(self).built ==> (r matches Err(e) && e == NetworkError::WiringError),
            li != 0 && old(self).built && values@.len() != old(self).layers@[li as int].size()
                ==> (r matches Err(e) && e == NetworkError::DimensionMismatch),
            r is Ok ==> LayerHolder::stores_values(*old(self), *final(self), li as int, values@),
            r is Ok ==> final(self).shapes_ok() == old(self).shapes_ok(),
            r is Ok ==> (old(self).wf() ==> final(self).wf()),
    {
        if li == 0 {
            return Err(NetworkError::InvalidOperation);
        }
        if !self.built {
            return Err(NetworkError::WiringError);
        }
        if values.len() != self.layers[li].neuron_count() {
            return Err(NetworkError::DimensionMismatch);
        }
        let ghost pre = *self;
        let l = self.layers.remove(li);
        let l2 = match l {
            Layer::Input(mut inner) => {
                inner.neuron_values = values;
                Layer::Input(inner)
            },
            Layer::Dense(mut inner) => {
                inner.neuron_values = values;
                Layer::Dense(inner)
            },
            Layer::Output(mut inner) => {
                inner.neuron_values = values;
                Layer::Output(inner)
            },
        };
        self.layers.insert(li, l2);
        proof {
            assert(self.layers@ =~= pre.layers@.update(li as int, self.layers@[li as int]));
            assert forall|k: int|
                0 <= k < self.layers@.len() implies #[trigger] self.layers@[k].size()
                == pre.layers@[k].size() by {
                if k != li {
                    assert(self.layers@[k] == pre.layers@[k]);
                }
            }
            assert forall|k: int| 1 <= k < self.layers@.len() implies #[trigger] self.weight_need(
                k,
            ) == pre.weight_need(k) by {
                assert(self.layers@[k].size() == pre.layers@[k].size());
                assert(self.layers@[k - 1].size() == pre.layers@[k - 1].size());
            }
            assert forall|k: int|
                1 <= k < self.layers@.len() implies #[trigger] self.layers@[k].weights_seq()
                == pre.layers@[k].weights_seq() by {
                if k != li {
                    assert(self.layers@[k] == pre.layers@[k]);
                }
            }
            if pre.shapes_ok() {
                assert forall|k: int|
                    1 <= k < self.layers@.len() implies self.layers@[k].weights_seq().len()
                    == #[trigger] self.weight_need(k) by {
                    assert(pre.layers@[k].weights_seq().len() == pre.weight_need(k));
                }
            }
            if self.shapes_ok() {
                assert forall|k: int|
                    1 <= k < pre.layers@.len() implies pre.layers@[k].weights_seq().len()
                    == #[trigger] pre.weight_need(k) by {
                    assert(self.layers@[k].weights_seq().len() == self.weight_need(k));
                }
            }
            if pre.wf() {
                assert forall|k: int| 0 <= k < self.layers@.len() implies (
                #[trigger] self.layers@[k]).wf() by {
                    assert(pre.layers@[k].wf());
                    if k != li {
                        assert(self.layers@[k] == pre.layers@[k]);
                    }
                }
            }
        }
        Ok(())
    }

    /// Stores the result of one backward step: replaces layer `li`'s
    /// error signals, flattened weight matrix and biases with the values
    /// the caller's numeric kernel computed; the neuron values are kept.
    ///
    /// A backward step aimed at the input layer — by position or by
    /// variant — is an `InvalidOperation`; on an unbuilt holder it is a
    /// `WiringError`; an error or bias vector whose length disagrees with
    /// the layer's neuron count, or a weight matrix whose length
    /// disagrees with `size(layer) * size(predecessor)`, is a
    /// `DimensionMismatch`. On failure the holder is unchanged.
    pub fn store_backward(
        &mut self,
        li: usize,
        errors: Vec<u32>,
        weights: Vec<u32>,
        biases: Vec<u32>,
    ) -> (r: Result<(), NetworkError>)
        requires
            li < old(self).layers@.len(),
        ensures
            r is Ok <==> (li != 0 && old(self).built && !(old(self).layers@[li as int] is Input)
                && errors@.len() == old(self).layers@[li as int].size() && biases@.len() == old(
                self,
            ).layers@[li as int].size() && weights@.len() == old(self).weight_need(li as int)),
            r is Err ==> *final(self) == *old(self),
            li == 0 ==> (r matches Err(e) && e == NetworkError::InvalidOperation),
            li != 0 && !old(self).built ==> (r matches Err(e) && e == NetworkError::WiringError),
            li != 0 && old(self).built && old(self).layers@[li as int] is Input ==> (r matches Err(
                e,
            ) && e == NetworkError::InvalidOperation),
            li != 0 && old(self).built && !(old(self).layers@[li as int] is Input) && !(
            errors@.len() == old(self).layers@[li as int].size() && biases@.len() == old(
                self,
            ).layers@[li as int].size() && weights@.len() == old(self).weight_need(li as int))
                ==> (r matches Err(e) && e == NetworkError::DimensionMismatch),
            r is Ok ==> LayerHolder::stores_training(
                *old(self),
                *final(self),
                li as int,
                errors@,
                weights@,
                biases@,
            ),
            r is Ok ==> (old(self).shapes_ok() ==> final(self).shapes_ok()),
            r is Ok ==> (old(self).wf() ==> final(self).wf()),
    {
        if li == 0 {
            return Err(NetworkError::InvalidOperation);
        }
        if !self.built {
            return Err(NetworkError::WiringError);
        }
        if self.layers[li].is_input() {
            return Err(NetworkError::InvalidOperation);
        }
        let size = self.layers[li].neuron_count();
        let prev_size = self.layers[li - 1].neuron_count();
        if errors.len() != size || biases.len() != size {
            return Err(NetworkError::DimensionMismatch);
        }
        let weights_len = weights.len();
        let need = match size.checked_mul(prev_size) {
            Some(c) => c,
            None => {
                proof {
                    assert(weights@.len() <= usize::MAX);
                    assert(self.weight_need(li as int) == size * prev_size);
                }
                return Err(NetworkError::DimensionMismatch);
            },
        };
        if weights_len != need {
            return Err(NetworkError::DimensionMismatch);
        }
        let ghost pre = *self;
        let l = self.layers.remove(li);
        let l2 = match l {
            Layer::Input(inner) => Layer::Input(inner),
            Layer::Dense(mut inner) => {
                inner.errors = errors;
                inner.weights = weights;
                inner.biases = biases;
                Layer::Dense(inner)
            },
            Layer::Output(mut inner) => {
                inner.errors = errors;
                inner.weights = weights;
                inner.biases = biases;
                Layer::Output(inner)
            },
        };
        self.layers.insert(li, l2);
        proof {
            assert(self.layers@ =~= pre.layers@.update(li as int, self.layers@[li as int]));
            assert forall|k: int| 1 <= k < self.layers@.len() implies #[trigger] self.weight_need(
                k,
            ) == pre.weight_need(k) by {
                assert(self.layers@[k].values_seq() == pre.layers@[k].values_seq());
                assert(self.layers@[k - 1].values_seq() == pre.layers@[k - 1].values_seq());
            }
            if pre.wf() {
                assert forall|k: int| 0 <= k < self.layers@.len() implies (
                #[trigger] self.layers@[k]).wf() by {
                    assert(pre.layers@[k].wf());
                    if k != li {
                        assert(self.layers@[k] == pre.layers@[k]);
                    }
                }
            }
        }
        Ok(())
    }

    /// The one-time build step. It validates the topology invariant — at
    /// least three layers, input first, output last, hidden in between —
    /// and that `weight_init` supplies exactly one scalar per weight:
    /// `size(layer) * size(predecessor)` for every non-input layer, in
    /// layer order. On success the returned holder is built, its shape is
    /// frozen, and every non-input layer carries its slice of
    /// `weight_init` as its flattened matrix. Any violation fails with
    /// `StructuralError` and no partially wired holder escapes.
    pub fn build(self, weight_init: Vec<u32>) -> (r: Result<LayerHolder, NetworkError>)
        ensures
            r is Ok <==> (self.topology_ok() && weight_init@.len() == self.weight_total()),
            r matches Ok(h) ==> LayerHolder::built_from(h, self, weight_init@),
            r matches Ok(h) ==> h.topology_ok() && h.shapes_ok(),
            r matches Ok(h) ==> (self.wf() ==> h.wf()),
            r matches Err(e) ==> e == NetworkError::StructuralError,
    {
        let n = self.layers.len();
        let init_len = weight_init.len();
        if n < 3 {
            return Err(NetworkError::StructuralError);
        }
        if !self.layers[0].is_input() {
            return Err(NetworkError::StructuralError);
        }
        if !self.layers[n - 1].is_output() {
            return Err(NetworkError::StructuralError);
        }
        let mut i: usize = 1;
        while i < n - 1
            invariant
                1 <= i <= n - 1,
                3 <= n == self.layers@.len(),
                forall|k: int| 1 <= k < i ==> #[trigger] self.layers@[k] is Dense,
            decreases n - 1 - i,
        {
            if !self.layers[i].is_dense() {
                return Err(NetworkError::StructuralError);
            }
            i = i + 1;
        }
        let mut total: usize = 0;
        let mut i: usize = 1;
        while i < n
            invariant
                1 <= i <= n == self.layers@.len(),
                total == self.weight_offset(i as int),
                init_len == weight_init@.len(),
            decreases n - i,
        {
            let s = self.layers[i].neuron_count();
            let m = self.layers[i - 1].neuron_count();
            proof {
                assert(self.weight_offset(i as int + 1) == self.weight_offset(i as int)
                    + self.weight_need(i as int));
                self.lemma_weight_offset_mono(i as int + 1, n as int);
            }
            let need = match s.checked_mul(m) {
                Some(c) => c,
                None => {
                    return Err(NetworkError::StructuralError);
                },
            };
            total = match total.checked_add(need) {
                Some(t) => t,
                None => {
                    return Err(NetworkError::StructuralError);
                },
            };
            i = i + 1;
        }
        if weight_init.len() != total {
            return Err(NetworkError::StructuralError);
        }
        let ghost pre = self;
        let mut rest = self.layers;
        let mut out: Vec<Layer> = Vec::new();
        let mut off: usize = 0;
        let mut i: usize = 0;
        while i < n
            invariant
                i <= n == pre.layers@.len(),
                pre.topology_ok(),
                weight_init@.len() == pre.weight_total() == total,
                rest@ == pre.layers@.subrange(i as int, n as int),
                out@.len() == i,
                off == pre.weight_offset(i as int),
                forall|j: int|
                    0 <= j < i ==> LayerHolder::layer_built_from(
                        #[trigger] out@[j],
                        pre,
                        j,
                        weight_init@,
                    ),
            decreases n - i,
        {
            let mut l = rest.remove(0);
            proof {
                assert(pre.layers@.subrange(i as int, n as int)[0] == pre.layers@[i as int]);
                assert(rest@ =~= pre.layers@.subrange(i as int + 1, n as int));
            }
            if i >= 1 {
                let s = l.neuron_count();
                let m = out[i - 1].neuron_count();
                proof {
                    assert(out@[i as int - 1].values_seq() == pre.layers@[i as int
                        - 1].values_seq());
                    assert(s * m == pre.weight_need(i as int));
                    assert(pre.weight_offset(i as int + 1) == pre.weight_offset(i as int)
                        + pre.weight_need(i as int));
                    pre.lemma_weight_offset_mono(i as int + 1, n as int);
                    assert(off + s * m <= total);
                    if i < n - 1 {
                        assert(pre.layers@[i as int] is Dense);
                    } else {
                        assert(pre.layers@[i as int] is Output);
                    }
                    assert(!(l is Input));
                }
                let cnt = s * m;
                let w = scalar::copy_range(&weight_init, off, off + cnt);
                l = match l {
                    Layer::Dense(mut d) => {
                        d.weights = w;
                        Layer::Dense(d)
                    },
                    Layer::Output(mut o) => {
                        o.weights = w;
                        Layer::Output(o)
                    },
                    Layer::Input(inner) => Layer::Input(inner),
                };
                off = off + cnt;
            }
            out.push(l);
            i = i + 1;
        }
        let result = LayerHolder { layers: out, built: true };
        proof {
            assert(LayerHolder::built_from(result, pre, weight_init@));
            assert forall|k: int| 1 <= k < n implies result.layers@[k].weights_seq().len()
                == #[trigger] result.weight_need(k) by {
                assert(LayerHolder::layer_built_from(result.layers@[k], pre, k, weight_init@));
                assert(pre.weight_offset(k) + pre.weight_need(k) == pre.weight_offset(k + 1));
                pre.lemma_weight_offset_mono(k + 1, n as int);
                assert(pre.weight_offset(k) + pre.weight_need(k) <= weight_init@.len());
                assert(result.layers@[k].weights_seq().len() == pre.weight_need(k));
                assert(result.layers@[k].values_seq() == pre.layers@[k].values_seq());
                assert(result.layers@[k - 1].values_seq() == pre.layers@[k - 1].values_seq());
                assert(result.weight_need(k) == pre.weight_need(k));
            }
            assert(result.topology_ok());
        }
        Ok(result)
    }
}

} // verus!
