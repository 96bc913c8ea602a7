//! The working buffers of training: per-layer activations, deltas and
//! gradients, and the optimizer's moment estimates. They are allocated once,
//! from the shapes of the layers, and then reused; the element type is left
//! to the caller.

use vstd::prelude::*;
use crate::network::NetworkConfig;

verus! {

/// What the buffers need to know of one layer.
#[derive(Debug, Clone, Copy, PartialEq, Eq, Structural)]
pub struct LayerDims {
    /// Number of input neurons.
    pub input_size: usize,
    /// Number of output neurons.
    pub output_size: usize,
    /// Number of weights the layer holds.
    pub weight_count: usize,
    /// Number of biases the layer holds.
    pub bias_count: usize,
}

/// The contents of a sequence of rows.
pub open spec fn rows<T>(v: Seq<Vec<T>>) -> Seq<Seq<T>> {
    v.map_values(|r: Vec<T>| r@)
}

/// Rows of the given sizes, every entry `zero`.
pub open spec fn zero_rows<T>(sizes: Seq<usize>, zero: T) -> Seq<Seq<T>> {
    sizes.map_values(|n: usize| Seq::new(n as nat, |_i: int| zero))
}

/// The same rows, every entry replaced by `zero`.
pub open spec fn cleared<T>(v: Seq<Seq<T>>, zero: T) -> Seq<Seq<T>> {
    v.map_values(|r: Seq<T>| Seq::new(r.len(), |_i: int| zero))
}

/// `v` has one row per entry of `sizes`, each of that size.
pub open spec fn sized_for<T>(v: Seq<Seq<T>>, sizes: Seq<usize>) -> bool {
    &&& v.len() == sizes.len()
    &&& forall|k: int| 0 <= k < v.len() ==> (#[trigger] v[k]).len() == sizes[k]
}

/// A buffer after it is made ready for rows of `sizes`: kept as it is when it
/// is already sized for them, rebuilt with zeroed rows otherwise.
pub open spec fn ensured<T>(v: Seq<Seq<T>>, sizes: Seq<usize>, zero: T) -> Seq<Seq<T>> {
    if sized_for(v, sizes) { v } else { zero_rows(sizes, zero) }
}

/// The sizes of the activations: the input of the first layer, then the output of each layer.
pub open spec fn activation_sizes(layers: Seq<LayerDims>) -> Seq<usize> {
    seq![layers[0].input_size] + output_sizes(layers)
}

/// The output size of each layer.
pub open spec fn output_sizes(layers: Seq<LayerDims>) -> Seq<usize> {
    layers.map_values(|d: LayerDims| d.output_size)
}

/// The weight count of each layer.
pub open spec fn weight_counts(layers: Seq<LayerDims>) -> Seq<usize> {
    layers.map_values(|d: LayerDims| d.weight_count)
}

/// The bias count of each layer.
pub open spec fn bias_counts(layers: Seq<LayerDims>) -> Seq<usize> {
    layers.map_values(|d: LayerDims| d.bias_count)
}

/// A row of `n` entries, all `zero`.
pub fn zeroed_row<T: Copy>(n: usize, zero: T) -> (r: Vec<T>)
    ensures
        r@ == Seq::new(n as nat, |_i: int| zero),
{
    let mut row: Vec<T> = Vec::with_capacity(n);
    for i in 0..n
        invariant
            row@ == Seq::new(i as nat, |_i: int| zero),
    {
        row.push(zero);
        assert(row@ =~= Seq::new((i + 1) as nat, |_i: int| zero));
    }
    row
}

/// One zeroed row per entry of `sizes`, of that size.
pub fn zeroed_rows<T: Copy>(sizes: &Vec<usize>, zero: T) -> (r: Vec<Vec<T>>)
    ensures
        rows(r@) == zero_rows(sizes@, zero),
{
    let mut out: Vec<Vec<T>> = Vec::with_capacity(sizes.len());
    for l in 0..sizes.len()
        invariant
            rows(out@) == zero_rows(sizes@.take(l as int), zero),
    {
        let ghost before = rows(out@);
        let row = zeroed_row(sizes[l], zero);
        out.push(row);
        assert(rows(out@) =~= before.push(Seq::new(sizes@[l as int] as nat, |_i: int| zero)));
        assert(rows(out@) =~= zero_rows(sizes@.take(l + 1), zero));
    }
    assert(sizes@.take(sizes.len() as int) =~= sizes@);
    out
}

/// Whether `v` is already sized for `sizes` (see `sized_for`).
fn is_sized_for<T>(v: &Vec<Vec<T>>, sizes: &Vec<usize>) -> (b: bool)
    ensures
        b == sized_for(rows(v@), sizes@),
{
    if v.len() != sizes.len() {
        return false;
    }
    for k in 0..v.len()
        invariant
            v@.len() == sizes@.len(),
            forall|j: int| 0 <= j < k ==> #[trigger] rows(v@)[j].len() == sizes@[j],
    {
        if v[k].len() != sizes[k] {
            assert(rows(v@)[k as int].len() != sizes@[k as int]);
            return false;
        }
    }
    true
}

/// Makes `v` ready for rows of `sizes` (see `ensured`).
fn ensure_rows<T: Copy>(v: &mut Vec<Vec<T>>, sizes: &Vec<usize>, zero: T)
    ensures
        rows(final(v)@) == ensured(rows(old(v)@), sizes@, zero),
{
    if !is_sized_for(v, sizes) {
        *v = zeroed_rows(sizes, zero);
    }
}

/// Sets every entry of every row of `v` to `zero`, keeping the row sizes.
fn clear_rows<T: Copy>(v: &mut Vec<Vec<T>>, zero: T)
    ensures
        rows(final(v)@) == cleared(rows(old(v)@), zero),
{
    let ghost start = rows(v@);
    let count = v.len();
    for l in 0..count
        invariant
            count == start.len(),
            v@.len() == start.len(),
            forall|k: int| 0 <= k < l ==> #[trigger] rows(v@)[k] == cleared(start, zero)[k],
            forall|k: int| l <= k < start.len() ==> #[trigger] rows(v@)[k] == start[k],
    {
        let n = v[l].len();
        let row = zeroed_row(n, zero);
        let ghost before = v@;
        v.set(l, row);
        assert(rows(before)[l as int] == start[l as int]);
        assert forall|k: int| 0 <= k <= l implies #[trigger] rows(v@)[k] == cleared(start, zero)[k] by {
            if k < l {
                assert(v@[k] == before[k]);
                assert(rows(before)[k] == cleared(start, zero)[k]);
            } else {
                assert(rows(v@)[k] =~= cleared(start, zero)[k]);
            }
        }
        assert forall|k: int| l < k < start.len() implies #[trigger] rows(v@)[k] == start[k] by {
            assert(v@[k] == before[k]);
            assert(rows(before)[k] == start[k]);
        }
    }
    assert(rows(v@) =~= cleared(start, zero));
}

/// Rows built for `sizes` are sized for them.
pub proof fn lemma_zero_rows_sized<T>(sizes: Seq<usize>, zero: T)
    ensures
        sized_for(zero_rows(sizes, zero), sizes),
{
    assert forall|k: int| 0 <= k < sizes.len() implies (#[trigger] zero_rows(sizes, zero)[k]).len() == sizes[k] by {}
}

/// Making a buffer ready twice for the same sizes is making it ready once: the
/// buffers are allocated once and then reused.
pub proof fn lemma_ensure_is_idempotent<T>(v: Seq<Seq<T>>, sizes: Seq<usize>, zero: T)
    ensures
        ensured(ensured(v, sizes, zero), sizes, zero) == ensured(v, sizes, zero),
{
    lemma_zero_rows_sized(sizes, zero);
}

/// A buffer made ready for `sizes` is sized for them; when it was not sized for
/// them before, it was rebuilt and every entry is `zero`.
pub proof fn lemma_ensured_shape<T>(v: Seq<Seq<T>>, sizes: Seq<usize>, zero: T)
    ensures
        sized_for(ensured(v, sizes, zero), sizes),
        !sized_for(v, sizes) ==> forall|k: int, i: int| 0 <= k < sizes.len() && 0 <= i < sizes[k] ==>
            #[trigger] ensured(v, sizes, zero)[k][i] == zero,
{
    lemma_zero_rows_sized(sizes, zero);
}

/// A buffer that already has one row per size, each of that size, is kept as
/// it is, whatever it holds; any other buffer is replaced by one row per size,
/// of that size, with every entry `zero`.
pub proof fn lemma_ensure_keeps_or_rebuilds<T>(v: Seq<Seq<T>>, sizes: Seq<usize>, zero: T)
    ensures
        (v.len() == sizes.len() && forall|k: int| 0 <= k < v.len() ==> #[trigger] v[k].len() == sizes[k])
            ==> ensured(v, sizes, zero) == v,
        !(v.len() == sizes.len() && forall|k: int| 0 <= k < v.len() ==> #[trigger] v[k].len() == sizes[k])
            ==> ensured(v, sizes, zero).len() == sizes.len()
                && (forall|k: int| 0 <= k < sizes.len() ==> (#[trigger] ensured(v, sizes, zero)[k]).len() == sizes[k])
                && (forall|k: int, i: int| 0 <= k < sizes.len() && 0 <= i < sizes[k] ==>
                    #[trigger] ensured(v, sizes, zero)[k][i] == zero),
{
}

/// After the gradients are zeroed, every gradient entry is `zero` and every row
/// keeps its size.
pub proof fn lemma_cleared_is_zero<T>(v: Seq<Seq<T>>, zero: T)
    ensures
        cleared(v, zero).len() == v.len(),
        forall|k: int| 0 <= k < v.len() ==> (#[trigger] cleared(v, zero)[k]).len() == v[k].len()
            && forall|i: int| 0 <= i < v[k].len() ==> cleared(v, zero)[k][i] == zero,
{
}

/// For layers shaped as a configuration plans them, the activations are sized
/// for the network's input, then each hidden layer, then the network's output.
pub proof fn lemma_activation_sizes_of_plan(config: NetworkConfig, dims: Seq<LayerDims>)
    requires
        dims.len() == config.layers().len(),
        forall|l: int| 0 <= l < dims.len() ==> (#[trigger] dims[l]).input_size == config.layers()[l].input_size
            && dims[l].output_size == config.layers()[l].output_size,
    ensures
        activation_sizes(dims) == seq![config.input_size] + config.hidden_sizes@ + seq![config.output_size],
{
    let h = config.hidden_sizes@;
    assert(dims[0].input_size == config.layers()[0].input_size);
    assert forall|l: int| 0 <= l < dims.len() implies
        #[trigger] output_sizes(dims)[l] == (h + seq![config.output_size])[l] by {
        assert(dims[l].output_size == config.layers()[l].output_size);
    }
    assert(output_sizes(dims) =~= h + seq![config.output_size]);
    assert(activation_sizes(dims) =~= seq![config.input_size] + h + seq![config.output_size]);
}

/// The optimizer's moments have the shape of the gradients that feed them:
/// gradient buffers made ready for `layers` from nothing, and moments built
/// for the same layers, have rows of the same sizes.
pub proof fn lemma_moments_match_gradients<T>(layers: Seq<LayerDims>, zero: T)
    requires
        layers.len() > 0,
    ensures
        ensured(Seq::<Seq<T>>::empty(), weight_counts(layers), zero) == zero_rows(weight_counts(layers), zero),
        ensured(Seq::<Seq<T>>::empty(), bias_counts(layers), zero) == zero_rows(bias_counts(layers), zero),
{
}

/// Buffers made ready from nothing for layers that hold one bias per output
/// (as every constructed layer does) meet the buffer invariant: one activation
/// row more than there are layers, the first sized for the first layer's
/// input; for each layer, the next activation row, its delta row and its bias
/// gradient row sized for its output, its weight gradient row for its weights;
/// and every gradient entry is `zero`.
pub proof fn lemma_fresh_buffers_invariant<T>(layers: Seq<LayerDims>, zero: T)
    requires
        layers.len() > 0,
        forall|l: int| 0 <= l < layers.len() ==> (#[trigger] layers[l]).bias_count == layers[l].output_size,
    ensures
        ({
            let act = ensured(Seq::<Seq<T>>::empty(), activation_sizes(layers), zero);
            let del = ensured(Seq::<Seq<T>>::empty(), output_sizes(layers), zero);
            let wg = ensured(Seq::<Seq<T>>::empty(), weight_counts(layers), zero);
            let bg = ensured(Seq::<Seq<T>>::empty(), bias_counts(layers), zero);
            &&& act.len() == layers.len() + 1
            &&& del.len() == layers.len()
            &&& wg.len() == layers.len()
            &&& bg.len() == layers.len()
            &&& act[0].len() == layers[0].input_size
            &&& forall|k: int| 0 <= k < layers.len() ==> {
                &&& act[k + 1].len() == (#[trigger] layers[k]).output_size
                &&& del[k].len() == layers[k].output_size
                &&& bg[k].len() == layers[k].output_size
                &&& wg[k].len() == layers[k].weight_count
                &&& forall|i: int| 0 <= i < wg[k].len() ==> wg[k][i] == zero
                &&& forall|i: int| 0 <= i < bg[k].len() ==> bg[k][i] == zero
            }
        }),
{
    let empty = Seq::<Seq<T>>::empty();
    assert(!sized_for(empty, activation_sizes(layers)));
    assert(!sized_for(empty, output_sizes(layers)));
    assert(!sized_for(empty, weight_counts(layers)));
    assert(!sized_for(empty, bias_counts(layers)));
    assert forall|k: int| 0 <= k < layers.len() implies
        (#[trigger] activation_sizes(layers)[k + 1]) == layers[k].output_size by {}
}

/// The activation, delta and gradient buffers of a network.
#[derive(Debug, Clone)]
pub struct TrainingBuffers<T> {
    /// The activations: the input, then the output of each layer.
    pub activations: Vec<Vec<T>>,
    /// The error term of each layer's outputs.
    pub deltas: Vec<Vec<T>>,
    /// The accumulated gradient of each layer's weights.
    pub weight_grads: Vec<Vec<T>>,
    /// The accumulated gradient of each layer's biases.
    pub bias_grads: Vec<Vec<T>>,
}

impl<T: Copy> TrainingBuffers<T> {
    /// Buffers that hold nothing yet.
    pub fn new() -> (b: Self)
        ensures
            b.activations@.len() == 0,
            b.deltas@.len() == 0,
            b.weight_grads@.len() == 0,
            b.bias_grads@.len() == 0,
    {
        TrainingBuffers {
            activations: Vec::new(),
            deltas: Vec::new(),
            weight_grads: Vec::new(),
            bias_grads: Vec::new(),
        }
    }

    /// Ensures that the buffers are allocated and correctly sized for `layers`:
    /// the activations hold the first layer's input and each layer's output,
    /// the deltas each layer's output, the gradients each layer's weights and
    /// biases. A buffer already sized so is kept as it is; any other is
    /// rebuilt, zeroed.
    pub fn ensure(&mut self, layers: &Vec<LayerDims>, zero: T)
        requires
            layers.len() > 0,
        ensures
            rows(final(self).activations@) == ensured(rows(old(self).activations@), activation_sizes(layers@), zero),
            rows(final(self).deltas@) == ensured(rows(old(self).deltas@), output_sizes(layers@), zero),
            rows(final(self).weight_grads@) == ensured(rows(old(self).weight_grads@), weight_counts(layers@), zero),
            rows(final(self).bias_grads@) == ensured(rows(old(self).bias_grads@), bias_counts(layers@), zero),
    {
        let mut act_sizes: Vec<usize> = Vec::with_capacity(layers.len());
        act_sizes.push(layers[0].input_size);
        let mut out_sizes: Vec<usize> = Vec::with_capacity(layers.len());
        let mut w_sizes: Vec<usize> = Vec::with_capacity(layers.len());
        let mut b_sizes: Vec<usize> = Vec::with_capacity(layers.len());
        for l in 0..layers.len()
            invariant
                layers.len() > 0,
                act_sizes@ == seq![layers@[0].input_size] + out_sizes@,
                out_sizes@ == output_sizes(layers@.take(l as int)),
                w_sizes@ == weight_counts(layers@.take(l as int)),
                b_sizes@ == bias_counts(layers@.take(l as int)),
        {
            act_sizes.push(layers[l].output_size);
            out_sizes.push(layers[l].output_size);
            w_sizes.push(layers[l].weight_count);
            b_sizes.push(layers[l].bias_count);
            assert(act_sizes@ =~= seq![layers@[0].input_size] + out_sizes@);
            assert(out_sizes@ =~= output_sizes(layers@.take(l + 1)));
            assert(w_sizes@ =~= weight_counts(layers@.take(l + 1)));
            assert(b_sizes@ =~= bias_counts(layers@.take(l + 1)));
        }
        assert(layers@.take(layers.len() as int) =~= layers@);
        assert(act_sizes@ =~= activation_sizes(layers@));
        ensure_rows(&mut self.activations, &act_sizes, zero);
        ensure_rows(&mut self.deltas, &out_sizes, zero);
        ensure_rows(&mut self.weight_grads, &w_sizes, zero);
        ensure_rows(&mut self.bias_grads, &b_sizes, zero);
    }

    /// Zeroes out the accumulated gradients, after making the buffers ready
    /// for `layers` as `ensure` does.
    pub fn zero_gradients(&mut self, layers: &Vec<LayerDims>, zero: T)
        requires
            layers.len() > 0,
        ensures
            rows(final(self).activations@) == ensured(rows(old(self).activations@), activation_sizes(layers@), zero),
            rows(final(self).deltas@) == ensured(rows(old(self).deltas@), output_sizes(layers@), zero),
            rows(final(self).weight_grads@) == cleared(ensured(rows(old(self).weight_grads@), weight_counts(layers@), zero), zero),
            rows(final(self).bias_grads@) == cleared(ensured(rows(old(self).bias_grads@), bias_counts(layers@), zero), zero),
    {
        self.ensure(layers, zero);
        clear_rows(&mut self.weight_grads, zero);
        clear_rows(&mut self.bias_grads, zero);
    }
}

/// The first and second moment estimates that the Adam optimizer keeps for
/// every weight and bias.
#[derive(Debug, Clone)]
pub struct AdamMoments<T> {
    /// First moment of each layer's weights.
    pub m_weights: Vec<Vec<T>>,
    /// Second moment of each layer's weights.
    pub v_weights: Vec<Vec<T>>,
    /// First moment of each layer's biases.
    pub m_biases: Vec<Vec<T>>,
    /// Second moment of each layer's biases.
    pub v_biases: Vec<Vec<T>>,
}

impl<T: Copy> AdamMoments<T> {
    /// Zeroed moments shaped like the weights and biases of `layers`.
    pub fn new(layers: &Vec<LayerDims>, zero: T) -> (m: Self)
        ensures
            rows(m.m_weights@) == zero_rows(weight_counts(layers@), zero),
            rows(m.v_weights@) == zero_rows(weight_counts(layers@), zero),
            rows(m.m_biases@) == zero_rows(bias_counts(layers@), zero),
            rows(m.v_biases@) == zero_rows(bias_counts(layers@), zero),
    {
        let mut w_sizes: Vec<usize> = Vec::with_capacity(layers.len());
        let mut b_sizes: Vec<usize> = Vec::with_capacity(layers.len());
        for l in 0..layers.len()
            invariant
                w_sizes@ == weight_counts(layers@.take(l as int)),
                b_sizes@ == bias_counts(layers@.take(l as int)),
        {
            w_sizes.push(layers[l].weight_count);
            b_sizes.push(layers[l].bias_count);
            assert(w_sizes@ =~= weight_counts(layers@.take(l + 1)));
            assert(b_sizes@ =~= bias_counts(layers@.take(l + 1)));
        }
        assert(layers@.take(layers.len() as int) =~= layers@);
        AdamMoments {
            m_weights: zeroed_rows(&w_sizes, zero),
            v_weights: zeroed_rows(&w_sizes, zero),
            m_biases: zeroed_rows(&b_sizes, zero),
            v_biases: zeroed_rows(&b_sizes, zero),
        }
    }
}

} // verus!
