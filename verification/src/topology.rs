use vstd::prelude::*;

use crate::activation::Activation;

verus! {

/// The dimensions and activation of one fully connected layer.
#[derive(Clone, Copy, Debug, PartialEq, Eq, Structural)]
pub struct LayerSpec {
    /// Number of inputs (columns of the weight matrix).
    pub n_in: usize,
    /// Number of outputs (rows of the weight matrix, length of the bias).
    pub n_out: usize,
    pub activation: Activation,
}

/// Activation of layer `i` of a network of `n_layers` layers: every layer
/// uses ReLU except the last, which is linear and yields raw logits.
pub open spec fn spec_activation_for(i: int, n_layers: int) -> Activation {
    if i == n_layers - 1 {
        Activation::Linear
    } else {
        Activation::ReLU
    }
}

/// The layers of a network whose successive layer widths are `sizes`:
/// layer `i` maps `sizes[i]` inputs to `sizes[i + 1]` outputs.
pub open spec fn spec_layer_specs(sizes: Seq<usize>) -> Seq<LayerSpec> {
    Seq::new(
        (sizes.len() - 1) as nat,
        |i: int|
            LayerSpec {
                n_in: sizes[i],
                n_out: sizes[i + 1],
                activation: spec_activation_for(i, sizes.len() - 1),
            },
    )
}

/// Activation of layer `i` of a network of `n_layers` layers.
pub fn activation_for(i: usize, n_layers: usize) -> (a: Activation)
    ensures
        a == spec_activation_for(i as int, n_layers as int),
        i < n_layers ==> (a == Activation::Linear <==> i == n_layers - 1),
        i < n_layers ==> (a == Activation::ReLU <==> i != n_layers - 1),
{
    if n_layers >= 1 && i == n_layers - 1 {
        Activation::Linear
    } else {
        Activation::ReLU
    }
}

/// The layers of a network with the given layer widths (input width
/// first, output width last). At least two widths are needed.
pub fn layer_specs(layer_sizes: &[usize]) -> (specs: Vec<LayerSpec>)
    requires
        layer_sizes.len() >= 2,
    ensures
        specs@ == spec_layer_specs(layer_sizes@),
        specs@.len() == layer_sizes@.len() - 1,
        forall|i: int|
            0 <= i < specs@.len() ==> (#[trigger] specs@[i]).n_in == layer_sizes@[i]
                && specs@[i].n_out == layer_sizes@[i + 1]
                && (specs@[i].activation == Activation::Linear <==> i == specs@.len() - 1),
{
    let n_layers = layer_sizes.len() - 1;
    let mut specs: Vec<LayerSpec> = Vec::with_capacity(n_layers);
    let mut i: usize = 0;
    while i < n_layers
        invariant
            n_layers == layer_sizes.len() - 1,
            0 <= i <= n_layers,
            specs@ == spec_layer_specs(layer_sizes@).take(i as int),
        decreases n_layers - i,
    {
        let spec = LayerSpec {
            n_in: layer_sizes[i],
            n_out: layer_sizes[i + 1],
            activation: activation_for(i, n_layers),
        };
        specs.push(spec);
        i = i + 1;
        assert(specs@ =~= spec_layer_specs(layer_sizes@).take(i as int));
    }
    assert(spec_layer_specs(layer_sizes@).take(n_layers as int) =~= spec_layer_specs(layer_sizes@));
    specs
}

/// The layers of a network with the given widths, or `None` when fewer
/// than two widths are given (such a network has no layer).
pub fn try_layer_specs(layer_sizes: &[usize]) -> (specs: Option<Vec<LayerSpec>>)
    ensures
        layer_sizes.len() < 2 ==> specs is None,
        layer_sizes.len() >= 2 ==> (specs matches Some(v) && v@ == spec_layer_specs(layer_sizes@)),
{
    if layer_sizes.len() < 2 {
        None
    } else {
        Some(layer_specs(layer_sizes))
    }
}

/// A network with `n` widths has `n - 1` layers; the first reads the
/// input width, the last produces the output width, and each layer feeds
/// exactly as many values as the next one reads.
pub proof fn lemma_layers_chain(sizes: Seq<usize>)
    requires
        sizes.len() >= 2,
    ensures
        spec_layer_specs(sizes).len() == sizes.len() - 1,
        spec_layer_specs(sizes)[0].n_in == sizes[0],
        spec_layer_specs(sizes).last().n_out == sizes.last(),
        forall|i: int|
            0 <= i < spec_layer_specs(sizes).len() - 1 ==> #[trigger] spec_layer_specs(sizes)[i].n_out
                == spec_layer_specs(sizes)[i + 1].n_in,
{
}

/// Exactly one layer is linear, and it is the last one; all the others
/// use ReLU.
pub proof fn lemma_only_last_linear(sizes: Seq<usize>)
    requires
        sizes.len() >= 2,
    ensures
        forall|i: int|
            0 <= i < spec_layer_specs(sizes).len() ==> ((#[trigger] spec_layer_specs(sizes)[i].activation
                == Activation::Linear) <==> i == spec_layer_specs(sizes).len() - 1),
        forall|i: int|
            0 <= i < spec_layer_specs(sizes).len() - 1 ==> #[trigger] spec_layer_specs(sizes)[i].activation
                == Activation::ReLU,
{
}

/// Layer `i` of a network with widths `sizes` reads `sizes[i]` values and
/// writes `sizes[i + 1]` values, for every layer.
pub proof fn lemma_layer_widths(sizes: Seq<usize>)
    requires
        sizes.len() >= 2,
    ensures
        spec_layer_specs(sizes).len() + 1 == sizes.len(),
        forall|i: int|
            0 <= i < sizes.len() - 1 ==> (#[trigger] spec_layer_specs(sizes)[i]).n_in == sizes[i]
                && spec_layer_specs(sizes)[i].n_out == sizes[i + 1],
{
}

/// Among the layers `0 .. n_layers` of a network, the linear one is the
/// last and only the last; the others use ReLU.
pub proof fn lemma_activation_last_only(n_layers: int)
    requires
        n_layers >= 1,
    ensures
        spec_activation_for(n_layers - 1, n_layers) == Activation::Linear,
        forall|i: int|
            0 <= i < n_layers - 1 ==> #[trigger] spec_activation_for(i, n_layers) == Activation::ReLU,
{
}

} // verus!
