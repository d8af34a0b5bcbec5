use vstd::prelude::*;

verus! {

/// How a layer turns its pre-activations into outputs.
#[derive(Clone, Copy, Debug, PartialEq, Eq, Structural)]
pub enum Activation {
    /// Negative pre-activations are clamped to zero.
    ReLU,
    /// Pre-activations are passed through unchanged (raw logits before softmax).
    Linear,
}

} // verus!
