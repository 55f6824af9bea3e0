//! The layer stack builder: derives per-layer seeds sequentially from one
//! master stream and collects the ordered list of layers.

use vstd::prelude::*;
use vstd::arithmetic::power2::lemma2_to64;
use crate::error::PipelineError;
use crate::layer::{
    Layer, generate_layer, is_generated_layer, layer_height, layer_width, lemma_dims_double,
};
use crate::rng::{Xorshift32, spec_state};

verus! {

/// The most layers a stack can hold: depth indices run `0 ..= MAX_DEPTH_INDEX`.
pub const MAX_DEPTH: usize = 30;

/// The seed of layer `i` for a given master seed: the master stream's draw
/// `i + 1`, offset by 3 (wrapping) to decorrelate layer seeds from the
/// master stream's own output.
pub open spec fn layer_seed(master_seed: u32, i: nat) -> u32 {
    spec_state(master_seed, i + 1).wrapping_add(3u32)
}

/// A stack whose layers are well formed and sized by their depth index.
pub open spec fn valid_stack(stack: Seq<Layer>) -> bool {
    forall|i: int|
        0 <= i < stack.len() ==> (#[trigger] stack[i]).wf()
            && stack[i].spec_width() == layer_width(i as nat)
            && stack[i].spec_height() == layer_height(i as nat)
}

/// Exactly the stack that `build_stack` produces: layer `i` generated at
/// depth index `i` from `layer_seed(master_seed, i)`.
pub open spec fn is_generated_stack(stack: Seq<Layer>, depth: nat, master_seed: u32) -> bool {
    &&& stack.len() == depth
    &&& forall|i: int|
        0 <= i < depth ==> is_generated_layer(
            #[trigger] stack[i],
            i as nat,
            layer_seed(master_seed, i as nat),
        )
}

/// A generated stack is valid.
pub proof fn lemma_generated_stack_valid(stack: Seq<Layer>, depth: nat, master_seed: u32)
    requires
        is_generated_stack(stack, depth, master_seed),
    ensures
        valid_stack(stack),
{
}

/// In every valid stack, a layer's dimensions are exactly half of the next
/// layer's.
pub proof fn lemma_stack_dims_double(stack: Seq<Layer>, i: int)
    requires
        valid_stack(stack),
        0 <= i,
        i + 1 < stack.len(),
    ensures
        stack[i + 1].spec_width() == 2 * stack[i].spec_width(),
        stack[i + 1].spec_height() == 2 * stack[i].spec_height(),
{
    lemma_dims_double(i as nat);
}

/// A valid stack holds at most `MAX_DEPTH` layers: one more and the layer
/// width would no longer fit in `u32`.
pub proof fn lemma_valid_stack_len(stack: Seq<Layer>)
    requires
        valid_stack(stack),
    ensures
        stack.len() <= MAX_DEPTH,
{
    if stack.len() > 30 {
        assert(stack[30].spec_width() == layer_width(30));
        lemma2_to64();
        assert(false);
    }
}

/// Builds the ordered stack of `depth` layers. Per-layer seeds are drawn
/// sequentially from one master stream, in strict depth order, so the whole
/// stack is reproducible from the master seed alone.
pub fn build_stack(depth: usize, master_seed: u32) -> (r: Result<Vec<Layer>, PipelineError>)
    ensures
        r is Ok <==> depth <= MAX_DEPTH,
        r matches Err(e) ==> e == PipelineError::DepthOutOfRange,
        r matches Ok(s) ==> is_generated_stack(s@, depth as nat, master_seed),
{
    if depth > MAX_DEPTH {
        return Err(PipelineError::DepthOutOfRange);
    }
    let mut master = Xorshift32::new(master_seed);
    let mut layers: Vec<Layer> = Vec::new();
    let mut d: usize = 0;
    while d < depth
        invariant
            d <= depth,
            depth <= MAX_DEPTH,
            master@ == spec_state(master_seed, d as nat),
            layers@.len() == d,
            forall|i: int|
                0 <= i < d ==> is_generated_layer(
                    #[trigger] layers@[i],
                    i as nat,
                    layer_seed(master_seed, i as nat),
                ),
        decreases depth - d,
    {
        let s = master.next_u32().wrapping_add(3);
        let layer = match generate_layer(d as u32, s) {
            Ok(l) => l,
            Err(e) => {
                return Err(e);
            },
        };
        layers.push(layer);
        d = d + 1;
    }
    Ok(layers)
}

} // verus!
