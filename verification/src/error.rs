//! The failure cases of the pipeline.

use vstd::prelude::*;

verus! {

/// Everything that can go wrong while building or compositing a layer stack.
#[derive(Clone, Copy, Debug, PartialEq, Eq, Structural)]
pub enum PipelineError {
    /// The requested depth would overflow the 32-bit layer dimensions.
    DepthOutOfRange,
    /// There is no layer to composite: the requested depth was 0.
    EmptyStack,
}

} // verus!
