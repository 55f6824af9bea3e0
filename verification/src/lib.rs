//! Procedural generation of a stack of pseudo-random grayscale layers of
//! doubling resolution, and compositing of the stack into one final image by
//! averaging spatially corresponding intensities across all layers.

pub mod composite;
pub mod error;
pub mod layer;
pub mod pipeline;
pub mod rng;
pub mod stack;
