//! One grayscale layer and its generator: a depth-scaled grid filled with
//! pseudo-random intensities drawn in row-major order.

use vstd::prelude::*;
use vstd::arithmetic::power2::{pow2, lemma_pow2_strictly_increases, lemma_pow2_unfold, lemma2_to64};
use vstd::bits::lemma_u32_shl_is_mul;
use crate::error::PipelineError;
use crate::rng::{Xorshift32, spec_state};

verus! {

/// The largest depth index whose layer dimensions still fit in `u32`:
/// `4 * 2^29 == 2^31`.
pub const MAX_DEPTH_INDEX: u32 = 29;

/// Width of the layer at depth index `d`.
pub open spec fn layer_width(d: nat) -> nat {
    4 * pow2(d)
}

/// Height of the layer at depth index `d`.
pub open spec fn layer_height(d: nat) -> nat {
    3 * pow2(d)
}

/// Intensity of row-major pixel `i` of a layer seeded with `seed`: the
/// stream's draw `i + 1`, reduced modulo 256.
pub open spec fn intensity_at(seed: u32, i: nat) -> u8 {
    (spec_state(seed, i + 1) % 256) as u8
}

/// One grayscale image layer: a `width x height` grid of intensities,
/// stored in row-major order (row 0 left to right, then row 1, ...).
#[derive(Debug)]
pub struct Layer {
    width: u32,
    height: u32,
    data: Vec<u8>,
}

impl Layer {
    pub closed spec fn spec_width(&self) -> u32 {
        self.width
    }

    pub closed spec fn spec_height(&self) -> u32 {
        self.height
    }

    /// The intensities in row-major order.
    pub closed spec fn spec_data(&self) -> Seq<u8> {
        self.data@
    }

    /// Well-formed: the grid holds exactly `width * height` intensities.
    pub open spec fn wf(&self) -> bool {
        self.spec_data().len() == self.spec_width() * self.spec_height()
    }

    /// The intensity at column `x`, row `y`.
    pub open spec fn pixel(&self, x: int, y: int) -> u8 {
        self.spec_data()[y * self.spec_width() + x]
    }

    pub fn width(&self) -> (w: u32)
        ensures
            w == self.spec_width(),
    {
        self.width
    }

    pub fn height(&self) -> (h: u32)
        ensures
            h == self.spec_height(),
    {
        self.height
    }

    /// Reads the intensity at column `x`, row `y`.
    pub fn get(&self, x: u32, y: u32) -> (p: u8)
        requires
            self.wf(),
            x < self.spec_width(),
            y < self.spec_height(),
        ensures
            p == self.pixel(x as int, y as int),
    {
        let n: usize = self.data.len();
        proof {
            assert((y as int) * (self.width as int) + (x as int) < (self.width as int) * (
            self.height as int)) by (nonlinear_arith)
                requires
                    (x as int) < (self.width as int),
                    (y as int) < (self.height as int),
                    0 <= (x as int),
                    0 <= (y as int),
            ;
        }
        let idx: usize = (y as usize) * (self.width as usize) + (x as usize);
        self.data[idx]
    }

    /// Assembles a layer from raw parts; refused unless the intensities
    /// fill the grid exactly.
    pub fn from_parts(width: u32, height: u32, data: Vec<u8>) -> (r: Option<Layer>)
        ensures
            r is Some <==> data@.len() == width * height,
            r matches Some(l) ==> l.spec_width() == width && l.spec_height() == height
                && l.spec_data() == data@,
    {
        proof {
            assert((width as int) * (height as int) <= u32::MAX * u32::MAX) by (nonlinear_arith)
                requires
                    0 <= (width as int) <= u32::MAX,
                    0 <= (height as int) <= u32::MAX,
            ;
        }
        let expected: u64 = (width as u64) * (height as u64);
        if (data.len() as u64) == expected {
            Some(Layer { width, height, data })
        } else {
            None
        }
    }
}

/// Exactly the layer that the generator produces for depth `d` and `seed`:
/// the depth-determined dimensions, every pixel pinned to its draw.
pub open spec fn is_generated_layer(l: Layer, d: nat, seed: u32) -> bool {
    &&& l.wf()
    &&& l.spec_width() == layer_width(d)
    &&& l.spec_height() == layer_height(d)
    &&& forall|i: int|
        0 <= i < l.spec_data().len() ==> l.spec_data()[i] == intensity_at(seed, i as nat)
}

/// Each depth doubles the layer dimensions.
pub proof fn lemma_dims_double(d: nat)
    ensures
        layer_width(d + 1) == 2 * layer_width(d),
        layer_height(d + 1) == 2 * layer_height(d),
{
    lemma_pow2_unfold(d + 1);
}

/// `pow2(d)` fits comfortably in `u32` for every admissible depth index.
pub proof fn lemma_pow2_depth_bound(d: nat)
    requires
        d <= 29,
    ensures
        pow2(d) <= 0x2000_0000,
{
    lemma2_to64();
    if d < 29 {
        lemma_pow2_strictly_increases(d, 29);
    }
}

/// Generates the layer at depth index `d` from `seed`: a `4*2^d x 3*2^d`
/// grid whose row-major pixel `i` is draw `i + 1` of a fresh stream seeded
/// with `seed`, reduced modulo 256.
pub fn generate_layer(d: u32, seed: u32) -> (r: Result<Layer, PipelineError>)
    ensures
        r is Ok <==> d <= MAX_DEPTH_INDEX,
        r matches Err(e) ==> e == PipelineError::DepthOutOfRange,
        r matches Ok(l) ==> is_generated_layer(l, d as nat, seed),
{
    if d > MAX_DEPTH_INDEX {
        return Err(PipelineError::DepthOutOfRange);
    }
    proof {
        lemma_pow2_depth_bound(d as nat);
        lemma_u32_shl_is_mul(1u32, d);
    }
    let scale: u32 = 1u32 << d;
    let width: u32 = 4 * scale;
    let height: u32 = 3 * scale;
    proof {
        assert((width as int) * (height as int) <= u32::MAX * u32::MAX) by (nonlinear_arith)
            requires
                0 <= (width as int) <= u32::MAX,
                0 <= (height as int) <= u32::MAX,
        ;
    }
    let total: u64 = (width as u64) * (height as u64);
    let mut data: Vec<u8> = Vec::new();
    let mut rng = Xorshift32::new(seed);
    let mut i: u64 = 0;
    while i < total
        invariant
            i <= total,
            rng@ == spec_state(seed, i as nat),
            data@.len() == i,
            forall|j: int| 0 <= j < i ==> data@[j] == intensity_at(seed, j as nat),
        decreases total - i,
    {
        let v = rng.next_u32();
        data.push((v % 256) as u8);
        i = i + 1;
    }
    Ok(Layer { width, height, data })
}

} // verus!
