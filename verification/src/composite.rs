//! The compositor: maps each final-image pixel to a coordinate in every
//! layer and averages the sampled intensities.

use vstd::prelude::*;
use vstd::arithmetic::div_mod::{
    lemma_div_multiples_vanish, lemma_div_pos_is_pos, lemma_multiply_divide_lt,
};
use vstd::arithmetic::power2::{
    lemma2_to64, lemma_pow2_adds, lemma_pow2_pos, lemma_pow2_strictly_increases, pow2,
};
use vstd::bits::lemma_u32_shl_is_mul;
use crate::error::PipelineError;
use crate::layer::Layer;
use crate::stack::{MAX_DEPTH, lemma_valid_stack_len, valid_stack};

verus! {

/// The final image: a grid of grayscale intensities in row-major order,
/// sized to the last (largest) layer of the stack it was composited from.
#[derive(Debug)]
pub struct Image {
    width: u32,
    height: u32,
    data: Vec<u8>,
}

impl Image {
    pub closed spec fn spec_width(&self) -> u32 {
        self.width
    }

    pub closed spec fn spec_height(&self) -> u32 {
        self.height
    }

    /// The intensities in row-major order.
    pub closed spec fn spec_data(&self) -> Seq<u8> {
        self.data@
    }

    /// Well-formed: the grid holds exactly `width * height` intensities.
    pub open spec fn wf(&self) -> bool {
        self.spec_data().len() == self.spec_width() * self.spec_height()
    }

    /// The intensity at column `x`, row `y`.
    pub open spec fn pixel(&self, x: int, y: int) -> u8 {
        self.spec_data()[y * self.spec_width() + x]
    }

    pub fn width(&self) -> (w: u32)
        ensures
            w == self.spec_width(),
    {
        self.width
    }

    pub fn height(&self) -> (h: u32)
        ensures
            h == self.spec_height(),
    {
        self.height
    }

    /// Reads the intensity at column `x`, row `y`.
    pub fn get(&self, x: u32, y: u32) -> (p: u8)
        requires
            self.wf(),
            x < self.spec_width(),
            y < self.spec_height(),
        ensures
            p == self.pixel(x as int, y as int),
    {
        let n: usize = self.data.len();
        proof {
            assert((y as int) * (self.width as int) + (x as int) < (self.width as int) * (
            self.height as int)) by (nonlinear_arith)
                requires
                    (x as int) < (self.width as int),
                    (y as int) < (self.height as int),
                    0 <= (x as int),
                    0 <= (y as int),
            ;
        }
        let idx: usize = (y as usize) * (self.width as usize) + (x as usize);
        self.data[idx]
    }

    /// The intensities in row-major order.
    pub fn bytes(&self) -> (b: &Vec<u8>)
        ensures
            b@ == self.spec_data(),
    {
        &self.data
    }
}

/// The sample layer `i` contributes to output pixel `(x, y)`: its intensity
/// at the coordinates scaled down by the divisor `2^(stack.len() - i)`.
pub open spec fn layer_sample(stack: Seq<Layer>, i: int, x: int, y: int) -> u8 {
    stack[i].pixel(
        x / (pow2((stack.len() - i) as nat) as int),
        y / (pow2((stack.len() - i) as nat) as int),
    )
}

/// Sum of the samples of layers `0 .. k` at output pixel `(x, y)`.
pub open spec fn sample_sum(stack: Seq<Layer>, k: int, x: int, y: int) -> int
    decreases k,
{
    if k <= 0 {
        0
    } else {
        sample_sum(stack, k - 1, x, y) + layer_sample(stack, k - 1, x, y)
    }
}

/// The composited intensity at `(x, y)`: the truncating average of the
/// samples of all layers.
pub open spec fn composite_value(stack: Seq<Layer>, x: int, y: int) -> int {
    sample_sum(stack, stack.len() as int, x, y) / (stack.len() as int)
}

/// `pow2(e)` of any admissible divisor exponent fits in `u32`.
proof fn lemma_pow2_divisor_bound(e: nat)
    requires
        e <= 30,
    ensures
        pow2(e) <= 0x4000_0000,
{
    lemma2_to64();
    if e < 30 {
        lemma_pow2_strictly_increases(e, 30);
    }
}

/// Scaling an in-range final-image coordinate down by `2^(n - i)` lands
/// inside layer `i`: the final image is one doubling larger than the last
/// layer, so even the last layer is sampled with divisor 2.
pub proof fn lemma_sample_in_bounds(stack: Seq<Layer>, i: int, x: int, y: int)
    requires
        valid_stack(stack),
        stack.len() > 0,
        0 <= i < stack.len(),
        0 <= x < stack.last().spec_width(),
        0 <= y < stack.last().spec_height(),
    ensures
        0 <= x / (pow2((stack.len() - i) as nat) as int) < stack[i].spec_width(),
        0 <= y / (pow2((stack.len() - i) as nat) as int) < stack[i].spec_height(),
{
    let n = stack.len() as int;
    let e = (n - i) as nat;
    let div = pow2(e) as int;
    let wi = stack[i].spec_width() as int;
    let hi = stack[i].spec_height() as int;
    lemma_pow2_pos(e);
    lemma_div_pos_is_pos(x, div);
    lemma_div_pos_is_pos(y, div);
    lemma_pow2_adds(i as nat, e);
    lemma_pow2_strictly_increases((n - 1) as nat, n as nat);
    assert(stack.last() == stack[n - 1]);
    assert(x < 4 * pow2((n - 1) as nat) && y < 3 * pow2((n - 1) as nat));
    assert(div * wi == 4 * (pow2(i as nat) * pow2(e)) && div * hi == 3 * (pow2(i as nat) * pow2(
    e))) by (nonlinear_arith)
        requires
            wi == 4 * pow2(i as nat),
            hi == 3 * pow2(i as nat),
            div == pow2(e),
    ;
    assert(x < div * wi);
    assert(y < div * hi);
    lemma_multiply_divide_lt(x, div, wi);
    lemma_multiply_divide_lt(y, div, hi);
}

/// If every pixel of every layer holds the constant intensity `v`, the sum
/// of the first `k` samples is `k * v`.
proof fn lemma_constant_sum(stack: Seq<Layer>, v: u8, x: int, y: int, k: int)
    requires
        valid_stack(stack),
        stack.len() > 0,
        0 <= k <= stack.len(),
        0 <= x < stack.last().spec_width(),
        0 <= y < stack.last().spec_height(),
        forall|i: int, px: int, py: int|
            0 <= i < stack.len() && 0 <= px < stack[i].spec_width() && 0 <= py
                < stack[i].spec_height() ==> #[trigger] stack[i].pixel(px, py) == v,
    ensures
        sample_sum(stack, k, x, y) == k * v,
    decreases k,
{
    if k > 0 {
        lemma_constant_sum(stack, v, x, y, k - 1);
        lemma_sample_in_bounds(stack, k - 1, x, y);
        assert(layer_sample(stack, k - 1, x, y) == stack[k - 1].pixel(
            x / (pow2((stack.len() - (k - 1)) as nat) as int),
            y / (pow2((stack.len() - (k - 1)) as nat) as int),
        ));
        assert(layer_sample(stack, k - 1, x, y) == v);
        assert(sample_sum(stack, k, x, y) == sample_sum(stack, k - 1, x, y) + layer_sample(
            stack,
            k - 1,
            x,
            y,
        ));
        assert((k - 1) * v + v == k * v) by (nonlinear_arith);
    } else {
        assert(k * v == 0) by (nonlinear_arith)
            requires
                k == 0,
        ;
    }
}

/// Averaging over a stack whose every layer holds the constant intensity
/// `v` gives `v` back at every output pixel.
pub proof fn lemma_constant_stack_average(stack: Seq<Layer>, v: u8, x: int, y: int)
    requires
        valid_stack(stack),
        stack.len() > 0,
        0 <= x < stack.last().spec_width(),
        0 <= y < stack.last().spec_height(),
        forall|i: int, px: int, py: int|
            0 <= i < stack.len() && 0 <= px < stack[i].spec_width() && 0 <= py
                < stack[i].spec_height() ==> #[trigger] stack[i].pixel(px, py) == v,
    ensures
        composite_value(stack, x, y) == v,
{
    let n = stack.len() as int;
    lemma_constant_sum(stack, v, x, y, n);
    lemma_div_multiples_vanish(v as int, n);
    assert(n * v == n * (v as int)) by (nonlinear_arith);
}

/// Composites a non-empty stack into the final image. The output has the
/// last layer's dimensions, and every output pixel is the truncating
/// average, over all layers `i`, of layer `i`'s intensity at the output
/// coordinates divided by `2^(n - i)`.
pub fn composite(stack: &Vec<Layer>) -> (r: Result<Image, PipelineError>)
    requires
        valid_stack(stack@),
    ensures
        r is Ok <==> stack@.len() > 0,
        r matches Err(e) ==> e == PipelineError::EmptyStack,
        r matches Ok(img) ==> img.wf() && img.spec_width() == stack@.last().spec_width()
            && img.spec_height() == stack@.last().spec_height() && forall|x: int, y: int|
            0 <= x < img.spec_width() && 0 <= y < img.spec_height() ==> img.pixel(x, y)
                == composite_value(stack@, x, y),
{
    let n: usize = stack.len();
    if n == 0 {
        return Err(PipelineError::EmptyStack);
    }
    proof {
        lemma_valid_stack_len(stack@);
    }
    let w: u32 = stack[n - 1].width();
    let h: u32 = stack[n - 1].height();
    let mut data: Vec<u8> = Vec::new();
    let mut y: u32 = 0;
    while y < h
        invariant
            valid_stack(stack@),
            stack@.len() == n,
            0 < n <= MAX_DEPTH,
            w == stack@.last().spec_width(),
            h == stack@.last().spec_height(),
            y <= h,
            data@.len() == y * w,
            forall|yy: int, xx: int|
                0 <= yy < y && 0 <= xx < w ==> data@[yy * w + xx] == composite_value(
                    stack@,
                    xx,
                    yy,
                ),
        decreases h - y,
    {
        let mut x: u32 = 0;
        while x < w
            invariant
                valid_stack(stack@),
                stack@.len() == n,
                0 < n <= MAX_DEPTH,
                w == stack@.last().spec_width(),
                h == stack@.last().spec_height(),
                y < h,
                x <= w,
                data@.len() == y * w + x,
                forall|yy: int, xx: int|
                    0 <= yy < y && 0 <= xx < w ==> data@[yy * w + xx] == composite_value(
                        stack@,
                        xx,
                        yy,
                    ),
                forall|xx: int|
                    0 <= xx < x ==> data@[y * w + xx] == composite_value(stack@, xx, y as int),
            decreases w - x,
        {
            let mut sum: u32 = 0;
            let mut i: usize = 0;
            while i < n
                invariant
                    valid_stack(stack@),
                    stack@.len() == n,
                    0 < n <= MAX_DEPTH,
                    w == stack@.last().spec_width(),
                    h == stack@.last().spec_height(),
                    x < w,
                    y < h,
                    i <= n,
                    sum == sample_sum(stack@, i as int, x as int, y as int),
                    sum <= i * 255,
                decreases n - i,
            {
                let shift: u32 = (n - i) as u32;
                proof {
                    lemma_pow2_pos(shift as nat);
                    lemma_pow2_divisor_bound(shift as nat);
                    lemma_u32_shl_is_mul(1u32, shift);
                    lemma_sample_in_bounds(stack@, i as int, x as int, y as int);
                }
                let divisor: u32 = 1u32 << shift;
                let sx: u32 = x / divisor;
                let sy: u32 = y / divisor;
                let p: u8 = stack[i].get(sx, sy);
                proof {
                    assert(p == layer_sample(stack@, i as int, x as int, y as int));
                    assert(sample_sum(stack@, i + 1, x as int, y as int) == sample_sum(
                        stack@,
                        i as int,
                        x as int,
                        y as int,
                    ) + layer_sample(stack@, i as int, x as int, y as int));
                }
                sum = sum + (p as u32);
                i = i + 1;
            }
            proof {
                lemma_multiply_divide_lt(sum as int, n as int, 256);
            }
            let avg: u32 = sum / (n as u32);
            data.push(avg as u8);
            proof {
                assert forall|yy: int, xx: int| 0 <= yy < y && 0 <= xx < w implies data@[yy * w
                    + xx] == composite_value(stack@, xx, yy) by {
                    assert(yy * w + xx < y * w) by (nonlinear_arith)
                        requires
                            0 <= yy,
                            yy < y,
                            0 <= xx < w,
                    ;
                }
            }
            x = x + 1;
        }
        proof {
            assert((y + 1) * (w as int) == y * (w as int) + (w as int)) by (nonlinear_arith);
        }
        y = y + 1;
    }
    proof {
        assert((h as int) * (w as int) == (w as int) * (h as int)) by (nonlinear_arith);
    }
    Ok(Image { width: w, height: h, data })
}

} // verus!
