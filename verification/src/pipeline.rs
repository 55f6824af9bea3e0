//! The whole run: build the layer stack from a master seed, composite it,
//! and pin every byte of the final image to the two inputs alone.

use vstd::prelude::*;
use vstd::arithmetic::div_mod::{
    lemma_fundamental_div_mod, lemma_mod_bound, lemma_multiply_divide_lt,
};
use vstd::arithmetic::power2::{lemma_pow2_pos, pow2};
use crate::composite::{Image, composite, layer_sample, lemma_sample_in_bounds, sample_sum};
use crate::error::PipelineError;
use crate::layer::{Layer, intensity_at, layer_height, layer_width};
use crate::stack::{
    MAX_DEPTH, build_stack, is_generated_stack, layer_seed, lemma_generated_stack_valid,
};

verus! {

/// The intensity of layer `i`'s pixel at column `px`, row `py`, written
/// from the master seed alone.
pub open spec fn gen_pixel(master_seed: u32, i: nat, px: int, py: int) -> u8 {
    intensity_at(layer_seed(master_seed, i), (py * layer_width(i) + px) as nat)
}

/// Sum of the samples that layers `0 .. k` of a `depth`-layer run
/// contribute to output pixel `(x, y)`, from the master seed alone.
pub open spec fn gen_sum(master_seed: u32, depth: nat, k: nat, x: int, y: int) -> int
    decreases k,
{
    if k == 0 {
        0
    } else {
        gen_sum(master_seed, depth, (k - 1) as nat, x, y) + gen_pixel(
            master_seed,
            (k - 1) as nat,
            x / (pow2((depth - (k - 1)) as nat) as int),
            y / (pow2((depth - (k - 1)) as nat) as int),
        )
    }
}

/// The final image's intensity at `(x, y)` for a `depth`-layer run: the
/// truncating average of all layers' samples, from the master seed alone.
pub open spec fn final_pixel(master_seed: u32, depth: nat, x: int, y: int) -> int {
    gen_sum(master_seed, depth, depth, x, y) / (depth as int)
}

/// The image a `depth`-layer run seeded with `master_seed` must produce:
/// the last layer's dimensions, every pixel pinned by `final_pixel`.
pub open spec fn is_rendered_image(img: Image, depth: nat, master_seed: u32) -> bool {
    &&& img.wf()
    &&& depth > 0
    &&& img.spec_width() == layer_width((depth - 1) as nat)
    &&& img.spec_height() == layer_height((depth - 1) as nat)
    &&& forall|x: int, y: int|
        0 <= x < img.spec_width() && 0 <= y < img.spec_height() ==> img.pixel(x, y)
            == final_pixel(master_seed, depth, x, y)
}

/// On a generated stack, the compositor's sample sum equals the sum
/// written from the master seed alone.
proof fn lemma_generated_sample_sum(
    stack: Seq<Layer>,
    depth: nat,
    master_seed: u32,
    k: int,
    x: int,
    y: int,
)
    requires
        is_generated_stack(stack, depth, master_seed),
        depth > 0,
        0 <= k <= depth,
        0 <= x < stack.last().spec_width(),
        0 <= y < stack.last().spec_height(),
    ensures
        sample_sum(stack, k, x, y) == gen_sum(master_seed, depth, k as nat, x, y),
    decreases k,
{
    lemma_generated_stack_valid(stack, depth, master_seed);
    if k > 0 {
        lemma_generated_sample_sum(stack, depth, master_seed, k - 1, x, y);
        lemma_sample_in_bounds(stack, k - 1, x, y);
        let i = k - 1;
        let e = (stack.len() - i) as nat;
        let sx = x / (pow2(e) as int);
        let sy = y / (pow2(e) as int);
        let l = stack[i];
        let w = l.spec_width() as int;
        let h = l.spec_height() as int;
        assert(sy * w + sx < w * h) by (nonlinear_arith)
            requires
                0 <= sx < w,
                0 <= sy < h,
        ;
        assert(l.pixel(sx, sy) == l.spec_data()[sy * w + sx]);
        assert(l.spec_data()[sy * w + sx] == intensity_at(
            layer_seed(master_seed, i as nat),
            (sy * w + sx) as nat,
        ));
        assert(layer_sample(stack, i, x, y) == gen_pixel(master_seed, i as nat, sx, sy));
        assert(sample_sum(stack, k, x, y) == sample_sum(stack, i, x, y) + layer_sample(
            stack,
            i,
            x,
            y,
        ));
        assert(gen_sum(master_seed, depth, k as nat, x, y) == gen_sum(
            master_seed,
            depth,
            i as nat,
            x,
            y,
        ) + gen_pixel(
            master_seed,
            i as nat,
            x / (pow2((depth - i) as nat) as int),
            y / (pow2((depth - i) as nat) as int),
        ));
    }
}

/// Runs the whole pipeline: derive the per-layer seeds, generate the
/// stack, composite it. Succeeds exactly for `0 < depth <= MAX_DEPTH`; the
/// result is a pure function of `depth` and `master_seed`.
pub fn render(depth: usize, master_seed: u32) -> (r: Result<Image, PipelineError>)
    ensures
        r is Ok <==> 0 < depth <= MAX_DEPTH,
        depth == 0 ==> (r matches Err(e) && e == PipelineError::EmptyStack),
        depth > MAX_DEPTH ==> (r matches Err(e) && e == PipelineError::DepthOutOfRange),
        r matches Ok(img) ==> is_rendered_image(img, depth as nat, master_seed),
{
    let stack = match build_stack(depth, master_seed) {
        Ok(s) => s,
        Err(e) => {
            return Err(e);
        },
    };
    proof {
        lemma_generated_stack_valid(stack@, depth as nat, master_seed);
    }
    let img = match composite(&stack) {
        Ok(i) => i,
        Err(e) => {
            return Err(e);
        },
    };
    proof {
        assert forall|x: int, y: int|
            0 <= x < img.spec_width() && 0 <= y < img.spec_height() implies img.pixel(x, y)
            == final_pixel(master_seed, depth as nat, x, y) by {
            lemma_generated_sample_sum(stack@, depth as nat, master_seed, depth as int, x, y);
        }
    }
    Ok(img)
}

/// Idempotence: two runs with the same depth and master seed produce
/// byte-identical final images.
pub proof fn lemma_render_deterministic(img1: Image, img2: Image, depth: nat, master_seed: u32)
    requires
        is_rendered_image(img1, depth, master_seed),
        is_rendered_image(img2, depth, master_seed),
    ensures
        img1.spec_width() == img2.spec_width(),
        img1.spec_height() == img2.spec_height(),
        img1.spec_data() == img2.spec_data(),
{
    let w = img1.spec_width() as int;
    let h = img1.spec_height() as int;
    lemma_pow2_pos((depth - 1) as nat);
    assert forall|p: int| 0 <= p < img1.spec_data().len() implies img1.spec_data()[p]
        == img2.spec_data()[p] by {
        lemma_fundamental_div_mod(p, w);
        lemma_mod_bound(p, w);
        let yy = p / w;
        let xx = p % w;
        assert(p < w * h);
        lemma_multiply_divide_lt(p, w, h);
        assert(yy * w == w * yy) by (nonlinear_arith);
        assert(img1.pixel(xx, yy) == final_pixel(master_seed, depth, xx, yy));
        assert(img2.pixel(xx, yy) == final_pixel(master_seed, depth, xx, yy));
    }
    assert(img1.spec_data() =~= img2.spec_data());
}

} // verus!
