use layercomp::composite::composite;
use layercomp::error::PipelineError;
use layercomp::pipeline::render;
use layercomp::rng::Xorshift32;
use layercomp::stack::build_stack;

#[test]
fn depth_one_default_seed_scenario() {
    // One layer of size 4x3 is generated and composited directly: every
    // final pixel samples layer coordinates (x / 2, y / 2), and the average
    // over one layer is the sample itself.
    let stack = build_stack(1, 0xcafebabe).unwrap();
    assert_eq!(stack.len(), 1);
    let layer = &stack[0];
    assert_eq!((layer.width(), layer.height()), (4, 3));
    let expected_layer: [u8; 12] = [124, 253, 184, 104, 127, 116, 236, 246, 162, 57, 254, 165];
    for y in 0..3u32 {
        for x in 0..4u32 {
            assert_eq!(layer.get(x, y), expected_layer[(y * 4 + x) as usize]);
        }
    }
    let img = render(1, 0xcafebabe).unwrap();
    assert_eq!((img.width(), img.height()), (4, 3));
    for y in 0..3u32 {
        for x in 0..4u32 {
            assert_eq!(img.get(x, y), layer.get(x / 2, y / 2));
        }
    }
    let expected_img: [u8; 12] = [124, 124, 253, 253, 124, 124, 253, 253, 127, 127, 116, 116];
    assert_eq!(img.bytes().as_slice(), expected_img.as_slice());
}

#[test]
fn depth_three_scenario() {
    // Three layers of sizes 4x3, 8x6 and 16x12; the final image is 16x12,
    // and pixel (15, 11) averages layer 0 at (1, 1), layer 1 at (3, 2) and
    // layer 2 at (7, 5).
    let stack = build_stack(3, 0xcafebabe).unwrap();
    assert_eq!(stack.len(), 3);
    assert_eq!((stack[0].width(), stack[0].height()), (4, 3));
    assert_eq!((stack[1].width(), stack[1].height()), (8, 6));
    assert_eq!((stack[2].width(), stack[2].height()), (16, 12));
    let img = composite(&stack).unwrap();
    assert_eq!((img.width(), img.height()), (16, 12));
    let s0 = stack[0].get(1, 1) as u32;
    let s1 = stack[1].get(3, 2) as u32;
    let s2 = stack[2].get(7, 5) as u32;
    assert_eq!((s0, s1, s2), (116, 18, 16));
    assert_eq!(img.get(15, 11) as u32, (s0 + s1 + s2) / 3);
    assert_eq!(img.get(15, 11), 50);
    assert_eq!(img.get(0, 0), 82);
}

#[test]
fn per_layer_seeds_come_from_the_master_stream() {
    let stack = build_stack(3, 0xcafebabe).unwrap();
    let mut master = Xorshift32::new(0xcafebabe);
    for layer in &stack {
        let seed = master.next_u32().wrapping_add(3);
        let mut sub = Xorshift32::new(seed);
        for y in 0..layer.height() {
            for x in 0..layer.width() {
                assert_eq!(layer.get(x, y), (sub.next_u32() % 256) as u8);
            }
        }
    }
}

#[test]
fn rendering_twice_is_byte_identical() {
    let a = render(4, 0x1234abcd).unwrap();
    let b = render(4, 0x1234abcd).unwrap();
    assert_eq!(a.width(), b.width());
    assert_eq!(a.height(), b.height());
    assert_eq!(a.bytes(), b.bytes());
}

#[test]
fn depth_zero_is_an_explicit_error() {
    assert_eq!(render(0, 0xcafebabe).unwrap_err(), PipelineError::EmptyStack);
}

#[test]
fn depth_beyond_the_limit_is_an_explicit_error() {
    assert_eq!(render(31, 0xcafebabe).unwrap_err(), PipelineError::DepthOutOfRange);
    assert_eq!(build_stack(31, 1).unwrap_err(), PipelineError::DepthOutOfRange);
}

#[test]
fn zero_master_seed_gives_every_layer_the_same_seed() {
    // Seed 0 keeps the master stream at 0, so every layer seed is 0 + 3;
    // the run is still fully defined.
    let img = render(2, 0).unwrap();
    let mut sub = Xorshift32::new(3);
    let first_draw = (sub.next_u32() % 256) as u8;
    // Pixel (0, 0) samples (0, 0) in both layers, both seeded with 3, so
    // the average of the two identical samples is the sample itself.
    assert_eq!(img.get(0, 0), first_draw);
}
