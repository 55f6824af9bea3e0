use layercomp::error::PipelineError;
use layercomp::layer::{Layer, generate_layer};
use layercomp::rng::Xorshift32;

#[test]
fn layer_dimensions_follow_depth() {
    for d in 0..6u32 {
        let l = generate_layer(d, 1).unwrap();
        assert_eq!(l.width(), 4 * 2u32.pow(d));
        assert_eq!(l.height(), 3 * 2u32.pow(d));
    }
}

#[test]
fn layer_pixels_are_the_draws_mod_256() {
    let l = generate_layer(1, 0x12345678).unwrap();
    let mut s = Xorshift32::new(0x12345678);
    let (w, h) = (l.width(), l.height());
    assert_eq!((w, h), (8, 6));
    for y in 0..h {
        for x in 0..w {
            let expected = (s.next_u32() % 256) as u8;
            assert_eq!(l.get(x, y), expected);
        }
    }
}

#[test]
fn known_smallest_layer() {
    let l = generate_layer(0, 42).unwrap();
    assert_eq!((l.width(), l.height()), (4, 3));
    let expected: [u8; 12] = [40, 172, 3, 192, 196, 182, 216, 174, 147, 55, 218, 51];
    for y in 0..3u32 {
        for x in 0..4u32 {
            assert_eq!(l.get(x, y), expected[(y * 4 + x) as usize]);
        }
    }
}

#[test]
fn depth_beyond_range_is_refused() {
    assert_eq!(generate_layer(30, 1).unwrap_err(), PipelineError::DepthOutOfRange);
    assert_eq!(generate_layer(u32::MAX, 1).unwrap_err(), PipelineError::DepthOutOfRange);
}

#[test]
fn from_parts_checks_the_grid_size() {
    let l = Layer::from_parts(4, 3, vec![9u8; 12]);
    assert!(l.is_some());
    let l = l.unwrap();
    assert_eq!((l.width(), l.height()), (4, 3));
    assert_eq!(l.get(2, 1), 9);
    assert!(Layer::from_parts(4, 3, vec![9u8; 11]).is_none());
    assert!(Layer::from_parts(4, 3, vec![9u8; 13]).is_none());
}
