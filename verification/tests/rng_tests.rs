use layercomp::rng::Xorshift32;

#[test]
fn same_seed_same_sequence() {
    let mut a = Xorshift32::new(0xdeadbeef);
    let mut b = Xorshift32::new(0xdeadbeef);
    for _ in 0..1000 {
        assert_eq!(a.next_u32(), b.next_u32());
    }
}

#[test]
fn known_sequence_from_seed_one() {
    let mut s = Xorshift32::new(1);
    assert_eq!(s.next_u32(), 270369);
    assert_eq!(s.next_u32(), 67634689);
    assert_eq!(s.next_u32(), 2647435461);
    assert_eq!(s.next_u32(), 307599695);
    assert_eq!(s.next_u32(), 2398689233);
}

#[test]
fn known_sequence_from_default_master_seed() {
    let mut s = Xorshift32::new(0xcafebabe);
    assert_eq!(s.next_u32(), 0xa887f92a);
    assert_eq!(s.next_u32(), 0xa3f0cd9b);
    assert_eq!(s.next_u32(), 0xf23de7fa);
}

#[test]
fn zero_seed_is_degenerate() {
    let mut s = Xorshift32::new(0);
    for _ in 0..1000 {
        assert_eq!(s.next_u32(), 0);
    }
}
