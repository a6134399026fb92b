use rlviser::morton::Morton;

#[test]
fn expand3_spreads_bits() {
    assert_eq!(Morton::expand3(0), 0);
    assert_eq!(Morton::expand3(1), 1);
    assert_eq!(Morton::expand3(0b11), 0b1001);
    assert_eq!(Morton::expand3(0b101), 0b1_000_000 | 1);
    assert_eq!(Morton::expand3(0x1f_ffff), 0x1249_2492_4924_9249);
    assert_eq!(Morton::expand3(0xffe0_0000), 0);
    assert_eq!(Morton::expand3(0xffff_ffff), 0x1249_2492_4924_9249);
}

#[test]
fn interleave_takes_turns() {
    assert_eq!(Morton::interleave(1, 0, 0), 1);
    assert_eq!(Morton::interleave(0, 1, 0), 2);
    assert_eq!(Morton::interleave(0, 0, 1), 4);
    assert_eq!(Morton::interleave(3, 3, 3), 0b111_111);
    assert_eq!(Morton::interleave(0x1f_ffff, 0x1f_ffff, 0x1f_ffff), 0x7fff_ffff_ffff_ffff);
    assert_ne!(Morton::interleave(1, 2, 3), Morton::interleave(3, 2, 1));
    assert_eq!(Morton::interleave(0x20_0001, 0, 0), Morton::interleave(1, 0, 0));
}
