use rlviser::bytes::{ByteReader, ByteWriter, F32Bits, FromBytes, ToBytesExact};
use rlviser::rocketsim::{Color, GameMode, Team, TileState, Vec2, Vec3};

#[test]
fn reader_reads_little_endian_values_in_order() {
    let bytes = [0x34u8, 0x12, 0x78, 0x56, 0x34, 0x12, 0xff];
    let mut reader = ByteReader::new(&bytes);
    assert_eq!(reader.peek::<u16>(), Some(0x1234));
    assert_eq!(reader.read::<u16>(), 0x1234);
    assert_eq!(reader.remaining(), 5);
    assert_eq!(reader.read::<u32>(), 0x1234_5678);
    assert_eq!(reader.read::<u8>(), 0xff);
    assert_eq!(reader.remaining(), 0);
    let tags = [9u8];
    assert_eq!(ByteReader::new(&tags).peek::<Team>(), None);
}

#[test]
fn writer_writes_little_endian_values_in_order() {
    let mut writer = ByteWriter::<7>::new();
    writer.write(&0x1234u16);
    writer.write(&0x1234_5678u32);
    writer.write(&true);
    assert_eq!(writer.inner(), [0x34, 0x12, 0x78, 0x56, 0x34, 0x12, 1]);
}

#[test]
fn primitive_round_trips() {
    assert_eq!(u64::from_bytes(&0x0102_0304_0506_0708u64.to_bytes()), Some(0x0102_0304_0506_0708));
    assert_eq!(i32::from_bytes(&(-5i32).to_bytes()), Some(-5));
    assert_eq!((-5i32).to_bytes(), [0xfb, 0xff, 0xff, 0xff]);
    assert_eq!(bool::from_bytes(&[2]), Some(true));
    assert_eq!(bool::from_bytes(&[0]), Some(false));
    assert_eq!(u32::from_bytes(&[1, 2, 3]), None);
}

#[test]
fn float_bits_travel_unchanged() {
    let x = F32Bits(1.5f32.to_bits());
    assert_eq!(x.to_bytes(), 1.5f32.to_le_bytes());
    assert_eq!(F32Bits::from_bytes(&(-2.25f32).to_le_bytes()), Some(F32Bits((-2.25f32).to_bits())));
}

#[test]
fn vectors_and_colors_round_trip() {
    let v = Vec3 { x: F32Bits(1), y: F32Bits(2), z: F32Bits(3) };
    let b = v.to_bytes();
    assert_eq!(b, [1, 0, 0, 0, 2, 0, 0, 0, 3, 0, 0, 0]);
    assert_eq!(Vec3::from_bytes(&b), Some(v));
    let w = Vec2 { x: F32Bits(7), y: F32Bits(9) };
    assert_eq!(Vec2::from_bytes(&w.to_bytes()), Some(w));
    let c = Color { r: F32Bits(1), g: F32Bits(2), b: F32Bits(3), a: F32Bits(4) };
    assert_eq!(Color::from_bytes(&c.to_bytes()), Some(c));
}

#[test]
fn enum_tags() {
    assert_eq!(GameMode::try_from(4), Ok(GameMode::Dropshot));
    assert_eq!(GameMode::try_from(6), Err(()));
    assert_eq!(GameMode::TheVoid.tag(), 5);
    assert_eq!(Team::try_from(1), Ok(Team::Orange));
    assert_eq!(Team::try_from(2), Err(()));
    assert_eq!(TileState::try_from(2), Ok(TileState::Broken));
    assert_eq!(TileState::try_from(3), Err(()));
    assert_eq!(GameMode::from_bytes(&[9]), None);
    assert_eq!(GameMode::from_bytes(&[1]), Some(GameMode::Hoops));
}
