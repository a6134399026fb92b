use rlviser::bytes::{ByteReader, F32Bits, ToBytes};
use rlviser::render::{Render, RenderMessage};
use rlviser::rocketsim::{Color, Vec2, Vec3};

fn v3(a: u32) -> Vec3 {
    Vec3 { x: F32Bits(a), y: F32Bits(a + 1), z: F32Bits(a + 2) }
}

fn color() -> Color {
    Color { r: F32Bits(1), g: F32Bits(2), b: F32Bits(3), a: F32Bits(4) }
}

fn sample_renders() -> Vec<Render> {
    vec![
        Render::Line2D { start: Vec2 { x: F32Bits(5), y: F32Bits(6) }, end: Vec2 { x: F32Bits(7), y: F32Bits(8) }, color: color() },
        Render::Line { start: v3(10), end: v3(20), color: color() },
        Render::LineStrip { positions: vec![v3(30), v3(40), v3(50)], color: color() },
    ]
}

#[test]
fn render_sizes() {
    let renders = sample_renders();
    assert_eq!(renders[0].count_bytes(), 33);
    assert_eq!(renders[1].count_bytes(), 41);
    assert_eq!(renders[2].count_bytes(), 19 + 3 * 12);
    assert_eq!(renders[2].to_bytes().len(), 55);
}

#[test]
fn render_message_round_trip() {
    let msg = RenderMessage::AddRender(-3, sample_renders());
    assert_eq!(msg.count_bytes(), 11 + 33 + 41 + 55);
    let bytes = msg.to_bytes();
    assert_eq!(bytes.len(), msg.count_bytes());
    assert_eq!(RenderMessage::get_num_bytes(&bytes), bytes.len());
    assert_eq!(bytes[4], 0);
    assert_eq!(&bytes[5..9], &(-3i32).to_le_bytes());
    assert_eq!(&bytes[9..11], &3u16.to_le_bytes());
    match RenderMessage::try_from_bytes(&bytes) {
        Some(RenderMessage::AddRender(id, renders)) => {
            assert_eq!(id, -3);
            assert_eq!(renders.len(), 3);
            match &renders[2] {
                Render::LineStrip { positions, color: c } => {
                    assert_eq!(positions, &vec![v3(30), v3(40), v3(50)]);
                    assert_eq!(*c, color());
                }
                _ => panic!("wrong render kind"),
            }
            match &renders[0] {
                Render::Line2D { start, .. } => assert_eq!(start.x, F32Bits(5)),
                _ => panic!("wrong render kind"),
            }
        }
        _ => panic!("message did not decode"),
    }
}

#[test]
fn render_from_reader_reads_one_render() {
    let bytes = sample_renders()[1].to_bytes();
    assert_eq!(bytes[0], 1);
    let mut reader = ByteReader::new(&bytes);
    match Render::try_from_reader(&mut reader) {
        Some(Render::Line { start, end, color: c }) => {
            assert_eq!(start, v3(10));
            assert_eq!(end, v3(20));
            assert_eq!(c, color());
        }
        _ => panic!("line did not decode"),
    }
    assert_eq!(reader.remaining(), 0);
    let bad = [9u8; 5];
    assert!(Render::try_from_reader(&mut ByteReader::new(&bad)).is_none());
    assert!(Render::try_from_reader(&mut ByteReader::new(&bytes[..40])).is_none());
}

#[test]
fn remove_render_decodes_from_nine_bytes() {
    let mut bytes = 9u32.to_le_bytes().to_vec();
    bytes.push(1);
    bytes.extend_from_slice(&42i32.to_le_bytes());
    match RenderMessage::try_from_bytes(&bytes) {
        Some(RenderMessage::RemoveRender(id)) => assert_eq!(id, 42),
        _ => panic!("removal did not decode"),
    }
    assert_eq!(RenderMessage::RemoveRender(42).count_bytes(), 9);
    assert!(RenderMessage::try_from_bytes(&bytes[..8]).is_none());
}

#[test]
fn remove_render_round_trip_and_prefix() {
    let bytes = RenderMessage::RemoveRender(-7).to_bytes();
    assert_eq!(bytes.len(), 9);
    assert_eq!(RenderMessage::get_num_bytes(&bytes), bytes.len());
    assert_eq!(bytes[4], 1);
    match RenderMessage::try_from_bytes(&bytes) {
        Some(RenderMessage::RemoveRender(id)) => assert_eq!(id, -7),
        _ => panic!("removal did not decode"),
    }
    let added = RenderMessage::AddRender(3, sample_renders()).to_bytes();
    assert_eq!(RenderMessage::get_num_bytes(&added), added.len());
    assert_eq!(added[4], 0);
}

#[test]
fn render_message_rejects_bad_input() {
    let mut bytes = RenderMessage::AddRender(1, sample_renders()).to_bytes();
    let mut tagged = bytes.clone();
    tagged[4] = 2;
    assert!(RenderMessage::try_from_bytes(&tagged).is_none());
    assert!(RenderMessage::try_from_bytes(&[0, 0, 0]).is_none());
}

#[test]
fn decoders_that_need_a_message_read_one_and_ignore_what_follows() {
    let mut bytes = RenderMessage::AddRender(1, sample_renders()).to_bytes();
    let exact = bytes.clone();
    bytes.push(0);
    match RenderMessage::from_bytes(&bytes) {
        RenderMessage::AddRender(id, renders) => {
            assert_eq!(id, 1);
            assert_eq!(RenderMessage::AddRender(id, renders).to_bytes(), exact);
        }
        _ => panic!("wrong message kind"),
    }
    let mut removal = RenderMessage::RemoveRender(5).to_bytes();
    removal.push(9);
    assert!(matches!(RenderMessage::try_from_bytes(&removal), Some(RenderMessage::RemoveRender(5))));
    let line = sample_renders()[0].to_bytes();
    let mut reader = ByteReader::new(&line);
    match Render::from_reader(&mut reader) {
        Render::Line2D { .. } => {}
        _ => panic!("wrong render kind"),
    }
    assert_eq!(reader.remaining(), 0);
}
