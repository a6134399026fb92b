use rlviser::bytes::F32Bits;
use rlviser::render::{Render, RenderMessage};
use rlviser::renderer::RenderGroups;
use rlviser::rocketsim::{Color, Vec3};

fn strip(n: u32) -> Vec<Render> {
    let c = Color { r: F32Bits(0), g: F32Bits(0), b: F32Bits(0), a: F32Bits(0) };
    vec![Render::LineStrip { positions: vec![Vec3 { x: F32Bits(n), y: F32Bits(n), z: F32Bits(n) }], color: c }]
}

fn strip_point(r: &[Render]) -> u32 {
    match &r[0] {
        Render::LineStrip { positions, .. } => positions[0].x.0,
        _ => panic!("not a strip"),
    }
}

#[test]
fn added_group_is_found_and_removed_group_is_gone() {
    let mut groups = RenderGroups::new();
    assert!(groups.group(1).is_none());
    groups.apply(RenderMessage::AddRender(1, strip(5)));
    groups.apply(RenderMessage::AddRender(2, strip(6)));
    assert_eq!(strip_point(groups.group(1).unwrap()), 5);
    assert_eq!(strip_point(groups.group(2).unwrap()), 6);
    groups.apply(RenderMessage::AddRender(1, strip(9)));
    assert_eq!(strip_point(groups.group(1).unwrap()), 9);
    groups.apply(RenderMessage::RemoveRender(1));
    assert!(groups.group(1).is_none());
    assert_eq!(strip_point(groups.group(2).unwrap()), 6);
    groups.apply(RenderMessage::RemoveRender(3));
    assert!(groups.group(3).is_none());
    groups.clear();
    assert!(groups.group(2).is_none());
}
