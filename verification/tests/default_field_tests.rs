use rlviser::bytes::F32Bits;
use rlviser::default_field::MeshBuilder;
use rlviser::rocketsim::Vec3;

fn v(a: u32) -> Vec3 {
    Vec3 { x: F32Bits(a), y: F32Bits(a + 1), z: F32Bits(a + 2) }
}

#[test]
fn from_bytes_reads_ids_and_vertices() {
    let mut ids = Vec::new();
    for id in [0u32, 1, 2] {
        ids.extend_from_slice(&id.to_le_bytes());
    }
    ids.push(9);
    let mut verts = Vec::new();
    for x in [1.0f32, 2.0, 3.0, 4.0] {
        verts.extend_from_slice(&x.to_le_bytes());
    }
    let mesh = MeshBuilder::from_bytes(&ids, &verts);
    assert_eq!(mesh.ids(), &vec![0, 1, 2]);
    assert_eq!(mesh.vertices().len(), 1);
    assert_eq!(f32::from_bits(mesh.vertices()[0].z.0), 3.0);
}

#[test]
fn combine_moves_ids_past_earlier_vertices() {
    let a = MeshBuilder::new(vec![0, 1, 2], vec![v(0), v(10), v(20)]);
    let b = MeshBuilder::new(vec![1, 0, 1], vec![v(30), v(40)]);
    let c = MeshBuilder::new(vec![0, 0, 0], vec![v(50)]);
    let m = MeshBuilder::combine([a, b, c]);
    assert_eq!(m.ids(), &vec![0, 1, 2, 4, 3, 4, 5, 5, 5]);
    assert_eq!(m.vertices(), &vec![v(0), v(10), v(20), v(30), v(40), v(50)]);
    assert_eq!(m.vertices()[m.ids()[3]], v(40));
    let empty = MeshBuilder::combine::<0>([]);
    assert!(empty.ids().is_empty() && empty.vertices().is_empty());
}
