use rlviser::bytes::F32Bits;
use rlviser::mesh::{read_faces, read_materials, read_vertex_colors, MeshBuilder, MeshBuilderError, Uv, VertexColor, Wedge};

fn header() -> Vec<u8> {
    let mut b = b"ACTRHEAD".to_vec();
    b.extend_from_slice(&[0u8; 24]);
    b
}

fn chunk(id: &[u8; 8], size: i32, count: i32, data: &[u8]) -> Vec<u8> {
    let mut b = id.to_vec();
    b.extend_from_slice(&[0u8; 16]);
    b.extend_from_slice(&size.to_le_bytes());
    b.extend_from_slice(&count.to_le_bytes());
    b.extend_from_slice(data);
    b
}

fn f(x: f32) -> [u8; 4] {
    x.to_le_bytes()
}

fn points() -> Vec<u8> {
    let mut d = Vec::new();
    for p in [[1.0f32, 2.0, 3.0], [4.0, 5.0, 6.0], [7.0, 8.0, 9.0]] {
        for c in p {
            d.extend_from_slice(&f(c));
        }
    }
    d
}

fn wedges(ids: [u32; 3]) -> Vec<u8> {
    let mut d = Vec::new();
    for (k, id) in ids.iter().enumerate() {
        d.extend_from_slice(&id.to_le_bytes());
        d.extend_from_slice(&f(k as f32 * 0.5));
        d.extend_from_slice(&f(1.0));
        d.push(k as u8 % 2);
        d.extend_from_slice(&[0, 0, 0]);
    }
    d
}

fn face() -> Vec<u8> {
    let mut d = Vec::new();
    for w in [0u16, 1, 2] {
        d.extend_from_slice(&w.to_le_bytes());
    }
    d.extend_from_slice(&[0, 0, 0, 0, 0, 0]);
    d
}

fn sample_file() -> Vec<u8> {
    let mut b = header();
    b.extend(chunk(b"PNTS0000", 12, 3, &points()));
    b.extend(chunk(b"VTXW0000", 16, 3, &wedges([2, 0, 1])));
    b.extend(chunk(b"FACE0000", 12, 1, &face()));
    b.extend(chunk(b"MATT0000", 88, 2, &[0u8; 176]));
    b.extend(chunk(b"SKIPPED0", 4, 0, &[]));
    b
}

#[test]
fn pskx_mesh_is_read() {
    let bytes = sample_file();
    assert!(!MeshBuilder::pskx_is_malformed("Some_Mesh", &bytes));
    let mesh = MeshBuilder::from_pskx("Some_Mesh", &bytes).unwrap();
    let verts: Vec<f32> = mesh.verts().iter().map(|b| f32::from_bits(b.0)).collect();
    assert_eq!(verts, vec![1.0, 3.0, -2.0, 4.0, 6.0, -5.0, 7.0, 9.0, -8.0]);
    assert_eq!(mesh.ids(), &vec![0, 2, 1]);
    assert_eq!(mesh.num_materials(), 2);
    assert_eq!(mesh.mat_ids(), &vec![1, 0, 0]);
    assert_eq!(mesh.uvs()[2], Uv { u: F32Bits(0.0f32.to_bits()), v: F32Bits(1.0f32.to_bits()) });
    assert_eq!(mesh.uvs()[0], Uv { u: F32Bits(0.5f32.to_bits()), v: F32Bits(1.0f32.to_bits()) });
    assert!(mesh.colors().is_empty());
    assert_eq!(mesh.material_ids(1), vec![0, 2, 1]);
    assert_eq!(mesh.material_ids(5), Vec::<u32>::new());
}

#[test]
fn pskx_errors() {
    assert!(matches!(MeshBuilder::from_pskx("m", &[0u8; 31]), Err(MeshBuilderError::FileHeader)));
    let mut short = header();
    short.extend(chunk(b"PNTS0000", 12, 3, &points()[..20]));
    assert!(matches!(MeshBuilder::from_pskx("m", &short), Err(MeshBuilderError::FileHeader)));
    let mut bad_id = header();
    bad_id.extend(chunk(&[0xff, 0xfe, 0, 0, 0, 0, 0, 0], 4, 1, &[0; 4]));
    assert!(matches!(MeshBuilder::from_pskx("m", &bad_id), Err(MeshBuilderError::ChunkId)));
    let mut only_header = header();
    only_header.extend_from_slice(&[1, 2, 3]);
    assert!(MeshBuilder::from_pskx("m", &only_header).unwrap().ids().is_empty());
}

#[test]
fn pskx_malformed_files() {
    let mut bad_header = sample_file();
    bad_header[0] = b'X';
    assert!(MeshBuilder::pskx_is_malformed("m", &bad_header));
    let mut bad_wedge = header();
    bad_wedge.extend(chunk(b"PNTS0000", 12, 3, &points()));
    bad_wedge.extend(chunk(b"VTXW0000", 16, 3, &wedges([2, 0, 3])));
    assert!(MeshBuilder::pskx_is_malformed("m", &bad_wedge));
    let mut short_records = header();
    short_records.extend(chunk(b"PNTS0000", 8, 3, &[0u8; 24]));
    assert!(MeshBuilder::pskx_is_malformed("m", &short_records));
    let mut negative = header();
    negative.extend(chunk(b"PNTS0000", -1, 2, &[]));
    assert!(MeshBuilder::pskx_is_malformed("m", &negative));
}

#[test]
fn pskx_vertex_colors_only_for_chosen_meshes() {
    let mut b = sample_file();
    b.extend(chunk(b"VERTEXCO", 4, 3, &[1, 2, 3, 4, 5, 6, 7, 8, 9, 10, 11, 12]));
    let plain = MeshBuilder::from_pskx("Other", &b).unwrap();
    assert!(plain.colors().is_empty());
    let trim = MeshBuilder::from_pskx("Field.Goal_STD_Trim.x", &b).unwrap();
    assert_eq!(trim.colors()[1], VertexColor { r: 5, g: 6, b: 7, a: 8 });
}

#[test]
fn pskx_extra_uvs_are_handed_out_per_material() {
    let mut b = sample_file();
    let mut set0 = Vec::new();
    for x in [10.0f32, 11.0, 12.0, 13.0] {
        set0.extend_from_slice(&f(x));
    }
    b.extend(chunk(b"EXTRAUVS", 8, 2, &set0));
    let mesh = MeshBuilder::from_pskx("m", &b).unwrap();
    assert_eq!(mesh.uvs()[1], Uv { u: F32Bits(10.0f32.to_bits()), v: F32Bits(11.0f32.to_bits()) });
    assert_eq!(mesh.uvs()[2], Uv { u: F32Bits(12.0f32.to_bits()), v: F32Bits(13.0f32.to_bits()) });
    assert_eq!(mesh.uvs()[0], Uv { u: F32Bits(0.5f32.to_bits()), v: F32Bits(1.0f32.to_bits()) });
}

#[test]
fn chunk_readers() {
    let mut ids = Vec::new();
    let w = [Wedge { vertex_id: 7 }, Wedge { vertex_id: 8 }, Wedge { vertex_id: 9 }];
    read_faces(&face(), 1, &w, &mut ids);
    assert_eq!(ids, vec![8, 7, 9]);
    assert_eq!(read_vertex_colors(&[1, 2, 3, 4], 1), vec![VertexColor { r: 1, g: 2, b: 3, a: 4 }]);
    let mut mat = vec![0u8; 88];
    mat[..4].copy_from_slice(b"Gold");
    let names = read_materials(&mat, 1);
    assert_eq!(names, vec!["Gold".to_string()]);
}

#[test]
fn header_is_twenty_bytes() {
    let mut h = header();
    h[17] = 1;
    assert!(MeshBuilder::pskx_is_malformed("m", &h));
    let mut h = header();
    h[20] = 1;
    assert!(!MeshBuilder::pskx_is_malformed("m", &h));
    assert!(MeshBuilder::from_pskx("m", &h).is_ok());
}
