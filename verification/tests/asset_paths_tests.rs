use rlviser::asset_paths::{count_byte, last_index_of, material_paths, mesh_paths, replace_all};

fn text(v: &[u8]) -> String {
    String::from_utf8(v.to_vec()).unwrap()
}

#[test]
fn replace_all_matches_str_replace() {
    let cases = [
        ("a.Meshes.b.Meshes", ".Meshes", ".StaticMesh3"),
        ("aaaa", "aa", "b"),
        ("Stadium.Modular.Floor", ".Modular", ""),
        ("no match here", "xyz", "q"),
        ("a.b.c", ".", "/"),
        ("", ".", "/"),
    ];
    for (s, from, to) in cases {
        let r = replace_all(s.as_bytes(), from.as_bytes(), to.as_bytes());
        assert_eq!(text(&r), s.replace(from, to));
    }
}

#[test]
fn counts_and_last_places() {
    assert_eq!(count_byte(b"a/b/c", b'/'), 2);
    assert_eq!(count_byte(b"abc", b'/'), 0);
    assert_eq!(last_index_of(b"a/b/c", b'/'), Some(3));
    assert_eq!(last_index_of(b"abc", b'/'), None);
}

#[test]
fn mesh_paths_of_three_part_names() {
    let (cache, asset) = mesh_paths("Park_Assets.Meshes.Field_STD_SM").unwrap();
    assert_eq!(text(&cache), "./cache/mesh/Field_STD_SM.bin");
    assert_eq!(text(&asset), "./assets/Park_Assets/StaticMesh3/Field_STD_SM.pskx");

    let (cache, asset) = mesh_paths("Stadium.Modular.Meshes.Floor_Tile").unwrap();
    assert_eq!(text(&cache), "./cache/mesh/Floor_Tile.bin");
    assert_eq!(text(&asset), "./assets/Stadium/StaticMesh3/Floor_Tile.pskx");
}

#[test]
fn mesh_paths_of_two_part_names_get_a_folder() {
    let (cache, asset) = mesh_paths("FieldPack.Field_STD_Mid").unwrap();
    assert_eq!(text(&cache), "./cache/mesh/Field_STD_Mid.bin");
    assert_eq!(text(&asset), "./assets/FieldPack/StaticMesh3/Field_STD_Mid.pskx");
}

#[test]
fn skeletal_meshes_are_psk() {
    let (cache, asset) = mesh_paths("Body_Octane.SkeletalMesh3.Body_Octane_SK").unwrap();
    assert_eq!(text(&cache), "./cache/mesh/Body_Octane_SK.bin");
    assert_eq!(text(&asset), "./assets/Body_Octane/SkeletalMesh3/Body_Octane_SK.psk");
}

#[test]
fn meshes_not_loaded_have_no_paths() {
    assert!(mesh_paths("Fog.Field_STD").is_none());
    assert!(mesh_paths("Random.Thing").is_none());
}

#[test]
fn material_paths_by_kind() {
    let (cache, path) = material_paths("FutureTech.Materials.ForceField_Mat").unwrap();
    assert_eq!(text(&cache), "./cache/material/ForceField_Mat.bin");
    assert_eq!(text(&path), "FutureTech/Material3/ForceField_Mat");

    let (cache, path) = material_paths("FutureTech.Materials.ForceField_HexGage_MIC").unwrap();
    assert_eq!(text(&cache), "./cache/material/ForceField_HexGage_MIC.bin");
    assert_eq!(text(&path), "FutureTech/MaterialInstanceConstant/ForceField_HexGage_MIC");

    assert!(material_paths("").is_none());
    assert!(material_paths("Other.Materials.Thing").is_none());
}
