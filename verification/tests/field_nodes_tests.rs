use rlviser::field_nodes::node_material;
use rlviser::rocketsim::Team;

#[test]
fn blacklisted_materials_are_skipped_but_on_breakout_meshes() {
    assert!(node_material("Stadium.Field_STD", "Trees.Materials.TreeBark_Mat", false, Some(0)).is_none());
    assert!(node_material("ShatterShot.BreakOut_Floor", "Trees.Materials.TreeBark_Mat", false, Some(0)).is_some());
    assert!(node_material("Stadium.Field_STD", "Trees.Materials.Leaf_Mat", false, Some(0)).is_some());
}

#[test]
fn sides_follow_y_or_the_backboard_rotation() {
    let side = |mesh: &str, rot: bool, y: Option<i16>| node_material(mesh, "M", rot, y).unwrap().side;
    assert_eq!(side("Stadium.Field_STD", false, Some(120)), Some(Team::Orange));
    assert_eq!(side("Stadium.Field_STD", false, Some(-3)), Some(Team::Blue));
    assert_eq!(side("Stadium.Field_STD", false, Some(0)), None);
    assert_eq!(side("Stadium.Field_STD", false, None), None);
    assert_eq!(side("Hoops.BBall_HoopBackBoard_02", true, Some(500)), Some(Team::Blue));
    assert_eq!(side("Hoops.BBall_HoopBackBoard_02", false, Some(-500)), Some(Team::Orange));
}

#[test]
fn outside_floor_uses_the_plain_material_and_the_net_casts_no_shadow() {
    let m = node_material("Park_P.OOBFloor", "Park.Materials.Grass", false, None).unwrap();
    assert_eq!(m.material, b"OOBFloor_MAT_CUSTOM".to_vec());
    assert!(m.shadows);
    let n = node_material("Proto_BBall.SM.Net_Collision", "Net_Mat", false, None).unwrap();
    assert_eq!(n.material, b"Net_Mat".to_vec());
    assert!(!n.shadows);
}
