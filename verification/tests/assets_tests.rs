use rlviser::assets::{get_default_material, is_double_sided, is_in_whitelist, is_mesh_loaded, material_blend, Blend, DefaultColor};
use rlviser::rocketsim::Team;

#[test]
fn meshes_chosen_by_name() {
    assert!(is_mesh_loaded("Stadium.Field_STD_01"));
    assert!(!is_mesh_loaded("Stadium.Field_STD_CollisionMeshes"));
    assert!(!is_mesh_loaded("Some.Side_Trim_01"));
    assert!(!is_mesh_loaded("Trees.Poplar"));
    assert!(is_mesh_loaded("Park.BoostPad_Small_01"));
}

#[test]
fn default_material_colors() {
    let m = get_default_material("Proto_BBall.Materials.MIC_DarkGlass", Some(Team::Orange)).unwrap();
    assert_eq!(m.color, DefaultColor::Rgb(222, 145, 81));
    assert!(m.double_sided);
    assert_eq!(m.blend, Blend::Opaque);
    assert_eq!(
        get_default_material("Proto_BBall.Materials.MIC_DarkGlass", None).unwrap().color,
        DefaultColor::Rgb(131, 144, 115)
    );
    assert_eq!(get_default_material("Stadium_Assets.Materials.Grass_Base_Team1_MIC", None).unwrap().color, DefaultColor::Rgb(45, 49, 66));
    assert_eq!(get_default_material("X.PaintedLine_MIC_1", None).unwrap().color, DefaultColor::Rgb(55, 30, 48));
    assert_eq!(get_default_material("FutureTech.Materials.CrossHatched_Grate_MIC", None).unwrap().color, DefaultColor::Tomato);
    assert_eq!(get_default_material("A.CrossHatched_B", None).unwrap().color, DefaultColor::Transparent);
    assert_eq!(get_default_material("Ads.Advert_1", None).unwrap().color, DefaultColor::Rgb(191, 192, 192));
    assert_eq!(get_default_material("Wall_Collision", None).unwrap().color, DefaultColor::HalfSilver);
    assert!(get_default_material("Unknown.Material", None).is_none());
}

#[test]
fn material_modes() {
    assert_eq!(material_blend("Trees.Materials.LombardyPoplar_B_Mat"), Blend::Blend);
    assert_eq!(material_blend("FX_General.Mat.FogSheet_Mat"), Blend::Add);
    assert_eq!(material_blend("Anything"), Blend::Opaque);
    assert!(is_double_sided("City.Materials.Concrete_MAT"));
    assert!(!is_double_sided("City.Materials.Concrete"));
    assert!(is_in_whitelist("FutureTech.Materials.ForceField_Mat"));
    assert!(!is_in_whitelist("FutureTech.Materials.ForceField"));
}

#[test]
fn default_materials_are_rough_and_dim() {
    let m = get_default_material("Wall_Collision", None).unwrap();
    assert_eq!(f32::from_bits(m.perceptual_roughness.0), 0.6);
    assert_eq!(f32::from_bits(m.reflectance.0), 0.2);
}
