use rlviser::bytes::FromBytes;
use rlviser::bytes::F32Bits;
use rlviser::cars::{car_count_changes, car_material_names, car_props_path, CarBody};
use rlviser::options::split_lines;
use rlviser::rocketsim::CarInfo;

fn car(id: u32) -> CarInfo {
    let mut c = CarInfo::from_bytes(&[0u8; 325]).unwrap();
    c.id = id;
    c
}

#[test]
fn cars_taken_away_and_added() {
    let (removed, added) = car_count_changes(&[3, 8, 5], &[car(8), car(9)]);
    assert_eq!(removed, vec![3, 5]);
    assert_eq!(added.iter().map(|c| c.id).collect::<Vec<_>>(), vec![9]);

    let (removed, added) = car_count_changes(&[], &[car(1), car(2)]);
    assert!(removed.is_empty());
    assert_eq!(added.len(), 2);

    let (removed, added) = car_count_changes(&[1, 2], &[car(2), car(1)]);
    assert!(removed.is_empty());
    assert!(added.is_empty());
}

#[test]
fn props_path_of_a_car_mesh() {
    let p = car_props_path("Body_Octane.SkeletalMesh3.Body_Octane_SK");
    assert_eq!(String::from_utf8(p).unwrap(), "./assets/Body_Octane/SkeletalMesh3/Body_Octane_SK.props.txt");
}

#[test]
fn material_names_of_a_car_mesh() {
    let props = "Name = x\r\nMaterials[2] =\n{\n\tMaterials[0] = MaterialInstanceConstant'Body_Octane.Materials.Body_Mat'\n\tMaterials[1] = MaterialInstanceConstant'Body_Octane.Materials.Chassis_Mat'\n}\nOther = MaterialInstanceConstant'Not.This'\n";
    let names = car_material_names(props.as_bytes()).unwrap();
    let names: Vec<String> = names.into_iter().map(|n| String::from_utf8(n).unwrap()).collect();
    assert_eq!(names, vec!["Body_Octane.Materials.Body_Mat", "Body_Octane.Materials.Chassis_Mat"]);
}

#[test]
fn material_names_edge_cases() {
    assert_eq!(car_material_names(b"A = 1\nB = 2\n"), Some(vec![]));
    assert_eq!(car_material_names(b"Materials[1] =\n{\n\tno quote here\n}\n"), None);
    assert_eq!(car_material_names(b"Materials[1] =\n{\n\tM'Only.Open\n"), Some(vec![b"Only.Open".to_vec()]));
}

#[test]
fn lines_split_like_str_lines() {
    for text in ["a\nb\r\nc", "a\n\nb\n", "", "\n", "x\r", "one"] {
        let ours: Vec<String> = split_lines(text.as_bytes()).into_iter().map(|l| String::from_utf8(l).unwrap()).collect();
        let theirs: Vec<String> = text.lines().map(|l| l.to_string()).collect();
        assert_eq!(ours, theirs, "{text:?}");
    }
}

#[test]
fn bodies_by_hitbox_length() {
    let body = |x: f32| {
        let mut c = car(1);
        c.config.hitbox_size.x = F32Bits(x.to_bits());
        CarBody::of_config(&c.config)
    };
    assert_eq!(body(120.507), CarBody::Octane);
    assert_eq!(body(130.427), CarBody::Dominus);
    assert_eq!(body(131.32), CarBody::Plank);
    assert_eq!(body(133.992), CarBody::Breakout);
    assert_eq!(body(129.519), CarBody::Hybrid);
    assert_eq!(body(123.22), CarBody::Merc);
    assert_eq!(body(121.0), CarBody::Octane);
    assert_eq!(body(131.0), CarBody::Plank);
    assert_eq!(body(-130.5), CarBody::Octane);
    assert_eq!(body(f32::NAN), CarBody::Octane);
    assert_eq!(body(500.0), CarBody::Octane);
    assert_eq!(CarBody::Merc.mesh_id(), "Body_Vanquish.SkeletalMesh3.Body_Merc_PremiumSkin_SK");
    assert_eq!(CarBody::Octane.mesh_id(), "Body_Octane.SkeletalMesh3.Body_Octane_SK");
}

#[test]
fn body_ranges_agree_with_float_comparison() {
    let ranges: [(f32, f32, CarBody); 6] = [
        (120., 121., CarBody::Octane),
        (130., 131., CarBody::Dominus),
        (131., 132., CarBody::Plank),
        (133., 134., CarBody::Breakout),
        (129., 130., CarBody::Hybrid),
        (123., 124., CarBody::Merc),
    ];
    let mut x = 100.0f32;
    while x < 140.0 {
        let expected = ranges.iter().find(|(lo, hi, _)| (*lo..*hi).contains(&x)).map_or(CarBody::Octane, |r| r.2);
        let mut c = car(1);
        c.config.hitbox_size.x = F32Bits(x.to_bits());
        assert_eq!(CarBody::of_config(&c.config), expected, "{x}");
        x += 0.125;
    }
}
