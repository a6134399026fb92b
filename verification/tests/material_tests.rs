use rlviser::bytes::F32Bits;
use rlviser::material::{props_settings, CAlphaMode, MeshMaterial};
use rlviser::options::{parse_settings, parse_usize};

fn masks(props: &[(Vec<u8>, Vec<u8>)]) -> Vec<Option<F32Bits>> {
    props
        .iter()
        .map(|(_, v)| std::str::from_utf8(v).ok().and_then(|t| t.parse::<f32>().ok()).map(|x| F32Bits(x.to_bits())))
        .collect()
}

#[test]
fn material_files_are_read() {
    let mat = parse_settings(b"Diffuse=Grass_D\nNormal=Grass_N\nOther[0]=Mask_A\nOther[0]=Mask_B\nSpecular=X\nbroken");
    let props = props_settings(b"TwoSided = true\nBlendMode = BLEND_Masked (1)\nOpacityMaskClipValue = 0.5\nOther = 1");
    let m = MeshMaterial::from_settings(&mat, &props, &masks(&props));
    assert_eq!(m.diffuse, Some(b"Grass_D".to_vec()));
    assert_eq!(m.normal, Some(b"Grass_N".to_vec()));
    assert_eq!(m.other, vec![b"Mask_A".to_vec(), b"Mask_B".to_vec()]);
    assert_eq!(m.alpha_mode, Some(CAlphaMode::Mask(F32Bits(0.5f32.to_bits()))));
    assert_eq!(m.mask_clip_value, F32Bits(0.5f32.to_bits()));
    assert!(m.double_sided);
}

#[test]
fn material_defaults() {
    let m = MeshMaterial::from_settings(&Vec::new(), &Vec::new(), &[]);
    assert_eq!(m.diffuse, None);
    assert_eq!(m.alpha_mode, None);
    assert_eq!(m.mask_clip_value, F32Bits(0.333f32.to_bits()));
    assert!(!m.double_sided);
    let props = props_settings(b"BlendMode = BLEND_Additive (3)\nOpacityMaskClipValue = oops\nBlendMode = BLEND_Masked (1)");
    let m = MeshMaterial::from_settings(&Vec::new(), &props, &masks(&props));
    assert_eq!(m.alpha_mode, Some(CAlphaMode::Mask(F32Bits(0.333f32.to_bits()))));
    let props = props_settings(b"BlendMode = BLEND_Weird (9)\nTwoSided = false");
    let m = MeshMaterial::from_settings(&Vec::new(), &props, &masks(&props));
    assert_eq!(m.alpha_mode, None);
    assert!(!m.double_sided);
}

#[test]
fn props_split_at_spaced_equals() {
    assert_eq!(
        props_settings(b"A = b = c\nNoSeparator=1\nK = \n"),
        vec![(b"A".to_vec(), b"b".to_vec()), (b"K".to_vec(), Vec::new())]
    );
}

#[test]
fn written_counts_read_back() {
    for n in [0usize, 7, 10, 99, 12345, usize::MAX] {
        assert_eq!(parse_usize(n.to_string().as_bytes()), Some(n));
    }
}
