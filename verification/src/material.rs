//! The description of a material read from its two text files: the `.mat` file names its
//! textures (`Diffuse=`, `Normal=`, `Other[0]=`), the `.props.txt` file gives its properties
//! (`TwoSided = `, `BlendMode = `, `OpacityMaskClipValue = `). Lines are split as the settings
//! file's are; the clip values, which are floats, arrive parsed.
use crate::bytes::F32Bits;
use crate::mesh::bytes_equal;
use crate::options::{parse_settings_with, text_settings};
use vstd::prelude::*;
use vstd::string::StringSliceAdditionalSpecFns;

verus! {

/// How a material is laid over what is behind it.
#[derive(Clone, Copy, Debug, PartialEq, Eq, Structural)]
pub enum CAlphaMode {
    Opaque,
    /// Drawn where its opacity is above the clip value.
    Mask(F32Bits),
    Blend,
    Premultiplied,
    AlphaToCoverage,
    Add,
    Multiply,
}

/// A material: its textures, how it is blended, its clip value and whether it is drawn from
/// both sides.
pub struct MeshMaterial {
    pub diffuse: Option<Vec<u8>>,
    pub normal: Option<Vec<u8>>,
    pub other: Vec<Vec<u8>>,
    pub alpha_mode: Option<CAlphaMode>,
    pub mask_clip_value: F32Bits,
    pub double_sided: bool,
}

/// The textures that the settings of a `.mat` file name: the last `Diffuse` and `Normal`, and
/// every `Other[0]` in order.
pub open spec fn textures_of(settings: Seq<(Seq<u8>, Seq<u8>)>) -> (Option<Seq<u8>>, Option<Seq<u8>>, Seq<Seq<u8>>)
    decreases settings.len(),
{
    if settings.len() == 0 {
        (None, None, Seq::empty())
    } else {
        let (d, n, o) = textures_of(settings.drop_last());
        let (key, value) = settings.last();
        if key == "Diffuse".spec_bytes() {
            (Some(value), n, o)
        } else if key == "Normal".spec_bytes() {
            (d, Some(value), o)
        } else if key == "Other[0]".spec_bytes() {
            (d, n, o.push(value))
        } else {
            (d, n, o)
        }
    }
}

/// The blending that a `BlendMode` value names, masking at `clip`.
pub open spec fn blend_mode_of(value: Seq<u8>, clip: F32Bits) -> Option<CAlphaMode> {
    if value == "BLEND_Opaque (0)".spec_bytes() {
        Some(CAlphaMode::Opaque)
    } else if value == "BLEND_Masked (1)".spec_bytes() {
        Some(CAlphaMode::Mask(clip))
    } else if value == "BLEND_Translucent (2)".spec_bytes() {
        Some(CAlphaMode::Blend)
    } else if value == "BLEND_Additive (3)".spec_bytes() {
        Some(CAlphaMode::Add)
    } else {
        None
    }
}

/// The clip value before any is given: `0.333`.
pub open spec fn default_clip() -> F32Bits {
    F32Bits(0x3eaa_7efa)
}

/// The blending, clip value and two-sidedness that the properties give, read in order:
/// `masks[i]` is the float that the value of property `i` parses to, if any. A later blend mode
/// replaces an earlier one, an unknown one clears it; a clip value that parses replaces the clip
/// value, and the one a masked blending uses.
pub open spec fn props_of(props: Seq<(Seq<u8>, Seq<u8>)>, masks: Seq<Option<F32Bits>>) -> (
    Option<CAlphaMode>,
    F32Bits,
    Option<bool>,
)
    decreases props.len(),
{
    if props.len() == 0 {
        (None, default_clip(), None)
    } else {
        let i = props.len() - 1;
        let (alpha, clip, sided) = props_of(props.drop_last(), masks);
        let (key, value) = props[i];
        if key == "TwoSided".spec_bytes() {
            (alpha, clip, Some(value == "true".spec_bytes()))
        } else if key == "BlendMode".spec_bytes() {
            (blend_mode_of(value, clip), clip, sided)
        } else if key == "OpacityMaskClipValue".spec_bytes() && masks[i] is Some {
            let v = masks[i]->0;
            (if alpha matches Some(CAlphaMode::Mask(_)) { Some(CAlphaMode::Mask(v)) } else { alpha }, v, sided)
        } else {
            (alpha, clip, sided)
        }
    }
}

/// The textures of a `.mat` file, as `textures_of` says.
fn read_textures(settings: &Vec<(Vec<u8>, Vec<u8>)>) -> (r: (Option<Vec<u8>>, Option<Vec<u8>>, Vec<Vec<u8>>))
    ensures
        ({
            let (d, n, o) = textures_of(settings@.map_values(|p: (Vec<u8>, Vec<u8>)| (p.0@, p.1@)));
            &&& r.0 matches Some(x) ==> d == Some(x@)
            &&& r.0 is None ==> d is None
            &&& r.1 matches Some(x) ==> n == Some(x@)
            &&& r.1 is None ==> n is None
            &&& r.2@.map_values(|v: Vec<u8>| v@) == o
        }),
{
    let ghost sv = settings@.map_values(|p: (Vec<u8>, Vec<u8>)| (p.0@, p.1@));
    let mut diffuse: Option<Vec<u8>> = None;
    let mut normal: Option<Vec<u8>> = None;
    let mut other: Vec<Vec<u8>> = Vec::new();
    let mut i: usize = 0;
    while i < settings.len()
        invariant
            i <= settings@.len(),
            sv == settings@.map_values(|p: (Vec<u8>, Vec<u8>)| (p.0@, p.1@)),
            ({
                let (d, n, o) = textures_of(sv.take(i as int));
                &&& diffuse matches Some(x) ==> d == Some(x@)
                &&& diffuse is None ==> d is None
                &&& normal matches Some(x) ==> n == Some(x@)
                &&& normal is None ==> n is None
                &&& other@.map_values(|v: Vec<u8>| v@) == o
            }),
        decreases settings@.len() - i,
    {
        assert(sv.take(i + 1).drop_last() =~= sv.take(i as int));
        let key = settings[i].0.as_slice();
        let value = &settings[i].1;
        if bytes_equal(key, "Diffuse".as_bytes()) {
            diffuse = Some(value.clone());
        } else if bytes_equal(key, "Normal".as_bytes()) {
            normal = Some(value.clone());
        } else if bytes_equal(key, "Other[0]".as_bytes()) {
            let ghost before = other@.map_values(|v: Vec<u8>| v@);
            other.push(value.clone());
            assert(other@.map_values(|v: Vec<u8>| v@) =~= before.push(value@));
        }
        i += 1;
    }
    assert(sv.take(i as int) =~= sv);
    (diffuse, normal, other)
}

/// The blending that a `BlendMode` value names, as `blend_mode_of` says.
fn read_blend_mode(value: &[u8], clip: F32Bits) -> (r: Option<CAlphaMode>)
    ensures
        r == blend_mode_of(value@, clip),
{
    if bytes_equal(value, "BLEND_Opaque (0)".as_bytes()) {
        Some(CAlphaMode::Opaque)
    } else if bytes_equal(value, "BLEND_Masked (1)".as_bytes()) {
        Some(CAlphaMode::Mask(clip))
    } else if bytes_equal(value, "BLEND_Translucent (2)".as_bytes()) {
        Some(CAlphaMode::Blend)
    } else if bytes_equal(value, "BLEND_Additive (3)".as_bytes()) {
        Some(CAlphaMode::Add)
    } else {
        None
    }
}

/// The properties, as `props_of` says.
fn read_props(props: &Vec<(Vec<u8>, Vec<u8>)>, masks: &[Option<F32Bits>]) -> (r: (Option<CAlphaMode>, F32Bits, Option<bool>))
    requires
        masks@.len() == props@.len(),
    ensures
        r == props_of(props@.map_values(|p: (Vec<u8>, Vec<u8>)| (p.0@, p.1@)), masks@),
{
    let ghost pv = props@.map_values(|p: (Vec<u8>, Vec<u8>)| (p.0@, p.1@));
    let mut alpha: Option<CAlphaMode> = None;
    let mut clip = F32Bits(0x3eaa_7efa);
    let mut sided: Option<bool> = None;
    let mut i: usize = 0;
    while i < props.len()
        invariant
            i <= props@.len(),
            masks@.len() == props@.len(),
            pv == props@.map_values(|p: (Vec<u8>, Vec<u8>)| (p.0@, p.1@)),
            (alpha, clip, sided) == props_of(pv.take(i as int), masks@),
        decreases props@.len() - i,
    {
        assert(pv.take(i + 1).drop_last() =~= pv.take(i as int));
        let key = props[i].0.as_slice();
        let value = props[i].1.as_slice();
        if bytes_equal(key, "TwoSided".as_bytes()) {
            sided = Some(bytes_equal(value, "true".as_bytes()));
        } else if bytes_equal(key, "BlendMode".as_bytes()) {
            alpha = read_blend_mode(value, clip);
        } else if bytes_equal(key, "OpacityMaskClipValue".as_bytes()) {
            if let Some(v) = masks[i] {
                clip = v;
                if let Some(CAlphaMode::Mask(_)) = alpha {
                    alpha = Some(CAlphaMode::Mask(v));
                }
            }
        }
        i += 1;
    }
    assert(pv.take(i as int) =~= pv);
    (alpha, clip, sided)
}

impl MeshMaterial {
    /// The material that the settings of its `.mat` file and of its `.props.txt` file describe;
    /// `masks[i]` is the float that the value of property `i` parses to, if any. It is drawn from
    /// one side only where no `TwoSided` property says otherwise.
    pub fn from_settings(
        mat: &Vec<(Vec<u8>, Vec<u8>)>,
        props: &Vec<(Vec<u8>, Vec<u8>)>,
        masks: &[Option<F32Bits>],
    ) -> (r: Self)
        requires
            masks@.len() == props@.len(),
        ensures
            ({
                let (d, n, o) = textures_of(mat@.map_values(|p: (Vec<u8>, Vec<u8>)| (p.0@, p.1@)));
                let (alpha, clip, sided) = props_of(props@.map_values(|p: (Vec<u8>, Vec<u8>)| (p.0@, p.1@)), masks@);
                &&& r.diffuse matches Some(x) ==> d == Some(x@)
                &&& r.diffuse is None ==> d is None
                &&& r.normal matches Some(x) ==> n == Some(x@)
                &&& r.normal is None ==> n is None
                &&& r.other@.map_values(|v: Vec<u8>| v@) == o
                &&& r.alpha_mode == alpha
                &&& r.mask_clip_value == clip
                &&& r.double_sided == (sided == Some(true))
            }),
    {
        let (diffuse, normal, other) = read_textures(mat);
        let (alpha_mode, mask_clip_value, sided) = read_props(props, masks);
        let double_sided = match sided {
            Some(b) => b,
            None => false,
        };
        MeshMaterial { diffuse, normal, other, alpha_mode, mask_clip_value, double_sided }
    }
}

/// The properties of a `.props.txt` file: its lines split at ` = `.
pub fn props_settings(props_text: &[u8]) -> (r: Vec<(Vec<u8>, Vec<u8>)>)
    ensures
        r@.map_values(|p: (Vec<u8>, Vec<u8>)| (p.0@, p.1@)) == text_settings(props_text@, " = ".spec_bytes()),
{
    proof {
        broadcast use vstd::string::is_ascii_spec_bytes;

        reveal_strlit(" = ");
        assert(vstd::string::is_ascii(" = "));
        assert(" = ".spec_bytes().len() == 3);
    }
    let r = parse_settings_with(props_text, " = ".as_bytes());
    assert(r@.map_values(|p: (Vec<u8>, Vec<u8>)| (p.0@, p.1@)) =~= text_settings(props_text@, " = ".spec_bytes()));
    r
}

} // verus!
