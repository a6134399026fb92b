//! Which meshes and materials of the field are loaded, and the plain colors and drawing modes
//! of the materials that are not read from their files. Names are matched on their bytes.
use crate::mesh::{bytes_equal, contains_bytes, contains_seq};
use crate::bytes::F32Bits;
use crate::rocketsim::Team;
use vstd::prelude::*;
use vstd::string::StringSliceAdditionalSpecFns;

verus! {

/// The parts of a mesh name that keep the mesh from being loaded: collision and effect meshes.
pub open spec fn block_meshes() -> Seq<Seq<u8>> {
    seq![
        "CollisionMeshes".spec_bytes(),
        "DecalBlocker".spec_bytes(),
        "FieldCollision_Standard".spec_bytes(),
        "Goal_STD_Outer".spec_bytes(),
        "SkySphere01".spec_bytes(),
        "Glow".spec_bytes(),
        "Fog".spec_bytes(),
        "FX_General".spec_bytes(),
        "Collision_Plane".spec_bytes(),
    ]
}

/// Entry `i` of `block_meshes`.
fn block_meshes_at(i: usize) -> (r: &'static str)
    requires
        i < 9,
    ensures
        r.spec_bytes() == block_meshes()[i as int],
{
    match i {
        0 => "CollisionMeshes",
        1 => "DecalBlocker",
        2 => "FieldCollision_Standard",
        3 => "Goal_STD_Outer",
        4 => "SkySphere01",
        5 => "Glow",
        6 => "Fog",
        7 => "FX_General",
        _ => "Collision_Plane",
    }
}

/// The parts of a mesh name that keep an otherwise chosen mesh from being loaded.
pub open spec fn extra_blacklist() -> Seq<Seq<u8>> {
    seq![
        "Side_Trim".spec_bytes(),
    ]
}

/// Entry `i` of `extra_blacklist`.
fn extra_blacklist_at(i: usize) -> (r: &'static str)
    requires
        i < 1,
    ensures
        r.spec_bytes() == extra_blacklist()[i as int],
{
    match i {
        _ => "Side_Trim",
    }
}

/// The parts of a mesh name that choose the mesh to be loaded.
pub open spec fn whitelist_meshes() -> Seq<Seq<u8>> {
    seq![
        "Field_STD".spec_bytes(),
        "FF".spec_bytes(),
        "BoostPads".spec_bytes(),
        "BoostPad_Small".spec_bytes(),
        "BoostPad_Large".spec_bytes(),
        "Goal".spec_bytes(),
        "AdvertStrip".spec_bytes(),
        "Field_Center".spec_bytes(),
        "Field_Mid".spec_bytes(),
        "Body".spec_bytes(),
        "Side".spec_bytes(),
        "Floor".spec_bytes(),
        "Lattice".spec_bytes(),
        "FoamAd".spec_bytes(),
        "Lines_Basketball".spec_bytes(),
        "Net_Collision".spec_bytes(),
        "BBall_Walls_03".spec_bytes(),
        "BBallRim01".spec_bytes(),
        "BBall_Edges_01".spec_bytes(),
        "BackBoard".spec_bytes(),
        "Net_Rim".spec_bytes(),
        "BO_collision_03".spec_bytes(),
    ]
}

/// Entry `i` of `whitelist_meshes`.
fn whitelist_meshes_at(i: usize) -> (r: &'static str)
    requires
        i < 22,
    ensures
        r.spec_bytes() == whitelist_meshes()[i as int],
{
    match i {
        0 => "Field_STD",
        1 => "FF",
        2 => "BoostPads",
        3 => "BoostPad_Small",
        4 => "BoostPad_Large",
        5 => "Goal",
        6 => "AdvertStrip",
        7 => "Field_Center",
        8 => "Field_Mid",
        9 => "Body",
        10 => "Side",
        11 => "Floor",
        12 => "Lattice",
        13 => "FoamAd",
        14 => "Lines_Basketball",
        15 => "Net_Collision",
        16 => "BBall_Walls_03",
        17 => "BBallRim01",
        18 => "BBall_Edges_01",
        19 => "BackBoard",
        20 => "Net_Rim",
        _ => "BO_collision_03",
    }
}

/// The materials that are read from their files; the others get a plain color.
pub open spec fn whitelist_mats() -> Seq<Seq<u8>> {
    seq![
        "FutureTech.Materials.ForceField_Mat".spec_bytes(),
        "FutureTech.Materials.ForceField_HexGage_MIC".spec_bytes(),
        "FutureTech.Materials.HexGlass_WithArrows_Team2_MIC".spec_bytes(),
        "FutureTech.Materials.HexGlass_WithArrows_Team1_MIC".spec_bytes(),
    ]
}

/// Entry `i` of `whitelist_mats`.
fn whitelist_mats_at(i: usize) -> (r: &'static str)
    requires
        i < 4,
    ensures
        r.spec_bytes() == whitelist_mats()[i as int],
{
    match i {
        0 => "FutureTech.Materials.ForceField_Mat",
        1 => "FutureTech.Materials.ForceField_HexGage_MIC",
        2 => "FutureTech.Materials.HexGlass_WithArrows_Team2_MIC",
        _ => "FutureTech.Materials.HexGlass_WithArrows_Team1_MIC",
    }
}

/// The materials drawn from both sides.
pub open spec fn double_sided_mats() -> Seq<Seq<u8>> {
    seq![
        "Trees.Materials.LombardyPoplar_B_NoWind_MIC".spec_bytes(),
        "Trees.Materials.LombardyPoplar_B_Mat".spec_bytes(),
        "FutureTech.Materials.ForceField_HexGage_MIC".spec_bytes(),
        "FutureTech.Materials.HexGlass_WithArrows_Team2_MIC".spec_bytes(),
        "FutureTech.Materials.HexGlass_WithArrows_Team1_MIC".spec_bytes(),
        "FX_Lighting.Materials.LightCone_Simple_MIC".spec_bytes(),
        "Stadium.Materials.StadiumLight_Flare_Mat".spec_bytes(),
        "FutureTech.Materials.Frame_01_V2_Mat".spec_bytes(),
        "FutureTech.Materials.Reflective_Floor_V2_Mat".spec_bytes(),
        "FutureTech.Materials.Reflective_Floor_B_Mat".spec_bytes(),
        "FutureTech.Materials.Frame_01_MIC".spec_bytes(),
        "Stadium.Materials.SeatBase_Mat".spec_bytes(),
        "Stadium.Materials.Crowd_ST_Team1_Mic".spec_bytes(),
        "Stadium.Materials.Crowd_ST_Team2_Mic".spec_bytes(),
        "Stadium.Materials.Stairs_Mat".spec_bytes(),
        "City.Materials.MIC_Sidewalk00".spec_bytes(),
        "City.Materials.Concrete_MAT".spec_bytes(),
        "Grass.Materials.Grass_Base_Mat".spec_bytes(),
        "Stadium.Materials.HandRail_MIC".spec_bytes(),
        "Stadium_Assets.Materials.GroomedGrass_FakeLight_Team1_MIC".spec_bytes(),
        "Stadium_Assets.Materials.GroomedGrass_FakeLight_Team2_MIC".spec_bytes(),
        "Proto_BBall.Materials.BBall_Net_MAT_INST".spec_bytes(),
        "Graybox_Assets.Materials.NetNonmove_Mat".spec_bytes(),
        "Proto_BBall.Materials.BBall_Rubber_MIC".spec_bytes(),
        "Proto_BBall.Materials.MIC_DarkGlass".spec_bytes(),
        "Proto_BBall.SM.BackBoard_Teams_MIC".spec_bytes(),
        "Proto_BBall.Materials.BBall_Rim_MAT_INST".spec_bytes(),
        "Pickup_Boost.Materials.BoostPad_Large_MIC".spec_bytes(),
        "Pickup_Boost.Materials.BoostPad_Small_MIC".spec_bytes(),
        "OldCosmic_Assets.Materials.OLDCosmicGlass1".spec_bytes(),
        "Proto_BBall.Materials.BBall_DarkMetal_MIC".spec_bytes(),
    ]
}

/// Entry `i` of `double_sided_mats`.
fn double_sided_mats_at(i: usize) -> (r: &'static str)
    requires
        i < 31,
    ensures
        r.spec_bytes() == double_sided_mats()[i as int],
{
    match i {
        0 => "Trees.Materials.LombardyPoplar_B_NoWind_MIC",
        1 => "Trees.Materials.LombardyPoplar_B_Mat",
        2 => "FutureTech.Materials.ForceField_HexGage_MIC",
        3 => "FutureTech.Materials.HexGlass_WithArrows_Team2_MIC",
        4 => "FutureTech.Materials.HexGlass_WithArrows_Team1_MIC",
        5 => "FX_Lighting.Materials.LightCone_Simple_MIC",
        6 => "Stadium.Materials.StadiumLight_Flare_Mat",
        7 => "FutureTech.Materials.Frame_01_V2_Mat",
        8 => "FutureTech.Materials.Reflective_Floor_V2_Mat",
        9 => "FutureTech.Materials.Reflective_Floor_B_Mat",
        10 => "FutureTech.Materials.Frame_01_MIC",
        11 => "Stadium.Materials.SeatBase_Mat",
        12 => "Stadium.Materials.Crowd_ST_Team1_Mic",
        13 => "Stadium.Materials.Crowd_ST_Team2_Mic",
        14 => "Stadium.Materials.Stairs_Mat",
        15 => "City.Materials.MIC_Sidewalk00",
        16 => "City.Materials.Concrete_MAT",
        17 => "Grass.Materials.Grass_Base_Mat",
        18 => "Stadium.Materials.HandRail_MIC",
        19 => "Stadium_Assets.Materials.GroomedGrass_FakeLight_Team1_MIC",
        20 => "Stadium_Assets.Materials.GroomedGrass_FakeLight_Team2_MIC",
        21 => "Proto_BBall.Materials.BBall_Net_MAT_INST",
        22 => "Graybox_Assets.Materials.NetNonmove_Mat",
        23 => "Proto_BBall.Materials.BBall_Rubber_MIC",
        24 => "Proto_BBall.Materials.MIC_DarkGlass",
        25 => "Proto_BBall.SM.BackBoard_Teams_MIC",
        26 => "Proto_BBall.Materials.BBall_Rim_MAT_INST",
        27 => "Pickup_Boost.Materials.BoostPad_Large_MIC",
        28 => "Pickup_Boost.Materials.BoostPad_Small_MIC",
        29 => "OldCosmic_Assets.Materials.OLDCosmicGlass1",
        _ => "Proto_BBall.Materials.BBall_DarkMetal_MIC",
    }
}

/// The materials blended over what is behind them.
pub open spec fn transparent_mats() -> Seq<Seq<u8>> {
    seq![
        "Trees.Materials.LombardyPoplar_B_NoWind_MIC".spec_bytes(),
        "Trees.Materials.LombardyPoplar_B_Mat".spec_bytes(),
    ]
}

/// Entry `i` of `transparent_mats`.
fn transparent_mats_at(i: usize) -> (r: &'static str)
    requires
        i < 2,
    ensures
        r.spec_bytes() == transparent_mats()[i as int],
{
    match i {
        0 => "Trees.Materials.LombardyPoplar_B_NoWind_MIC",
        _ => "Trees.Materials.LombardyPoplar_B_Mat",
    }
}

/// The materials added onto what is behind them.
pub open spec fn add_mats() -> Seq<Seq<u8>> {
    seq![
        "FutureTech.Materials.ForceField_HexGage_MIC".spec_bytes(),
        "FutureTech.Materials.HexGlass_WithArrows_Team2_MIC".spec_bytes(),
        "FutureTech.Materials.HexGlass_WithArrows_Team1_MIC".spec_bytes(),
        "FX_Lighting.Materials.LightCone_Simple_MIC".spec_bytes(),
        "Stadium.Materials.StadiumLight_Flare_Mat".spec_bytes(),
        "FX_General.Mat.FogSheet_Mat".spec_bytes(),
        "Stadium_Assets.Materials.StadiumFog_Team1_MIC".spec_bytes(),
        "Stadium_Assets.Materials.StadiumFog_Team2_MIC".spec_bytes(),
        "FX_General.Mat.FogSheet_Team1_MIC".spec_bytes(),
        "FX_General.Mat.FogSheet_Team2_MIC".spec_bytes(),
        "FX_General.Mat.FogCylinder_Mat".spec_bytes(),
        "FutureTech.Materials.Glass_Projected_V2_Mat".spec_bytes(),
        "FutureTech.Materials.Glass_Projected_V2_Team2_MIC".spec_bytes(),
        "Graybox_Assets.Materials.NetNonmove_Mat".spec_bytes(),
        "Proto_BBall.Materials.BBall_Net_MAT_INST".spec_bytes(),
    ]
}

/// Entry `i` of `add_mats`.
fn add_mats_at(i: usize) -> (r: &'static str)
    requires
        i < 15,
    ensures
        r.spec_bytes() == add_mats()[i as int],
{
    match i {
        0 => "FutureTech.Materials.ForceField_HexGage_MIC",
        1 => "FutureTech.Materials.HexGlass_WithArrows_Team2_MIC",
        2 => "FutureTech.Materials.HexGlass_WithArrows_Team1_MIC",
        3 => "FX_Lighting.Materials.LightCone_Simple_MIC",
        4 => "Stadium.Materials.StadiumLight_Flare_Mat",
        5 => "FX_General.Mat.FogSheet_Mat",
        6 => "Stadium_Assets.Materials.StadiumFog_Team1_MIC",
        7 => "Stadium_Assets.Materials.StadiumFog_Team2_MIC",
        8 => "FX_General.Mat.FogSheet_Team1_MIC",
        9 => "FX_General.Mat.FogSheet_Team2_MIC",
        10 => "FX_General.Mat.FogCylinder_Mat",
        11 => "FutureTech.Materials.Glass_Projected_V2_Mat",
        12 => "FutureTech.Materials.Glass_Projected_V2_Team2_MIC",
        13 => "Graybox_Assets.Materials.NetNonmove_Mat",
        _ => "Proto_BBall.Materials.BBall_Net_MAT_INST",
    }
}

/// The materials in the field's primary color.
pub open spec fn primary_mats() -> Seq<Seq<u8>> {
    seq![
        "Stadium_Assets.Materials.Grass_Base_Team1_MIC".spec_bytes(),
        "Proto_BBall.Materials.WoodFloor_Corrected_Mat_INST".spec_bytes(),
    ]
}

/// Entry `i` of `primary_mats`.
fn primary_mats_at(i: usize) -> (r: &'static str)
    requires
        i < 2,
    ensures
        r.spec_bytes() == primary_mats()[i as int],
{
    match i {
        0 => "Stadium_Assets.Materials.Grass_Base_Team1_MIC",
        _ => "Proto_BBall.Materials.WoodFloor_Corrected_Mat_INST",
    }
}

/// The materials in the color of the side they stand on.
pub open spec fn secondary_mats() -> Seq<Seq<u8>> {
    seq![
        "FutureTech.Materials.Reflective_Floor_V2_Mat".spec_bytes(),
        "FutureTech.Materials.Reflective_Floor_B_Mat".spec_bytes(),
        "Proto_BBall.SM.BackBoard_Teams_MIC".spec_bytes(),
        "Proto_BBall.Materials.BBall_Rubber_MIC".spec_bytes(),
        "Proto_BBall.Materials.MIC_DarkGlass".spec_bytes(),
    ]
}

/// Entry `i` of `secondary_mats`.
fn secondary_mats_at(i: usize) -> (r: &'static str)
    requires
        i < 5,
    ensures
        r.spec_bytes() == secondary_mats()[i as int],
{
    match i {
        0 => "FutureTech.Materials.Reflective_Floor_V2_Mat",
        1 => "FutureTech.Materials.Reflective_Floor_B_Mat",
        2 => "Proto_BBall.SM.BackBoard_Teams_MIC",
        3 => "Proto_BBall.Materials.BBall_Rubber_MIC",
        _ => "Proto_BBall.Materials.MIC_DarkGlass",
    }
}

/// The materials in the field's tertiary color, with every painted line.
pub open spec fn tertiary_mats() -> Seq<Seq<u8>> {
    seq![
        "FutureTech.Materials.Frame_01_MIC".spec_bytes(),
        "FutureTech.Materials.Frame_01_V2_Mat".spec_bytes(),
        "Proto_BBall.Materials.BBall_Net_MAT_INST".spec_bytes(),
        "Proto_BBall.Materials.BBall_Rim_MAT_INST".spec_bytes(),
        "Graybox_Assets.Materials.NetNonmove_Mat".spec_bytes(),
        "Proto_BBall.Materials.OLDCosmicGlass1_INST".spec_bytes(),
        "OldCosmic_Assets.Materials.OLDCosmicGlass1".spec_bytes(),
        "Proto_BBall.Materials.BBall_Rim2_MAT_INST".spec_bytes(),
        "Proto_BBall.Materials.BBall_RimF_MAT_INST".spec_bytes(),
    ]
}

/// Entry `i` of `tertiary_mats`.
fn tertiary_mats_at(i: usize) -> (r: &'static str)
    requires
        i < 9,
    ensures
        r.spec_bytes() == tertiary_mats()[i as int],
{
    match i {
        0 => "FutureTech.Materials.Frame_01_MIC",
        1 => "FutureTech.Materials.Frame_01_V2_Mat",
        2 => "Proto_BBall.Materials.BBall_Net_MAT_INST",
        3 => "Proto_BBall.Materials.BBall_Rim_MAT_INST",
        4 => "Graybox_Assets.Materials.NetNonmove_Mat",
        5 => "Proto_BBall.Materials.OLDCosmicGlass1_INST",
        6 => "OldCosmic_Assets.Materials.OLDCosmicGlass1",
        7 => "Proto_BBall.Materials.BBall_Rim2_MAT_INST",
        _ => "Proto_BBall.Materials.BBall_RimF_MAT_INST",
    }
}

/// The materials in silver.
pub open spec fn silver_mats() -> Seq<Seq<u8>> {
    seq![
        "FutureTech.Materials.Frame_01_White_MIC".spec_bytes(),
        "Graybox_Assets.Materials.ForceFieldCage_Solid_Mat".spec_bytes(),
    ]
}

/// Entry `i` of `silver_mats`.
fn silver_mats_at(i: usize) -> (r: &'static str)
    requires
        i < 2,
    ensures
        r.spec_bytes() == silver_mats()[i as int],
{
    match i {
        0 => "FutureTech.Materials.Frame_01_White_MIC",
        _ => "Graybox_Assets.Materials.ForceFieldCage_Solid_Mat",
    }
}

/// The materials of boost pads.
pub open spec fn boost_pad_mats() -> Seq<Seq<u8>> {
    seq![
        "Pickup_Boost.Materials.BoostPad_Small_MIC".spec_bytes(),
        "Pickup_Boost.Materials.BoostPad_Large_MIC".spec_bytes(),
    ]
}

/// Entry `i` of `boost_pad_mats`.
fn boost_pad_mats_at(i: usize) -> (r: &'static str)
    requires
        i < 2,
    ensures
        r.spec_bytes() == boost_pad_mats()[i as int],
{
    match i {
        0 => "Pickup_Boost.Materials.BoostPad_Small_MIC",
        _ => "Pickup_Boost.Materials.BoostPad_Large_MIC",
    }
}

/// The name lists.
#[derive(Clone, Copy, Debug, PartialEq, Eq, Structural)]
pub enum NameList {
    BlockMeshes,
    ExtraBlacklist,
    WhitelistMeshes,
    WhitelistMats,
    DoubleSidedMats,
    TransparentMats,
    AddMats,
    PrimaryMats,
    SecondaryMats,
    TertiaryMats,
    SilverMats,
    BoostPadMats,
}

/// The entries of a name list.
pub open spec fn list_entries(list: NameList) -> Seq<Seq<u8>> {
    match list {
        NameList::BlockMeshes => block_meshes(),
        NameList::ExtraBlacklist => extra_blacklist(),
        NameList::WhitelistMeshes => whitelist_meshes(),
        NameList::WhitelistMats => whitelist_mats(),
        NameList::DoubleSidedMats => double_sided_mats(),
        NameList::TransparentMats => transparent_mats(),
        NameList::AddMats => add_mats(),
        NameList::PrimaryMats => primary_mats(),
        NameList::SecondaryMats => secondary_mats(),
        NameList::TertiaryMats => tertiary_mats(),
        NameList::SilverMats => silver_mats(),
        NameList::BoostPadMats => boost_pad_mats(),
    }
}

/// The number of entries of a name list.
#[verifier::spinoff_prover]
#[verifier::rlimit(40)]
fn list_len(list: NameList) -> (r: usize)
    ensures
        r == list_entries(list).len(),
{
    match list {
        NameList::BlockMeshes => 9,
        NameList::ExtraBlacklist => 1,
        NameList::WhitelistMeshes => 22,
        NameList::WhitelistMats => 4,
        NameList::DoubleSidedMats => 31,
        NameList::TransparentMats => 2,
        NameList::AddMats => 15,
        NameList::PrimaryMats => 2,
        NameList::SecondaryMats => 5,
        NameList::TertiaryMats => 9,
        NameList::SilverMats => 2,
        NameList::BoostPadMats => 2,
    }
}

/// Entry `i` of a name list.
#[verifier::spinoff_prover]
#[verifier::rlimit(40)]
fn list_entry(list: NameList, i: usize) -> (r: &'static str)
    requires
        i < list_entries(list).len(),
    ensures
        r.spec_bytes() == list_entries(list)[i as int],
{
    match list {
        NameList::BlockMeshes => block_meshes_at(i),
        NameList::ExtraBlacklist => extra_blacklist_at(i),
        NameList::WhitelistMeshes => whitelist_meshes_at(i),
        NameList::WhitelistMats => whitelist_mats_at(i),
        NameList::DoubleSidedMats => double_sided_mats_at(i),
        NameList::TransparentMats => transparent_mats_at(i),
        NameList::AddMats => add_mats_at(i),
        NameList::PrimaryMats => primary_mats_at(i),
        NameList::SecondaryMats => secondary_mats_at(i),
        NameList::TertiaryMats => tertiary_mats_at(i),
        NameList::SilverMats => silver_mats_at(i),
        NameList::BoostPadMats => boost_pad_mats_at(i),
    }
}

/// Whether `name` is an entry of the list.
pub open spec fn listed(name: Seq<u8>, list: NameList) -> bool {
    list_entries(list).contains(name)
}

/// Whether some entry of the list stands somewhere in `name`.
pub open spec fn mentions_any(name: Seq<u8>, list: NameList) -> bool {
    exists|i: int| 0 <= i < list_entries(list).len() && contains_seq(name, #[trigger] list_entries(list)[i])
}

/// Whether `name` is an entry of the list.
fn is_listed(name: &[u8], list: NameList) -> (r: bool)
    ensures
        r == listed(name@, list),
{
    let n = list_len(list);
    let mut i: usize = 0;
    while i < n
        invariant
            i <= n,
            n == list_entries(list).len(),
            forall|k: int| 0 <= k < i ==> list_entries(list)[k] != name@,
        decreases n - i,
    {
        if bytes_equal(name, list_entry(list, i).as_bytes()) {
            return true;
        }
        i += 1;
    }
    false
}

/// Whether some entry of the list stands somewhere in `name`.
fn mentions_listed(name: &[u8], list: NameList) -> (r: bool)
    ensures
        r == mentions_any(name@, list),
{
    let n = list_len(list);
    let mut i: usize = 0;
    while i < n
        invariant
            i <= n,
            n == list_entries(list).len(),
            forall|k: int| 0 <= k < i ==> !contains_seq(name@, #[trigger] list_entries(list)[k]),
        decreases n - i,
    {
        if contains_bytes(name, list_entry(list, i).as_bytes()) {
            return true;
        }
        i += 1;
    }
    false
}

/// Whether the mesh named `name` is loaded: its name mentions none of the blocked parts, one of
/// the chosen parts, and none of the extra blocked parts.
pub open spec fn mesh_loaded(name: Seq<u8>) -> bool {
    !mentions_any(name, NameList::BlockMeshes) && mentions_any(name, NameList::WhitelistMeshes)
        && !mentions_any(name, NameList::ExtraBlacklist)
}

/// Whether the mesh named `name` is loaded, as `mesh_loaded` says.
pub fn is_mesh_loaded(name: &str) -> (r: bool)
    ensures
        r == mesh_loaded(name.spec_bytes()),
{
    let bytes = name.as_bytes();
    !mentions_listed(bytes, NameList::BlockMeshes) && mentions_listed(bytes, NameList::WhitelistMeshes)
        && !mentions_listed(bytes, NameList::ExtraBlacklist)
}

/// Whether the material named `name` is read from its files.
pub fn is_in_whitelist(name: &str) -> (r: bool)
    ensures
        r == listed(name.spec_bytes(), NameList::WhitelistMats),
{
    is_listed(name.as_bytes(), NameList::WhitelistMats)
}

/// A plain material color.
#[derive(Clone, Copy, Debug, PartialEq, Eq, Structural)]
pub enum DefaultColor {
    /// An opaque color of 8-bit channels.
    Rgb(u8, u8, u8),
    /// CSS silver.
    Silver,
    /// CSS tomato.
    Tomato,
    /// Nothing drawn.
    Transparent,
    /// CSS silver at half opacity.
    HalfSilver,
}

/// How a material is laid over what is behind it.
#[derive(Clone, Copy, Debug, PartialEq, Eq, Structural)]
pub enum Blend {
    Opaque,
    Blend,
    Add,
}

/// A material that is not read from its files.
#[derive(Clone, Copy, Debug, PartialEq, Eq, Structural)]
pub struct DefaultMaterial {
    pub color: DefaultColor,
    pub blend: Blend,
    pub double_sided: bool,
    /// The roughness, as `f32` bits: 0.6.
    pub perceptual_roughness: F32Bits,
    /// The reflectance, as `f32` bits: 0.2.
    pub reflectance: F32Bits,
}

/// The roughness of every plain material: 0.6 as `f32` bits.
pub open spec fn default_roughness() -> F32Bits {
    F32Bits(0x3f19_999a)
}

/// The reflectance of every plain material: 0.2 as `f32` bits.
pub open spec fn default_reflectance() -> F32Bits {
    F32Bits(0x3e4c_cccd)
}

/// The plain color of the material named `name`, seen from `side`; `None` for a material that
/// has none. The first rule that fits decides.
pub open spec fn default_color(name: Seq<u8>, side: Option<Team>) -> Option<DefaultColor> {
    if listed(name, NameList::PrimaryMats) {
        Some(DefaultColor::Rgb(45, 49, 66))
    } else if listed(name, NameList::SecondaryMats) {
        Some(
            match side {
                Some(Team::Blue) => DefaultColor::Rgb(86, 136, 199),
                Some(Team::Orange) => DefaultColor::Rgb(222, 145, 81),
                None => DefaultColor::Rgb(131, 144, 115),
            },
        )
    } else if name == "OOBFloor_MAT_CUSTOM".spec_bytes() {
        Some(DefaultColor::Rgb(41, 2, 0))
    } else if listed(name, NameList::TertiaryMats) || contains_seq(name, "PaintedLine_MIC".spec_bytes()) {
        Some(DefaultColor::Rgb(55, 30, 48))
    } else if listed(name, NameList::SilverMats) {
        Some(DefaultColor::Silver)
    } else if name == "FutureTech.Materials.CrossHatched_Grate_MIC".spec_bytes() {
        Some(DefaultColor::Tomato)
    } else if listed(name, NameList::BoostPadMats) {
        Some(DefaultColor::Rgb(152, 29, 23))
    } else if name == "Goal.Materials.GoalGenerator_Team2_MIC".spec_bytes() || contains_seq(
        name,
        "CrossHatched".spec_bytes(),
    ) {
        Some(DefaultColor::Transparent)
    } else if contains_seq(name, "Advert".spec_bytes()) || contains_seq(name, "DarkMetal".spec_bytes()) {
        Some(DefaultColor::Rgb(191, 192, 192))
    } else if contains_seq(name, "Collision".spec_bytes()) {
        Some(DefaultColor::HalfSilver)
    } else {
        None
    }
}

/// How the material named `name` is blended: blended over where it is transparent, added onto
/// where it glows, else opaque.
pub open spec fn default_blend(name: Seq<u8>) -> Blend {
    if listed(name, NameList::TransparentMats) {
        Blend::Blend
    } else if listed(name, NameList::AddMats) {
        Blend::Add
    } else {
        Blend::Opaque
    }
}

/// How the material named `name` is blended, as `default_blend` says.
pub fn material_blend(name: &str) -> (r: Blend)
    ensures
        r == default_blend(name.spec_bytes()),
{
    let bytes = name.as_bytes();
    if is_listed(bytes, NameList::TransparentMats) {
        Blend::Blend
    } else if is_listed(bytes, NameList::AddMats) {
        Blend::Add
    } else {
        Blend::Opaque
    }
}

/// Whether the material named `name` is drawn from both sides.
pub fn is_double_sided(name: &str) -> (r: bool)
    ensures
        r == listed(name.spec_bytes(), NameList::DoubleSidedMats),
{
    is_listed(name.as_bytes(), NameList::DoubleSidedMats)
}

/// The plain material for `name` seen from `side`: its color as `default_color` says, its
/// blending, whether it is drawn from both sides, roughness 0.6 and reflectance 0.2; `None` for
/// a material without a plain color.
pub fn get_default_material(name: &str, side: Option<Team>) -> (r: Option<DefaultMaterial>)
    ensures
        r == match default_color(name.spec_bytes(), side) {
            Some(color) => Some(
                DefaultMaterial {
                    color,
                    blend: default_blend(name.spec_bytes()),
                    double_sided: listed(name.spec_bytes(), NameList::DoubleSidedMats),
                    perceptual_roughness: default_roughness(),
                    reflectance: default_reflectance(),
                },
            ),
            None => None::<DefaultMaterial>,
        },
{
    let bytes = name.as_bytes();
    let color = if is_listed(bytes, NameList::PrimaryMats) {
        DefaultColor::Rgb(45, 49, 66)
    } else if is_listed(bytes, NameList::SecondaryMats) {
        match side {
            Some(Team::Blue) => DefaultColor::Rgb(86, 136, 199),
            Some(Team::Orange) => DefaultColor::Rgb(222, 145, 81),
            None => DefaultColor::Rgb(131, 144, 115),
        }
    } else if bytes_equal(bytes, "OOBFloor_MAT_CUSTOM".as_bytes()) {
        DefaultColor::Rgb(41, 2, 0)
    } else if is_listed(bytes, NameList::TertiaryMats) || contains_bytes(bytes, "PaintedLine_MIC".as_bytes()) {
        DefaultColor::Rgb(55, 30, 48)
    } else if is_listed(bytes, NameList::SilverMats) {
        DefaultColor::Silver
    } else if bytes_equal(bytes, "FutureTech.Materials.CrossHatched_Grate_MIC".as_bytes()) {
        DefaultColor::Tomato
    } else if is_listed(bytes, NameList::BoostPadMats) {
        DefaultColor::Rgb(152, 29, 23)
    } else if bytes_equal(bytes, "Goal.Materials.GoalGenerator_Team2_MIC".as_bytes()) || contains_bytes(
        bytes,
        "CrossHatched".as_bytes(),
    ) {
        DefaultColor::Transparent
    } else if contains_bytes(bytes, "Advert".as_bytes()) || contains_bytes(bytes, "DarkMetal".as_bytes()) {
        DefaultColor::Rgb(191, 192, 192)
    } else if contains_bytes(bytes, "Collision".as_bytes()) {
        DefaultColor::HalfSilver
    } else {
        return None;
    };
    Some(
        DefaultMaterial {
            color,
            blend: material_blend(name),
            double_sided: is_double_sided(name),
            perceptual_roughness: F32Bits(0x3f19_999a),
            reflectance: F32Bits(0x3e4c_cccd),
        },
    )
}

} // verus!
