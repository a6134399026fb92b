//! What the field loader decides for each material of a placed mesh: whether it is drawn, the
//! side whose colors it takes, the material it is drawn with, and whether it casts shadows.
use crate::asset_paths::ends_with;
use crate::mesh::{bytes_equal, contains_bytes, contains_seq};
use crate::rocketsim::Team;
use vstd::prelude::*;
use vstd::string::StringSliceAdditionalSpecFns;

verus! {

/// Materials that are not drawn on the meshes of the field, but for breakout meshes.
pub open spec fn blacklisted_mesh_mats() -> Seq<Seq<u8>> {
    seq![
        "CollisionMeshes.Collision_Mat".spec_bytes(),
        "Stadium_Assets.Materials.Grass_LOD_Team1_MIC".spec_bytes(),
        "FutureTech.Materials.Glass_Projected_V2_Team2_MIC".spec_bytes(),
        "FutureTech.Materials.Glass_Projected_V2_Mat".spec_bytes(),
        "Trees.Materials.TreeBark_Mat".spec_bytes(),
        "FutureTech.Materials.TrimLight_None_Mat".spec_bytes(),
        "City.Materials.Asphalt_Simple_MAT".spec_bytes(),
        "Graybox_Assets.Materials.NetNonmove_Mat".spec_bytes(),
    ]
}

/// Entry `i` of `blacklisted_mesh_mats`.
fn blacklisted_mesh_mat_at(i: usize) -> (r: &'static str)
    requires
        i < 8,
    ensures
        r.spec_bytes() == blacklisted_mesh_mats()[i as int],
{
    match i {
        0 => "CollisionMeshes.Collision_Mat",
        1 => "Stadium_Assets.Materials.Grass_LOD_Team1_MIC",
        2 => "FutureTech.Materials.Glass_Projected_V2_Team2_MIC",
        3 => "FutureTech.Materials.Glass_Projected_V2_Mat",
        4 => "Trees.Materials.TreeBark_Mat",
        5 => "FutureTech.Materials.TrimLight_None_Mat",
        6 => "City.Materials.Asphalt_Simple_MAT",
        _ => "Graybox_Assets.Materials.NetNonmove_Mat",
    }
}

/// Whether `mat` is one of the materials not drawn on the field.
fn is_blacklisted_mat(mat: &[u8]) -> (r: bool)
    ensures
        r == blacklisted_mesh_mats().contains(mat@),
{
    let mut i: usize = 0;
    while i < 8
        invariant
            i <= 8,
            forall|k: int| 0 <= k < i ==> blacklisted_mesh_mats()[k] != mat@,
        decreases 8 - i,
    {
        if bytes_equal(mat, blacklisted_mesh_mat_at(i).as_bytes()) {
            return true;
        }
        i += 1;
    }
    false
}

/// The side whose colors a placed mesh takes: a hoops backboard is on the blue side where it
/// is rotated and on the orange side where it is not; any other mesh is on the side its
/// `y` coordinate, cut to a whole number, points to, and on neither where that is zero or the
/// mesh has no place.
pub open spec fn node_side(static_mesh: Seq<u8>, has_rotation: bool, cut_y: Option<i16>) -> Option<Team> {
    let sign: int = if contains_seq(static_mesh, "BBall_HoopBackBoard_02".spec_bytes()) {
        if has_rotation {
            -1
        } else {
            1
        }
    } else {
        match cut_y {
            Some(y) => if y > 0 {
                1
            } else if y < 0 {
                -1
            } else {
                0
            },
            None => 0,
        }
    };
    if sign > 0 {
        Some(Team::Orange)
    } else if sign < 0 {
        Some(Team::Blue)
    } else {
        None
    }
}

/// How one material of a placed mesh is drawn.
pub struct NodeMaterial {
    /// The side whose colors it takes.
    pub side: Option<Team>,
    /// The name of the material it is drawn with.
    pub material: Vec<u8>,
    /// Whether the mesh casts and receives shadows.
    pub shadows: bool,
}

/// The material that material `mat` of mesh `static_mesh` is drawn with: the plain floor
/// material for the floor outside the field, else `mat` itself.
pub open spec fn node_material_name(static_mesh: Seq<u8>, mat: Seq<u8>) -> Seq<u8> {
    if ends_with(static_mesh, "OOBFloor".spec_bytes()) {
        "OOBFloor_MAT_CUSTOM".spec_bytes()
    } else {
        mat
    }
}

/// Whether material `mat` of mesh `static_mesh` is drawn: all are on breakout meshes, and on
/// the others all but the blacklisted ones.
pub open spec fn node_material_drawn(static_mesh: Seq<u8>, mat: Seq<u8>) -> bool {
    contains_seq(static_mesh, "BreakOut".spec_bytes()) || !blacklisted_mesh_mats().contains(mat)
}

/// How material `mat` of the mesh `static_mesh`, placed with or without a rotation and at a
/// `y` cut to a whole number where it has a place, is drawn; `None` where it is not drawn.
/// The net of the basketball hoop casts no shadows.
pub fn node_material(static_mesh: &str, mat: &str, has_rotation: bool, cut_y: Option<i16>) -> (r: Option<
    NodeMaterial,
>)
    ensures
        r is None <==> !node_material_drawn(static_mesh.spec_bytes(), mat.spec_bytes()),
        r matches Some(m) ==> m.side == node_side(static_mesh.spec_bytes(), has_rotation, cut_y)
            && m.material@ == node_material_name(static_mesh.spec_bytes(), mat.spec_bytes()) && m.shadows
            == (static_mesh.spec_bytes() != "Proto_BBall.SM.Net_Collision".spec_bytes()),
{
    let mesh = static_mesh.as_bytes();
    let m = mat.as_bytes();
    if !contains_bytes(mesh, "BreakOut".as_bytes()) && is_blacklisted_mat(m) {
        return None;
    }
    let sign: i8 = if contains_bytes(mesh, "BBall_HoopBackBoard_02".as_bytes()) {
        if has_rotation {
            -1
        } else {
            1
        }
    } else {
        match cut_y {
            Some(y) => if y > 0 {
                1
            } else if y < 0 {
                -1
            } else {
                0
            },
            None => 0,
        }
    };
    let side = if sign > 0 {
        Some(Team::Orange)
    } else if sign < 0 {
        Some(Team::Blue)
    } else {
        None
    };
    let floor = "OOBFloor".as_bytes();
    let custom = floor.len() <= mesh.len() && bytes_equal(
        vstd::slice::slice_subrange(mesh, mesh.len() - floor.len(), mesh.len()),
        floor,
    );
    let material = if custom {
        vstd::slice::slice_to_vec("OOBFloor_MAT_CUSTOM".as_bytes())
    } else {
        vstd::slice::slice_to_vec(m)
    };
    let shadows = !bytes_equal(mesh, "Proto_BBall.SM.Net_Collision".as_bytes());
    Some(NodeMaterial { side, material, shadows })
}

} // verus!
