//! The cars on screen: which to take away and which to add when a game state names other
//! cars, and the materials that a car's mesh lists in its properties file.
use crate::asset_paths::{push_all, replace_all, replaced};
use crate::options::{find_byte, find_from, lemma_find_from_bounds, split_lines, text_lines};
use crate::bytes::F32Bits;
use crate::rocketsim::{CarConfig, CarInfo};
use vstd::prelude::*;
use vstd::string::StringSliceAdditionalSpecFns;

verus! {

/// The ids of the cars.
pub open spec fn car_ids(cars: Seq<CarInfo>) -> Seq<u32> {
    cars.map_values(|c: CarInfo| c.id)
}

/// Whether a shown car's id is missing from the cars of the state.
pub open spec fn gone_from(cars: Seq<CarInfo>) -> spec_fn(u32) -> bool {
    |id: u32| !car_ids(cars).contains(id)
}

/// Whether a car of the state is not among the shown ids.
pub open spec fn not_shown(shown: Seq<u32>) -> spec_fn(CarInfo) -> bool {
    |c: CarInfo| !shown.contains(c.id)
}

/// Whether a car with id `id` is among `cars`.
fn has_car(cars: &[CarInfo], id: u32) -> (r: bool)
    ensures
        r == car_ids(cars@).contains(id),
{
    let mut i: usize = 0;
    while i < cars.len()
        invariant
            i <= cars@.len(),
            forall|k: int| 0 <= k < i ==> cars@[k].id != id,
        decreases cars@.len() - i,
    {
        if cars[i].id == id {
            assert(car_ids(cars@)[i as int] == id);
            return true;
        }
        i += 1;
    }
    proof {
        if car_ids(cars@).contains(id) {
            let k = choose|k: int| 0 <= k < car_ids(cars@).len() && car_ids(cars@)[k] == id;
            assert(cars@[k].id == id);
        }
    }
    false
}

/// Whether `id` is among `ids`.
fn has_id(ids: &[u32], id: u32) -> (r: bool)
    ensures
        r == ids@.contains(id),
{
    let mut i: usize = 0;
    while i < ids.len()
        invariant
            i <= ids@.len(),
            forall|k: int| 0 <= k < i ==> ids@[k] != id,
        decreases ids@.len() - i,
    {
        if ids[i] == id {
            return true;
        }
        i += 1;
    }
    false
}

/// What changes on screen when the state's cars are `cars` and the cars shown have the ids
/// `shown`: the shown ids that the state no longer has, to be taken away, and the cars of the
/// state that are not shown, to be added, each in the order given.
pub fn car_count_changes(shown: &[u32], cars: &[CarInfo]) -> (r: (Vec<u32>, Vec<CarInfo>))
    ensures
        r.0@ == shown@.filter(gone_from(cars@)),
        r.1@ == cars@.filter(not_shown(shown@)),
{
    let mut removed: Vec<u32> = Vec::new();
    let mut i: usize = 0;
    while i < shown.len()
        invariant
            i <= shown@.len(),
            removed@ == shown@.take(i as int).filter(gone_from(cars@)),
        decreases shown@.len() - i,
    {
        proof {
            reveal(Seq::filter);
            assert(shown@.take(i + 1).drop_last() =~= shown@.take(i as int));
        }
        if !has_car(cars, shown[i]) {
            removed.push(shown[i]);
        }
        i += 1;
    }
    let mut added: Vec<CarInfo> = Vec::new();
    let mut j: usize = 0;
    while j < cars.len()
        invariant
            j <= cars@.len(),
            added@ == cars@.take(j as int).filter(not_shown(shown@)),
        decreases cars@.len() - j,
    {
        proof {
            reveal(Seq::filter);
            assert(cars@.take(j + 1).drop_last() =~= cars@.take(j as int));
        }
        if !has_id(shown, cars[j].id) {
            added.push(cars[j]);
        }
        j += 1;
    }
    assert(shown@.take(i as int) =~= shown@);
    assert(cars@.take(j as int) =~= cars@);
    (removed, added)
}

/// The properties file of a car's mesh: `./assets/`, its package name with each `.` read as
/// `/`, `.props.txt`.
pub open spec fn car_props_path_of(mesh_id: Seq<u8>) -> Seq<u8> {
    "./assets/".spec_bytes() + replaced(mesh_id, ".".spec_bytes(), "/".spec_bytes()) + ".props.txt".spec_bytes()
}

/// The properties file of the car mesh `mesh_id`, as `car_props_path_of` says.
pub fn car_props_path(mesh_id: &str) -> (r: Vec<u8>)
    ensures
        r@ == car_props_path_of(mesh_id.spec_bytes()),
{
    proof {
        reveal_strlit(".");
    }
    let mut out: Vec<u8> = Vec::new();
    push_all(&mut out, "./assets/".as_bytes());
    let path = replace_all(mesh_id.as_bytes(), ".".as_bytes(), "/".as_bytes());
    push_all(&mut out, path.as_slice());
    push_all(&mut out, ".props.txt".as_bytes());
    out
}

/// The byte of `'`.
pub const QUOTE: u8 = 0x27;

/// Whether `s` starts with `p`.
pub open spec fn starts_with(s: Seq<u8>, p: Seq<u8>) -> bool {
    p.len() <= s.len() && s.take(p.len() as int) == p
}

/// The name between `'`s in `line`: what follows its first `'`, up to the next `'` or the end;
/// `None` where no `'` stands in it.
pub open spec fn quoted_name(line: Seq<u8>) -> Option<Seq<u8>> {
    match find_from(line, QUOTE, 0) {
        Some(i) => match find_from(line, QUOTE, i + 1) {
            Some(j) => Some(line.subrange(i + 1 as int, j as int)),
            None => Some(line.subrange(i + 1 as int, line.len() as int)),
        },
        None => None,
    }
}

/// The material names that `lines` list: after a line that starts with `Materials[`, each line
/// up to one that starts with `}` names a material between `'`s, but for lines that start with
/// `{`. `inside` says whether the list has begun. `None` where a line that should name a
/// material holds no `'`.
pub open spec fn listed_materials(lines: Seq<Seq<u8>>, inside: bool) -> Option<Seq<Seq<u8>>>
    decreases lines.len(),
{
    if lines.len() == 0 {
        Some(Seq::empty())
    } else {
        let line = lines[0];
        let rest = lines.subrange(1, lines.len() as int);
        if !inside {
            listed_materials(rest, starts_with(line, "Materials[".spec_bytes()))
        } else if starts_with(line, "{".spec_bytes()) {
            listed_materials(rest, true)
        } else if starts_with(line, "}".spec_bytes()) {
            Some(Seq::empty())
        } else {
            match quoted_name(line) {
                Some(name) => match listed_materials(rest, true) {
                    Some(names) => Some(seq![name] + names),
                    None => None,
                },
                None => None,
            }
        }
    }
}

/// The material names that a car mesh's properties file lists.
pub open spec fn car_materials_of(props: Seq<u8>) -> Option<Seq<Seq<u8>>> {
    listed_materials(text_lines(props), false)
}

/// `names` put in front of what the rest lists.
pub open spec fn after_names(names: Seq<Seq<u8>>, rest: Option<Seq<Seq<u8>>>) -> Option<Seq<Seq<u8>>> {
    match rest {
        Some(more) => Some(names + more),
        None => None,
    }
}

/// Whether `s` starts with `p`, as `starts_with` says.
fn starts_with_bytes(s: &[u8], p: &[u8]) -> (r: bool)
    ensures
        r == starts_with(s@, p@),
{
    if p.len() > s.len() {
        return false;
    }
    let mut k: usize = 0;
    while k < p.len()
        invariant
            p@.len() <= s@.len(),
            k <= p@.len(),
            forall|j: int| 0 <= j < k ==> s@[j] == p@[j],
        decreases p@.len() - k,
    {
        if s[k] != p[k] {
            return false;
        }
        k += 1;
    }
    assert(s@.take(p@.len() as int) =~= p@);
    true
}

/// The name between `'`s in `line`, as `quoted_name` says.
fn quoted(line: &[u8]) -> (r: Option<Vec<u8>>)
    ensures
        r matches Some(v) ==> quoted_name(line@) == Some(v@),
        r is None ==> quoted_name(line@) is None,
{
    match find_byte(line, QUOTE, 0) {
        None => None,
        Some(i) => {
            proof {
                lemma_find_from_bounds(line@, QUOTE, 0);
            }
            let n = line.len();
            let end = match find_byte(line, QUOTE, i + 1) {
                Some(j) => j,
                None => n,
            };
            proof {
                lemma_find_from_bounds(line@, QUOTE, (i + 1) as nat);
            }
            Some(vstd::slice::slice_to_vec(vstd::slice::slice_subrange(line, i + 1, end)))
        },
    }
}

/// The material names that the car mesh's properties file `props` lists, as
/// `car_materials_of` says: `None` where a line that should name a material holds no `'`.
pub fn car_material_names(props: &[u8]) -> (r: Option<Vec<Vec<u8>>>)
    ensures
        r is Some <==> car_materials_of(props@) is Some,
        r matches Some(v) ==> car_materials_of(props@) == Some(v.deep_view()),
{
    let lines = split_lines(props);
    let ghost all = lines.deep_view();
    let mut out: Vec<Vec<u8>> = Vec::new();
    let mut inside = false;
    let mut i: usize = 0;
    assert(all.subrange(0, all.len() as int) =~= all);
    while i < lines.len()
        invariant
            i <= lines@.len(),
            all == lines.deep_view(),
            all == text_lines(props@),
            all.len() == lines@.len(),
            listed_materials(all, false) == after_names(
                out.deep_view(),
                listed_materials(all.subrange(i as int, all.len() as int), inside),
            ),
        decreases lines@.len() - i,
    {
        let ghost rest = all.subrange(i as int, all.len() as int);
        let line = lines[i].as_slice();
        assert(line@ == rest[0]) by {
            assert(lines[i as int].deep_view() =~= lines[i as int]@);
        }
        assert(rest.subrange(1, rest.len() as int) =~= all.subrange(i + 1, all.len() as int));
        if !inside {
            inside = starts_with_bytes(line, "Materials[".as_bytes());
        } else if starts_with_bytes(line, "{".as_bytes()) {
        } else if starts_with_bytes(line, "}".as_bytes()) {
            assert(listed_materials(rest, true) == Some(Seq::<Seq<u8>>::empty()));
            assert(out.deep_view() + Seq::<Seq<u8>>::empty() =~= out.deep_view());
            return Some(out);
        } else {
            match quoted(line) {
                Some(name) => {
                    let ghost before = out.deep_view();
                    assert(name.deep_view() =~= name@);
                    out.push(name);
                    assert(out.deep_view() =~= before.push(name@));
                    proof {
                        match listed_materials(all.subrange(i + 1, all.len() as int), true) {
                            Some(more) => {
                                assert(before + (seq![name@] + more) =~= before.push(name@) + more);
                            },
                            None => {},
                        }
                    }
                },
                None => {
                    return None;
                },
            }
        }
        i += 1;
    }
    assert(all.subrange(i as int, all.len() as int) =~= Seq::<Seq<u8>>::empty());
    assert(out.deep_view() + Seq::<Seq<u8>>::empty() =~= out.deep_view());
    Some(out)
}


/// The body a car is drawn with.
#[derive(Clone, Copy, Debug, PartialEq, Eq, Structural)]
pub enum CarBody {
    Octane,
    Dominus,
    Plank,
    Breakout,
    Hybrid,
    Merc,
}

/// Whether the float with bits `x` lies in `[lo, hi)`, for the bits `lo` and `hi` of two
/// positive floats: positive floats order as their bits do, and a negative float or a NaN lies
/// in no such range.
pub open spec fn in_float_range(x: F32Bits, lo: u32, hi: u32) -> bool {
    lo <= x.0 < hi
}

/// The body of a car by the length of its hitbox: 120 to 121 an octane, 130 to 131 a dominus,
/// 131 to 132 a plank, 133 to 134 a breakout, 129 to 130 a hybrid, 123 to 124 a merc (each
/// range with its start and without its end), and an octane for any other length.
pub open spec fn body_of_length(x: F32Bits) -> CarBody {
    if in_float_range(x, 0x42f0_0000, 0x42f2_0000) {
        CarBody::Octane
    } else if in_float_range(x, 0x4302_0000, 0x4303_0000) {
        CarBody::Dominus
    } else if in_float_range(x, 0x4303_0000, 0x4304_0000) {
        CarBody::Plank
    } else if in_float_range(x, 0x4305_0000, 0x4306_0000) {
        CarBody::Breakout
    } else if in_float_range(x, 0x4301_0000, 0x4302_0000) {
        CarBody::Hybrid
    } else if in_float_range(x, 0x42f6_0000, 0x42f8_0000) {
        CarBody::Merc
    } else {
        CarBody::Octane
    }
}

/// The package name of the mesh of a car body.
pub open spec fn body_mesh(body: CarBody) -> Seq<u8> {
    match body {
        CarBody::Octane => "Body_Octane.SkeletalMesh3.Body_Octane_SK".spec_bytes(),
        CarBody::Dominus => "Body_MuscleCar.SkeletalMesh3.Body_MuscleCar_SK".spec_bytes(),
        CarBody::Plank => "Body_Darkcar.SkeletalMesh3.Body_Darkcar_SK".spec_bytes(),
        CarBody::Breakout => "Body_Force.SkeletalMesh3.Body_Force_PremiumSkin_SK".spec_bytes(),
        CarBody::Hybrid => "Body_Venom.SkeletalMesh3.Body_Venom_PremiumSkin_SK".spec_bytes(),
        CarBody::Merc => "Body_Vanquish.SkeletalMesh3.Body_Merc_PremiumSkin_SK".spec_bytes(),
    }
}

impl CarBody {
    /// The body of a car with this configuration, as `body_of_length` says of the length of
    /// its hitbox.
    pub fn of_config(config: &CarConfig) -> (r: CarBody)
        ensures
            r == body_of_length(config.hitbox_size.x),
    {
        let x = config.hitbox_size.x.0;
        if 0x42f0_0000 <= x && x < 0x42f2_0000 {
            CarBody::Octane
        } else if 0x4302_0000 <= x && x < 0x4303_0000 {
            CarBody::Dominus
        } else if 0x4303_0000 <= x && x < 0x4304_0000 {
            CarBody::Plank
        } else if 0x4305_0000 <= x && x < 0x4306_0000 {
            CarBody::Breakout
        } else if 0x4301_0000 <= x && x < 0x4302_0000 {
            CarBody::Hybrid
        } else if 0x42f6_0000 <= x && x < 0x42f8_0000 {
            CarBody::Merc
        } else {
            CarBody::Octane
        }
    }

    /// The package name of this body's mesh, as `body_mesh` says.
    pub fn mesh_id(&self) -> (r: &'static str)
        ensures
            r.spec_bytes() == body_mesh(*self),
    {
        match self {
            CarBody::Octane => "Body_Octane.SkeletalMesh3.Body_Octane_SK",
            CarBody::Dominus => "Body_MuscleCar.SkeletalMesh3.Body_MuscleCar_SK",
            CarBody::Plank => "Body_Darkcar.SkeletalMesh3.Body_Darkcar_SK",
            CarBody::Breakout => "Body_Force.SkeletalMesh3.Body_Force_PremiumSkin_SK",
            CarBody::Hybrid => "Body_Venom.SkeletalMesh3.Body_Venom_PremiumSkin_SK",
            CarBody::Merc => "Body_Vanquish.SkeletalMesh3.Body_Merc_PremiumSkin_SK",
        }
    }
}

} // verus!
