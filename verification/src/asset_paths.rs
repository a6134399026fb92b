//! Where the files of a field mesh or material stand: the path of its asset and the path of
//! its cached copy, made from its dotted package name.
use crate::assets::{listed, mesh_loaded, NameList, is_mesh_loaded, is_in_whitelist};
use crate::mesh::{bytes_equal, contains_bytes, contains_seq};
use vstd::prelude::*;
use vstd::string::StringSliceAdditionalSpecFns;

verus! {

/// The byte of `/`, which parts a path.
pub const SLASH: u8 = 0x2f;

/// `s` with every `from` replaced by `to`, matching from the left and never overlapping, as
/// `str::replace` does.
pub open spec fn replaced(s: Seq<u8>, from: Seq<u8>, to: Seq<u8>) -> Seq<u8>
    recommends
        from.len() > 0,
    decreases s.len(),
{
    if s.len() == 0 || from.len() == 0 || s.len() < from.len() {
        s
    } else if s.subrange(0, from.len() as int) == from {
        to + replaced(s.subrange(from.len() as int, s.len() as int), from, to)
    } else {
        seq![s[0]] + replaced(s.subrange(1, s.len() as int), from, to)
    }
}

/// `s` with every `from` replaced by `to`, as `replaced` says.
pub fn replace_all(s: &[u8], from: &[u8], to: &[u8]) -> (r: Vec<u8>)
    requires
        from@.len() > 0,
    ensures
        r@ == replaced(s@, from@, to@),
{
    let n = s.len();
    let m = from.len();
    let mut out: Vec<u8> = Vec::new();
    let mut i: usize = 0;
    assert(s@.subrange(0, n as int) =~= s@);
    while i < n
        invariant
            i <= n,
            n == s@.len(),
            m == from@.len(),
            m > 0,
            replaced(s@, from@, to@) == out@ + replaced(s@.subrange(i as int, n as int), from@, to@),
        decreases n - i,
    {
        let ghost rest = s@.subrange(i as int, n as int);
        if m <= n - i && bytes_equal(vstd::slice::slice_subrange(s, i, i + m), from) {
            assert(rest.subrange(0, m as int) =~= s@.subrange(i as int, i + m));
            assert(rest.subrange(m as int, rest.len() as int) =~= s@.subrange(i + m, n as int));
            let ghost before = out@;
            let mut k: usize = 0;
            while k < to.len()
                invariant
                    k <= to@.len(),
                    out@ == before + to@.take(k as int),
                decreases to@.len() - k,
            {
                out.push(to[k]);
                k += 1;
                assert(out@ =~= before + to@.take(k as int));
            }
            assert(to@.take(k as int) =~= to@);
            i = i + m;
        } else {
            proof {
                if m <= n - i {
                    assert(rest.subrange(0, m as int) =~= s@.subrange(i as int, i + m));
                }
                assert(rest.subrange(1, rest.len() as int) =~= s@.subrange(i + 1, n as int));
            }
            out.push(s[i]);
            i = i + 1;
        }
        assert(replaced(s@, from@, to@) =~= out@ + replaced(s@.subrange(i as int, n as int), from@, to@));
    }
    assert(s@.subrange(n as int, n as int) =~= Seq::<u8>::empty());
    assert(out@ + Seq::<u8>::empty() =~= out@);
    out
}

/// How many times `b` stands in `s`.
pub open spec fn count_of(s: Seq<u8>, b: u8) -> nat
    decreases s.len(),
{
    if s.len() == 0 {
        0
    } else {
        count_of(s.drop_last(), b) + if s.last() == b { 1nat } else { 0nat }
    }
}

/// What follows the last `b` in `s`; all of `s` where `b` does not stand in it.
pub open spec fn tail_after(s: Seq<u8>, b: u8) -> Seq<u8>
    decreases s.len(),
{
    if s.len() == 0 {
        s
    } else if s.last() == b {
        Seq::empty()
    } else {
        tail_after(s.drop_last(), b).push(s.last())
    }
}

/// What comes before the last `b` in `s`.
pub open spec fn head_before(s: Seq<u8>, b: u8) -> Seq<u8> {
    s.take(s.len() - tail_after(s, b).len() - 1)
}

/// Whether `s` ends with `t`.
pub open spec fn ends_with(s: Seq<u8>, t: Seq<u8>) -> bool {
    t.len() <= s.len() && s.subrange(s.len() - t.len(), s.len() as int) == t
}

/// Where `b` stands nowhere in `s`, nothing is counted and the tail is all of `s`.
proof fn lemma_absent(s: Seq<u8>, b: u8)
    requires
        forall|j: int| 0 <= j < s.len() ==> s[j] != b,
    ensures
        count_of(s, b) == 0,
        tail_after(s, b) == s,
    decreases s.len(),
{
    if s.len() > 0 {
        lemma_absent(s.drop_last(), b);
        assert(tail_after(s.drop_last(), b).push(s.last()) =~= s);
    }
}

/// Where `k` is the last place of `b` in `s`, the tail is what follows `k`.
proof fn lemma_tail_at(s: Seq<u8>, b: u8, k: int)
    requires
        0 <= k < s.len(),
        s[k] == b,
        forall|j: int| k < j < s.len() ==> s[j] != b,
    ensures
        tail_after(s, b) == s.subrange(k + 1, s.len() as int),
    decreases s.len(),
{
    if k < s.len() - 1 {
        lemma_tail_at(s.drop_last(), b, k);
        assert(s.drop_last().subrange(k + 1, s.len() - 1).push(s.last()) =~= s.subrange(k + 1, s.len() as int));
    } else {
        assert(s.subrange(k + 1, s.len() as int) =~= Seq::<u8>::empty());
    }
}

/// How many times `b` stands in `s`, as `count_of` says.
pub fn count_byte(s: &[u8], b: u8) -> (r: usize)
    ensures
        r == count_of(s@, b),
{
    let mut c: usize = 0;
    let mut i: usize = 0;
    while i < s.len()
        invariant
            i <= s@.len(),
            c == count_of(s@.take(i as int), b),
            c <= i,
        decreases s@.len() - i,
    {
        assert(s@.take(i + 1).drop_last() =~= s@.take(i as int));
        if s[i] == b {
            c = c + 1;
        }
        i = i + 1;
    }
    assert(s@.take(i as int) =~= s@);
    c
}

/// The last place of `b` in `s`, if it stands there.
pub fn last_index_of(s: &[u8], b: u8) -> (r: Option<usize>)
    ensures
        r is None ==> tail_after(s@, b) == s@ && count_of(s@, b) == 0,
        r matches Some(k) ==> k < s@.len() && s@[k as int] == b && tail_after(s@, b) == s@.subrange(k + 1, s@.len() as int),
{
    let mut i: usize = s.len();
    while i > 0
        invariant
            i <= s@.len(),
            forall|j: int| i <= j < s@.len() ==> s@[j] != b,
        decreases i,
    {
        if s[i - 1] == b {
            proof {
                lemma_tail_at(s@, b, i - 1);
            }
            return Some(i - 1);
        }
        i = i - 1;
    }
    proof {
        lemma_absent(s@, b);
    }
    None
}

/// Appends `src` to `out`.
pub(crate) fn push_all(out: &mut Vec<u8>, src: &[u8])
    ensures
        final(out)@ == old(out)@ + src@,
{
    let mut k: usize = 0;
    while k < src.len()
        invariant
            k <= src@.len(),
            out@ == old(out)@ + src@.take(k as int),
        decreases src@.len() - k,
    {
        out.push(src[k]);
        k = k + 1;
        assert(out@ =~= old(out)@ + src@.take(k as int));
    }
    assert(src@.take(k as int) =~= src@);
}

/// Whether `s` ends with `t`, as `ends_with` says.
fn ends_with_bytes(s: &[u8], t: &[u8]) -> (r: bool)
    ensures
        r == ends_with(s@, t@),
{
    if t.len() > s.len() {
        return false;
    }
    bytes_equal(vstd::slice::slice_subrange(s, s.len() - t.len(), s.len()), t)
}

/// `p` with a folder put between its two parts, where `/` stands in it exactly once.
pub open spec fn with_folder(p: Seq<u8>, folder: Seq<u8>) -> Seq<u8> {
    if count_of(p, SLASH) == 1 {
        head_before(p, SLASH) + "/".spec_bytes() + folder + "/".spec_bytes() + tail_after(p, SLASH)
    } else {
        p
    }
}

/// `p` with `folder` put between its two parts, as `with_folder` says.
fn put_folder(p: Vec<u8>, folder: &[u8]) -> (r: Vec<u8>)
    ensures
        r@ == with_folder(p@, folder@),
{
    if count_byte(p.as_slice(), SLASH) != 1 {
        return p;
    }
    match last_index_of(p.as_slice(), SLASH) {
        None => p,
        Some(k) => {
            let ps = p.as_slice();
            let plen = ps.len();
            let mut out: Vec<u8> = Vec::new();
            push_all(&mut out, vstd::slice::slice_subrange(ps, 0, k));
            push_all(&mut out, "/".as_bytes());
            push_all(&mut out, folder);
            push_all(&mut out, "/".as_bytes());
            push_all(&mut out, vstd::slice::slice_subrange(ps, k + 1, plen));
            assert(p@.subrange(0, k as int) =~= head_before(p@, SLASH));
            out
        },
    }
}

/// The path of a mesh's asset without its extension: the package name with its meshes,
/// collision and material folders read as `StaticMesh3`, each `.` read as `/`, and
/// `StaticMesh3` put between the two parts of a name of two parts.
pub open spec fn mesh_local_path(name: Seq<u8>) -> Seq<u8> {
    let a = replaced(name, ".Modular".spec_bytes(), "".spec_bytes());
    let b = replaced(a, ".Meshes".spec_bytes(), ".StaticMesh3".spec_bytes());
    let c = replaced(b, ".SM".spec_bytes(), ".StaticMesh3".spec_bytes());
    let d = replaced(c, ".Materials".spec_bytes(), ".StaticMesh3".spec_bytes());
    let e = replaced(d, ".Collision".spec_bytes(), ".StaticMesh3".spec_bytes());
    let f = replaced(e, ".".spec_bytes(), "/".spec_bytes());
    with_folder(f, "StaticMesh3".spec_bytes())
}

/// The extension of a mesh's asset: `psk` for a skeletal mesh, else `pskx`.
pub open spec fn mesh_extension(name: Seq<u8>) -> Seq<u8> {
    if contains_seq(name, ".SkeletalMesh3".spec_bytes()) {
        "psk".spec_bytes()
    } else {
        "pskx".spec_bytes()
    }
}

/// The cached copy of a mesh: `./cache/mesh/`, the last part of its path, `.bin`.
pub open spec fn mesh_cache_path(name: Seq<u8>) -> Seq<u8> {
    "./cache/mesh/".spec_bytes() + tail_after(mesh_local_path(name), SLASH) + ".bin".spec_bytes()
}

/// The asset of a mesh: `./assets/`, its path, `.`, its extension.
pub open spec fn mesh_asset_path(name: Seq<u8>) -> Seq<u8> {
    "./assets/".spec_bytes() + mesh_local_path(name) + ".".spec_bytes() + mesh_extension(name)
}

/// The path of a mesh's asset without its extension, as `mesh_local_path` says.
fn mesh_local(n: &[u8]) -> (r: Vec<u8>)
    ensures
        r@ == mesh_local_path(n@),
{
    proof {
        reveal_strlit(".Modular");
        reveal_strlit(".Meshes");
        reveal_strlit(".SM");
        reveal_strlit(".Materials");
        reveal_strlit(".Collision");
        reveal_strlit(".");
    }
    let a = replace_all(n, ".Modular".as_bytes(), "".as_bytes());
    let b = replace_all(a.as_slice(), ".Meshes".as_bytes(), ".StaticMesh3".as_bytes());
    let c = replace_all(b.as_slice(), ".SM".as_bytes(), ".StaticMesh3".as_bytes());
    let d = replace_all(c.as_slice(), ".Materials".as_bytes(), ".StaticMesh3".as_bytes());
    let e = replace_all(d.as_slice(), ".Collision".as_bytes(), ".StaticMesh3".as_bytes());
    let f = replace_all(e.as_slice(), ".".as_bytes(), "/".as_bytes());
    put_folder(f, "StaticMesh3".as_bytes())
}

/// The cached copy and the asset of the mesh named `name`, where the mesh is loaded.
pub fn mesh_paths(name: &str) -> (r: Option<(Vec<u8>, Vec<u8>)>)
    ensures
        r is None <==> !mesh_loaded(name.spec_bytes()),
        r matches Some((cache, asset)) ==> cache@ == mesh_cache_path(name.spec_bytes())
            && asset@ == mesh_asset_path(name.spec_bytes()),
{
    if !is_mesh_loaded(name) {
        return None;
    }
    let n = name.as_bytes();
    let local = mesh_local(n);
    let local_len = local.len();
    let file_start: usize = match last_index_of(local.as_slice(), SLASH) {
        Some(k) => k + 1,
        None => 0,
    };
    let mut cache: Vec<u8> = Vec::new();
    push_all(&mut cache, "./cache/mesh/".as_bytes());
    push_all(&mut cache, vstd::slice::slice_subrange(local.as_slice(), file_start, local_len));
    push_all(&mut cache, ".bin".as_bytes());
    let mut asset: Vec<u8> = Vec::new();
    push_all(&mut asset, "./assets/".as_bytes());
    push_all(&mut asset, local.as_slice());
    push_all(&mut asset, ".".as_bytes());
    if contains_bytes(n, ".SkeletalMesh3".as_bytes()) {
        push_all(&mut asset, "psk".as_bytes());
    } else {
        push_all(&mut asset, "pskx".as_bytes());
    }
    proof {
        if file_start == 0 {
            assert(local@.subrange(0, local@.len() as int) =~= local@);
        }
    }
    Some((cache, asset))
}


/// Whether the material named `name` is a material instance: its name ends in `MIC` or `Mic`
/// or holds `.MIC_`.
pub open spec fn is_material_instance(name: Seq<u8>) -> bool {
    ends_with(name, "MIC".spec_bytes()) || contains_seq(name, ".MIC_".spec_bytes()) || ends_with(
        name,
        "Mic".spec_bytes(),
    )
}

/// The folder of a material's files: material instances, whose names end in `MIC` or `Mic` or
/// hold `.MIC_`, stand in `.MaterialInstanceConstant.`, the others in `.Material3.`.
pub open spec fn material_folder(name: Seq<u8>) -> Seq<u8> {
    if is_material_instance(name) {
        ".MaterialInstanceConstant.".spec_bytes()
    } else {
        ".Material3.".spec_bytes()
    }
}

/// The path of a material's files: the package name with its material folder read as the
/// folder of its files, each `.` read as `/`, and that folder put between the two parts of a
/// name of two parts.
pub open spec fn material_local_path(name: Seq<u8>) -> Seq<u8> {
    let folder = material_folder(name);
    let a = replaced(name, ".Materials.".spec_bytes(), folder);
    let b = replaced(a, ".Mat.".spec_bytes(), folder);
    let c = replaced(b, ".".spec_bytes(), "/".spec_bytes());
    with_folder(c, material_folder_name(name))
}

/// The folder of a material's files without its dots.
pub open spec fn material_folder_name(name: Seq<u8>) -> Seq<u8> {
    if is_material_instance(name) {
        "MaterialInstanceConstant".spec_bytes()
    } else {
        "Material3".spec_bytes()
    }
}

/// The cached copy of a material: `./cache/material/`, the last part of its path, `.bin`.
pub open spec fn material_cache_path(name: Seq<u8>) -> Seq<u8> {
    "./cache/material/".spec_bytes() + tail_after(material_local_path(name), SLASH) + ".bin".spec_bytes()
}

/// Whether the material named `name` is read from its files: its name is not empty and is
/// one of the chosen materials.
pub open spec fn material_read_from_files(name: Seq<u8>) -> bool {
    name.len() > 0 && listed(name, NameList::WhitelistMats)
}

/// The folder of a material's files, with and without its dots, as `material_folder` and
/// `material_folder_name` say.
fn folder_of(n: &[u8]) -> (r: (&'static str, &'static str))
    ensures
        r.0.spec_bytes() == material_folder(n@),
        r.1.spec_bytes() == material_folder_name(n@),
{
    if ends_with_bytes(n, "MIC".as_bytes()) || contains_bytes(n, ".MIC_".as_bytes()) || ends_with_bytes(
        n,
        "Mic".as_bytes(),
    ) {
        (".MaterialInstanceConstant.", "MaterialInstanceConstant")
    } else {
        (".Material3.", "Material3")
    }
}

/// The path of a material's files, as `material_local_path` says.
fn material_local(n: &[u8]) -> (r: Vec<u8>)
    ensures
        r@ == material_local_path(n@),
{
    let (folder, folder_name) = folder_of(n);
    proof {
        reveal_strlit(".Materials.");
        reveal_strlit(".Mat.");
        reveal_strlit(".");
    }
    let fb = folder.as_bytes();
    let a = replace_all(n, ".Materials.".as_bytes(), fb);
    let b = replace_all(a.as_slice(), ".Mat.".as_bytes(), fb);
    let c = replace_all(b.as_slice(), ".".as_bytes(), "/".as_bytes());
    put_folder(c, folder_name.as_bytes())
}

/// The cached copy of the material named `name` and the path of its files, where the material
/// is read from its files.
pub fn material_paths(name: &str) -> (r: Option<(Vec<u8>, Vec<u8>)>)
    ensures
        r is None <==> !material_read_from_files(name.spec_bytes()),
        r matches Some((cache, path)) ==> cache@ == material_cache_path(name.spec_bytes())
            && path@ == material_local_path(name.spec_bytes()),
{
    let n = name.as_bytes();
    if n.len() == 0 || !is_in_whitelist(name) {
        return None;
    }
    let local = material_local(n);
    let local_len = local.len();
    let file_start: usize = match last_index_of(local.as_slice(), SLASH) {
        Some(k) => k + 1,
        None => 0,
    };
    let mut cache: Vec<u8> = Vec::new();
    push_all(&mut cache, "./cache/material/".as_bytes());
    push_all(&mut cache, vstd::slice::slice_subrange(local.as_slice(), file_start, local_len));
    push_all(&mut cache, ".bin".as_bytes());
    proof {
        if file_start == 0 {
            assert(local@.subrange(0, local@.len() as int) =~= local@);
        }
    }
    Some((cache, local))
}

} // verus!
