//! The meshes of the default field, read from two raw files: one of `u32` vertex ids, three per
//! triangle, and one of `f32` vertex coordinates, three per vertex. Meshes combine into one by
//! putting their vertices one after another and moving each mesh's ids past the vertices before
//! it.
use crate::bytes::{u32_from_le, F32Bits, FromBytes};
use crate::rocketsim::Vec3;
use vstd::prelude::*;

verus! {

/// The `u32` whose little-endian bytes stand at `pos` in `s`.
pub open spec fn word_at(s: Seq<u8>, pos: int) -> u32 {
    u32_from_le(s.subrange(pos, pos + 4))
}

/// The ids that an ids file holds: one per four bytes, left-over bytes ignored.
pub open spec fn ids_of(ids_dat: Seq<u8>) -> Seq<usize> {
    Seq::new(ids_dat.len() / 4, |i: int| word_at(ids_dat, 4 * i) as usize)
}

/// The vertices that a vertices file holds: one per twelve bytes (x, y, z), left-over bytes
/// ignored.
pub open spec fn vertices_of(vertices_dat: Seq<u8>) -> Seq<Vec3> {
    Seq::new(
        vertices_dat.len() / 4 / 3,
        |i: int|
            Vec3 {
                x: F32Bits(word_at(vertices_dat, 12 * i)),
                y: F32Bits(word_at(vertices_dat, 12 * i + 4)),
                z: F32Bits(word_at(vertices_dat, 12 * i + 8)),
            },
    )
}

/// A collection of inter-connected triangles: vertex ids, three per triangle, into the vertices.
pub struct MeshBuilder {
    ids: Vec<usize>,
    vertices: Vec<Vec3>,
}

impl MeshBuilder {
    /// The vertex ids, three per triangle.
    pub closed spec fn id_seq(&self) -> Seq<usize> {
        self.ids@
    }

    /// The vertices.
    pub closed spec fn vertex_seq(&self) -> Seq<Vec3> {
        self.vertices@
    }

    /// Reads a mesh from its ids file and its vertices file.
    pub fn from_bytes(ids_dat: &[u8], vertices_dat: &[u8]) -> (r: Self)
        ensures
            r.id_seq() == ids_of(ids_dat@),
            r.vertex_seq() == vertices_of(vertices_dat@),
    {
        let ilen = ids_dat.len();
        let ids_len = ilen / 4;
        let mut ids: Vec<usize> = Vec::with_capacity(ids_len);
        let mut i: usize = 0;
        while i < ids_len
            invariant
                i <= ids_len,
                ilen == ids_dat@.len(),
                ids_len == ilen / 4,
                ids@ == ids_of(ids_dat@).take(i as int),
            decreases ids_len - i,
        {
            assert(4 * i + 4 <= ilen) by (nonlinear_arith)
                requires
                    i < ids_len,
                    ids_len == ilen / 4,
            ;
            let word = u32::from_bytes(vstd::slice::slice_subrange(ids_dat, 4 * i, 4 * i + 4)).unwrap();
            ids.push(word as usize);
            i += 1;
            assert(ids@ =~= ids_of(ids_dat@).take(i as int));
        }
        assert(ids_of(ids_dat@).take(i as int) =~= ids_of(ids_dat@));
        let vlen = vertices_dat.len();
        let count = vlen / 4 / 3;
        let mut vertices: Vec<Vec3> = Vec::with_capacity(count);
        let mut k: usize = 0;
        while k < count
            invariant
                k <= count,
                vlen == vertices_dat@.len(),
                count == vlen / 4 / 3,
                vertices@ == vertices_of(vertices_dat@).take(k as int),
            decreases count - k,
        {
            assert(12 * k + 12 <= vlen) by (nonlinear_arith)
                requires
                    k < count,
                    count == vlen / 4 / 3,
            ;
            let at = 12 * k;
            let x = u32::from_bytes(vstd::slice::slice_subrange(vertices_dat, at, at + 4)).unwrap();
            let y = u32::from_bytes(vstd::slice::slice_subrange(vertices_dat, at + 4, at + 8)).unwrap();
            let z = u32::from_bytes(vstd::slice::slice_subrange(vertices_dat, at + 8, at + 12)).unwrap();
            vertices.push(Vec3 { x: F32Bits(x), y: F32Bits(y), z: F32Bits(z) });
            k += 1;
            assert(vertices@ =~= vertices_of(vertices_dat@).take(k as int));
        }
        assert(vertices_of(vertices_dat@).take(k as int) =~= vertices_of(vertices_dat@));
        MeshBuilder { ids, vertices }
    }

    /// A mesh of the given ids and vertices.
    pub fn new(ids: Vec<usize>, vertices: Vec<Vec3>) -> (r: Self)
        ensures
            r.id_seq() == ids@,
            r.vertex_seq() == vertices@,
    {
        MeshBuilder { ids, vertices }
    }

    /// Combines meshes into one: their vertices one after another, and each mesh's ids moved
    /// past the vertices of the meshes before it. The moved ids must fit a `usize`.
    pub fn combine<const N: usize>(other_meshes: [Self; N]) -> (r: Self)
        requires
            combined_vertices(parts_of(other_meshes@)).len() <= usize::MAX,
            forall|j: int|
                0 <= j < combined_ids(parts_of(other_meshes@)).len() ==> #[trigger] combined_ids(
                    parts_of(other_meshes@),
                )[j] <= usize::MAX,
        ensures
            r.id_seq().map_values(|id: usize| id as int) == combined_ids(parts_of(other_meshes@)),
            r.vertex_seq() == combined_vertices(parts_of(other_meshes@)),
    {
        let ghost parts = parts_of(other_meshes@);
        let mut ids: Vec<usize> = Vec::new();
        let mut vertices: Vec<Vec3> = Vec::new();
        let mut id_offset: usize = 0;
        let mut k: usize = 0;
        while k < N
            invariant
                k <= N,
                parts == parts_of(other_meshes@),
                parts.len() == N,
                combined_vertices(parts).len() <= usize::MAX,
                forall|j: int| 0 <= j < combined_ids(parts).len() ==> #[trigger] combined_ids(parts)[j] <= usize::MAX,
                ids@.map_values(|id: usize| id as int) == combined_ids(parts.take(k as int)),
                vertices@ == combined_vertices(parts.take(k as int)),
                id_offset == vertices@.len(),
            decreases N - k,
        {
            let m = &other_meshes[k];
            proof {
                assert(parts.take(k + 1).drop_last() =~= parts.take(k as int));
                lemma_combined_prefix(parts, k + 1);
            }
            let ghost before = ids@.map_values(|id: usize| id as int);
            let mut j: usize = 0;
            while j < m.ids.len()
                invariant
                    j <= m.ids@.len(),
                    id_offset == combined_vertices(parts.take(k as int)).len(),
                    m.ids@ == parts[k as int].0,
                    before == combined_ids(parts.take(k as int)),
                    forall|t: int| 0 <= t < combined_ids(parts.take(k + 1)).len() ==> #[trigger] combined_ids(parts.take(k + 1))[t] <= usize::MAX,
                    combined_ids(parts.take(k + 1)) == before + parts[k as int].0.map_values(
                        |id: usize| id + id_offset,
                    ),
                    ids@.map_values(|id: usize| id as int) == before + parts[k as int].0.take(j as int).map_values(
                        |id: usize| id + id_offset,
                    ),
                decreases m.ids@.len() - j,
            {
                assert(combined_ids(parts.take(k + 1))[before.len() + j] == m.ids@[j as int] + id_offset);
                let moved = m.ids[j] + id_offset;
                let ghost prev = ids@;
                ids.push(moved);
                proof {
                    assert(ids@.map_values(|id: usize| id as int) =~= prev.map_values(|id: usize| id as int).push(moved as int));
                    assert(parts[k as int].0.take(j + 1).map_values(|id: usize| id + id_offset) =~= parts[k as int].0.take(
                        j as int,
                    ).map_values(|id: usize| id + id_offset).push(parts[k as int].0[j as int] + id_offset));
                }
                j += 1;
                assert(ids@.map_values(|id: usize| id as int) =~= before + parts[k as int].0.take(j as int).map_values(
                    |id: usize| id + id_offset,
                ));
            }
            assert(parts[k as int].0.take(j as int) =~= parts[k as int].0);
            let mut v: usize = 0;
            let ghost vbefore = vertices@;
            while v < m.vertices.len()
                invariant
                    v <= m.vertices@.len(),
                    m.vertices@ == parts[k as int].1,
                    vertices@ == vbefore + parts[k as int].1.take(v as int),
                decreases m.vertices@.len() - v,
            {
                vertices.push(m.vertices[v]);
                v += 1;
                assert(vertices@ =~= vbefore + parts[k as int].1.take(v as int));
            }
            assert(parts[k as int].1.take(v as int) =~= parts[k as int].1);
            id_offset = vertices.len();
            k += 1;
        }
        assert(parts.take(N as int) =~= parts);
        MeshBuilder { ids, vertices }
    }

    /// The vertex ids, three per triangle.
    pub fn ids(&self) -> (r: &Vec<usize>)
        ensures
            r@ == self.id_seq(),
    {
        &self.ids
    }

    /// The vertices.
    pub fn vertices(&self) -> (r: &Vec<Vec3>)
        ensures
            r@ == self.vertex_seq(),
    {
        &self.vertices
    }
}

/// The ids and vertices of each mesh.
pub open spec fn parts_of(meshes: Seq<MeshBuilder>) -> Seq<(Seq<usize>, Seq<Vec3>)> {
    meshes.map_values(|m: MeshBuilder| (m.id_seq(), m.vertex_seq()))
}

/// The vertices of meshes, one mesh after another.
pub open spec fn combined_vertices(parts: Seq<(Seq<usize>, Seq<Vec3>)>) -> Seq<Vec3>
    decreases parts.len(),
{
    if parts.len() == 0 {
        Seq::empty()
    } else {
        combined_vertices(parts.drop_last()) + parts.last().1
    }
}

/// The ids of meshes, one mesh after another, each moved past the vertices before its mesh.
pub open spec fn combined_ids(parts: Seq<(Seq<usize>, Seq<Vec3>)>) -> Seq<int>
    decreases parts.len(),
{
    if parts.len() == 0 {
        Seq::empty()
    } else {
        let offset = combined_vertices(parts.drop_last()).len();
        combined_ids(parts.drop_last()) + parts.last().0.map_values(|id: usize| id + offset)
    }
}

/// Combining more meshes never takes back ids or vertices: the combination of the first `k`
/// meshes begins the combination of all.
proof fn lemma_combined_prefix(parts: Seq<(Seq<usize>, Seq<Vec3>)>, k: int)
    requires
        0 <= k <= parts.len(),
    ensures
        combined_ids(parts.take(k)).len() <= combined_ids(parts).len(),
        forall|t: int| 0 <= t < combined_ids(parts.take(k)).len() ==> #[trigger] combined_ids(parts.take(k))[t] == combined_ids(parts)[t],
        combined_vertices(parts.take(k)).len() <= combined_vertices(parts).len(),
        forall|t: int| 0 <= t < combined_vertices(parts.take(k)).len() ==> #[trigger] combined_vertices(parts.take(k))[t] == combined_vertices(parts)[t],
    decreases parts.len(),
{
    if k == parts.len() {
        assert(parts.take(k) =~= parts);
    } else {
        assert(parts.drop_last().take(k) =~= parts.take(k));
        lemma_combined_prefix(parts.drop_last(), k);
    }
}

/// Combining keeps every triangle: the `j`-th id of mesh `k` turns up, moved past the vertices
/// of the meshes before it, at the matching place of the combined ids, and the vertex it then
/// names is the one it named in its own mesh.
pub proof fn lemma_combine_keeps_triangles(parts: Seq<(Seq<usize>, Seq<Vec3>)>, k: int, j: int)
    requires
        0 <= k < parts.len(),
        0 <= j < parts[k].0.len(),
    ensures
        ({
            let id_at = combined_ids(parts.take(k)).len() + j;
            let offset = combined_vertices(parts.take(k)).len();
            let id = parts[k].0[j];
            &&& id_at < combined_ids(parts).len()
            &&& combined_ids(parts)[id_at] == id + offset
            &&& id < parts[k].1.len() ==> combined_vertices(parts)[id + offset] == parts[k].1[id as int]
        }),
{
    lemma_combined_prefix(parts, k + 1);
    assert(parts.take(k + 1).drop_last() =~= parts.take(k));
    let id_at = combined_ids(parts.take(k)).len() + j;
    let offset = combined_vertices(parts.take(k)).len();
    let id = parts[k].0[j];
    assert(combined_ids(parts.take(k + 1))[id_at] == id + offset);
    if id < parts[k].1.len() {
        assert(combined_vertices(parts.take(k + 1))[id + offset] == parts[k].1[id as int]);
    }
}

} // verus!
