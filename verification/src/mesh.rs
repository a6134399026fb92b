//! Meshes read from Rocket League `.pskx` files.
//!
//! A file is a 32-byte header that starts with `ACTRHEAD` and twelve zero bytes, then chunks.
//! A chunk is a 32-byte header (an eight-byte id, then at byte 24 the size of one record and at
//! byte 28 the number of records, both `i32`) followed by its records. Points give the vertex
//! positions, wedges tie a vertex to texture coordinates and a material, faces are three wedges
//! each; material, vertex color and extra texture coordinate chunks complete the mesh. Floats
//! stay as their bits.
use crate::bytes::{u16_from_le, u32_from_le, F32Bits, FromBytes};
use crate::rocketsim::GameMode;
use vstd::prelude::*;
use vstd::string::StringSliceAdditionalSpecFns;

verus! {

/// Texture coordinates of a vertex.
#[derive(Clone, Copy, Debug, PartialEq, Eq, Structural)]
pub struct Uv {
    pub u: F32Bits,
    pub v: F32Bits,
}

/// The color of a vertex, one byte per channel.
#[derive(Clone, Copy, Debug, PartialEq, Eq, Structural)]
pub struct VertexColor {
    pub r: u8,
    pub g: u8,
    pub b: u8,
    pub a: u8,
}

/// A corner of a face: the vertex it uses.
#[derive(Clone, Copy, Debug, PartialEq, Eq, Structural)]
pub struct Wedge {
    pub vertex_id: u32,
}

/// The `u32` whose little-endian bytes stand at `pos` in `s`.
pub open spec fn u32_at(s: Seq<u8>, pos: int) -> u32 {
    u32_from_le(s.subrange(pos, pos + 4))
}

/// The `u16` whose little-endian bytes stand at `pos` in `s`.
pub open spec fn u16_at(s: Seq<u8>, pos: int) -> u16 {
    u16_from_le(s.subrange(pos, pos + 2))
}

/// The float whose little-endian bits stand at `pos` in `s`.
pub open spec fn f32_at(s: Seq<u8>, pos: int) -> F32Bits {
    F32Bits(u32_at(s, pos))
}

/// The negation of a float: its sign bit flipped.
pub open spec fn negated(x: F32Bits) -> F32Bits {
    F32Bits(x.0 ^ 0x8000_0000u32)
}

/// Reads the `u32` at `pos`.
fn read_u32_at(s: &[u8], pos: usize) -> (r: u32)
    requires
        pos + 4 <= s@.len(),
    ensures
        r == u32_at(s@, pos as int),
{
    let len = s.len();
    u32::from_bytes(vstd::slice::slice_subrange(s, pos, pos + 4)).unwrap()
}

/// Reads the `u16` at `pos`.
fn read_u16_at(s: &[u8], pos: usize) -> (r: u16)
    requires
        pos + 2 <= s@.len(),
    ensures
        r == u16_at(s@, pos as int),
{
    let len = s.len();
    u16::from_bytes(vstd::slice::slice_subrange(s, pos, pos + 2)).unwrap()
}

/// Reads the float at `pos`.
fn read_f32_at(s: &[u8], pos: usize) -> (r: F32Bits)
    requires
        pos + 4 <= s@.len(),
    ensures
        r == f32_at(s@, pos as int),
{
    F32Bits(read_u32_at(s, pos))
}

/// The coordinates of the first `n` points, 12 bytes each (x, y, z), laid out as x, z and the
/// negated y: the file's z-up frame turned into the viewer's y-up frame.
pub open spec fn point_coords(data: Seq<u8>, n: nat) -> Seq<F32Bits>
    decreases n,
{
    if n == 0 {
        Seq::empty()
    } else {
        let at = (n - 1) * 12;
        point_coords(data, (n - 1) as nat) + seq![
            f32_at(data, at),
            f32_at(data, at + 8),
            negated(f32_at(data, at + 4)),
        ]
    }
}

/// Appends the coordinates of `data_count` points, with zero texture coordinates and material 0
/// for each.
pub fn read_vertices(
    chunk_data: &[u8],
    data_count: usize,
    vertices: &mut Vec<F32Bits>,
    uvs: &mut Vec<Uv>,
    mat_ids: &mut Vec<usize>,
)
    requires
        data_count * 12 <= chunk_data@.len(),
    ensures
        final(vertices)@ == old(vertices)@ + point_coords(chunk_data@, data_count as nat),
        final(uvs)@ == old(uvs)@ + Seq::new(data_count as nat, |i: int| Uv { u: F32Bits(0), v: F32Bits(0) }),
        final(mat_ids)@ == old(mat_ids)@ + Seq::new(data_count as nat, |i: int| 0usize),
{
    let ghost v0 = vertices@;
    let ghost u0 = uvs@;
    let ghost m0 = mat_ids@;
    let data_len = chunk_data.len();
    let mut i: usize = 0;
    while i < data_count
        invariant
            i <= data_count,
            data_len == chunk_data@.len(),
            data_count * 12 <= chunk_data@.len(),
            vertices@ == v0 + point_coords(chunk_data@, i as nat),
            uvs@ == u0 + Seq::new(i as nat, |k: int| Uv { u: F32Bits(0), v: F32Bits(0) }),
            mat_ids@ == m0 + Seq::new(i as nat, |k: int| 0usize),
        decreases data_count - i,
    {
        assert(i * 12 + 12 <= data_count * 12) by (nonlinear_arith)
            requires
                i < data_count,
        ;
        let at = i * 12;
        let x = read_f32_at(chunk_data, at);
        let y = read_f32_at(chunk_data, at + 4);
        let z = read_f32_at(chunk_data, at + 8);
        vertices.push(x);
        vertices.push(z);
        vertices.push(F32Bits(y.0 ^ 0x8000_0000u32));
        uvs.push(Uv { u: F32Bits(0), v: F32Bits(0) });
        mat_ids.push(0);
        i += 1;
        assert(vertices@ =~= v0 + point_coords(chunk_data@, i as nat));
        assert(uvs@ =~= u0 + Seq::new(i as nat, |k: int| Uv { u: F32Bits(0), v: F32Bits(0) }));
        assert(mat_ids@ =~= m0 + Seq::new(i as nat, |k: int| 0usize));
    }
}

/// The texture coordinates, materials and wedges after the first `n` wedge records (16 bytes
/// each: vertex id, u, v, material, three padding bytes) are applied: each record gives its
/// vertex its coordinates and material, later records winning. `None` where a record names a
/// vertex that does not exist.
pub open spec fn applied_wedges(
    uvs: Seq<Uv>,
    mat_ids: Seq<usize>,
    wedges: Seq<Wedge>,
    data: Seq<u8>,
    n: nat,
) -> Option<(Seq<Uv>, Seq<usize>, Seq<Wedge>)>
    decreases n,
{
    if n == 0 {
        Some((uvs, mat_ids, wedges))
    } else {
        match applied_wedges(uvs, mat_ids, wedges, data, (n - 1) as nat) {
            Some((u, m, w)) => {
                let at = (n - 1) * 16;
                let id = u32_at(data, at);
                if id < u.len() && id < m.len() {
                    Some(
                        (
                            u.update(id as int, Uv { u: f32_at(data, at + 4), v: f32_at(data, at + 8) }),
                            m.update(id as int, data[at + 12] as usize),
                            w.push(Wedge { vertex_id: id }),
                        ),
                    )
                } else {
                    None
                }
            },
            None => None,
        }
    }
}

/// Applies `data_count` wedge records, as `applied_wedges` says; every record must name an
/// existing vertex.
pub fn read_wedges(
    chunk_data: &[u8],
    data_count: usize,
    wedges: &mut Vec<Wedge>,
    uvs: &mut Vec<Uv>,
    mat_ids: &mut Vec<usize>,
)
    requires
        data_count * 16 <= chunk_data@.len(),
        applied_wedges(old(uvs)@, old(mat_ids)@, old(wedges)@, chunk_data@, data_count as nat) is Some,
    ensures
        applied_wedges(old(uvs)@, old(mat_ids)@, old(wedges)@, chunk_data@, data_count as nat)
            == Some((final(uvs)@, final(mat_ids)@, final(wedges)@)),
{
    apply_wedges(chunk_data, data_count, wedges, uvs, mat_ids);
}

/// The vertex ids of the first `n` faces (12 bytes each: three wedge indices, two material
/// bytes, smoothing groups), each face's first two corners swapped to turn its winding. `None`
/// where a face names a wedge that does not exist.
pub open spec fn face_ids(wedges: Seq<Wedge>, data: Seq<u8>, n: nat) -> Option<Seq<u32>>
    decreases n,
{
    if n == 0 {
        Some(Seq::empty())
    } else {
        match face_ids(wedges, data, (n - 1) as nat) {
            Some(ids) => {
                let at = (n - 1) * 12;
                let a = u16_at(data, at);
                let b = u16_at(data, at + 2);
                let c = u16_at(data, at + 4);
                if a < wedges.len() && b < wedges.len() && c < wedges.len() {
                    Some(ids + seq![wedges[b as int].vertex_id, wedges[a as int].vertex_id, wedges[c as int].vertex_id])
                } else {
                    None
                }
            },
            None => None,
        }
    }
}

/// Appends the vertex ids of `data_count` faces, as `face_ids` says; every face must name
/// existing wedges.
pub fn read_faces(chunk_data: &[u8], data_count: usize, wedges: &[Wedge], ids: &mut Vec<u32>)
    requires
        data_count * 12 <= chunk_data@.len(),
        face_ids(wedges@, chunk_data@, data_count as nat) is Some,
    ensures
        final(ids)@ == old(ids)@ + face_ids(wedges@, chunk_data@, data_count as nat)->0,
{
    apply_faces(chunk_data, data_count, wedges, ids);
}

/// The colors of `n` vertices, four bytes each.
pub open spec fn colors_of(data: Seq<u8>, n: nat) -> Seq<VertexColor> {
    Seq::new(
        n,
        |i: int| VertexColor { r: data[4 * i], g: data[4 * i + 1], b: data[4 * i + 2], a: data[4 * i + 3] },
    )
}

/// The colors of `data_count` vertices.
pub fn read_vertex_colors(chunk_data: &[u8], data_count: usize) -> (r: Vec<VertexColor>)
    requires
        data_count * 4 <= chunk_data@.len(),
    ensures
        r@ == colors_of(chunk_data@, data_count as nat),
{
    let mut colors: Vec<VertexColor> = Vec::with_capacity(data_count);
    let data_len = chunk_data.len();
    let mut i: usize = 0;
    while i < data_count
        invariant
            i <= data_count,
            data_len == chunk_data@.len(),
            data_count * 4 <= chunk_data@.len(),
            colors@ == colors_of(chunk_data@, i as nat),
        decreases data_count - i,
    {
        assert(i * 4 + 4 <= data_count * 4) by (nonlinear_arith)
            requires
                i < data_count,
        ;
        let at = i * 4;
        colors.push(
            VertexColor {
                r: chunk_data[at],
                g: chunk_data[at + 1],
                b: chunk_data[at + 2],
                a: chunk_data[at + 3],
            },
        );
        i += 1;
        assert(colors@ =~= colors_of(chunk_data@, i as nat));
    }
    colors
}

/// `n` extra texture coordinates, eight bytes each.
pub open spec fn extra_uvs_of(data: Seq<u8>, n: nat) -> Seq<Uv> {
    Seq::new(n, |i: int| Uv { u: f32_at(data, 8 * i), v: f32_at(data, 8 * i + 4) })
}

/// `data_count` extra texture coordinates.
pub fn read_extra_uvs(chunk_data: &[u8], data_count: usize) -> (r: Vec<Uv>)
    requires
        data_count * 8 <= chunk_data@.len(),
    ensures
        r@ == extra_uvs_of(chunk_data@, data_count as nat),
{
    let mut extra_uvs: Vec<Uv> = Vec::with_capacity(data_count);
    let data_len = chunk_data.len();
    let mut i: usize = 0;
    while i < data_count
        invariant
            i <= data_count,
            data_len == chunk_data@.len(),
            data_count * 8 <= chunk_data@.len(),
            extra_uvs@ == extra_uvs_of(chunk_data@, i as nat),
        decreases data_count - i,
    {
        assert(i * 8 + 8 <= data_count * 8) by (nonlinear_arith)
            requires
                i < data_count,
        ;
        let at = i * 8;
        let u = read_f32_at(chunk_data, at);
        let v = read_f32_at(chunk_data, at + 4);
        extra_uvs.push(Uv { u, v });
        i += 1;
        assert(extra_uvs@ =~= extra_uvs_of(chunk_data@, i as nat));
    }
    extra_uvs
}

/// Where the first zero byte of `w` stands at or after `k`, or the length of `w` where there is
/// none.
pub open spec fn first_zero_from(w: Seq<u8>, k: nat) -> nat
    decreases w.len() - k,
{
    if k >= w.len() {
        w.len()
    } else if w[k as int] == 0 {
        k
    } else {
        first_zero_from(w, k + 1)
    }
}

/// The name bytes of material record `i`: its 64-byte name field up to the first zero byte.
pub open spec fn material_name_bytes(data: Seq<u8>, i: int) -> Seq<u8> {
    let field = data.subrange(88 * i, 88 * i + 64);
    field.subrange(0, first_zero_from(field, 0) as int)
}

/// The text that `String::from_utf8_lossy` makes of `bytes`.
pub uninterp spec fn lossy_text(bytes: Seq<u8>) -> Seq<char>;

/// `String::from_utf8_lossy`, made an owned `String`: the text of `bytes`, each invalid sequence
/// replaced by U+FFFD; for valid UTF-8 the characters that the bytes encode.
#[verifier::external_body]
fn text_from_bytes(bytes: &[u8]) -> (r: String)
    ensures
        r@ == lossy_text(bytes@),
        vstd::utf8::valid_utf8(bytes@) ==> r@ == vstd::utf8::decode_utf8(bytes@),
{
    String::from_utf8_lossy(bytes).into_owned()
}

/// The names of `data_count` materials, 88 bytes each: a 64-byte name field, zero-padded, then
/// 24 bytes of padding.
pub fn read_materials(chunk_data: &[u8], data_count: usize) -> (r: Vec<String>)
    requires
        data_count * 88 <= chunk_data@.len(),
    ensures
        r@.len() == data_count,
        forall|i: int| 0 <= i < data_count ==> (#[trigger] r@[i])@ == lossy_text(material_name_bytes(chunk_data@, i)),
{
    let data_len = chunk_data.len();
    let mut materials: Vec<String> = Vec::with_capacity(data_count);
    let mut i: usize = 0;
    while i < data_count
        invariant
            i <= data_count,
            data_len == chunk_data@.len(),
            data_count * 88 <= chunk_data@.len(),
            materials@.len() == i,
            forall|j: int| 0 <= j < i ==> (#[trigger] materials@[j])@ == lossy_text(material_name_bytes(chunk_data@, j)),
        decreases data_count - i,
    {
        assert(i * 88 + 88 <= data_count * 88) by (nonlinear_arith)
            requires
                i < data_count,
        ;
        let at = i * 88;
        let field = vstd::slice::slice_subrange(chunk_data, at, at + 64);
        let mut k: usize = 0;
        while k < 64 && field[k] != 0
            invariant
                k <= 64,
                field@.len() == 64,
                first_zero_from(field@, 0) == first_zero_from(field@, k as nat),
            decreases 64 - k,
        {
            k += 1;
        }
        let name = text_from_bytes(vstd::slice::slice_subrange(field, 0, k));
        materials.push(name);
        i += 1;
    }
    materials
}

/// Whether `needle` stands somewhere in `hay`.
pub open spec fn contains_seq(hay: Seq<u8>, needle: Seq<u8>) -> bool {
    exists|i: int| 0 <= i && i + needle.len() <= hay.len() && #[trigger] hay.subrange(i, i + needle.len()) == needle
}

/// Whether `needle` stands somewhere in `hay`.
pub(crate) fn contains_bytes(hay: &[u8], needle: &[u8]) -> (r: bool)
    ensures
        r == contains_seq(hay@, needle@),
{
    let n = needle.len();
    let h = hay.len();
    if n > h {
        return false;
    }
    let mut i: usize = 0;
    while i <= h - n
        invariant
            n == needle@.len(),
            h == hay@.len(),
            n <= h,
            i <= h - n + 1,
            forall|j: int| 0 <= j < i ==> #[trigger] hay@.subrange(j, j + n) != needle@,
        decreases h - i,
    {
        let mut k: usize = 0;
        while k < n && hay[i + k] == needle[k]
            invariant
                k <= n,
                i + n <= h,
                n == needle@.len(),
                h == hay@.len(),
                forall|m: int| 0 <= m < k ==> hay@[i + m] == needle@[m],
            decreases n - k,
        {
            k += 1;
        }
        if k == n {
            assert(hay@.subrange(i as int, i + n) =~= needle@);
            return true;
        }
        assert(hay@.subrange(i as int, i + n)[k as int] != needle@[k as int]);
        i += 1;
    }
    assert forall|j: int| 0 <= j && j + needle@.len() <= hay@.len() implies #[trigger] hay@.subrange(
        j,
        j + needle@.len(),
    ) != needle@ by {
        assert(j < i);
    }
    false
}

/// Whether two byte strings are equal.
pub(crate) fn bytes_equal(a: &[u8], b: &[u8]) -> (r: bool)
    ensures
        r == (a@ == b@),
{
    if a.len() != b.len() {
        return false;
    }
    let mut k: usize = 0;
    while k < a.len()
        invariant
            a@.len() == b@.len(),
            k <= a@.len(),
            forall|m: int| 0 <= m < k ==> a@[m] == b@[m],
        decreases a@.len() - k,
    {
        if a[k] != b[k] {
            return false;
        }
        k += 1;
    }
    assert(a@ =~= b@);
    true
}

/// `std::str::from_utf8`, asked only whether it succeeds: whether `bytes` are valid UTF-8.
#[verifier::external_body]
fn is_utf8(bytes: &[u8]) -> (r: bool)
    ensures
        r == vstd::utf8::valid_utf8(bytes@),
{
    std::str::from_utf8(bytes).is_ok()
}

/// What reading a file has gathered so far.
pub struct PskxState {
    pub ids: Seq<u32>,
    pub verts: Seq<F32Bits>,
    pub uvs: Seq<Uv>,
    pub colors: Seq<VertexColor>,
    pub num_materials: nat,
    pub mat_ids: Seq<usize>,
    pub wedges: Seq<Wedge>,
    pub extra_uvs: Seq<Seq<Uv>>,
}

/// How reading a file ends.
pub enum PskxOutcome {
    /// Read to the end; what was gathered.
    Built(PskxState),
    /// The file header, or the records that a chunk announces, run past the end of the bytes.
    FileHeader,
    /// A chunk id is not UTF-8.
    ChunkId,
    /// The bytes break the format in a way that leaves no mesh to build: the header does not
    /// start with `ACTRHEAD` and twelve zero bytes, a chunk's records are too short for their
    /// kind or too large to count, or a record names a vertex, wedge or material that is not
    /// there.
    Malformed,
}

/// Nothing gathered yet.
pub open spec fn empty_pskx_state() -> PskxState {
    PskxState {
        ids: Seq::empty(),
        verts: Seq::empty(),
        uvs: Seq::empty(),
        colors: Seq::empty(),
        num_materials: 0,
        mat_ids: Seq::empty(),
        wedges: Seq::empty(),
        extra_uvs: Seq::empty(),
    }
}

/// Zero texture coordinates.
pub open spec fn zero_uv() -> Uv {
    Uv { u: F32Bits(0), v: F32Bits(0) }
}

/// Whether the mesh named `name` keeps its vertex colors: only the goal trim and the crowd
/// spawner meshes do.
pub open spec fn keeps_vertex_colors(name: Seq<u8>) -> bool {
    contains_seq(name, "Goal_STD_Trim".spec_bytes()) || contains_seq(name, "CrowdSpawnerMesh".spec_bytes())
}

/// What a chunk with id `id` and `count` records in `data` adds to `s`; `None` where its records
/// are too short for their kind or name what is not there. Points add vertices with zero texture
/// coordinates and material 0; wedges set those; faces add vertex ids; materials give the number
/// of materials; vertex colors, only for the meshes that keep them, replace the colors; extra
/// texture coordinates add a set. Other chunks add nothing.
pub open spec fn chunk_step(s: PskxState, name: Seq<u8>, id: Seq<u8>, count: nat, data: Seq<u8>) -> Option<PskxState> {
    if id == "PNTS0000".spec_bytes() {
        if count * 12 <= data.len() {
            Some(
                PskxState {
                    verts: s.verts + point_coords(data, count),
                    uvs: s.uvs + Seq::new(count, |i: int| zero_uv()),
                    mat_ids: s.mat_ids + Seq::new(count, |i: int| 0usize),
                    ..s
                },
            )
        } else {
            None
        }
    } else if id == "VTXW0000".spec_bytes() {
        if count * 16 <= data.len() {
            match applied_wedges(s.uvs, s.mat_ids, s.wedges, data, count) {
                Some((u, m, w)) => Some(PskxState { uvs: u, mat_ids: m, wedges: w, ..s }),
                None => None,
            }
        } else {
            None
        }
    } else if id == "FACE0000".spec_bytes() {
        if count * 12 <= data.len() {
            match face_ids(s.wedges, data, count) {
                Some(f) => Some(PskxState { ids: s.ids + f, ..s }),
                None => None,
            }
        } else {
            None
        }
    } else if id == "MATT0000".spec_bytes() {
        if count * 88 <= data.len() {
            Some(PskxState { num_materials: count, ..s })
        } else {
            None
        }
    } else if id == "VERTEXCO".spec_bytes() {
        if !keeps_vertex_colors(name) {
            Some(s)
        } else if count * 4 <= data.len() {
            Some(PskxState { colors: colors_of(data, count), ..s })
        } else {
            None
        }
    } else if id == "EXTRAUVS".spec_bytes() {
        if count * 8 <= data.len() {
            Some(PskxState { extra_uvs: s.extra_uvs.push(extra_uvs_of(data, count)), ..s })
        } else {
            None
        }
    } else {
        Some(s)
    }
}

/// A size or count field of a chunk header: an `i32`, taken as a `usize` the way a cast does.
pub open spec fn chunk_field(bytes: Seq<u8>, at: int) -> usize {
    (u32_at(bytes, at) as i32) as usize
}

/// Reads the chunks from `pos` on, gathering into `s`. Reading stops at the end, or where fewer
/// than 32 bytes are left for a chunk header; a chunk with no records is skipped.
pub open spec fn parse_chunks(name: Seq<u8>, bytes: Seq<u8>, pos: nat, s: PskxState) -> PskxOutcome
    decreases bytes.len() - pos,
{
    let p = pos as int;
    if p + 32 > bytes.len() {
        PskxOutcome::Built(s)
    } else if !vstd::utf8::valid_utf8(bytes.subrange(p, p + 8)) {
        PskxOutcome::ChunkId
    } else {
        let size = chunk_field(bytes, p + 24) as int;
        let count = chunk_field(bytes, p + 28) as int;
        if count == 0 {
            parse_chunks(name, bytes, (p + 32) as nat, s)
        } else if size * count > usize::MAX {
            PskxOutcome::Malformed
        } else if p + 32 + size * count > bytes.len() {
            PskxOutcome::FileHeader
        } else {
            match chunk_step(
                s,
                name,
                bytes.subrange(p, p + 8),
                count as nat,
                bytes.subrange(p + 32, p + 32 + size * count),
            ) {
                Some(t) => parse_chunks(name, bytes, (p + 32 + size * count) as nat, t),
                None => PskxOutcome::Malformed,
            }
        }
    }
}

/// The texture coordinates after the extra sets are handed out from vertex `k` on: a vertex
/// whose material has an extra set takes that set's next unused coordinates while it has any.
/// `used` counts, per material, the coordinates already taken. `None` where a vertex's material
/// has an extra set but is not among the counted materials.
pub open spec fn assigned_extra_uvs(
    uvs: Seq<Uv>,
    mat_ids: Seq<usize>,
    extra: Seq<Seq<Uv>>,
    used: Seq<nat>,
    k: nat,
    end: nat,
) -> Option<Seq<Uv>>
    decreases end - k,
{
    if k >= end {
        Some(uvs)
    } else {
        let m = mat_ids[k as int] as int;
        if m >= extra.len() {
            assigned_extra_uvs(uvs, mat_ids, extra, used, k + 1, end)
        } else if m >= used.len() {
            None
        } else if used[m] < extra[m].len() {
            assigned_extra_uvs(
                uvs.update(k as int, extra[m][used[m] as int]),
                mat_ids,
                extra,
                used.update(m, used[m] + 1),
                k + 1,
                end,
            )
        } else {
            assigned_extra_uvs(uvs, mat_ids, extra, used, k + 1, end)
        }
    }
}

/// The gathered state once the extra texture coordinates are handed out, where there are any:
/// a mesh without texture coordinates first gets zero ones for each vertex id.
pub open spec fn finished(s: PskxState) -> Option<PskxState> {
    if s.extra_uvs.len() == 0 {
        Some(s)
    } else {
        let uvs = if s.uvs.len() == 0 {
            Seq::new(s.ids.len(), |i: int| zero_uv())
        } else {
            s.uvs
        };
        let end = if uvs.len() < s.mat_ids.len() {
            uvs.len()
        } else {
            s.mat_ids.len()
        };
        match assigned_extra_uvs(uvs, s.mat_ids, s.extra_uvs, Seq::new(s.num_materials, |i: int| 0nat), 0, end) {
            Some(u) => Some(PskxState { uvs: u, ..s }),
            None => None,
        }
    }
}

/// The 20 bytes that a file starts with.
pub open spec fn psk_file_header() -> Seq<u8> {
    "ACTRHEAD".spec_bytes() + Seq::new(12, |i: int| 0u8)
}

/// How reading the file `bytes` of the mesh named `name` ends.
pub open spec fn pskx_outcome(name: Seq<u8>, bytes: Seq<u8>) -> PskxOutcome {
    if bytes.len() < 32 {
        PskxOutcome::FileHeader
    } else if bytes.subrange(0, 20) != psk_file_header() {
        PskxOutcome::Malformed
    } else {
        match parse_chunks(name, bytes, 32, empty_pskx_state()) {
            PskxOutcome::Built(s) => match finished(s) {
                Some(t) => PskxOutcome::Built(t),
                None => PskxOutcome::Malformed,
            },
            other => other,
        }
    }
}

/// Where the first `a` wedge records name a missing vertex, so do the first `b`.
proof fn lemma_applied_wedges_none(
    uvs: Seq<Uv>,
    mat_ids: Seq<usize>,
    wedges: Seq<Wedge>,
    data: Seq<u8>,
    a: nat,
    b: nat,
)
    requires
        a <= b,
        applied_wedges(uvs, mat_ids, wedges, data, a) is None,
    ensures
        applied_wedges(uvs, mat_ids, wedges, data, b) is None,
    decreases b,
{
    if a < b {
        lemma_applied_wedges_none(uvs, mat_ids, wedges, data, a, (b - 1) as nat);
    }
}

/// Where the first `a` faces name a missing wedge, so do the first `b`.
proof fn lemma_face_ids_none(wedges: Seq<Wedge>, data: Seq<u8>, a: nat, b: nat)
    requires
        a <= b,
        face_ids(wedges, data, a) is None,
    ensures
        face_ids(wedges, data, b) is None,
    decreases b,
{
    if a < b {
        lemma_face_ids_none(wedges, data, a, (b - 1) as nat);
    }
}

/// Applies `count` wedge records, stopping with `false` at the first that names a missing vertex.
fn apply_wedges(
    data: &[u8],
    count: usize,
    wedges: &mut Vec<Wedge>,
    uvs: &mut Vec<Uv>,
    mat_ids: &mut Vec<usize>,
) -> (ok: bool)
    requires
        count * 16 <= data@.len(),
    ensures
        ok == applied_wedges(old(uvs)@, old(mat_ids)@, old(wedges)@, data@, count as nat) is Some,
        ok ==> applied_wedges(old(uvs)@, old(mat_ids)@, old(wedges)@, data@, count as nat) == Some(
            (final(uvs)@, final(mat_ids)@, final(wedges)@),
        ),
{
    let ghost u0 = uvs@;
    let ghost m0 = mat_ids@;
    let ghost w0 = wedges@;
    let data_len = data.len();
    let mut i: usize = 0;
    while i < count
        invariant
            i <= count,
            data_len == data@.len(),
            count * 16 <= data@.len(),
            applied_wedges(u0, m0, w0, data@, i as nat) == Some((uvs@, mat_ids@, wedges@)),
            u0 == old(uvs)@,
            m0 == old(mat_ids)@,
            w0 == old(wedges)@,
        decreases count - i,
    {
        assert(i * 16 + 16 <= count * 16) by (nonlinear_arith)
            requires
                i < count,
        ;
        let at = i * 16;
        let vertex_id = read_u32_at(data, at);
        let idx = vertex_id as usize;
        if idx >= uvs.len() || idx >= mat_ids.len() {
            proof {
                assert(u32_at(data@, ((i + 1) as nat - 1) * 16) == vertex_id);
                assert(applied_wedges(u0, m0, w0, data@, (i + 1) as nat) is None);
                lemma_applied_wedges_none(u0, m0, w0, data@, (i + 1) as nat, count as nat);
            }
            return false;
        }
        let u = read_f32_at(data, at + 4);
        let v = read_f32_at(data, at + 8);
        let material_index = data[at + 12] as usize;
        uvs.set(idx, Uv { u, v });
        mat_ids.set(idx, material_index);
        wedges.push(Wedge { vertex_id });
        i += 1;
    }
    true
}

/// Appends the vertex ids of `count` faces, stopping with `false` at the first that names a
/// missing wedge.
fn apply_faces(data: &[u8], count: usize, wedges: &[Wedge], ids: &mut Vec<u32>) -> (ok: bool)
    requires
        count * 12 <= data@.len(),
    ensures
        ok == face_ids(wedges@, data@, count as nat) is Some,
        ok ==> final(ids)@ == old(ids)@ + face_ids(wedges@, data@, count as nat)->0,
{
    let ghost i0 = ids@;
    let data_len = data.len();
    let mut i: usize = 0;
    while i < count
        invariant
            i <= count,
            data_len == data@.len(),
            count * 12 <= data@.len(),
            face_ids(wedges@, data@, i as nat) is Some,
            ids@ == i0 + face_ids(wedges@, data@, i as nat)->0,
        decreases count - i,
    {
        assert(i * 12 + 12 <= count * 12) by (nonlinear_arith)
            requires
                i < count,
        ;
        let at = i * 12;
        let a = read_u16_at(data, at) as usize;
        let b = read_u16_at(data, at + 2) as usize;
        let c = read_u16_at(data, at + 4) as usize;
        if a >= wedges.len() || b >= wedges.len() || c >= wedges.len() {
            proof {
                lemma_face_ids_none(wedges@, data@, (i + 1) as nat, count as nat);
            }
            return false;
        }
        ids.push(wedges[b].vertex_id);
        ids.push(wedges[a].vertex_id);
        ids.push(wedges[c].vertex_id);
        i += 1;
        assert(ids@ =~= i0 + face_ids(wedges@, data@, i as nat)->0);
    }
    true
}

/// The texture coordinates that the extra sets are handed out to: zero ones for each vertex id
/// where there are none.
pub open spec fn base_uvs(uvs: Seq<Uv>, ids_len: nat) -> Seq<Uv> {
    if uvs.len() == 0 {
        Seq::new(ids_len, |i: int| zero_uv())
    } else {
        uvs
    }
}

/// The extra sets as values.
pub open spec fn extra_view(extra: Vec<Vec<Uv>>) -> Seq<Seq<Uv>> {
    extra@.map_values(|v: Vec<Uv>| v@)
}

/// The per-material counts as values.
pub open spec fn used_view(used: Vec<usize>) -> Seq<nat> {
    used@.map_values(|x: usize| x as nat)
}

/// Hands out the extra texture coordinates, as `finished` says; `false` where a vertex's
/// material has an extra set but is not among the counted materials.
fn hand_out_extra_uvs(
    uvs: &mut Vec<Uv>,
    ids_len: usize,
    extra: &Vec<Vec<Uv>>,
    num_materials: usize,
    mat_ids: &Vec<usize>,
) -> (ok: bool)
    ensures
        ({
            let base = base_uvs(old(uvs)@, ids_len as nat);
            let end = if base.len() < mat_ids@.len() {
                base.len()
            } else {
                mat_ids@.len()
            };
            let r = assigned_extra_uvs(
                base,
                mat_ids@,
                extra_view(*extra),
                Seq::new(num_materials as nat, |i: int| 0nat),
                0,
                end,
            );
            &&& ok == r is Some
            &&& ok ==> final(uvs)@ == r->0
        }),
{
    if uvs.len() == 0 {
        let mut k: usize = 0;
        while k < ids_len
            invariant
                k <= ids_len,
                uvs@ == Seq::new(k as nat, |i: int| zero_uv()),
            decreases ids_len - k,
        {
            uvs.push(Uv { u: F32Bits(0), v: F32Bits(0) });
            k += 1;
            assert(uvs@ =~= Seq::new(k as nat, |i: int| zero_uv()));
        }
    }
    let ghost base = uvs@;
    let end = if uvs.len() < mat_ids.len() {
        uvs.len()
    } else {
        mat_ids.len()
    };
    let mut used: Vec<usize> = Vec::with_capacity(num_materials);
    let mut m: usize = 0;
    while m < num_materials
        invariant
            m <= num_materials,
            used@ == Seq::new(m as nat, |i: int| 0usize),
        decreases num_materials - m,
    {
        used.push(0);
        m += 1;
        assert(used@ =~= Seq::new(m as nat, |i: int| 0usize));
    }
    assert(used_view(used) =~= Seq::new(num_materials as nat, |i: int| 0nat));
    let ghost ev = extra_view(*extra);
    let ghost goal = assigned_extra_uvs(base, mat_ids@, ev, used_view(used), 0, end as nat);
    assert(base == base_uvs(old(uvs)@, ids_len as nat));
    let mut k: usize = 0;
    while k < end
        invariant
            goal == assigned_extra_uvs(
                base_uvs(old(uvs)@, ids_len as nat),
                mat_ids@,
                extra_view(*extra),
                Seq::new(num_materials as nat, |i: int| 0nat),
                0,
                end as nat,
            ),
            end == (if base_uvs(old(uvs)@, ids_len as nat).len() < mat_ids@.len() {
                base_uvs(old(uvs)@, ids_len as nat).len()
            } else {
                mat_ids@.len()
            }),
            k <= end,
            end <= uvs@.len(),
            end <= mat_ids@.len(),
            ev == extra_view(*extra),
            goal == assigned_extra_uvs(uvs@, mat_ids@, ev, used_view(used), k as nat, end as nat),
        decreases end - k,
    {
        let mat = mat_ids[k];
        if mat < extra.len() {
            if mat >= used.len() {
                return false;
            }
            let taken = used[mat];
            if taken < extra[mat].len() {
                let uv = extra[mat][taken];
                let ghost before = used_view(used);
                uvs.set(k, uv);
                used.set(mat, taken + 1);
                assert(used_view(used) =~= before.update(mat as int, (taken + 1) as nat));
            }
        }
        k += 1;
    }
    true
}

/// Whether `count` records of `k` bytes fit in `len` bytes.
fn records_fit(count: usize, k: usize, len: usize) -> (r: bool)
    requires
        k > 0,
    ensures
        r == (count * k <= len),
{
    let q = len / k;
    assert(count <= q <==> count * k <= len) by (nonlinear_arith)
        requires
            k > 0,
            q == len / k,
    ;
    count <= q
}

/// What reading has gathered so far.
struct Gathered {
    ids: Vec<u32>,
    verts: Vec<F32Bits>,
    uvs: Vec<Uv>,
    colors: Vec<VertexColor>,
    num_materials: usize,
    mat_ids: Vec<usize>,
    wedges: Vec<Wedge>,
    extra_uvs: Vec<Vec<Uv>>,
}

impl Gathered {
    spec fn state(&self) -> PskxState {
        PskxState {
            ids: self.ids@,
            verts: self.verts@,
            uvs: self.uvs@,
            colors: self.colors@,
            num_materials: self.num_materials as nat,
            mat_ids: self.mat_ids@,
            wedges: self.wedges@,
            extra_uvs: extra_view(self.extra_uvs),
        }
    }
}

/// Adds what a chunk holds, as `chunk_step` says; `false` where `chunk_step` gives `None`.
fn apply_chunk(g: &mut Gathered, name: &[u8], id: &[u8], count: usize, data: &[u8]) -> (ok: bool)
    ensures
        ok == chunk_step(old(g).state(), name@, id@, count as nat, data@) is Some,
        ok ==> final(g).state() == chunk_step(old(g).state(), name@, id@, count as nat, data@)->0,
{
    let len = data.len();
    if bytes_equal(id, "PNTS0000".as_bytes()) {
        if !records_fit(count, 12, len) {
            return false;
        }
        read_vertices(data, count, &mut g.verts, &mut g.uvs, &mut g.mat_ids);
        true
    } else if bytes_equal(id, "VTXW0000".as_bytes()) {
        if !records_fit(count, 16, len) {
            return false;
        }
        apply_wedges(data, count, &mut g.wedges, &mut g.uvs, &mut g.mat_ids)
    } else if bytes_equal(id, "FACE0000".as_bytes()) {
        if !records_fit(count, 12, len) {
            return false;
        }
        apply_faces(data, count, g.wedges.as_slice(), &mut g.ids)
    } else if bytes_equal(id, "MATT0000".as_bytes()) {
        if !records_fit(count, 88, len) {
            return false;
        }
        let materials = read_materials(data, count);
        g.num_materials = materials.len();
        true
    } else if bytes_equal(id, "VERTEXCO".as_bytes()) {
        let keeps = contains_bytes(name, "Goal_STD_Trim".as_bytes()) || contains_bytes(
            name,
            "CrowdSpawnerMesh".as_bytes(),
        );
        if !keeps {
            return true;
        }
        if !records_fit(count, 4, len) {
            return false;
        }
        g.colors = read_vertex_colors(data, count);
        true
    } else if bytes_equal(id, "EXTRAUVS".as_bytes()) {
        if !records_fit(count, 8, len) {
            return false;
        }
        let set = read_extra_uvs(data, count);
        let ghost before = extra_view(g.extra_uvs);
        g.extra_uvs.push(set);
        assert(extra_view(g.extra_uvs) =~= before.push(set@));
        true
    } else {
        true
    }
}

/// Why a file gives no mesh.
#[derive(Clone, Copy, Debug, PartialEq, Eq, Structural)]
pub enum MeshBuilderError {
    /// The file header, or the records that a chunk announces, run past the end of the bytes.
    FileHeader,
    /// A chunk id is not UTF-8.
    ChunkId,
}

/// A collection of inter-connected triangles: the vertex ids of the triangles, three floats per
/// vertex, texture coordinates and colors, and the material of each vertex.
pub struct MeshBuilder {
    ids: Vec<u32>,
    verts: Vec<F32Bits>,
    uvs: Vec<Uv>,
    colors: Vec<VertexColor>,
    num_materials: usize,
    mat_ids: Vec<usize>,
}

/// A mesh as values.
pub struct MeshView {
    pub ids: Seq<u32>,
    pub verts: Seq<F32Bits>,
    pub uvs: Seq<Uv>,
    pub colors: Seq<VertexColor>,
    pub num_materials: nat,
    pub mat_ids: Seq<usize>,
}

impl View for MeshBuilder {
    type V = MeshView;

    closed spec fn view(&self) -> MeshView {
        MeshView {
            ids: self.ids@,
            verts: self.verts@,
            uvs: self.uvs@,
            colors: self.colors@,
            num_materials: self.num_materials as nat,
            mat_ids: self.mat_ids@,
        }
    }
}

/// The mesh that a gathered state makes.
pub open spec fn mesh_of(s: PskxState) -> MeshView {
    MeshView {
        ids: s.ids,
        verts: s.verts,
        uvs: s.uvs,
        colors: s.colors,
        num_materials: s.num_materials,
        mat_ids: s.mat_ids,
    }
}

/// How reading a file ended.
enum PskxRead {
    Built(MeshBuilder),
    FileHeader,
    ChunkId,
    Malformed,
}

/// Whether reading ended as `o` says.
spec fn read_agrees(r: PskxRead, o: PskxOutcome) -> bool {
    match o {
        PskxOutcome::Built(s) => r matches PskxRead::Built(m) && m@ == mesh_of(s),
        PskxOutcome::FileHeader => r is FileHeader,
        PskxOutcome::ChunkId => r is ChunkId,
        PskxOutcome::Malformed => r is Malformed,
    }
}

/// Whether the file starts with its 20-byte header.
fn has_file_header(bytes: &[u8]) -> (r: bool)
    requires
        bytes@.len() >= 32,
    ensures
        r == (bytes@.subrange(0, 20) == psk_file_header()),
{
    let tag = "ACTRHEAD".as_bytes();
    let ghost h = psk_file_header();
    let same_tag = bytes_equal(vstd::slice::slice_subrange(bytes, 0, 8), tag);
    let mut zeros = true;
    let mut k: usize = 8;
    while k < 20
        invariant
            8 <= k <= 20,
            bytes@.len() >= 32,
            zeros == (forall|m: int| 8 <= m < k ==> bytes@[m] == 0u8),
        decreases 20 - k,
    {
        if bytes[k] != 0 {
            zeros = false;
        }
        k += 1;
    }
    assert(tag@.len() == 8 ==> h.len() == 20);
    proof {
        if same_tag && zeros {
            assert(bytes@.subrange(0, 20) =~= h);
        }
        if bytes@.subrange(0, 20) == h {
            assert(bytes@.subrange(0, 8) =~= h.subrange(0, 8));
            assert(h.subrange(0, 8) =~= tag@);
            assert forall|m: int| 8 <= m < 20 implies bytes@[m] == 0u8 by {
                assert(bytes@.subrange(0, 20)[m] == h[m]);
            }
        }
    }
    same_tag && zeros
}

/// Reads the file `bytes` of the mesh named `name`, as `pskx_outcome` says.
fn read_pskx(name: &[u8], bytes: &[u8]) -> (r: PskxRead)
    ensures
        read_agrees(r, pskx_outcome(name@, bytes@)),
{
    let blen = bytes.len();
    if blen < 32 {
        return PskxRead::FileHeader;
    }
    if !has_file_header(bytes) {
        return PskxRead::Malformed;
    }
    let mut g = Gathered {
        ids: Vec::new(),
        verts: Vec::new(),
        uvs: Vec::new(),
        colors: Vec::new(),
        num_materials: 0,
        mat_ids: Vec::new(),
        wedges: Vec::new(),
        extra_uvs: Vec::new(),
    };
    assert(g.state() =~= empty_pskx_state()) by {
        assert(extra_view(g.extra_uvs) =~= Seq::<Seq<Uv>>::empty());
    }
    let ghost whole = parse_chunks(name@, bytes@, 32, empty_pskx_state());
    let mut pos: usize = 32;
    loop
        invariant
            32 <= pos <= blen,
            blen == bytes@.len(),
            bytes@.subrange(0, 20) == psk_file_header(),
            whole == parse_chunks(name@, bytes@, 32, empty_pskx_state()),
            whole == parse_chunks(name@, bytes@, pos as nat, g.state()),
        ensures
            whole == PskxOutcome::Built(g.state()),
        decreases blen - pos,
    {
        if blen - pos < 32 {
            break;
        }
        let id = vstd::slice::slice_subrange(bytes, pos, pos + 8);
        if !is_utf8(id) {
            return PskxRead::ChunkId;
        }
        let size = (read_u32_at(bytes, pos + 24) as i32) as usize;
        let count = (read_u32_at(bytes, pos + 28) as i32) as usize;
        if count == 0 {
            pos = pos + 32;
            continue;
        }
        let total = match size.checked_mul(count) {
            Some(t) => t,
            None => {
                return PskxRead::Malformed;
            },
        };
        if total > blen - pos - 32 {
            return PskxRead::FileHeader;
        }
        let data = vstd::slice::slice_subrange(bytes, pos + 32, pos + 32 + total);
        if !apply_chunk(&mut g, name, id, count, data) {
            return PskxRead::Malformed;
        }
        pos = pos + 32 + total;
    }
    if g.extra_uvs.len() > 0 {
        let ids_len = g.ids.len();
        if !hand_out_extra_uvs(&mut g.uvs, ids_len, &g.extra_uvs, g.num_materials, &g.mat_ids) {
            return PskxRead::Malformed;
        }
    }
    PskxRead::Built(
        MeshBuilder {
            ids: g.ids,
            verts: g.verts,
            uvs: g.uvs,
            colors: g.colors,
            num_materials: g.num_materials,
            mat_ids: g.mat_ids,
        },
    )
}

impl MeshBuilder {
    /// Creates a mesh from the bytes of a Rocket League `.pskx` file; `name` is the mesh's name,
    /// which decides whether vertex colors are kept. The file must not be malformed in the sense
    /// of `PskxOutcome::Malformed`; `pskx_is_malformed` tells.
    pub fn from_pskx(name: &str, bytes: &[u8]) -> (r: Result<Self, MeshBuilderError>)
        requires
            !(pskx_outcome(name.spec_bytes(), bytes@) is Malformed),
        ensures
            match pskx_outcome(name.spec_bytes(), bytes@) {
                PskxOutcome::Built(s) => r matches Ok(m) && m@ == mesh_of(s),
                PskxOutcome::FileHeader => r == Err::<Self, MeshBuilderError>(MeshBuilderError::FileHeader),
                PskxOutcome::ChunkId => r == Err::<Self, MeshBuilderError>(MeshBuilderError::ChunkId),
                PskxOutcome::Malformed => false,
            },
    {
        match read_pskx(name.as_bytes(), bytes) {
            PskxRead::Built(m) => Ok(m),
            PskxRead::FileHeader => Err(MeshBuilderError::FileHeader),
            PskxRead::ChunkId => Err(MeshBuilderError::ChunkId),
            PskxRead::Malformed => Err(MeshBuilderError::FileHeader),
        }
    }

    /// Whether `from_pskx` would find the file malformed.
    pub fn pskx_is_malformed(name: &str, bytes: &[u8]) -> (r: bool)
        ensures
            r == pskx_outcome(name.spec_bytes(), bytes@) is Malformed,
    {
        match read_pskx(name.as_bytes(), bytes) {
            PskxRead::Malformed => true,
            _ => false,
        }
    }

    /// The vertex ids of the triangles, three per triangle.
    pub fn ids(&self) -> (r: &Vec<u32>)
        ensures
            r@ == self@.ids,
    {
        &self.ids
    }

    /// The vertex positions, three floats per vertex.
    pub fn verts(&self) -> (r: &Vec<F32Bits>)
        ensures
            r@ == self@.verts,
    {
        &self.verts
    }

    /// The texture coordinates of each vertex.
    pub fn uvs(&self) -> (r: &Vec<Uv>)
        ensures
            r@ == self@.uvs,
    {
        &self.uvs
    }

    /// The vertex colors, where the mesh keeps them.
    pub fn colors(&self) -> (r: &Vec<VertexColor>)
        ensures
            r@ == self@.colors,
    {
        &self.colors
    }

    /// The number of materials.
    pub fn num_materials(&self) -> (r: usize)
        ensures
            r == self@.num_materials,
    {
        self.num_materials
    }

    /// The triangles with a corner of material `mat`, their vertex ids one triangle after
    /// another; ids left over after the last whole triangle are dropped. Every id of a whole
    /// triangle must name a vertex with a material.
    pub fn material_ids(&self, mat: usize) -> (r: Vec<u32>)
        requires
            forall|i: int| 0 <= i < self@.ids.len() / 3 * 3 ==> (#[trigger] self@.ids[i]) < self@.mat_ids.len(),
        ensures
            r@ == triangles_of_material(self@.ids, self@.mat_ids, mat, self@.ids.len() / 3),
    {
        let len = self.ids.len();
        let n = len / 3;
        assert(n * 3 <= len) by (nonlinear_arith)
            requires
                n == len / 3,
        ;
        let mut out: Vec<u32> = Vec::new();
        let mut t: usize = 0;
        while t < n
            invariant
                t <= n,
                len == self@.ids.len(),
                n == len / 3,
                n * 3 <= len,
                self@.ids == self.ids@,
                self@.mat_ids == self.mat_ids@,
                forall|i: int| 0 <= i < self@.ids.len() / 3 * 3 ==> (#[trigger] self@.ids[i]) < self@.mat_ids.len(),
                out@ == triangles_of_material(self@.ids, self@.mat_ids, mat, t as nat),
            decreases n - t,
        {
            assert(3 * t + 3 <= n * 3) by (nonlinear_arith)
                requires
                    t < n,
            ;
            let a = self.ids[3 * t];
            let b = self.ids[3 * t + 1];
            let c = self.ids[3 * t + 2];
            if self.mat_ids[a as usize] == mat || self.mat_ids[b as usize] == mat || self.mat_ids[c as usize] == mat {
                out.push(a);
                out.push(b);
                out.push(c);
            }
            t += 1;
            assert(out@ =~= triangles_of_material(self@.ids, self@.mat_ids, mat, t as nat));
        }
        out
    }

    /// The material of each vertex.
    pub fn mat_ids(&self) -> (r: &Vec<usize>)
        ensures
            r@ == self@.mat_ids,
    {
        &self.mat_ids
    }
}

/// The first `n` triangles of `ids` that have a corner of material `mat`, their vertex ids one
/// triangle after another.
pub open spec fn triangles_of_material(ids: Seq<u32>, mat_ids: Seq<usize>, mat: usize, n: nat) -> Seq<u32>
    decreases n,
{
    if n == 0 {
        Seq::empty()
    } else {
        let front = triangles_of_material(ids, mat_ids, mat, (n - 1) as nat);
        let t = 3 * (n - 1);
        let (a, b, c) = (ids[t], ids[t + 1], ids[t + 2]);
        if mat_ids[a as int] == mat || mat_ids[b as int] == mat || mat_ids[c as int] == mat {
            front + seq![a, b, c]
        } else {
            front
        }
    }
}

/// The layout of meshes that a field is built from.
#[derive(Clone, Copy, Debug, PartialEq, Eq, Structural)]
pub enum FieldLayout {
    /// The standard stadium.
    Standard,
    /// The hoops stadium.
    Hoops,
    /// The dropshot stadium.
    ShatterShot,
}

/// The field layout of a game mode: none for the void, the hoops and dropshot stadiums for
/// their modes, the standard stadium for the others.
pub fn field_layout(mode: GameMode) -> (r: Option<FieldLayout>)
    ensures
        r == match mode {
            GameMode::TheVoid => None,
            GameMode::Hoops => Some(FieldLayout::Hoops),
            GameMode::Dropshot => Some(FieldLayout::ShatterShot),
            _ => Some(FieldLayout::Standard),
        },
{
    match mode {
        GameMode::TheVoid => None,
        GameMode::Hoops => Some(FieldLayout::Hoops),
        GameMode::Dropshot => Some(FieldLayout::ShatterShot),
        _ => Some(FieldLayout::Standard),
    }
}

} // verus!
