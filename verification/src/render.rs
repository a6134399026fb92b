//! Render messages: a client adds a group of lines to draw, or removes a group, by its id.
//!
//! A message is its size (`u32`), a tag byte, the group id (`i32`) and, for an added group, the
//! number of renders (`u16`) followed by the renders. A render is a tag byte and its points and
//! color; a line strip holds the number of its points (`u16`) before them.
use crate::bytes::{
    append_bytes, append_packed, decode_at, lemma_decode_field, lemma_le_u16_round_trip,
    lemma_pack_len, lemma_split_prefix, lemma_subrange_in_prefix, lemma_subrange_subrange,
    lemma_unpack_pack, pack, read_packed, u16_from_le, u32_from_le, unpack, ByteReader, F32Bits,
    FromBytes, ToBytes, ToBytesExact,
};
use crate::rocketsim::{Color, Vec2, Vec3};
use vstd::prelude::*;

verus! {

/// A shape to draw.
#[derive(Clone, Debug)]
pub enum Render {
    Line2D { start: Vec2, end: Vec2, color: Color },
    Line { start: Vec3, end: Vec3, color: Color },
    LineStrip { positions: Vec<Vec3>, color: Color },
}

/// A render as values.
pub enum RenderView {
    Line2D { start: Vec2, end: Vec2, color: Color },
    Line { start: Vec3, end: Vec3, color: Color },
    LineStrip { positions: Seq<Vec3>, color: Color },
}

impl View for Render {
    type V = RenderView;

    open spec fn view(&self) -> RenderView {
        match self {
            Render::Line2D { start, end, color } => RenderView::Line2D {
                start: *start,
                end: *end,
                color: *color,
            },
            Render::Line { start, end, color } => RenderView::Line {
                start: *start,
                end: *end,
                color: *color,
            },
            Render::LineStrip { positions, color } => RenderView::LineStrip {
                positions: positions@,
                color: *color,
            },
        }
    }
}

/// A request to add or remove a group of renders.
#[derive(Clone, Debug)]
pub enum RenderMessage {
    AddRender(i32, Vec<Render>),
    RemoveRender(i32),
}

/// A render message as values.
pub enum RenderMessageView {
    AddRender(i32, Seq<RenderView>),
    RemoveRender(i32),
}

impl View for RenderMessage {
    type V = RenderMessageView;

    open spec fn view(&self) -> RenderMessageView {
        match self {
            RenderMessage::AddRender(id, renders) => RenderMessageView::AddRender(
                *id,
                renders@.map_values(|r: Render| r@),
            ),
            RenderMessage::RemoveRender(id) => RenderMessageView::RemoveRender(*id),
        }
    }
}

/// The size of the encoding of a render.
pub open spec fn render_len(r: RenderView) -> nat {
    match r {
        RenderView::Line2D { .. } => 33,
        RenderView::Line { .. } => 41,
        RenderView::LineStrip { positions, .. } => 19 + positions.len() * 12,
    }
}

/// The bytes that encode a render; a line strip's point count is written as a `u16`.
pub open spec fn render_bytes(r: RenderView) -> Seq<u8> {
    match r {
        RenderView::Line2D { start, end, color } => seq![0u8] + start.spec_to_bytes()
            + end.spec_to_bytes() + color.spec_to_bytes(),
        RenderView::Line { start, end, color } => seq![1u8] + start.spec_to_bytes()
            + end.spec_to_bytes() + color.spec_to_bytes(),
        RenderView::LineStrip { positions, color } => seq![2u8] + (positions.len() as u16).spec_to_bytes()
            + pack(positions) + color.spec_to_bytes(),
    }
}

/// Whether decoding the encoding of `r` gives `r` back: a line strip's point count must fit
/// its `u16`.
pub open spec fn render_fits(r: RenderView) -> bool {
    match r {
        RenderView::LineStrip { positions, .. } => positions.len() <= u16::MAX,
        _ => true,
    }
}

/// The render encoded at `pos` in `s` and the number of bytes it takes; `None` where the tag is
/// unknown or the bytes run out.
pub open spec fn parse_render_at(s: Seq<u8>, pos: int) -> Option<(RenderView, nat)> {
    if pos < 0 || pos + 1 > s.len() {
        None
    } else if s[pos] == 0 {
        if pos + 33 <= s.len() {
            Some(
                (
                    RenderView::Line2D {
                        start: decode_at(s, pos + 1, 8),
                        end: decode_at(s, pos + 9, 8),
                        color: decode_at(s, pos + 17, 16),
                    },
                    33,
                ),
            )
        } else {
            None
        }
    } else if s[pos] == 1 {
        if pos + 41 <= s.len() {
            Some(
                (
                    RenderView::Line {
                        start: decode_at(s, pos + 1, 12),
                        end: decode_at(s, pos + 13, 12),
                        color: decode_at(s, pos + 25, 16),
                    },
                    41,
                ),
            )
        } else {
            None
        }
    } else if s[pos] == 2 {
        if pos + 3 <= s.len() {
            let n = u16_from_le(s.subrange(pos + 1, pos + 3)) as nat;
            if pos + 19 + n * 12 <= s.len() {
                Some(
                    (
                        RenderView::LineStrip {
                            positions: unpack(s, pos + 3, 12, n),
                            color: decode_at(s, pos + 3 + n * 12, 16),
                        },
                        19 + n * 12,
                    ),
                )
            } else {
                None
            }
        } else {
            None
        }
    } else {
        None
    }
}

/// The encodings of `renders`, one after another.
pub open spec fn renders_bytes(renders: Seq<RenderView>) -> Seq<u8>
    decreases renders.len(),
{
    if renders.len() == 0 {
        Seq::empty()
    } else {
        renders_bytes(renders.drop_last()) + render_bytes(renders.last())
    }
}

/// The total size of the encodings of `renders`.
pub open spec fn renders_len(renders: Seq<RenderView>) -> nat
    decreases renders.len(),
{
    if renders.len() == 0 {
        0
    } else {
        renders_len(renders.drop_last()) + render_len(renders.last())
    }
}

/// The `count` renders encoded one after another from `pos` in `s`, and the bytes they take.
pub open spec fn parse_renders_at(s: Seq<u8>, pos: int, count: nat) -> Option<(Seq<RenderView>, nat)>
    decreases count,
{
    if count == 0 {
        Some((Seq::empty(), 0))
    } else {
        match parse_renders_at(s, pos, (count - 1) as nat) {
            Some((renders, used)) => match parse_render_at(s, pos + used) {
                Some((r, n)) => Some((renders.push(r), used + n)),
                None => None,
            },
            None => None,
        }
    }
}

/// The size that a message counts for itself and writes in its first four bytes: the size of
/// its encoding.
pub open spec fn render_message_len(m: RenderMessageView) -> nat {
    match m {
        RenderMessageView::AddRender(_, renders) => 11 + renders_len(renders),
        RenderMessageView::RemoveRender(_) => 9,
    }
}

/// The bytes that encode a message: the size it counts, the tag, the id and, for an added group,
/// the number of renders and the renders.
pub open spec fn render_message_bytes(m: RenderMessageView) -> Seq<u8> {
    match m {
        RenderMessageView::AddRender(id, renders) => (render_message_len(m) as u32).spec_to_bytes()
            + seq![0u8] + id.spec_to_bytes() + (renders.len() as u16).spec_to_bytes()
            + renders_bytes(renders),
        RenderMessageView::RemoveRender(id) => (render_message_len(m) as u32).spec_to_bytes()
            + seq![1u8] + id.spec_to_bytes(),
    }
}

/// What decoding the message that `s` begins with gives: `None` where the tag is unknown or a
/// render does not decode; bytes after the message are not read.
pub open spec fn parse_render_message(s: Seq<u8>) -> Option<RenderMessageView> {
    if s.len() < 5 {
        None
    } else if s[4] == 0 {
        if s.len() < 11 {
            None
        } else {
            let n = u16_from_le(s.subrange(9, 11)) as nat;
            match parse_renders_at(s, 11, n) {
                Some((renders, _)) => Some(RenderMessageView::AddRender(decode_at(s, 5, 4), renders)),
                None => None,
            }
        }
    } else if s[4] == 1 {
        if s.len() >= 9 {
            Some(RenderMessageView::RemoveRender(decode_at(s, 5, 4)))
        } else {
            None
        }
    } else {
        None
    }
}

/// Decoding the encoding of a render, wherever it stands, gives it back with its size.
pub proof fn lemma_render_round_trip(s: Seq<u8>, pos: int, r: RenderView)
    requires
        render_fits(r),
        0 <= pos,
        pos + render_bytes(r).len() <= s.len(),
        s.subrange(pos, pos + render_bytes(r).len()) == render_bytes(r),
    ensures
        render_bytes(r).len() == render_len(r),
        parse_render_at(s, pos) == Some((r, render_len(r))),
{
    let rb = render_bytes(r);
    let end = pos + rb.len();
    let sub = s.subrange(pos, end);
    assert(sub.subrange(0, sub.len() as int) =~= sub);
    assert(s[pos] == sub[0]);
    match r {
        RenderView::Line2D { start, end: stop, color } => {
            start.lemma_round_trip();
            stop.lemma_round_trip();
            color.lemma_round_trip();
            let q1 = seq![0u8] + start.spec_to_bytes();
            let q2 = q1 + stop.spec_to_bytes();
            lemma_split_prefix(sub, q2, color.spec_to_bytes());
            lemma_split_prefix(sub, q1, stop.spec_to_bytes());
            lemma_split_prefix(sub, seq![0u8], start.spec_to_bytes());
            lemma_subrange_subrange(s, pos, end, 1, 9);
            lemma_subrange_subrange(s, pos, end, 9, 17);
            lemma_subrange_subrange(s, pos, end, 17, 33);
            lemma_decode_field::<Vec2, 8>(s, pos + 1, start);
            lemma_decode_field::<Vec2, 8>(s, pos + 9, stop);
            lemma_decode_field::<Color, 16>(s, pos + 17, color);
        },
        RenderView::Line { start, end: stop, color } => {
            start.lemma_round_trip();
            stop.lemma_round_trip();
            color.lemma_round_trip();
            let q1 = seq![1u8] + start.spec_to_bytes();
            let q2 = q1 + stop.spec_to_bytes();
            lemma_split_prefix(sub, q2, color.spec_to_bytes());
            lemma_split_prefix(sub, q1, stop.spec_to_bytes());
            lemma_split_prefix(sub, seq![1u8], start.spec_to_bytes());
            lemma_subrange_subrange(s, pos, end, 1, 13);
            lemma_subrange_subrange(s, pos, end, 13, 25);
            lemma_subrange_subrange(s, pos, end, 25, 41);
            lemma_decode_field::<Vec3, 12>(s, pos + 1, start);
            lemma_decode_field::<Vec3, 12>(s, pos + 13, stop);
            lemma_decode_field::<Color, 16>(s, pos + 25, color);
        },
        RenderView::LineStrip { positions, color } => {
            let n = positions.len();
            let bn = (n as u16).spec_to_bytes();
            (n as u16).lemma_round_trip();
            lemma_le_u16_round_trip(n as u16);
            color.lemma_round_trip();
            lemma_pack_len(positions);
            let q1 = seq![2u8] + bn;
            let q2 = q1 + pack(positions);
            lemma_split_prefix(sub, q2, color.spec_to_bytes());
            lemma_split_prefix(sub, q1, pack(positions));
            lemma_split_prefix(sub, seq![2u8], bn);
            lemma_subrange_subrange(s, pos, end, 1, 3);
            lemma_subrange_subrange(s, pos, end, 3, 3 + n * 12 as int);
            lemma_subrange_subrange(s, pos, end, 3 + n * 12 as int, 19 + n * 12 as int);
            assert(u16_from_le(s.subrange(pos + 1, pos + 3)) == n);
            lemma_unpack_pack(s, pos + 3, positions);
            lemma_decode_field::<Color, 16>(s, pos + 3 + n * 12, color);
        },
    }
}

/// Renders whose encodings stand one after another decode back, with the bytes they take.
pub proof fn lemma_renders_round_trip(s: Seq<u8>, pos: int, renders: Seq<RenderView>)
    requires
        forall|i: int| 0 <= i < renders.len() ==> render_fits(#[trigger] renders[i]),
        0 <= pos,
        pos + renders_bytes(renders).len() <= s.len(),
        s.subrange(pos, pos + renders_bytes(renders).len()) == renders_bytes(renders),
    ensures
        renders_bytes(renders).len() == renders_len(renders),
        parse_renders_at(s, pos, renders.len()) == Some((renders, renders_len(renders))),
    decreases renders.len(),
{
    if renders.len() == 0 {
        assert(renders =~= Seq::<RenderView>::empty());
    } else {
        let front = renders.drop_last();
        let last = renders.last();
        let fb = renders_bytes(front);
        let lb = render_bytes(last);
        let end = pos + fb.len() + lb.len();
        let sub = s.subrange(pos, end);
        assert(sub.subrange(0, sub.len() as int) =~= sub);
        lemma_split_prefix(sub, fb, lb);
        lemma_subrange_subrange(s, pos, end, 0, fb.len() as int);
        lemma_subrange_subrange(s, pos, end, fb.len() as int, fb.len() + lb.len() as int);
        assert(forall|i: int| 0 <= i < front.len() ==> front[i] == renders[i]);
        lemma_renders_round_trip(s, pos, front);
        assert(render_fits(renders[renders.len() - 1]));
        lemma_render_round_trip(s, pos + fb.len(), last);
        assert(front.push(last) =~= renders);
    }
}

/// Decoding the encoding of a message gives it back, and the size that the message counts in
/// its first four bytes is the size of its encoding.
pub proof fn lemma_render_message_round_trip(m: RenderMessageView)
    requires
        render_message_len(m) <= u32::MAX,
        m is AddRender ==> m->AddRender_1.len() <= u16::MAX,
        m is AddRender ==> forall|i: int|
            0 <= i < m->AddRender_1.len() ==> render_fits(#[trigger] m->AddRender_1[i]),
    ensures
        render_message_bytes(m).len() == render_message_len(m),
        u32_from_le(render_message_bytes(m).subrange(0, 4)) == render_message_bytes(m).len(),
        parse_render_message(render_message_bytes(m)) == Some(m),
{
    match m {
        RenderMessageView::AddRender(_, _) => lemma_add_message_round_trip(m),
        RenderMessageView::RemoveRender(id) => {
            let len = render_message_len(m);
            let b_len = (len as u32).spec_to_bytes();
            let b_id = id.spec_to_bytes();
            (len as u32).lemma_round_trip();
            id.lemma_round_trip();
            crate::bytes::lemma_le_u32_round_trip(len as u32);
            let q1 = b_len + seq![1u8];
            let s = q1 + b_id;
            assert(s == render_message_bytes(m));
            assert(s.subrange(0, s.len() as int) =~= s);
            lemma_split_prefix(s, q1, b_id);
            lemma_split_prefix(s, b_len, seq![1u8]);
            assert(s[4] == q1[4]);
            lemma_decode_field::<i32, 4>(s, 5, id);
        },
    }
}

/// The round trip of an added group.
proof fn lemma_add_message_round_trip(m: RenderMessageView)
    requires
        m is AddRender,
        render_message_len(m) <= u32::MAX,
        m->AddRender_1.len() <= u16::MAX,
        forall|i: int| 0 <= i < m->AddRender_1.len() ==> render_fits(#[trigger] m->AddRender_1[i]),
    ensures
        render_message_bytes(m).len() == render_message_len(m),
        u32_from_le(render_message_bytes(m).subrange(0, 4)) == render_message_bytes(m).len(),
        parse_render_message(render_message_bytes(m)) == Some(m),
{
    let id = m->AddRender_0;
    let renders = m->AddRender_1;
    let len = render_message_len(m);
    let b_len = (len as u32).spec_to_bytes();
    let b_id = id.spec_to_bytes();
    let b_n = (renders.len() as u16).spec_to_bytes();
    let b_rs = renders_bytes(renders);
    (len as u32).lemma_round_trip();
    id.lemma_round_trip();
    (renders.len() as u16).lemma_round_trip();
    crate::bytes::lemma_le_u32_round_trip(len as u32);
    lemma_le_u16_round_trip(renders.len() as u16);
    let q1 = b_len + seq![0u8];
    let q2 = q1 + b_id;
    let q3 = q2 + b_n;
    let s = q3 + b_rs;
    assert(s == render_message_bytes(m));
    assert(s.subrange(0, s.len() as int) =~= s);
    lemma_split_prefix(s, q3, b_rs);
    lemma_split_prefix(s, q2, b_n);
    lemma_split_prefix(s, q1, b_id);
    lemma_split_prefix(s, b_len, seq![0u8]);
    assert(s[4] == q1[4]);
    lemma_renders_round_trip(s, 11, renders);
    lemma_decode_field::<i32, 4>(s, 5, id);
}

impl Render {
    /// The size of the encoding of this render.
    pub fn count_bytes(&self) -> (r: usize)
        requires
            render_len(self@) <= usize::MAX,
        ensures
            r == render_len(self@),
    {
        match self {
            Render::Line2D { .. } => 1 + 8 * 2 + 16,
            Render::Line { .. } => 1 + 12 * 2 + 16,
            Render::LineStrip { positions, .. } => 1 + 2 + positions.len() * 12 + 16,
        }
    }

    /// Decodes the render at the reader's position and moves past it, where one stands there;
    /// `None` for an unknown tag or too few bytes for the render the tag announces.
    pub fn try_from_reader(reader: &mut ByteReader) -> (r: Option<Render>)
        requires
            old(reader).pos() <= old(reader).data().len(),
        ensures
            final(reader).data() == old(reader).data(),
            old(reader).pos() <= final(reader).pos() <= final(reader).data().len(),
            r is Some <==> parse_render_at(old(reader).data(), old(reader).pos() as int) is Some,
            r matches Some(x) ==> parse_render_at(old(reader).data(), old(reader).pos() as int)
                == Some((x@, (final(reader).pos() - old(reader).pos()) as nat)),
    {
        proof {
            reveal(decode_at);
            <u8 as ToBytesExact<1>>::lemma_num_bytes();
            <u16 as ToBytesExact<2>>::lemma_num_bytes();
            <Vec2 as ToBytesExact<8>>::lemma_num_bytes();
            <Vec3 as ToBytesExact<12>>::lemma_num_bytes();
            <Color as ToBytesExact<16>>::lemma_num_bytes();
        }
        let ghost s = reader.data();
        let ghost pos = reader.pos() as int;
        if reader.remaining() < 1 {
            return None;
        }
        let tag = reader.read::<u8>();
        if tag == 0 {
            if reader.remaining() < 32 {
                return None;
            }
            let start = reader.read::<Vec2>();
            let end = reader.read::<Vec2>();
            let color = reader.read::<Color>();
            Some(Render::Line2D { start, end, color })
        } else if tag == 1 {
            if reader.remaining() < 40 {
                return None;
            }
            let start = reader.read::<Vec3>();
            let end = reader.read::<Vec3>();
            let color = reader.read::<Color>();
            Some(Render::Line { start, end, color })
        } else if tag == 2 {
            if reader.remaining() < 2 {
                return None;
            }
            let count = reader.read::<u16>();
            if reader.remaining() < count as usize * 12 + 16 {
                return None;
            }
            let ghost at = reader.pos() as int;
            assert forall|i: int| 0 <= i < count implies (#[trigger] Vec3::spec_from_bytes(
                crate::bytes::item_bytes(s, at, 12, i),
            )) is Some by {}
            let positions = read_packed::<Vec3, 12>(reader, count as usize).unwrap();
            let color = reader.read::<Color>();
            Some(Render::LineStrip { positions, color })
        } else {
            None
        }
    }

    /// Decodes the render at the reader's position and moves past it. A render must stand
    /// there: a known tag and all the bytes that it announces.
    pub fn from_reader(reader: &mut ByteReader) -> (r: Render)
        requires
            old(reader).pos() <= old(reader).data().len(),
            parse_render_at(old(reader).data(), old(reader).pos() as int) is Some,
        ensures
            final(reader).data() == old(reader).data(),
            old(reader).pos() <= final(reader).pos() <= final(reader).data().len(),
            parse_render_at(old(reader).data(), old(reader).pos() as int) == Some(
                (r@, (final(reader).pos() - old(reader).pos()) as nat),
            ),
    {
        Self::try_from_reader(reader).unwrap()
    }
}

impl ToBytes for Render {
    open spec fn spec_encodable(&self) -> bool {
        render_len(self@) <= usize::MAX
    }

    open spec fn spec_bytes(&self) -> Seq<u8> {
        render_bytes(self@)
    }

    fn to_bytes(&self) -> (r: Vec<u8>) {
        let num_bytes = self.count_bytes();
        let mut bytes: Vec<u8> = Vec::with_capacity(num_bytes);
        match self {
            Render::Line2D { start, end, color } => {
                bytes.push(0);
                append_bytes(&mut bytes, start.to_bytes().as_slice());
                append_bytes(&mut bytes, end.to_bytes().as_slice());
                append_bytes(&mut bytes, color.to_bytes().as_slice());
            },
            Render::Line { start, end, color } => {
                bytes.push(1);
                append_bytes(&mut bytes, start.to_bytes().as_slice());
                append_bytes(&mut bytes, end.to_bytes().as_slice());
                append_bytes(&mut bytes, color.to_bytes().as_slice());
            },
            Render::LineStrip { positions, color } => {
                bytes.push(2);
                append_bytes(&mut bytes, (positions.len() as u16).to_bytes().as_slice());
                append_packed(&mut bytes, positions);
                append_bytes(&mut bytes, color.to_bytes().as_slice());
            },
        }
        assert(bytes@ =~= render_bytes(self@));
        bytes
    }
}

impl RenderMessage {
    /// The size of the field that leads every message.
    pub const MIN_NUM_BYTES: usize = 4;

    /// The size that this message counts for itself.
    pub fn count_bytes(&self) -> (r: usize)
        requires
            render_message_len(self@) <= usize::MAX,
        ensures
            r == render_message_len(self@),
    {
        match self {
            RenderMessage::AddRender(_, renders) => {
                let ghost views = renders@.map_values(|r: Render| r@);
                let mut total: usize = 0;
                let mut i: usize = 0;
                while i < renders.len()
                    invariant
                        0 <= i <= renders@.len(),
                        views == renders@.map_values(|r: Render| r@),
                        11 + renders_len(views) <= usize::MAX,
                        total == renders_len(views.take(i as int)),
                    decreases renders@.len() - i,
                {
                    proof {
                        lemma_renders_len_monotone(views, i + 1);
                        assert(views.take(i + 1).drop_last() =~= views.take(i as int));
                    }
                    total = total + renders[i].count_bytes();
                    i += 1;
                }
                assert(views.take(i as int) =~= views);
                Self::MIN_NUM_BYTES + 4 + 1 + 2 + total
            },
            RenderMessage::RemoveRender(_) => Self::MIN_NUM_BYTES + 1 + 4,
        }
    }

    /// The size that the message beginning `bytes` counts for itself.
    pub fn get_num_bytes(bytes: &[u8]) -> (r: usize)
        requires
            bytes@.len() >= 4,
        ensures
            r == u32_from_le(bytes@.subrange(0, 4)),
    {
        u32::from_bytes(vstd::slice::slice_subrange(bytes, 0, 4)).unwrap() as usize
    }

    /// Decodes the message that `bytes` begin with, as `parse_render_message` says. A message
    /// must stand there: bytes after it are left unread.
    pub fn from_bytes(bytes: &[u8]) -> (r: RenderMessage)
        requires
            parse_render_message(bytes@) is Some,
        ensures
            parse_render_message(bytes@) == Some(r@),
    {
        Self::try_from_bytes(bytes).unwrap()
    }

    /// Decodes the message that `bytes` begin with; `None` exactly where `parse_render_message`
    /// is: an unknown tag, or too few bytes for what the message announces.
    pub fn try_from_bytes(bytes: &[u8]) -> (r: Option<RenderMessage>)
        ensures
            r is Some <==> parse_render_message(bytes@) is Some,
            r matches Some(m) ==> parse_render_message(bytes@) == Some(m@),
    {
        proof {
            reveal(decode_at);
            <u8 as ToBytesExact<1>>::lemma_num_bytes();
            <u16 as ToBytesExact<2>>::lemma_num_bytes();
            <u32 as ToBytesExact<4>>::lemma_num_bytes();
            <i32 as ToBytesExact<4>>::lemma_num_bytes();
        }
        let ghost s = bytes@;
        if bytes.len() < 5 {
            return None;
        }
        let mut reader = ByteReader::new(bytes);
        let _ = reader.read::<u32>();
        let tag = reader.read::<u8>();
        if tag == 0 {
            if bytes.len() < 11 {
                return None;
            }
            let id = reader.read::<i32>();
            let count = reader.read::<u16>();
            let mut renders: Vec<Render> = Vec::new();
            let mut i: usize = 0;
            while i < count as usize
                invariant
                    0 <= i <= count,
                    reader.data() == s,
                    s == bytes@,
                    s.len() >= 11,
                    s[4] == 0,
                    count == u16_from_le(s.subrange(9, 11)),
                    11 <= reader.pos() <= s.len(),
                    parse_renders_at(s, 11, i as nat) == Some(
                        (renders@.map_values(|r: Render| r@), (reader.pos() - 11) as nat),
                    ),
                decreases count - i,
            {
                let ghost before = renders@.map_values(|r: Render| r@);
                match Render::try_from_reader(&mut reader) {
                    Some(r) => {
                        renders.push(r);
                        assert(renders@.map_values(|r: Render| r@) =~= before.push(r@));
                    },
                    None => {
                        proof {
                            assert(parse_renders_at(s, 11, (i + 1) as nat) is None);
                            lemma_parse_renders_none(s, 11, (i + 1) as nat, count as nat);
                        }
                        return None;
                    },
                }
                i += 1;
            }
            Some(RenderMessage::AddRender(id, renders))
        } else if tag == 1 {
            if bytes.len() < 9 {
                return None;
            }
            let id = reader.read::<i32>();
            Some(RenderMessage::RemoveRender(id))
        } else {
            None
        }
    }
}

/// The total size of the first `i` renders is at most that of all of them.
proof fn lemma_renders_len_monotone(renders: Seq<RenderView>, i: int)
    requires
        0 <= i <= renders.len(),
    ensures
        renders_len(renders.take(i)) <= renders_len(renders),
        i > 0 ==> renders_len(renders.take(i)) == renders_len(renders.take(i - 1)) + render_len(
            renders[i - 1],
        ),
    decreases renders.len(),
{
    if i > 0 {
        assert(renders.take(i).drop_last() =~= renders.take(i - 1));
    }
    if i < renders.len() {
        assert(renders.drop_last().take(i) =~= renders.take(i));
        lemma_renders_len_monotone(renders.drop_last(), i);
    } else {
        assert(renders.take(i) =~= renders);
    }
}

/// Once a render fails to decode, so does every longer run of renders.
proof fn lemma_parse_renders_none(s: Seq<u8>, pos: int, a: nat, b: nat)
    requires
        a <= b,
        parse_renders_at(s, pos, a) is None,
    ensures
        parse_renders_at(s, pos, b) is None,
    decreases b,
{
    if b > a {
        lemma_parse_renders_none(s, pos, a, (b - 1) as nat);
    }
}

impl ToBytes for RenderMessage {
    open spec fn spec_encodable(&self) -> bool {
        render_message_len(self@) <= usize::MAX
    }

    open spec fn spec_bytes(&self) -> Seq<u8> {
        render_message_bytes(self@)
    }

    fn to_bytes(&self) -> (r: Vec<u8>) {
        let num_bytes = self.count_bytes();
        let mut bytes: Vec<u8> = Vec::with_capacity(num_bytes);
        append_bytes(&mut bytes, (num_bytes as u32).to_bytes().as_slice());
        match self {
            RenderMessage::AddRender(id, renders) => {
                bytes.push(0);
                append_bytes(&mut bytes, id.to_bytes().as_slice());
                append_bytes(&mut bytes, (renders.len() as u16).to_bytes().as_slice());
                let ghost views = renders@.map_values(|r: Render| r@);
                let ghost head = bytes@;
                let mut i: usize = 0;
                while i < renders.len()
                    invariant
                        0 <= i <= renders@.len(),
                        views == renders@.map_values(|r: Render| r@),
                        11 + renders_len(views) <= usize::MAX,
                        bytes@ == head + renders_bytes(views.take(i as int)),
                    decreases renders@.len() - i,
                {
                    proof {
                        lemma_renders_len_monotone(views, i + 1);
                        lemma_renders_len_is_bytes_len(views.take(i + 1));
                        assert(views.take(i + 1).drop_last() =~= views.take(i as int));
                    }
                    append_bytes(&mut bytes, renders[i].to_bytes().as_slice());
                    i += 1;
                }
                assert(views.take(i as int) =~= views);
            },
            RenderMessage::RemoveRender(id) => {
                bytes.push(1);
                append_bytes(&mut bytes, id.to_bytes().as_slice());
            },
        }
        assert(bytes@ =~= render_message_bytes(self@));
        bytes
    }
}

/// The encodings of renders take their counted sizes.
proof fn lemma_renders_len_is_bytes_len(renders: Seq<RenderView>)
    ensures
        renders_bytes(renders).len() == renders_len(renders),
    decreases renders.len(),
{
    if renders.len() > 0 {
        lemma_renders_len_is_bytes_len(renders.drop_last());
        lemma_render_len_is_bytes_len(renders.last());
    }
}

/// The encoding of a render takes its counted size.
proof fn lemma_render_len_is_bytes_len(r: RenderView)
    ensures
        render_bytes(r).len() == render_len(r),
{
    match r {
        RenderView::Line2D { start, end, color } => {
            start.lemma_round_trip();
            end.lemma_round_trip();
            color.lemma_round_trip();
        },
        RenderView::Line { start, end, color } => {
            start.lemma_round_trip();
            end.lemma_round_trip();
            color.lemma_round_trip();
        },
        RenderView::LineStrip { positions, color } => {
            (positions.len() as u16).lemma_round_trip();
            color.lemma_round_trip();
            lemma_pack_len(positions);
        },
    }
}

} // verus!
