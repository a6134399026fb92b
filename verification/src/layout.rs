//! Where each field stands in the packets that the simulation sends, stated as byte offsets
//! and little-endian words, apart from how the decoders are written.
use crate::bytes::{u32_from_le, u64_from_le, F32Bits, FromBytes, ToBytesExact};
use crate::game_state::{
    cars_start, game_state_bytes, game_state_encodable, lemma_game_state_round_trip, parse_game_state, GameStateView,
};
use crate::render::{parse_render_at, parse_render_message, RenderMessageView, RenderView};
use crate::rocketsim::{
    spec_game_mode_from_u8, spec_game_mode_tag, spec_team_from_u8, spec_team_tag, spec_tile_state_from_u8,
    spec_tile_state_tag, BallState, BoostPad, CarInfo, CarState, Color, GameMode, Team, TileState, Vec2, Vec3,
};
use crate::udp::{packet_type_byte, packet_type_of, UdpPacketTypes};
use vstd::prelude::*;

verus! {

/// The `f32` whose little-endian bits stand at bytes `off` to `off + 4` of `b`.
pub open spec fn f32_at(b: Seq<u8>, off: int) -> F32Bits {
    F32Bits(u32_from_le(b.subrange(off, off + 4)))
}

/// The vector whose `x`, `y` and `z` stand as little-endian `f32`s at bytes `off` to
/// `off + 12` of `b`.
pub open spec fn vec3_at(b: Seq<u8>, off: int) -> Vec3 {
    Vec3 { x: f32_at(b, off), y: f32_at(b, off + 4), z: f32_at(b, off + 8) }
}

/// The three `f32`s of a vector encoding read back where they stand.
proof fn lemma_vec3_at(b: Seq<u8>, off: int)
    requires
        0 <= off,
        off + 12 <= b.len(),
    ensures
        Vec3::spec_from_bytes(b.subrange(off, off + 12)) == Some(vec3_at(b, off)),
{
    reveal(crate::bytes::decode_at);
    let v = b.subrange(off, off + 12);
    assert(v.subrange(0, 4) =~= b.subrange(off, off + 4));
    assert(v.subrange(4, 8) =~= b.subrange(off + 4, off + 8));
    assert(v.subrange(8, 12) =~= b.subrange(off + 8, off + 12));
}

/// In the 113 bytes of a ball, its position stands at bytes 8 to 20, its velocity at 56 to 68
/// and its angular velocity at 68 to 80, each as three little-endian `f32`s `x`, `y`, `z`; the
/// ticks since its last update are the little-endian `u64` of bytes 0 to 8.
pub proof fn lemma_ball_layout(b: Seq<u8>)
    requires
        b.len() == 113,
    ensures
        BallState::spec_from_bytes(b) is Some,
        BallState::spec_from_bytes(b).unwrap().tick_count_since_update == u64_from_le(b.subrange(0, 8)),
        BallState::spec_from_bytes(b).unwrap().pos == vec3_at(b, 8),
        BallState::spec_from_bytes(b).unwrap().vel == vec3_at(b, 56),
        BallState::spec_from_bytes(b).unwrap().ang_vel == vec3_at(b, 68),
{
    reveal(crate::bytes::decode_at);
    lemma_vec3_at(b, 8);
    lemma_vec3_at(b, 56);
    lemma_vec3_at(b, 68);
}

/// A ball is encoded with its position at bytes 8 to 20, its velocity at 56 to 68 and its
/// angular velocity at 68 to 80.
pub proof fn lemma_ball_encoding_layout(v: BallState)
    ensures
        v.spec_to_bytes().len() == 113,
        vec3_at(v.spec_to_bytes(), 8) == v.pos,
        vec3_at(v.spec_to_bytes(), 56) == v.vel,
        vec3_at(v.spec_to_bytes(), 68) == v.ang_vel,
{
    v.lemma_round_trip();
    lemma_ball_layout(v.spec_to_bytes());
}

/// In a game-state packet the ball starts at byte 21, after the header: its position at bytes
/// 29 to 41, its velocity at 77 to 89 and its angular velocity at 89 to 101; the tick count is
/// the little-endian `u64` of bytes 0 to 8.
pub proof fn lemma_game_state_ball_layout(s: Seq<u8>)
    requires
        parse_game_state(s) is Some,
    ensures
        parse_game_state(s).unwrap().tick_count == u64_from_le(s.subrange(0, 8)),
        parse_game_state(s).unwrap().ball.pos == vec3_at(s, 29),
        parse_game_state(s).unwrap().ball.vel == vec3_at(s, 77),
        parse_game_state(s).unwrap().ball.ang_vel == vec3_at(s, 89),
{
    reveal(crate::bytes::decode_at);
    let b = s.subrange(21, 134);
    lemma_ball_layout(b);
    assert(b.subrange(0, 8) =~= s.subrange(21, 29));
    assert forall|off: int| 0 <= off && off + 12 <= 113 implies #[trigger] vec3_at(b, off) == vec3_at(s, 21 + off) by {
        assert(b.subrange(off, off + 4) =~= s.subrange(21 + off, 21 + off + 4));
        assert(b.subrange(off + 4, off + 8) =~= s.subrange(21 + off + 4, 21 + off + 8));
        assert(b.subrange(off + 8, off + 12) =~= s.subrange(21 + off + 8, 21 + off + 12));
    }
    assert(vec3_at(b, 8) == vec3_at(s, 29));
    assert(vec3_at(b, 56) == vec3_at(s, 77));
    assert(vec3_at(b, 68) == vec3_at(s, 89));
}


/// In the 251 bytes of a car's state, its position stands at bytes 8 to 20, its velocity at 56
/// to 68 and its angular velocity at 68 to 80; whether it has jumped is byte 85, its boost the
/// `f32` at 118, whether it is demolished byte 170 and its respawn timer the `f32` at 171. A
/// flag is set where its byte is not zero.
pub proof fn lemma_car_state_layout(b: Seq<u8>)
    requires
        b.len() == 251,
    ensures
        CarState::spec_from_bytes(b) is Some,
        CarState::spec_from_bytes(b).unwrap().pos == vec3_at(b, 8),
        CarState::spec_from_bytes(b).unwrap().vel == vec3_at(b, 56),
        CarState::spec_from_bytes(b).unwrap().ang_vel == vec3_at(b, 68),
        CarState::spec_from_bytes(b).unwrap().has_jumped == (b[85] != 0),
        CarState::spec_from_bytes(b).unwrap().boost == f32_at(b, 118),
        CarState::spec_from_bytes(b).unwrap().is_demoed == (b[170] != 0),
        CarState::spec_from_bytes(b).unwrap().demo_respawn_timer == f32_at(b, 171),
{
    reveal(crate::bytes::decode_at);
    lemma_vec3_at(b, 8);
    lemma_vec3_at(b, 56);
    lemma_vec3_at(b, 68);
    assert(b.subrange(118, 122).subrange(0, 4) =~= b.subrange(118, 122));
    assert(b.subrange(171, 175).subrange(0, 4) =~= b.subrange(171, 175));
    assert(b.subrange(85, 86)[0] == b[85]);
    assert(b.subrange(170, 171)[0] == b[170]);
}

/// In the 325 bytes of a car, its id is the little-endian `u32` of bytes 0 to 4, byte 4 is its
/// team (0 blue, 1 orange; any other byte is no car), and its state follows at byte 5: its
/// position at bytes 13 to 25, its velocity at 61 to 73, its angular velocity at 73 to 85 and
/// its boost the `f32` at 123.
#[verifier::spinoff_prover]
pub proof fn lemma_car_info_layout(b: Seq<u8>)
    requires
        b.len() == 325,
    ensures
        CarInfo::spec_from_bytes(b) is Some <==> (b[4] == 0 || b[4] == 1),
        CarInfo::spec_from_bytes(b) is Some ==> {
            let c = CarInfo::spec_from_bytes(b).unwrap();
            &&& c.id == u32_from_le(b.subrange(0, 4))
            &&& c.team == (if b[4] == 0 {
                crate::rocketsim::Team::Blue
            } else {
                crate::rocketsim::Team::Orange
            })
            &&& c.state.pos == vec3_at(b, 13)
            &&& c.state.vel == vec3_at(b, 61)
            &&& c.state.ang_vel == vec3_at(b, 73)
            &&& c.state.boost == f32_at(b, 123)
        },
{
    let st = b.subrange(5, 256);
    assert(b.subrange(4, 5)[0] == b[4]);
    if CarInfo::spec_from_bytes(b) is Some {
        let c = CarInfo::spec_from_bytes(b).unwrap();
        assert(c.id == u32_from_le(b.subrange(0, 4)) && c.state == CarState::spec_from_bytes(st).unwrap()) by {
            reveal(crate::bytes::decode_at);
            assert(b.subrange(0, 4).subrange(0, 4) =~= b.subrange(0, 4));
        }
        lemma_car_state_layout(st);
        assert forall|off: int| 0 <= off && off + 12 <= 251 implies #[trigger] vec3_at(st, off) == vec3_at(
            b,
            5 + off,
        ) by {
            assert(st.subrange(off, off + 4) =~= b.subrange(5 + off, 5 + off + 4));
            assert(st.subrange(off + 4, off + 8) =~= b.subrange(5 + off + 4, 5 + off + 8));
            assert(st.subrange(off + 8, off + 12) =~= b.subrange(5 + off + 8, 5 + off + 12));
        }
        assert(vec3_at(st, 8) == vec3_at(b, 13));
        assert(vec3_at(st, 56) == vec3_at(b, 61));
        assert(vec3_at(st, 68) == vec3_at(b, 73));
        assert(st.subrange(118, 122) =~= b.subrange(123, 127));
    }
}


/// A vector read inside a part of `s` is the vector read in `s` at the same place.
proof fn lemma_vec3_shift(s: Seq<u8>, start: int, len: int, off: int)
    requires
        0 <= start,
        start + len <= s.len(),
        0 <= off,
        off + 12 <= len,
    ensures
        vec3_at(s.subrange(start, start + len), off) == vec3_at(s, start + off),
{
    let b = s.subrange(start, start + len);
    assert(b.subrange(off, off + 4) =~= s.subrange(start + off, start + off + 4));
    assert(b.subrange(off + 4, off + 8) =~= s.subrange(start + off + 4, start + off + 8));
    assert(b.subrange(off + 8, off + 12) =~= s.subrange(start + off + 8, start + off + 12));
}

/// In the 26 bytes of a boost pad, byte 0 says whether it is big and its position follows at
/// bytes 1 to 13.
pub proof fn lemma_pad_layout(b: Seq<u8>)
    requires
        b.len() == 26,
    ensures
        BoostPad::spec_from_bytes(b) is Some,
        BoostPad::spec_from_bytes(b).unwrap().is_big == (b[0] != 0),
        BoostPad::spec_from_bytes(b).unwrap().position == vec3_at(b, 1),
{
    reveal(crate::bytes::decode_at);
    lemma_vec3_at(b, 1);
    assert(b.subrange(0, 1)[0] == b[0]);
}

/// A game-state packet starts with a 21-byte header: the tick count as a little-endian `u64`
/// (bytes 0 to 8), the tick rate as an `f32` (8 to 12), the game mode's tag (byte 12), the
/// number of pads (13 to 17) and the number of cars (17 to 21), each a little-endian `u32`.
/// The 113 bytes of the ball follow, then the pads, 26 bytes each from byte 134, then the cars,
/// 325 bytes each: pad `i` is big where byte `134 + 26 i` is not zero and stands at the
/// position that follows it; car `j` has the id and position (13 bytes in) of its record.
#[verifier::spinoff_prover]
pub proof fn lemma_game_state_layout(s: Seq<u8>, i: int, j: int)
    requires
        parse_game_state(s) is Some,
    ensures
        ({
            let g = parse_game_state(s).unwrap();
            let np = u32_from_le(s.subrange(13, 17)) as int;
            let nc = u32_from_le(s.subrange(17, 21)) as int;
            let car = 134 + 26 * np + 325 * j;
            &&& g.tick_rate == f32_at(s, 8)
            &&& spec_game_mode_from_u8(s[12]) == Ok::<crate::rocketsim::GameMode, ()>(g.game_mode)
            &&& g.pads.len() == np
            &&& g.cars.len() == nc
            &&& (0 <= i < np ==> g.pads[i].is_big == (s[134 + 26 * i] != 0) && g.pads[i].position
                == vec3_at(s, 135 + 26 * i))
            &&& (0 <= j < nc ==> g.cars[j].id == u32_from_le(s.subrange(car, car + 4))
                && g.cars[j].state.pos == vec3_at(s, car + 13))
        }),
{
    lemma_game_state_header(s);
    lemma_game_state_pad(s, i);
    lemma_game_state_car(s, j);
}

#[verifier::spinoff_prover]
proof fn lemma_game_state_header(s: Seq<u8>)
    requires
        parse_game_state(s) is Some,
    ensures
        ({
            let g = parse_game_state(s).unwrap();
            &&& g.tick_rate == f32_at(s, 8)
            &&& spec_game_mode_from_u8(s[12]) == Ok::<crate::rocketsim::GameMode, ()>(g.game_mode)
            &&& g.pads.len() == u32_from_le(s.subrange(13, 17))
            &&& g.cars.len() == u32_from_le(s.subrange(17, 21))
        }),
{
    let g = parse_game_state(s).unwrap();
    assert(s.subrange(12, 13)[0] == s[12]);
    assert(g.tick_rate == f32_at(s, 8) && g.game_mode == crate::rocketsim::GameMode::spec_from_bytes(
        s.subrange(12, 13),
    ).unwrap()) by {
        reveal(crate::bytes::decode_at);
        assert(s.subrange(8, 12).subrange(0, 4) =~= s.subrange(8, 12));
    }
}

#[verifier::spinoff_prover]
proof fn lemma_game_state_pad(s: Seq<u8>, i: int)
    requires
        parse_game_state(s) is Some,
    ensures
        ({
            let g = parse_game_state(s).unwrap();
            0 <= i < g.pads.len() ==> g.pads[i].is_big == (s[134 + 26 * i] != 0) && g.pads[i].position
                == vec3_at(s, 135 + 26 * i)
        }),
{
    let g = parse_game_state(s).unwrap();
    if 0 <= i < g.pads.len() {
        let a = 134 + i * 26;
        let b = s.subrange(a, a + 26);
        assert(g.pads[i] == BoostPad::spec_from_bytes(b).unwrap()) by {
            reveal(crate::bytes::decode_at);
        }
        lemma_pad_layout(b);
        lemma_vec3_shift(s, a, 26, 1);
        assert(b[0] == s[a]);
    }
}

#[verifier::spinoff_prover]
proof fn lemma_game_state_car(s: Seq<u8>, j: int)
    requires
        parse_game_state(s) is Some,
    ensures
        ({
            let g = parse_game_state(s).unwrap();
            let np = u32_from_le(s.subrange(13, 17)) as int;
            let car = 134 + 26 * np + 325 * j;
            0 <= j < g.cars.len() ==> g.cars[j].id == u32_from_le(s.subrange(car, car + 4))
                && g.cars[j].state.pos == vec3_at(s, car + 13)
        }),
{
    let g = parse_game_state(s).unwrap();
    let np = u32_from_le(s.subrange(13, 17)) as int;
    if 0 <= j < g.cars.len() {
        let c = cars_start(np as nat) + j * 325;
        let b = s.subrange(c, c + 325);
        assert(b == crate::bytes::item_bytes(s, cars_start(np as nat), 325, j));
        assert(CarInfo::spec_from_bytes(b) is Some);
        assert(g.cars[j] == CarInfo::spec_from_bytes(b).unwrap()) by {
            reveal(crate::bytes::decode_at);
        }
        lemma_car_info_layout(b);
        lemma_vec3_shift(s, c, 325, 13);
        assert(b.subrange(0, 4) =~= s.subrange(c, c + 4));
    }
}


/// A game state is encoded with its tick count in bytes 0 to 8, its tick rate in 8 to 12, its
/// ball's position, velocity and angular velocity at bytes 29, 77 and 89, and pad `i`'s
/// position at byte `135 + 26 i`.
pub proof fn lemma_game_state_encoding_layout(v: GameStateView, i: int)
    requires
        game_state_encodable(v),
    ensures
        ({
            let s = game_state_bytes(v);
            &&& u64_from_le(s.subrange(0, 8)) == v.tick_count
            &&& f32_at(s, 8) == v.tick_rate
            &&& vec3_at(s, 29) == v.ball.pos
            &&& vec3_at(s, 77) == v.ball.vel
            &&& vec3_at(s, 89) == v.ball.ang_vel
            &&& (0 <= i < v.pads.len() ==> vec3_at(s, 135 + 26 * i) == v.pads[i].position)
        }),
{
    lemma_game_state_round_trip(v);
    let s = game_state_bytes(v);
    lemma_game_state_ball_layout(s);
    lemma_game_state_header(s);
    lemma_game_state_pad(s, i);
}


/// The point whose `x` and `y` stand as little-endian `f32`s at bytes `off` to `off + 8`.
pub open spec fn vec2_at(b: Seq<u8>, off: int) -> Vec2 {
    Vec2 { x: f32_at(b, off), y: f32_at(b, off + 4) }
}

/// The color whose `r`, `g`, `b` and `a` stand as little-endian `f32`s at bytes `off` to
/// `off + 16`.
pub open spec fn color_at(b: Seq<u8>, off: int) -> Color {
    Color { r: f32_at(b, off), g: f32_at(b, off + 4), b: f32_at(b, off + 8), a: f32_at(b, off + 12) }
}

/// A render is a tag byte and its fields. Tag 0 is a flat line: its start at one byte in, its
/// end at nine, its color at seventeen, 33 bytes in all. Tag 1 is a line: start at one byte
/// in, end at thirteen, color at twenty-five, 41 bytes in all. Tag 2 is a strip: the number of
/// its points as a little-endian `u16` at one byte in, the points from three bytes in, twelve
/// bytes each, then the color; 19 bytes and twelve per point in all. No other tag is a render.
#[verifier::spinoff_prover]
pub proof fn lemma_render_layout(s: Seq<u8>, pos: int, k: int)
    requires
        parse_render_at(s, pos) is Some,
    ensures
        ({
            let (r, n) = parse_render_at(s, pos).unwrap();
            &&& 0 <= pos < s.len()
            &&& s[pos] <= 2
            &&& (s[pos] == 0 ==> r == (RenderView::Line2D {
                start: vec2_at(s, pos + 1),
                end: vec2_at(s, pos + 9),
                color: color_at(s, pos + 17),
            }) && n == 33)
            &&& (s[pos] == 1 ==> r == (RenderView::Line {
                start: vec3_at(s, pos + 1),
                end: vec3_at(s, pos + 13),
                color: color_at(s, pos + 25),
            }) && n == 41)
            &&& (s[pos] == 2 ==> {
                let count = (s[pos + 1] as int) + 256 * (s[pos + 2] as int);
                &&& r is LineStrip
                &&& r->LineStrip_positions.len() == count
                &&& (0 <= k < count ==> r->LineStrip_positions[k] == vec3_at(s, pos + 3 + 12 * k))
                &&& r->LineStrip_color == color_at(s, pos + 3 + 12 * count)
                &&& n == 19 + 12 * count
            })
        }),
{
    reveal(crate::bytes::decode_at);
    let (r, n) = parse_render_at(s, pos).unwrap();
    if s[pos] == 0 {
        lemma_vec2_in(s, pos + 1);
        lemma_vec2_in(s, pos + 9);
        lemma_color_in(s, pos + 17);
    } else if s[pos] == 1 {
        lemma_vec3_at(s, pos + 1);
        lemma_vec3_at(s, pos + 13);
        lemma_color_in(s, pos + 25);
    } else {
        let count = (s[pos + 1] as int) + 256 * (s[pos + 2] as int);
        let t = s.subrange(pos + 1, pos + 3);
        lemma_u16_le(t[0], t[1]);
        assert(crate::bytes::u16_from_le(t) == count);
        if 0 <= k < count {
            lemma_vec3_at(s, pos + 3 + 12 * k);
            assert(pos + 3 + k * 12 == pos + 3 + 12 * k);
        }
        lemma_color_in(s, pos + 3 + 12 * count);
        assert(pos + 3 + count * 12 == pos + 3 + 12 * count);
    }
}

/// The little-endian `u16` of two bytes is the first plus 256 times the second.
proof fn lemma_u16_le(a: u8, b: u8)
    ensures
        ((a as u16) | ((b as u16) << 8u16)) as int == (a as int) + 256 * (b as int),
{
    assert(((a as u16) | ((b as u16) << 8u16)) as u32 == (a as u32) + 256u32 * (b as u32)) by (bit_vector);
}

/// The two `f32`s of a point encoding read back where they stand.
proof fn lemma_vec2_in(b: Seq<u8>, off: int)
    requires
        0 <= off,
        off + 8 <= b.len(),
    ensures
        Vec2::spec_from_bytes(b.subrange(off, off + 8)) == Some(vec2_at(b, off)),
{
    reveal(crate::bytes::decode_at);
    let v = b.subrange(off, off + 8);
    assert(v.subrange(0, 4) =~= b.subrange(off, off + 4));
    assert(v.subrange(4, 8) =~= b.subrange(off + 4, off + 8));
}

/// The four `f32`s of a color encoding read back where they stand.
proof fn lemma_color_in(b: Seq<u8>, off: int)
    requires
        0 <= off,
        off + 16 <= b.len(),
    ensures
        Color::spec_from_bytes(b.subrange(off, off + 16)) == Some(color_at(b, off)),
{
    reveal(crate::bytes::decode_at);
    let v = b.subrange(off, off + 16);
    assert(v.subrange(0, 4) =~= b.subrange(off, off + 4));
    assert(v.subrange(4, 8) =~= b.subrange(off + 4, off + 8));
    assert(v.subrange(8, 12) =~= b.subrange(off + 8, off + 12));
    assert(v.subrange(12, 16) =~= b.subrange(off + 12, off + 16));
}


/// Decoding `count` renders one after another gives `count` renders.
proof fn lemma_renders_count(s: Seq<u8>, pos: int, count: nat)
    requires
        crate::render::parse_renders_at(s, pos, count) is Some,
    ensures
        crate::render::parse_renders_at(s, pos, count).unwrap().0.len() == count,
    decreases count,
{
    if count > 0 {
        lemma_renders_count(s, pos, (count - 1) as nat);
    }
}

/// A render message has its size in bytes 0 to 4 and its tag at byte 4: tag 1 removes the group
/// whose id is the little-endian `i32` of bytes 5 to 9; tag 0 adds a group with that id whose
/// number of renders is the little-endian `u16` of bytes 9 to 11 and whose first render stands
/// at byte 11. No other tag is a message.
#[verifier::spinoff_prover]
pub proof fn lemma_render_message_layout(s: Seq<u8>)
    requires
        parse_render_message(s) is Some,
    ensures
        ({
            let m = parse_render_message(s).unwrap();
            let id = u32_from_le(s.subrange(5, 9)) as i32;
            &&& s[4] <= 1
            &&& (s[4] == 1 ==> m == RenderMessageView::RemoveRender(id))
            &&& (s[4] == 0 ==> {
                &&& m is AddRender
                &&& m->AddRender_0 == id
                &&& m->AddRender_1.len() == (s[9] as int) + 256 * (s[10] as int)
                &&& (m->AddRender_1.len() > 0 ==> m->AddRender_1[0] == parse_render_at(s, 11).unwrap().0)
            })
        }),
{
    reveal(crate::bytes::decode_at);
    let m = parse_render_message(s).unwrap();
    assert(s.subrange(5, 9).subrange(0, 4) =~= s.subrange(5, 9));
    if s[4] == 0 {
        let t = s.subrange(9, 11);
        lemma_u16_le(t[0], t[1]);
        let n = crate::bytes::u16_from_le(t) as nat;
        lemma_renders_count(s, 11, n);
        if n > 0 {
            lemma_first_render(s, 11, n);
        }
    }
}

/// The first of several renders decoded one after another is the one that stands first.
proof fn lemma_first_render(s: Seq<u8>, pos: int, count: nat)
    requires
        count > 0,
        crate::render::parse_renders_at(s, pos, count) is Some,
    ensures
        crate::render::parse_renders_at(s, pos, count).unwrap().0[0] == parse_render_at(s, pos).unwrap().0,
    decreases count,
{
    if count > 1 {
        lemma_first_render(s, pos, (count - 1) as nat);
        lemma_renders_count(s, pos, (count - 1) as nat);
    } else {
        assert(crate::render::parse_renders_at(s, pos, 0) == Some((Seq::<RenderView>::empty(), 0nat)));
    }
}


/// The numbering that the simulation uses on the wire. Packet kinds: 0 quit, 1 game state,
/// 2 connection, 3 paused, 4 speed, 5 render. Game modes: 0 soccar, 1 hoops, 2 heatseeker,
/// 3 snowday, 4 dropshot, 5 the void. Teams: 0 blue, 1 orange. Tile states: 0 full,
/// 1 damaged, 2 broken. Each kind is written with its own number.
pub proof fn lemma_wire_numbering()
    ensures
        packet_type_of(0) == Some(UdpPacketTypes::Quit),
        packet_type_of(1) == Some(UdpPacketTypes::GameState),
        packet_type_of(2) == Some(UdpPacketTypes::Connection),
        packet_type_of(3) == Some(UdpPacketTypes::Paused),
        packet_type_of(4) == Some(UdpPacketTypes::Speed),
        packet_type_of(5) == Some(UdpPacketTypes::Render),
        packet_type_byte(UdpPacketTypes::Quit) == 0,
        packet_type_byte(UdpPacketTypes::GameState) == 1,
        packet_type_byte(UdpPacketTypes::Connection) == 2,
        packet_type_byte(UdpPacketTypes::Paused) == 3,
        packet_type_byte(UdpPacketTypes::Speed) == 4,
        packet_type_byte(UdpPacketTypes::Render) == 5,
        spec_game_mode_from_u8(0) == Ok::<GameMode, ()>(GameMode::Soccar),
        spec_game_mode_from_u8(1) == Ok::<GameMode, ()>(GameMode::Hoops),
        spec_game_mode_from_u8(2) == Ok::<GameMode, ()>(GameMode::Heatseeker),
        spec_game_mode_from_u8(3) == Ok::<GameMode, ()>(GameMode::Snowday),
        spec_game_mode_from_u8(4) == Ok::<GameMode, ()>(GameMode::Dropshot),
        spec_game_mode_from_u8(5) == Ok::<GameMode, ()>(GameMode::TheVoid),
        spec_game_mode_tag(GameMode::Soccar) == 0,
        spec_game_mode_tag(GameMode::Hoops) == 1,
        spec_game_mode_tag(GameMode::Heatseeker) == 2,
        spec_game_mode_tag(GameMode::Snowday) == 3,
        spec_game_mode_tag(GameMode::Dropshot) == 4,
        spec_game_mode_tag(GameMode::TheVoid) == 5,
        spec_team_from_u8(0) == Ok::<Team, ()>(Team::Blue),
        spec_team_from_u8(1) == Ok::<Team, ()>(Team::Orange),
        spec_team_tag(Team::Blue) == 0,
        spec_team_tag(Team::Orange) == 1,
        spec_tile_state_from_u8(0) == Ok::<TileState, ()>(TileState::Full),
        spec_tile_state_from_u8(1) == Ok::<TileState, ()>(TileState::Damaged),
        spec_tile_state_from_u8(2) == Ok::<TileState, ()>(TileState::Broken),
        spec_tile_state_tag(TileState::Full) == 0,
        spec_tile_state_tag(TileState::Damaged) == 1,
        spec_tile_state_tag(TileState::Broken) == 2,
{
}

} // verus!
