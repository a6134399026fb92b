//! The game state packet: a header (tick count, tick rate, game mode, pad count, car count), the
//! ball, as many boost pads and cars as the header counts, then both teams' dropshot tiles.
use crate::bytes::{
    all_decode, append_bytes, append_packed, decode_at, lemma_decode_field, lemma_le_u32_round_trip,
    lemma_pack_len, lemma_split_prefix, lemma_subrange_in_prefix, lemma_unpack_pack, pack,
    read_packed, u32_from_le, u64_from_le, unpack, ByteReader, F32Bits, FromBytes, ToBytes,
    ToBytesExact,
};
use crate::rocketsim::{BallState, BoostPad, CarInfo, DropshotTile, GameMode, GameState};
use vstd::prelude::*;

verus! {

/// A game state as values: the counts of pads, cars and tiles are the lengths of the sequences.
pub struct GameStateView {
    pub tick_count: u64,
    pub tick_rate: F32Bits,
    pub game_mode: GameMode,
    pub ball: BallState,
    pub pads: Seq<BoostPad>,
    pub cars: Seq<CarInfo>,
    pub tiles: (Seq<DropshotTile>, Seq<DropshotTile>),
}

impl View for GameState {
    type V = GameStateView;

    open spec fn view(&self) -> GameStateView {
        GameStateView {
            tick_count: self.tick_count,
            tick_rate: self.tick_rate,
            game_mode: self.game_mode,
            ball: self.ball,
            pads: self.pads@,
            cars: self.cars@,
            tiles: (self.tiles[0]@, self.tiles[1]@),
        }
    }
}

/// The size of a game state packet with `num_pads` pads and `num_cars` cars: the header, the
/// ball, the pads, the cars and 140 tiles.
pub open spec fn game_state_len(num_pads: nat, num_cars: nat) -> nat {
    21 + 113 + num_pads * 26 + num_cars * 325 + 13 * 140
}

/// Where the cars start in a packet with `num_pads` pads.
pub open spec fn cars_start(num_pads: nat) -> int {
    134 + num_pads * 26 as int
}

/// Where the tiles start in a packet with `num_pads` pads and `num_cars` cars.
pub open spec fn tiles_start(num_pads: nat, num_cars: nat) -> int {
    cars_start(num_pads) + num_cars * 325 as int
}

/// The pad count that a packet's header holds.
pub open spec fn header_num_pads(bytes: Seq<u8>) -> nat {
    u32_from_le(bytes.subrange(13, 17)) as nat
}

/// The car count that a packet's header holds.
pub open spec fn header_num_cars(bytes: Seq<u8>) -> nat {
    u32_from_le(bytes.subrange(17, 21)) as nat
}

/// The tick count that a packet's header holds.
pub open spec fn header_tick_count(bytes: Seq<u8>) -> u64 {
    u64_from_le(bytes.subrange(0, 8))
}

/// The bytes that encode a game state.
pub open spec fn game_state_bytes(v: GameStateView) -> Seq<u8> {
    v.tick_count.spec_to_bytes() + v.tick_rate.spec_to_bytes() + v.game_mode.spec_to_bytes() + (
    v.pads.len() as u32).spec_to_bytes() + (v.cars.len() as u32).spec_to_bytes()
        + v.ball.spec_to_bytes() + pack(v.pads) + pack(v.cars) + pack(v.tiles.0) + pack(v.tiles.1)
}

/// Whether a game state can be encoded: its counts fit the header, its size fits a `usize`, and
/// each team has 70 tiles.
pub open spec fn game_state_encodable(v: GameStateView) -> bool {
    &&& v.pads.len() <= u32::MAX
    &&& v.cars.len() <= u32::MAX
    &&& game_state_len(v.pads.len(), v.cars.len()) <= usize::MAX
    &&& v.tiles.0.len() == 70
    &&& v.tiles.1.len() == 70
}

/// What decoding the packet that `s` begins with gives: `None` where `s` is shorter than the
/// size its header asks for, or where the game mode, a car's team or a tile's state is not a
/// known tag. Bytes after the packet are not read.
pub open spec fn parse_game_state(s: Seq<u8>) -> Option<GameStateView> {
    if s.len() < 21 {
        None
    } else {
        let np = header_num_pads(s);
        let nc = header_num_cars(s);
        let cars_at = cars_start(np);
        let tiles_at = tiles_start(np, nc);
        if s.len() < game_state_len(np, nc) {
            None
        } else if GameMode::spec_from_bytes(s.subrange(12, 13)) is Some && all_decode::<CarInfo>(
            s,
            cars_at,
            325,
            nc,
        ) && all_decode::<DropshotTile>(s, tiles_at, 13, 70) && all_decode::<DropshotTile>(
            s,
            tiles_at + 910,
            13,
            70,
        ) {
            Some(
                GameStateView {
                    tick_count: decode_at(s, 0, 8),
                    tick_rate: decode_at(s, 8, 4),
                    game_mode: decode_at(s, 12, 1),
                    ball: decode_at(s, 21, 113),
                    pads: unpack(s, 134, 26, np),
                    cars: unpack(s, cars_at, 325, nc),
                    tiles: (unpack(s, tiles_at, 13, 70), unpack(s, tiles_at + 910, 13, 70)),
                },
            )
        } else {
            None
        }
    }
}

/// Decoding the encoding of a game state gives it back, and the header of the encoding tells its
/// size, its tick count and its counts of pads and cars.
pub proof fn lemma_game_state_round_trip(v: GameStateView)
    requires
        game_state_encodable(v),
    ensures
        game_state_bytes(v).len() == game_state_len(v.pads.len(), v.cars.len()),
        header_tick_count(game_state_bytes(v)) == v.tick_count,
        header_num_pads(game_state_bytes(v)) == v.pads.len(),
        header_num_cars(game_state_bytes(v)) == v.cars.len(),
        parse_game_state(game_state_bytes(v)) == Some(v),
{
    let np = v.pads.len();
    let nc = v.cars.len();
    let b_tick = v.tick_count.spec_to_bytes();
    let b_rate = v.tick_rate.spec_to_bytes();
    let b_mode = v.game_mode.spec_to_bytes();
    let b_np = (np as u32).spec_to_bytes();
    let b_nc = (nc as u32).spec_to_bytes();
    let b_ball = v.ball.spec_to_bytes();
    let b_pads = pack(v.pads);
    let b_cars = pack(v.cars);
    let b_t0 = pack(v.tiles.0);
    let b_t1 = pack(v.tiles.1);
    v.tick_count.lemma_round_trip();
    v.tick_rate.lemma_round_trip();
    v.game_mode.lemma_round_trip();
    (np as u32).lemma_round_trip();
    (nc as u32).lemma_round_trip();
    v.ball.lemma_round_trip();
    lemma_pack_len(v.pads);
    lemma_pack_len(v.cars);
    lemma_pack_len(v.tiles.0);
    lemma_pack_len(v.tiles.1);
    let q1 = b_tick + b_rate;
    let q2 = q1 + b_mode;
    let q3 = q2 + b_np;
    let q4 = q3 + b_nc;
    let q5 = q4 + b_ball;
    let q6 = q5 + b_pads;
    let q7 = q6 + b_cars;
    let q8 = q7 + b_t0;
    let s = q8 + b_t1;
    assert(s == game_state_bytes(v));
    assert(s.len() == game_state_len(np, nc));
    assert(s.subrange(0, s.len() as int) =~= s);
    lemma_split_prefix(s, q8, b_t1);
    lemma_split_prefix(s, q7, b_t0);
    lemma_split_prefix(s, q6, b_cars);
    lemma_split_prefix(s, q5, b_pads);
    lemma_split_prefix(s, q4, b_ball);
    lemma_split_prefix(s, q3, b_nc);
    lemma_split_prefix(s, q2, b_np);
    lemma_split_prefix(s, q1, b_mode);
    lemma_split_prefix(s, b_tick, b_rate);
    lemma_le_u32_round_trip(np as u32);
    lemma_le_u32_round_trip(nc as u32);
    assert(header_num_pads(s) == np);
    assert(header_num_cars(s) == nc);
    lemma_decode_field::<u64, 8>(s, 0, v.tick_count);
    lemma_decode_field::<F32Bits, 4>(s, 8, v.tick_rate);
    lemma_decode_field::<GameMode, 1>(s, 12, v.game_mode);
    lemma_decode_field::<BallState, 113>(s, 21, v.ball);
    lemma_unpack_pack(s, 134, v.pads);
    lemma_unpack_pack(s, cars_start(np), v.cars);
    lemma_unpack_pack(s, tiles_start(np, nc), v.tiles.0);
    lemma_unpack_pack(s, tiles_start(np, nc) + 910, v.tiles.1);
    reveal(decode_at);
    assert(parse_game_state(s).unwrap() == v);
}

impl GameState {
    /// The size of the header.
    pub const MIN_NUM_BYTES: usize = 21;

    /// The size of the encoding of this state.
    pub fn count_bytes(&self) -> (r: usize)
        requires
            game_state_encodable(self@),
        ensures
            r == game_state_len(self.pads@.len(), self.cars@.len()),
    {
        Self::MIN_NUM_BYTES + 113 + self.pads.len() * 26 + self.cars.len() * 325 + 13 * 140
    }

    /// The size of the packet whose header `bytes` begins with.
    pub fn get_num_bytes(bytes: &[u8]) -> (r: usize)
        requires
            bytes@.len() >= 21,
            game_state_len(header_num_pads(bytes@), header_num_cars(bytes@)) <= usize::MAX,
        ensures
            r == game_state_len(header_num_pads(bytes@), header_num_cars(bytes@)),
    {
        Self::MIN_NUM_BYTES + 113 + Self::read_num_pads(bytes) * 26 + Self::read_num_cars(bytes)
            * 325 + 13 * 140
    }

    /// The tick count at the start of a packet.
    pub fn read_tick_count(bytes: &[u8]) -> (r: u64)
        requires
            bytes@.len() >= 8,
        ensures
            r == header_tick_count(bytes@),
    {
        u64::from_bytes(vstd::slice::slice_subrange(bytes, 0, 8)).unwrap()
    }

    /// The pad count in a packet's header.
    pub fn read_num_pads(bytes: &[u8]) -> (r: usize)
        requires
            bytes@.len() >= 17,
        ensures
            r == header_num_pads(bytes@),
    {
        u32::from_bytes(vstd::slice::slice_subrange(bytes, 13, 17)).unwrap() as usize
    }

    /// The car count in a packet's header.
    pub fn read_num_cars(bytes: &[u8]) -> (r: usize)
        requires
            bytes@.len() >= 21,
        ensures
            r == header_num_cars(bytes@),
    {
        u32::from_bytes(vstd::slice::slice_subrange(bytes, 17, 21)).unwrap() as usize
    }

    /// Decodes the packet that `bytes` begin with, as `parse_game_state` says. A packet must
    /// stand there: bytes after it are left unread.
    pub fn from_bytes(bytes: &[u8]) -> (r: GameState)
        requires
            parse_game_state(bytes@) is Some,
        ensures
            parse_game_state(bytes@) == Some(r@),
    {
        Self::try_from_bytes(bytes).unwrap()
    }

    /// Decodes the packet that `bytes` begin with; `None` exactly where `parse_game_state` is.
    pub fn try_from_bytes(bytes: &[u8]) -> (r: Option<GameState>)
        ensures
            r is Some <==> parse_game_state(bytes@) is Some,
            r matches Some(g) ==> parse_game_state(bytes@) == Some(g@),
    {
        if bytes.len() < Self::MIN_NUM_BYTES {
            return None;
        }
        let num_pads = Self::read_num_pads(bytes) as u64;
        let num_cars = Self::read_num_cars(bytes) as u64;
        let num_bytes: u64 = 21 + 113 + num_pads * 26 + num_cars * 325 + 13 * 140;
        if (bytes.len() as u64) < num_bytes {
            return None;
        }
        proof {
            reveal(decode_at);
            <u64 as ToBytesExact<8>>::lemma_num_bytes();
            <F32Bits as ToBytesExact<4>>::lemma_num_bytes();
            <GameMode as ToBytesExact<1>>::lemma_num_bytes();
            <u32 as ToBytesExact<4>>::lemma_num_bytes();
            <BallState as ToBytesExact<113>>::lemma_num_bytes();
        }
        let ghost s = bytes@;
        let ghost np = header_num_pads(s);
        let ghost nc = header_num_cars(s);
        let mut reader = ByteReader::new(bytes);
        let tick_count = reader.read::<u64>();
        let tick_rate = reader.read::<F32Bits>();
        if reader.peek::<GameMode>().is_none() {
            return None;
        }
        let game_mode = reader.read::<GameMode>();
        let num_pads = reader.read::<u32>();
        let num_cars = reader.read::<u32>();
        let ball = reader.read::<BallState>();
        assert(num_pads == np && num_cars == nc);
        assert forall|i: int| 0 <= i < np implies (#[trigger] BoostPad::spec_from_bytes(
            crate::bytes::item_bytes(s, 134, 26, i),
        )) is Some by {}
        let pads = read_packed::<BoostPad, 26>(&mut reader, num_pads as usize).unwrap();
        let cars = match read_packed::<CarInfo, 325>(&mut reader, num_cars as usize) {
            Some(cars) => cars,
            None => return None,
        };
        let tiles0 = match read_packed::<DropshotTile, 13>(&mut reader, 70) {
            Some(tiles) => tiles,
            None => return None,
        };
        let tiles1 = match read_packed::<DropshotTile, 13>(&mut reader, 70) {
            Some(tiles) => tiles,
            None => return None,
        };
        let state = GameState { tick_count, tick_rate, game_mode, ball, pads, cars, tiles: [tiles0, tiles1] };
        assert(state@ == parse_game_state(s).unwrap());
        Some(state)
    }
}

impl ToBytes for GameState {
    open spec fn spec_encodable(&self) -> bool {
        game_state_encodable(self@)
    }

    open spec fn spec_bytes(&self) -> Seq<u8> {
        game_state_bytes(self@)
    }

    fn to_bytes(&self) -> (r: Vec<u8>) {
        let num_bytes = self.count_bytes();
        let mut bytes: Vec<u8> = Vec::with_capacity(num_bytes);
        append_bytes(&mut bytes, self.tick_count.to_bytes().as_slice());
        append_bytes(&mut bytes, self.tick_rate.to_bytes().as_slice());
        append_bytes(&mut bytes, self.game_mode.to_bytes().as_slice());
        append_bytes(&mut bytes, (self.pads.len() as u32).to_bytes().as_slice());
        append_bytes(&mut bytes, (self.cars.len() as u32).to_bytes().as_slice());
        append_bytes(&mut bytes, self.ball.to_bytes().as_slice());
        append_packed(&mut bytes, &self.pads);
        append_packed(&mut bytes, &self.cars);
        append_packed(&mut bytes, &self.tiles[0]);
        append_packed(&mut bytes, &self.tiles[1]);
        bytes
    }
}

} // verus!
