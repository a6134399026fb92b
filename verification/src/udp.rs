//! The decisions around the UDP link to the simulation: which kind of packet a leading byte
//! announces, which game states are taken, how the three kept states advance when a new one
//! comes in, and the recent times between packets.
use crate::bytes::F32Bits;
use crate::game_state::GameStateView;
use crate::rocketsim::{BallState, DropshotTile, GameState, RotMat, TileState, Vec3};
use vstd::prelude::*;

verus! {

/// The kind of a packet, announced by the byte sent before it.
#[derive(Clone, Copy, Debug, PartialEq, Eq, Structural)]
pub enum UdpPacketTypes {
    Quit,
    GameState,
    Connection,
    Paused,
    Speed,
    Render,
}

/// The packet kind that byte `b` announces, if any.
pub open spec fn packet_type_of(b: u8) -> Option<UdpPacketTypes> {
    if b == 0 {
        Some(UdpPacketTypes::Quit)
    } else if b == 1 {
        Some(UdpPacketTypes::GameState)
    } else if b == 2 {
        Some(UdpPacketTypes::Connection)
    } else if b == 3 {
        Some(UdpPacketTypes::Paused)
    } else if b == 4 {
        Some(UdpPacketTypes::Speed)
    } else if b == 5 {
        Some(UdpPacketTypes::Render)
    } else {
        None
    }
}

/// The byte that announces packets of kind `t`.
pub open spec fn packet_type_byte(t: UdpPacketTypes) -> u8 {
    match t {
        UdpPacketTypes::Quit => 0,
        UdpPacketTypes::GameState => 1,
        UdpPacketTypes::Connection => 2,
        UdpPacketTypes::Paused => 3,
        UdpPacketTypes::Speed => 4,
        UdpPacketTypes::Render => 5,
    }
}

impl UdpPacketTypes {
    /// The packet kind that `byte` announces; `None` for a byte above 5.
    pub fn new(byte: u8) -> (r: Option<Self>)
        ensures
            r == packet_type_of(byte),
    {
        match byte {
            0 => Some(Self::Quit),
            1 => Some(Self::GameState),
            2 => Some(Self::Connection),
            3 => Some(Self::Paused),
            4 => Some(Self::Speed),
            5 => Some(Self::Render),
            _ => None,
        }
    }

    /// The byte that announces this kind of packet.
    pub fn as_byte(&self) -> (r: u8)
        ensures
            r == packet_type_byte(*self),
    {
        match self {
            Self::Quit => 0,
            Self::GameState => 1,
            Self::Connection => 2,
            Self::Paused => 3,
            Self::Speed => 4,
            Self::Render => 5,
        }
    }
}

/// Each kind of packet is announced by its own byte, and reading that byte back gives the kind;
/// the bytes from 0 to 5 are exactly the ones that announce a kind.
pub proof fn lemma_packet_type_round_trip(t: UdpPacketTypes, b: u8)
    ensures
        packet_type_of(packet_type_byte(t)) == Some(t),
        packet_type_of(b) is Some <==> b <= 5,
        packet_type_of(b) matches Some(u) ==> packet_type_byte(u) == b,
{
}

/// Whether a game state that reports tick `new_tick` is taken after one at `last_tick`: it is
/// refused only when it goes back in time past the first 15 ticks of a game.
pub open spec fn takes_game_state(last_tick: u64, new_tick: u64) -> bool {
    !(new_tick > 15 && last_tick > new_tick)
}

/// Whether to take a game state reporting `new_tick` after the last one taken, at `last_tick`.
/// A state from before the last one is refused, unless it is within the first 15 ticks, which is
/// how a restarted game starts over.
pub fn accepts_game_state(last_tick: u64, new_tick: u64) -> (r: bool)
    ensures
        r == takes_game_state(last_tick, new_tick),
{
    !(new_tick > 15 && last_tick > new_tick)
}

/// How the shown state follows the packets.
#[derive(Clone, Copy, Debug, PartialEq, Eq, Structural)]
pub enum PacketSmoothing {
    /// Show each state as it comes (no smoothing).
    Disabled,
    /// Show the movement from the previous state to the newest one.
    Interpolate,
    /// Show each state as it comes and carry it on until the next.
    Extrapolate,
}

impl Default for PacketSmoothing {
    fn default() -> (r: Self)
        ensures
            r == PacketSmoothing::Interpolate,
    {
        PacketSmoothing::Interpolate
    }
}

/// The smoothing that a settings value names: 0, 1 and 2 in the order of the variants.
pub open spec fn smoothing_of(value: usize) -> PacketSmoothing {
    if value == 0 {
        PacketSmoothing::Disabled
    } else if value == 1 {
        PacketSmoothing::Interpolate
    } else {
        PacketSmoothing::Extrapolate
    }
}

impl PacketSmoothing {
    /// The smoothing that the settings value `value` names; only 0, 1 and 2 name one.
    pub fn from_usize(value: usize) -> (r: Self)
        requires
            value <= 2,
        ensures
            r == smoothing_of(value),
    {
        match value {
            0 => Self::Disabled,
            1 => Self::Interpolate,
            _ => Self::Extrapolate,
        }
    }
}

/// The three states kept: the one before, the one shown and the newest.
pub struct GameStates {
    pub last: GameState,
    pub current: GameState,
    pub next: GameState,
}

/// The kept states as values.
pub struct GameStatesView {
    pub last: GameStateView,
    pub current: GameStateView,
    pub next: GameStateView,
}

impl View for GameStates {
    type V = GameStatesView;

    open spec fn view(&self) -> GameStatesView {
        GameStatesView { last: self.last@, current: self.current@, next: self.next@ }
    }
}

/// `s` with the ball turned to `rot`.
pub open spec fn with_ball_rotation(s: GameStateView, rot: RotMat) -> GameStateView {
    GameStateView { ball: BallState { rot_mat: rot, ..s.ball }, ..s }
}

/// The kept states after `new` comes in. The one that was newest becomes the one before. Without
/// interpolation the new state is shown at once, keeping the shown ball rotation where the
/// visualizer works the rotation out itself; with interpolation the state that was newest is
/// shown while the new one waits as the newest.
pub open spec fn advanced(
    s: GameStatesView,
    smoothing: PacketSmoothing,
    new: GameStateView,
    calc_ball_rot: bool,
) -> GameStatesView {
    match smoothing {
        PacketSmoothing::Interpolate => GameStatesView { last: s.next, current: s.next, next: new },
        _ => {
            let next = if calc_ball_rot {
                with_ball_rotation(new, s.current.ball.rot_mat)
            } else {
                new
            };
            GameStatesView { last: s.next, current: next, next }
        },
    }
}

impl Default for GameStates {
    fn default() -> (r: Self)
        ensures
            r.last@ == r.current@,
            r.current@ == r.next@,
            r.current.tick_count == 0,
            r.current.pads@.len() == 0,
            r.current.cars@.len() == 0,
    {
        let s = GameState::default();
        GameStates { last: s.clone(), current: s.clone(), next: s }
    }
}

/// Where the ball is put to be sent towards the blue goal: x 0, y -2000, z 1500.
pub open spec fn towards_goal_pos() -> Vec3 {
    Vec3 { x: F32Bits(0), y: F32Bits(0xc4fa_0000), z: F32Bits(0x44bb_8000) }
}

/// The speed the ball is sent towards the blue goal with: x 50, y 1500, z 1.
pub open spec fn towards_goal_vel() -> Vec3 {
    Vec3 { x: F32Bits(0x4248_0000), y: F32Bits(0x44bb_8000), z: F32Bits(0x3f80_0000) }
}

/// `s` with its ball at `towards_goal_pos` moving at `towards_goal_vel`.
pub open spec fn with_ball_towards_goal(s: GameStateView) -> GameStateView {
    GameStateView { ball: BallState { pos: towards_goal_pos(), vel: towards_goal_vel(), ..s.ball }, ..s }
}

impl GameStates {
    /// Puts the ball of the shown and the newest state where it is sent towards the blue goal,
    /// as `with_ball_towards_goal` says; the state before stays as it is.
    pub fn set_ball_towards_goal(&mut self)
        ensures
            final(self)@ == (GameStatesView {
                last: old(self)@.last,
                current: with_ball_towards_goal(old(self)@.current),
                next: with_ball_towards_goal(old(self)@.next),
            }),
    {
        let pos = Vec3 { x: F32Bits(0), y: F32Bits(0xc4fa_0000), z: F32Bits(0x44bb_8000) };
        let vel = Vec3 { x: F32Bits(0x4248_0000), y: F32Bits(0x44bb_8000), z: F32Bits(0x3f80_0000) };
        self.current.ball.pos = pos;
        self.current.ball.vel = vel;
        self.next.ball.pos = pos;
        self.next.ball.vel = vel;
    }

    /// Takes in a new state, as `advanced` says.
    pub fn advance(&mut self, packet_smoothing: PacketSmoothing, new_state: GameState, calc_ball_rot: bool)
        ensures
            final(self)@ == advanced(old(self)@, packet_smoothing, new_state@, calc_ball_rot),
    {
        match packet_smoothing {
            PacketSmoothing::Disabled | PacketSmoothing::Extrapolate => {
                let mut previous = new_state;
                std::mem::swap(&mut self.next, &mut previous);
                self.last = previous;
                if calc_ball_rot {
                    self.next.ball.rot_mat = self.current.ball.rot_mat;
                }
                self.current = self.next.clone();
            },
            PacketSmoothing::Interpolate => {
                std::mem::swap(&mut self.last, &mut self.next);
                self.current = self.last.clone();
                self.next = new_state;
            },
        }
    }
}

/// With interpolation the shown state runs one packet behind: after `a` and then `b` come in,
/// `a` is shown and `b` waits as the newest.
pub proof fn lemma_interpolation_shows_previous(
    s: GameStatesView,
    a: GameStateView,
    b: GameStateView,
    calc_ball_rot: bool,
)
    ensures
        ({
            let t = advanced(
                advanced(s, PacketSmoothing::Interpolate, a, calc_ball_rot),
                PacketSmoothing::Interpolate,
                b,
                calc_ball_rot,
            );
            t.last == a && t.current == a && t.next == b
        }),
{
}

/// Without interpolation the newest state is shown at once, and the state shown before is kept
/// as the one before; only the ball rotation may be carried over.
pub proof fn lemma_direct_shows_newest(
    s: GameStatesView,
    smoothing: PacketSmoothing,
    new: GameStateView,
    calc_ball_rot: bool,
)
    requires
        smoothing != PacketSmoothing::Interpolate,
    ensures
        ({
            let t = advanced(s, smoothing, new, calc_ball_rot);
            &&& t.current == t.next
            &&& t.last == s.next
            &&& !calc_ball_rot ==> t.current == new
            &&& calc_ball_rot ==> t.current.ball.rot_mat == s.current.ball.rot_mat
            &&& t.current.tick_count == new.tick_count
            &&& t.current.ball.pos == new.ball.pos
            &&& t.current.pads == new.pads
            &&& t.current.cars == new.cars
        }),
{
}

/// The number of packet intervals that are kept.
pub const PACKET_TIMES_KEPT: usize = 15;

/// The times between the last packets, at most 15 of them; the oldest is written over once all
/// 15 places are taken. Times travel as `f32` bits.
pub struct LastPacketTimesElapsed {
    times: [F32Bits; 15],
    start: usize,
    len: usize,
}

impl LastPacketTimesElapsed {
    /// The 15 places, written or not.
    pub closed spec fn slots(&self) -> Seq<F32Bits> {
        self.times@
    }

    /// The place that is written over next once all places are taken.
    pub closed spec fn start(&self) -> nat {
        self.start as nat
    }

    /// The number of times kept.
    pub closed spec fn count(&self) -> nat {
        self.len as nat
    }

    #[verifier::type_invariant]
    spec fn bounded(&self) -> bool {
        &&& self.start < 15
        &&& self.len <= 15
    }

    /// The kept times in the order in which they are summed: going round the first `count` places
    /// from `start`.
    pub open spec fn kept(&self) -> Seq<F32Bits> {
        Seq::new(self.count(), |i: int| self.slots()[(self.start() + i) % (self.count() as int)])
    }

    /// Nothing kept: all 15 places hold zero.
    pub fn new() -> (r: Self)
        ensures
            r.count() == 0,
            r.start() == 0,
            r.slots() == Seq::new(15, |i: int| F32Bits(0)),
    {
        LastPacketTimesElapsed { times: [F32Bits(0); 15], start: 0, len: 0 }
    }

    /// Keeps `time`: in the next free place while there is one, else in place of the time at
    /// `start`, which moves on by one.
    pub fn push(&mut self, time: F32Bits)
        ensures
            old(self).count() < 15 ==> final(self).slots() == old(self).slots().update(
                old(self).count() as int,
                time,
            ) && final(self).count() == old(self).count() + 1 && final(self).start() == old(
                self,
            ).start(),
            old(self).count() == 15 ==> final(self).slots() == old(self).slots().update(
                old(self).start() as int,
                time,
            ) && final(self).count() == 15 && final(self).start() == (old(self).start() + 1) % 15,
            final(self).kept().contains(time),
            final(self).count() <= 15,
    {
        proof {
            use_type_invariant(&*self);
        }
        let mut times = self.times;
        if self.len == PACKET_TIMES_KEPT {
            times[self.start] = time;
            self.times = times;
            self.start = (self.start + 1) % PACKET_TIMES_KEPT;
            assert(self.kept()[14] == time);
        } else {
            times[self.len] = time;
            self.times = times;
            self.len = self.len + 1;
            proof {
                let i = lemma_turn_reaching(self.start as int, self.len - 1, self.len as int);
                assert(self.kept()[i] == time);
            }
        }
    }

    /// Forgets the kept times.
    pub fn reset(&mut self)
        ensures
            final(self).count() == 0,
            final(self).slots() == old(self).slots(),
            final(self).start() == old(self).start(),
    {
        proof {
            use_type_invariant(&*self);
        }
        self.len = 0;
    }

    /// The number of times kept.
    pub fn len(&self) -> (r: usize)
        ensures
            r == self.count(),
    {
        self.len
    }

    /// The kept times in the order in which they are summed for their mean.
    pub fn times_kept(&self) -> (r: Vec<F32Bits>)
        ensures
            r@ == self.kept(),
    {
        proof {
            use_type_invariant(self);
        }
        let mut r: Vec<F32Bits> = Vec::with_capacity(self.len);
        let mut i: usize = 0;
        while i < self.len
            invariant
                i <= self.len,
                self.start < 15,
                self.len <= 15,
                r@ == self.kept().take(i as int),
            decreases self.len - i,
        {
            let at = (self.start + i) % self.len;
            r.push(self.times[at]);
            i += 1;
            assert(r@ =~= self.kept().take(i as int));
        }
        assert(self.kept().take(i as int) =~= self.kept());
        r
    }
}

/// Going round `c` places from place `s`, place `n` is reached at the returned turn.
proof fn lemma_turn_reaching(s: int, n: int, c: int) -> (i: int)
    requires
        0 <= s,
        0 <= n < c,
    ensures
        0 <= i < c,
        (s + i) % c == n,
{
    let q = s / c;
    let j = s % c;
    vstd::arithmetic::div_mod::lemma_fundamental_div_mod(s, c);
    if n >= j {
        let i = n - j;
        assert(s + i == q * c + n) by (nonlinear_arith)
            requires
                s == c * q + j,
                i == n - j,
        ;
        vstd::arithmetic::div_mod::lemma_fundamental_div_mod_converse_mod(s + i, c, q, n);
        i
    } else {
        let i = n + c - j;
        assert(s + i == (q + 1) * c + n) by (nonlinear_arith)
            requires
                s == c * q + j,
                i == n + c - j,
        ;
        vstd::arithmetic::div_mod::lemma_fundamental_div_mod_converse_mod(s + i, c, q + 1, n);
        i
    }
}

impl Default for LastPacketTimesElapsed {
    fn default() -> (r: Self)
        ensures
            r.count() == 0,
    {
        Self::new()
    }
}

/// The color a dropshot tile is drawn in.
#[derive(Clone, Copy, Debug, PartialEq, Eq, Structural)]
pub enum TileColor {
    Green,
    Red,
    Black,
}

/// The color of a tile in state `state`: green while whole, red once damaged, black once broken.
pub open spec fn tile_color_of(state: TileState) -> TileColor {
    match state {
        TileState::Full => TileColor::Green,
        TileState::Damaged => TileColor::Red,
        TileState::Broken => TileColor::Black,
    }
}

/// The color of a tile in state `state`, as `tile_color_of` says.
pub fn get_tile_color(state: TileState) -> (r: TileColor)
    ensures
        r == tile_color_of(state),
{
    match state {
        TileState::Full => TileColor::Green,
        TileState::Damaged => TileColor::Red,
        TileState::Broken => TileColor::Black,
    }
}


/// The states in which the dropshot tiles were last drawn, one list per team, and the tick of
/// the game state they were last checked against.
pub struct DrawnTiles {
    pub prev_tick_count: u64,
    pub blue: Vec<TileState>,
    pub orange: Vec<TileState>,
}

/// The tiles of `state` seen as their states, for the team of index `team` (0 blue, 1 orange).
pub open spec fn tile_states_of(state: GameState, team: int) -> Seq<TileState> {
    state.tiles[team]@.map_values(|t: DropshotTile| t.state)
}

impl DrawnTiles {
    /// The drawn states of the team of index `team` (0 blue, 1 orange).
    pub open spec fn team(&self, team: int) -> Seq<TileState> {
        if team == 0 {
            self.blue@
        } else {
            self.orange@
        }
    }

    /// No tile drawn yet, checked at tick 0.
    pub fn new() -> (r: Self)
        ensures
            r.prev_tick_count == 0,
            r.blue@.len() == 0,
            r.orange@.len() == 0,
    {
        DrawnTiles { prev_tick_count: 0, blue: Vec::new(), orange: Vec::new() }
    }

    /// Begins a check of the drawn tiles against `state`. Nothing is done where `state` has the
    /// tick last checked. Otherwise that tick is kept, and where the number of blue tiles
    /// differs from the state's, the drawn states become the state's and nothing is to be
    /// recolored. The result says whether the tiles are now to be checked one by one.
    pub fn begin_tick(&mut self, state: &GameState) -> (r: bool)
        ensures
            old(self).prev_tick_count == state.tick_count ==> !r && final(self).prev_tick_count
                == old(self).prev_tick_count && final(self).blue@ == old(self).blue@ && final(self).orange@
                == old(self).orange@,
            old(self).prev_tick_count != state.tick_count ==> final(self).prev_tick_count == state.tick_count,
            old(self).prev_tick_count != state.tick_count && old(self).blue@.len() != state.tiles[0]@.len()
                ==> !r && final(self).blue@ == tile_states_of(*state, 0) && final(self).orange@ == tile_states_of(
                *state,
                1,
            ),
            old(self).prev_tick_count != state.tick_count && old(self).blue@.len() == state.tiles[0]@.len()
                ==> r && final(self).blue@ == old(self).blue@ && final(self).orange@ == old(self).orange@,
    {
        if self.prev_tick_count == state.tick_count {
            return false;
        }
        self.prev_tick_count = state.tick_count;
        if self.blue.len() != state.tiles[0].len() {
            self.blue = states_of_tiles(&state.tiles[0]);
            self.orange = states_of_tiles(&state.tiles[1]);
            return false;
        }
        true
    }

    /// Checks tile `index` of the team of index `team` (0 blue, 1 orange) against `state`:
    /// where its state differs from the drawn one, the drawn one becomes it and the result is the
    /// tile's new color; else nothing changes.
    pub fn recolor(&mut self, state: &GameState, team: usize, index: usize) -> (r: Option<TileColor>)
        requires
            team < 2,
            index < state.tiles[team as int]@.len(),
            index < old(self).team(team as int).len(),
        ensures
            ({
                let proper = state.tiles[team as int]@[index as int].state;
                if proper != old(self).team(team as int)[index as int] {
                    &&& r == Some(tile_color_of(proper))
                    &&& final(self).team(team as int) == old(self).team(team as int).update(index as int, proper)
                } else {
                    &&& r is None
                    &&& final(self).team(team as int) == old(self).team(team as int)
                }
            }),
            final(self).team(1 - team) == old(self).team(1 - team),
            final(self).prev_tick_count == old(self).prev_tick_count,
    {
        let proper = state.tiles[team][index].state;
        if team == 0 {
            if proper != self.blue[index] {
                self.blue.set(index, proper);
                return Some(get_tile_color(proper));
            }
        } else {
            if proper != self.orange[index] {
                self.orange.set(index, proper);
                return Some(get_tile_color(proper));
            }
        }
        None
    }
}

/// The states of the tiles.
fn states_of_tiles(tiles: &Vec<DropshotTile>) -> (r: Vec<TileState>)
    ensures
        r@ == tiles@.map_values(|t: DropshotTile| t.state),
{
    let mut out: Vec<TileState> = Vec::with_capacity(tiles.len());
    let mut i: usize = 0;
    while i < tiles.len()
        invariant
            i <= tiles@.len(),
            out@ == tiles@.take(i as int).map_values(|t: DropshotTile| t.state),
        decreases tiles@.len() - i,
    {
        out.push(tiles[i].state);
        i += 1;
        assert(out@ =~= tiles@.take(i as int).map_values(|t: DropshotTile| t.state));
    }
    assert(tiles@.take(i as int) =~= tiles@);
    out
}

} // verus!
