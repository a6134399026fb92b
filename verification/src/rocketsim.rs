//! The simulation state that the visualizer receives: the ball, the boost pads, the cars and
//! the dropshot tiles. Floats are held as their raw bits (`F32Bits`).
use crate::bytes::F32Bits;
use vstd::prelude::*;

verus! {

/// The bits of the float `0.0`.
pub open spec fn zero() -> F32Bits {
    F32Bits(0)
}

/// The bits of the float `1.0`.
pub open spec fn one() -> F32Bits {
    F32Bits(0x3f80_0000)
}

#[derive(Clone, Copy, Debug, PartialEq, Eq, Structural)]
pub struct Vec2 {
    pub x: F32Bits,
    pub y: F32Bits,
}

#[derive(Clone, Copy, Debug, PartialEq, Eq, Structural)]
pub struct Vec3 {
    pub x: F32Bits,
    pub y: F32Bits,
    pub z: F32Bits,
}

/// A rotation matrix, by its three axes.
#[derive(Clone, Copy, Debug, PartialEq, Eq, Structural)]
pub struct RotMat {
    pub x_axis: Vec3,
    pub y_axis: Vec3,
    pub z_axis: Vec3,
}

/// An RGBA color.
#[derive(Clone, Copy, Debug, PartialEq, Eq, Structural)]
pub struct Color {
    pub r: F32Bits,
    pub g: F32Bits,
    pub b: F32Bits,
    pub a: F32Bits,
}

pub fn vec3_zero() -> (r: Vec3)
    ensures
        r == (Vec3 { x: zero(), y: zero(), z: zero() }),
{
    Vec3 { x: F32Bits(0), y: F32Bits(0), z: F32Bits(0) }
}

#[derive(Clone, Copy, Debug, PartialEq, Eq, Structural)]
pub enum GameMode {
    Soccar,
    Hoops,
    Heatseeker,
    Snowday,
    Dropshot,
    TheVoid,
}

/// The game mode whose tag is `value`.
pub open spec fn spec_game_mode_from_u8(value: u8) -> Result<GameMode, ()> {
    match value {
        0 => Ok(GameMode::Soccar),
        1 => Ok(GameMode::Hoops),
        2 => Ok(GameMode::Heatseeker),
        3 => Ok(GameMode::Snowday),
        4 => Ok(GameMode::Dropshot),
        5 => Ok(GameMode::TheVoid),
        _ => Err(()),
    }
}

/// The tag of a game mode.
pub open spec fn spec_game_mode_tag(mode: GameMode) -> u8 {
    match mode {
        GameMode::Soccar => 0,
        GameMode::Hoops => 1,
        GameMode::Heatseeker => 2,
        GameMode::Snowday => 3,
        GameMode::Dropshot => 4,
        GameMode::TheVoid => 5,
    }
}

impl GameMode {
    /// The value whose tag is `value`; an unknown tag is an error.
    pub fn try_from(value: u8) -> (r: Result<Self, ()>)
        ensures
            r == spec_game_mode_from_u8(value),
    {
        match value {
            0 => Ok(Self::Soccar),
            1 => Ok(Self::Hoops),
            2 => Ok(Self::Heatseeker),
            3 => Ok(Self::Snowday),
            4 => Ok(Self::Dropshot),
            5 => Ok(Self::TheVoid),
            _ => Err(()),
        }
    }

    pub fn tag(&self) -> (r: u8)
        ensures
            r == spec_game_mode_tag(*self),
    {
        match self {
            GameMode::Soccar => 0,
            GameMode::Hoops => 1,
            GameMode::Heatseeker => 2,
            GameMode::Snowday => 3,
            GameMode::Dropshot => 4,
            GameMode::TheVoid => 5,
        }
    }
}

impl Default for GameMode {
    fn default() -> (r: Self)
        ensures
            r == GameMode::TheVoid,
    {
        GameMode::TheVoid
    }
}

#[derive(Clone, Copy, Debug, PartialEq, Eq, Structural)]
pub enum Team {
    Blue,
    Orange,
}

/// The team whose tag is `value`.
pub open spec fn spec_team_from_u8(value: u8) -> Result<Team, ()> {
    match value {
        0 => Ok(Team::Blue),
        1 => Ok(Team::Orange),
        _ => Err(()),
    }
}

/// The tag of a team.
pub open spec fn spec_team_tag(team: Team) -> u8 {
    match team {
        Team::Blue => 0,
        Team::Orange => 1,
    }
}

impl Team {
    /// The value whose tag is `value`; an unknown tag is an error.
    pub fn try_from(value: u8) -> (r: Result<Self, ()>)
        ensures
            r == spec_team_from_u8(value),
    {
        match value {
            0 => Ok(Self::Blue),
            1 => Ok(Self::Orange),
            _ => Err(()),
        }
    }

    pub fn tag(&self) -> (r: u8)
        ensures
            r == spec_team_tag(*self),
    {
        match self {
            Team::Blue => 0,
            Team::Orange => 1,
        }
    }
}

impl Default for Team {
    fn default() -> (r: Self)
        ensures
            r == Team::Blue,
    {
        Team::Blue
    }
}

#[derive(Clone, Copy, Debug, PartialEq, Eq, Structural)]
pub enum TileState {
    Full,
    Damaged,
    Broken,
}

/// The tile state whose tag is `value`.
pub open spec fn spec_tile_state_from_u8(value: u8) -> Result<TileState, ()> {
    match value {
        0 => Ok(TileState::Full),
        1 => Ok(TileState::Damaged),
        2 => Ok(TileState::Broken),
        _ => Err(()),
    }
}

/// The tag of a tile state.
pub open spec fn spec_tile_state_tag(state: TileState) -> u8 {
    match state {
        TileState::Full => 0,
        TileState::Damaged => 1,
        TileState::Broken => 2,
    }
}

impl TileState {
    /// The value whose tag is `value`; an unknown tag is an error.
    pub fn try_from(value: u8) -> (r: Result<Self, ()>)
        ensures
            r == spec_tile_state_from_u8(value),
    {
        match value {
            0 => Ok(Self::Full),
            1 => Ok(Self::Damaged),
            2 => Ok(Self::Broken),
            _ => Err(()),
        }
    }

    pub fn tag(&self) -> (r: u8)
        ensures
            r == spec_tile_state_tag(*self),
    {
        match self {
            TileState::Full => 0,
            TileState::Damaged => 1,
            TileState::Broken => 2,
        }
    }
}

impl Default for TileState {
    fn default() -> (r: Self)
        ensures
            r == TileState::Full,
    {
        TileState::Full
    }
}

/// Decoding the tag of a game mode gives it back, and the tags are the only valid bytes.
pub proof fn lemma_game_mode_tag_round_trip(mode: GameMode, value: u8)
    ensures
        spec_game_mode_from_u8(spec_game_mode_tag(mode)) == Ok::<GameMode, ()>(mode),
        spec_game_mode_from_u8(value) is Ok <==> value <= 5,
{
}

/// Decoding the tag of a team gives it back, and the tags are the only valid bytes.
pub proof fn lemma_team_tag_round_trip(team: Team, value: u8)
    ensures
        spec_team_from_u8(spec_team_tag(team)) == Ok::<Team, ()>(team),
        spec_team_from_u8(value) is Ok <==> value <= 1,
{
}

/// Decoding the tag of a tile state gives it back, and the tags are the only valid bytes.
pub proof fn lemma_tile_state_tag_round_trip(state: TileState, value: u8)
    ensures
        spec_tile_state_from_u8(spec_tile_state_tag(state)) == Ok::<TileState, ()>(state),
        spec_tile_state_from_u8(value) is Ok <==> value <= 2,
{
}

#[derive(Clone, Copy, Debug, PartialEq, Eq, Structural)]
pub struct BallHitInfo {
    pub is_valid: bool,
    pub relative_pos_on_ball: Vec3,
    pub ball_pos: Vec3,
    pub extra_hit_vel: Vec3,
    pub tick_count_when_hit: u64,
    pub tick_count_when_extra_impulse_applied: u64,
}

#[derive(Clone, Copy, Debug, PartialEq, Eq, Structural)]
pub struct HeatseekerInfo {
    /// Which net the ball should seek towards;
    /// When 0, no net
    pub y_target_dir: F32Bits,
    pub cur_target_speed: F32Bits,
    pub time_since_hit: F32Bits,
}

impl Default for HeatseekerInfo {
    /// No target net, a target speed of `2900.0`, no time since the last hit.
    fn default() -> (r: Self)
        ensures
            r == default_heatseeker_info(),
    {
        Self {
            y_target_dir: F32Bits(0),
            cur_target_speed: F32Bits(0x4535_4000),
            time_since_hit: F32Bits(0),
        }
    }
}

#[derive(Clone, Copy, Debug, PartialEq, Eq, Structural)]
pub struct DropshotInfo {
    /// Charge level number, which controls the radius of damage when hitting tiles
    /// 1 = damages r=1 -> 1 tile
    /// 2 = damages r=2 -> 7 tiles
    /// 3 = damages r=3 -> 19 tiles
    pub charge_level: i32,
    /// Resets when a tile is damaged
    pub accumulated_hit_force: F32Bits,
    /// Which side of the field the ball can damage (0=none, -1=blue, 1=orange)
    pub y_target_dir: F32Bits,
    pub has_damaged: bool,
    /// Only valid if `has_damaged`
    pub last_damage_tick: u64,
}

impl Default for DropshotInfo {
    /// Charge level 1, nothing accumulated, no target side, never damaged.
    fn default() -> (r: Self)
        ensures
            r == default_dropshot_info(),
    {
        Self {
            charge_level: 1,
            accumulated_hit_force: F32Bits(0),
            y_target_dir: F32Bits(0),
            has_damaged: false,
            last_damage_tick: 0,
        }
    }
}

#[derive(Clone, Copy, Debug, PartialEq, Eq, Structural)]
pub struct BallState {
    pub tick_count_since_update: u64,
    pub pos: Vec3,
    pub rot_mat: RotMat,
    pub vel: Vec3,
    pub ang_vel: Vec3,
    pub hs_info: HeatseekerInfo,
    pub ds_info: DropshotInfo,
}

impl Default for BallState {
    /// The ball at rest at `(0, 0, 93.15)` with the identity rotation.
    fn default() -> (r: Self)
        ensures
            r == default_ball_state(),
    {
        let o = F32Bits(0);
        let i = F32Bits(0x3f80_0000);
        Self {
            tick_count_since_update: 0,
            pos: Vec3 { x: o, y: o, z: F32Bits(0x42ba_4ccd) },
            rot_mat: RotMat {
                x_axis: Vec3 { x: i, y: o, z: o },
                y_axis: Vec3 { x: o, y: i, z: o },
                z_axis: Vec3 { x: o, y: o, z: i },
            },
            vel: vec3_zero(),
            ang_vel: vec3_zero(),
            hs_info: HeatseekerInfo::default(),
            ds_info: DropshotInfo::default(),
        }
    }
}

#[derive(Clone, Copy, Debug, PartialEq, Eq, Structural)]
pub struct WheelPairConfig {
    pub wheel_radius: F32Bits,
    pub suspension_rest_length: F32Bits,
    pub connection_point_offset: Vec3,
}

#[derive(Clone, Copy, Debug, PartialEq, Eq, Structural)]
pub struct CarConfig {
    pub hitbox_size: Vec3,
    pub hitbox_pos_offset: Vec3,
    pub front_wheels: WheelPairConfig,
    pub back_wheels: WheelPairConfig,
    pub three_wheels: bool,
    pub dodge_deadzone: F32Bits,
}

#[derive(Clone, Copy, Debug, PartialEq, Eq, Structural)]
pub struct CarControls {
    pub throttle: F32Bits,
    pub steer: F32Bits,
    pub pitch: F32Bits,
    pub yaw: F32Bits,
    pub roll: F32Bits,
    pub boost: bool,
    pub jump: bool,
    pub handbrake: bool,
}

#[derive(Clone, Copy, Debug, PartialEq, Eq, Structural)]
pub struct WorldContact {
    pub has_contact: bool,
    pub contact_normal: Vec3,
}

#[derive(Clone, Copy, Debug, PartialEq, Eq, Structural)]
pub struct CarContact {
    pub other_car_id: u32,
    pub cooldown_timer: F32Bits,
}

#[derive(Clone, Copy, Debug, PartialEq, Eq)]
pub struct CarState {
    pub pos: Vec3,
    pub rot_mat: RotMat,
    pub vel: Vec3,
    pub ang_vel: Vec3,
    pub tick_count_since_update: u64,
    pub is_on_ground: bool,
    pub wheels_with_contact: [bool; 4],
    pub has_jumped: bool,
    pub has_double_jumped: bool,
    pub has_flipped: bool,
    pub flip_rel_torque: Vec3,
    pub jump_time: F32Bits,
    pub flip_time: F32Bits,
    pub is_flipping: bool,
    pub is_jumping: bool,
    pub air_time: F32Bits,
    pub air_time_since_jump: F32Bits,
    pub boost: F32Bits,
    pub time_since_boosted: F32Bits,
    pub is_boosting: bool,
    pub boosting_time: F32Bits,
    pub is_supersonic: bool,
    pub supersonic_time: F32Bits,
    pub handbrake_val: F32Bits,
    pub is_auto_flipping: bool,
    pub auto_flip_timer: F32Bits,
    pub auto_flip_torque_scale: F32Bits,
    pub world_contact: WorldContact,
    pub car_contact: CarContact,
    pub is_demoed: bool,
    pub demo_respawn_timer: F32Bits,
    pub ball_hit_info: BallHitInfo,
    pub last_controls: CarControls,
}

#[derive(Clone, Copy, Debug, PartialEq, Eq)]
pub struct CarInfo {
    pub id: u32,
    pub team: Team,
    pub state: CarState,
    pub config: CarConfig,
}

#[derive(Clone, Copy, Debug, PartialEq, Eq, Structural)]
pub struct BoostPadState {
    pub is_active: bool,
    pub cooldown: F32Bits,
    pub cur_locked_car_id: u32,
    pub prev_locked_car_id: u32,
}

#[derive(Clone, Copy, Debug, PartialEq, Eq, Structural)]
pub struct BoostPad {
    pub is_big: bool,
    pub position: Vec3,
    pub state: BoostPadState,
}

#[derive(Clone, Copy, Debug, PartialEq, Eq, Structural)]
pub struct DropshotTile {
    pub pos: Vec3,
    pub state: TileState,
}

/// The whole state of a game at one tick.
#[derive(Debug)]
pub struct GameState {
    pub tick_count: u64,
    pub tick_rate: F32Bits,
    pub game_mode: GameMode,
    pub ball: BallState,
    pub pads: Vec<BoostPad>,
    pub cars: Vec<CarInfo>,
    pub tiles: [Vec<DropshotTile>; 2],
}

/// A copy of the items of `v`.
fn copy_items<T: Copy>(v: &Vec<T>) -> (r: Vec<T>)
    ensures
        r@ == v@,
{
    let mut r: Vec<T> = Vec::with_capacity(v.len());
    let mut i: usize = 0;
    while i < v.len()
        invariant
            i <= v@.len(),
            r@ == v@.take(i as int),
        decreases v@.len() - i,
    {
        r.push(v[i]);
        i += 1;
        assert(r@ =~= v@.take(i as int));
    }
    assert(v@.take(i as int) =~= v@);
    r
}

impl Clone for GameState {
    /// A state equal to this one in every field.
    fn clone(&self) -> (r: Self)
        ensures
            r.tick_count == self.tick_count,
            r.tick_rate == self.tick_rate,
            r.game_mode == self.game_mode,
            r.ball == self.ball,
            r.pads@ == self.pads@,
            r.cars@ == self.cars@,
            r.tiles[0]@ == self.tiles[0]@,
            r.tiles[1]@ == self.tiles[1]@,
    {
        GameState {
            tick_count: self.tick_count,
            tick_rate: self.tick_rate,
            game_mode: self.game_mode,
            ball: self.ball,
            pads: copy_items(&self.pads),
            cars: copy_items(&self.cars),
            tiles: [copy_items(&self.tiles[0]), copy_items(&self.tiles[1])],
        }
    }
}

impl Default for GameState {
    /// Tick zero in the void, with the ball at rest and nothing else.
    fn default() -> (r: Self)
        ensures
            r.tick_count == 0,
            r.tick_rate == zero(),
            r.game_mode == GameMode::TheVoid,
            r.ball == default_ball_state(),
            r.pads@.len() == 0,
            r.cars@.len() == 0,
            r.tiles[0]@.len() == 0,
            r.tiles[1]@.len() == 0,
    {
        Self {
            tick_count: 0,
            tick_rate: F32Bits(0),
            game_mode: GameMode::default(),
            ball: BallState::default(),
            pads: Vec::new(),
            cars: Vec::new(),
            tiles: [Vec::new(), Vec::new()],
        }
    }
}

/// No target net, a target speed of `2900.0`, no time since the last hit.
pub open spec fn default_heatseeker_info() -> HeatseekerInfo {
    HeatseekerInfo { y_target_dir: zero(), cur_target_speed: F32Bits(0x4535_4000), time_since_hit: zero() }
}

/// Charge level 1, nothing accumulated, no target side, never damaged.
pub open spec fn default_dropshot_info() -> DropshotInfo {
    DropshotInfo {
        charge_level: 1,
        accumulated_hit_force: zero(),
        y_target_dir: zero(),
        has_damaged: false,
        last_damage_tick: 0,
    }
}

/// The ball at rest at `(0, 0, 93.15)` with the identity rotation.
pub open spec fn default_ball_state() -> BallState {
    BallState {
        tick_count_since_update: 0,
        pos: Vec3 { x: zero(), y: zero(), z: F32Bits(0x42ba_4ccd) },
        rot_mat: RotMat {
            x_axis: Vec3 { x: one(), y: zero(), z: zero() },
            y_axis: Vec3 { x: zero(), y: one(), z: zero() },
            z_axis: Vec3 { x: zero(), y: zero(), z: one() },
        },
        vel: Vec3 { x: zero(), y: zero(), z: zero() },
        ang_vel: Vec3 { x: zero(), y: zero(), z: zero() },
        hs_info: default_heatseeker_info(),
        ds_info: default_dropshot_info(),
    }
}

} // verus!
