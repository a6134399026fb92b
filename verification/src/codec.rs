//! The wire encoding of the fixed-size simulation values: fields in declaration order, each in
//! its own encoding, with no padding.
use crate::bytes::{
    decode_at, lemma_decode_field, lemma_split_prefix, ByteReader, ByteWriter, F32Bits, FromBytes, FromBytesExact, ToBytesExact,
};
use crate::rocketsim::{
    spec_game_mode_from_u8, spec_game_mode_tag, spec_team_from_u8, spec_team_tag,
    spec_tile_state_from_u8, spec_tile_state_tag, BallHitInfo, BallState, BoostPad, BoostPadState,
    CarConfig, CarContact, CarControls, CarInfo, CarState, Color, DropshotInfo, DropshotTile,
    GameMode, HeatseekerInfo, RotMat, Team, TileState, Vec2, Vec3, WheelPairConfig, WorldContact,
};
use vstd::prelude::*;

verus! {

/// The bytes that encode a `Vec3`: its fields in order.
#[verifier::opaque]
pub open spec fn vec3_bytes(v: Vec3) -> Seq<u8> {
    v.x.spec_to_bytes()
        + v.y.spec_to_bytes()
        + v.z.spec_to_bytes()
}


impl FromBytes for Vec3 {
    open spec fn spec_from_bytes(bytes: Seq<u8>) -> Option<Vec3> {
        if bytes.len() == 12 {
            Some(
                Vec3 {
                    x: decode_at(bytes, 0, 4),
                    y: decode_at(bytes, 4, 4),
                    z: decode_at(bytes, 8, 4),
                },
            )
        } else {
            None
        }
    }

    fn from_bytes(bytes: &[u8]) -> (r: Option<Vec3>) {
        if bytes.len() != 12 {
            return None;
        }
        proof {
            reveal(decode_at);
            <F32Bits as ToBytesExact<4>>::lemma_num_bytes();
        }
        let mut reader = ByteReader::new(bytes);
        let x = reader.read::<F32Bits>();
        let y = reader.read::<F32Bits>();
        let z = reader.read::<F32Bits>();
        Some(Vec3 { x, y, z })
    }
}

impl FromBytesExact for Vec3 {
    const NUM_BYTES: usize = 12;
}

impl ToBytesExact<12> for Vec3 {
    open spec fn spec_to_bytes(&self) -> Seq<u8> {
        vec3_bytes(*self)
    }

    fn to_bytes(&self) -> (r: [u8; 12]) {
        proof {
            reveal(vec3_bytes);
        }
        let mut writer = ByteWriter::<12>::new();
        writer.write(&self.x);
        writer.write(&self.y);
        writer.write(&self.z);
        writer.inner()
    }

    proof fn lemma_num_bytes() {
    }

    proof fn lemma_round_trip(&self) {
        reveal(vec3_bytes);
        let v = *self;
        v.x.lemma_round_trip();
        v.y.lemma_round_trip();
        v.z.lemma_round_trip();
        let s = self.spec_to_bytes();
        let q0 = v.x.spec_to_bytes();
        let q1 = q0 + v.y.spec_to_bytes();
        let q2 = q1 + v.z.spec_to_bytes();
        assert(s == q2);
        assert(s.subrange(0, s.len() as int) =~= s);
        lemma_split_prefix(s, q1, v.z.spec_to_bytes());
        lemma_split_prefix(s, q0, v.y.spec_to_bytes());
        lemma_decode_field::<F32Bits, 4>(s, 0, v.x);
        lemma_decode_field::<F32Bits, 4>(s, 4, v.y);
        lemma_decode_field::<F32Bits, 4>(s, 8, v.z);
    }
}

/// The bytes that encode a `Vec2`: its fields in order.
#[verifier::opaque]
pub open spec fn vec2_bytes(v: Vec2) -> Seq<u8> {
    v.x.spec_to_bytes()
        + v.y.spec_to_bytes()
}


impl FromBytes for Vec2 {
    open spec fn spec_from_bytes(bytes: Seq<u8>) -> Option<Vec2> {
        if bytes.len() == 8 {
            Some(
                Vec2 {
                    x: decode_at(bytes, 0, 4),
                    y: decode_at(bytes, 4, 4),
                },
            )
        } else {
            None
        }
    }

    fn from_bytes(bytes: &[u8]) -> (r: Option<Vec2>) {
        if bytes.len() != 8 {
            return None;
        }
        proof {
            reveal(decode_at);
            <F32Bits as ToBytesExact<4>>::lemma_num_bytes();
        }
        let mut reader = ByteReader::new(bytes);
        let x = reader.read::<F32Bits>();
        let y = reader.read::<F32Bits>();
        Some(Vec2 { x, y })
    }
}

impl FromBytesExact for Vec2 {
    const NUM_BYTES: usize = 8;
}

impl ToBytesExact<8> for Vec2 {
    open spec fn spec_to_bytes(&self) -> Seq<u8> {
        vec2_bytes(*self)
    }

    fn to_bytes(&self) -> (r: [u8; 8]) {
        proof {
            reveal(vec2_bytes);
        }
        let mut writer = ByteWriter::<8>::new();
        writer.write(&self.x);
        writer.write(&self.y);
        writer.inner()
    }

    proof fn lemma_num_bytes() {
    }

    proof fn lemma_round_trip(&self) {
        reveal(vec2_bytes);
        let v = *self;
        v.x.lemma_round_trip();
        v.y.lemma_round_trip();
        let s = self.spec_to_bytes();
        let q0 = v.x.spec_to_bytes();
        let q1 = q0 + v.y.spec_to_bytes();
        assert(s == q1);
        assert(s.subrange(0, s.len() as int) =~= s);
        lemma_split_prefix(s, q0, v.y.spec_to_bytes());
        lemma_decode_field::<F32Bits, 4>(s, 0, v.x);
        lemma_decode_field::<F32Bits, 4>(s, 4, v.y);
    }
}

/// The bytes that encode a `RotMat`: its fields in order.
#[verifier::opaque]
pub open spec fn rot_mat_bytes(v: RotMat) -> Seq<u8> {
    v.x_axis.spec_to_bytes()
        + v.y_axis.spec_to_bytes()
        + v.z_axis.spec_to_bytes()
}


impl FromBytes for RotMat {
    open spec fn spec_from_bytes(bytes: Seq<u8>) -> Option<RotMat> {
        if bytes.len() == 36 {
            Some(
                RotMat {
                    x_axis: decode_at(bytes, 0, 12),
                    y_axis: decode_at(bytes, 12, 12),
                    z_axis: decode_at(bytes, 24, 12),
                },
            )
        } else {
            None
        }
    }

    fn from_bytes(bytes: &[u8]) -> (r: Option<RotMat>) {
        if bytes.len() != 36 {
            return None;
        }
        proof {
            reveal(decode_at);
            <Vec3 as ToBytesExact<12>>::lemma_num_bytes();
        }
        let mut reader = ByteReader::new(bytes);
        let x_axis = reader.read::<Vec3>();
        let y_axis = reader.read::<Vec3>();
        let z_axis = reader.read::<Vec3>();
        Some(RotMat { x_axis, y_axis, z_axis })
    }
}

impl FromBytesExact for RotMat {
    const NUM_BYTES: usize = 36;
}

impl ToBytesExact<36> for RotMat {
    open spec fn spec_to_bytes(&self) -> Seq<u8> {
        rot_mat_bytes(*self)
    }

    fn to_bytes(&self) -> (r: [u8; 36]) {
        proof {
            reveal(rot_mat_bytes);
        }
        let mut writer = ByteWriter::<36>::new();
        writer.write(&self.x_axis);
        writer.write(&self.y_axis);
        writer.write(&self.z_axis);
        writer.inner()
    }

    proof fn lemma_num_bytes() {
    }

    proof fn lemma_round_trip(&self) {
        reveal(rot_mat_bytes);
        let v = *self;
        v.x_axis.lemma_round_trip();
        v.y_axis.lemma_round_trip();
        v.z_axis.lemma_round_trip();
        let s = self.spec_to_bytes();
        let q0 = v.x_axis.spec_to_bytes();
        let q1 = q0 + v.y_axis.spec_to_bytes();
        let q2 = q1 + v.z_axis.spec_to_bytes();
        assert(s == q2);
        assert(s.subrange(0, s.len() as int) =~= s);
        lemma_split_prefix(s, q1, v.z_axis.spec_to_bytes());
        lemma_split_prefix(s, q0, v.y_axis.spec_to_bytes());
        lemma_decode_field::<Vec3, 12>(s, 0, v.x_axis);
        lemma_decode_field::<Vec3, 12>(s, 12, v.y_axis);
        lemma_decode_field::<Vec3, 12>(s, 24, v.z_axis);
    }
}

/// The bytes that encode a `Color`: its fields in order.
#[verifier::opaque]
pub open spec fn color_bytes(v: Color) -> Seq<u8> {
    v.r.spec_to_bytes()
        + v.g.spec_to_bytes()
        + v.b.spec_to_bytes()
        + v.a.spec_to_bytes()
}


impl FromBytes for Color {
    open spec fn spec_from_bytes(bytes: Seq<u8>) -> Option<Color> {
        if bytes.len() == 16 {
            Some(
                Color {
                    r: decode_at(bytes, 0, 4),
                    g: decode_at(bytes, 4, 4),
                    b: decode_at(bytes, 8, 4),
                    a: decode_at(bytes, 12, 4),
                },
            )
        } else {
            None
        }
    }

    fn from_bytes(bytes: &[u8]) -> (r: Option<Color>) {
        if bytes.len() != 16 {
            return None;
        }
        proof {
            reveal(decode_at);
            <F32Bits as ToBytesExact<4>>::lemma_num_bytes();
        }
        let mut reader = ByteReader::new(bytes);
        let r = reader.read::<F32Bits>();
        let g = reader.read::<F32Bits>();
        let b = reader.read::<F32Bits>();
        let a = reader.read::<F32Bits>();
        Some(Color { r, g, b, a })
    }
}

impl FromBytesExact for Color {
    const NUM_BYTES: usize = 16;
}

impl ToBytesExact<16> for Color {
    open spec fn spec_to_bytes(&self) -> Seq<u8> {
        color_bytes(*self)
    }

    fn to_bytes(&self) -> (r: [u8; 16]) {
        proof {
            reveal(color_bytes);
        }
        let mut writer = ByteWriter::<16>::new();
        writer.write(&self.r);
        writer.write(&self.g);
        writer.write(&self.b);
        writer.write(&self.a);
        writer.inner()
    }

    proof fn lemma_num_bytes() {
    }

    proof fn lemma_round_trip(&self) {
        reveal(color_bytes);
        let v = *self;
        v.r.lemma_round_trip();
        v.g.lemma_round_trip();
        v.b.lemma_round_trip();
        v.a.lemma_round_trip();
        let s = self.spec_to_bytes();
        let q0 = v.r.spec_to_bytes();
        let q1 = q0 + v.g.spec_to_bytes();
        let q2 = q1 + v.b.spec_to_bytes();
        let q3 = q2 + v.a.spec_to_bytes();
        assert(s == q3);
        assert(s.subrange(0, s.len() as int) =~= s);
        lemma_split_prefix(s, q2, v.a.spec_to_bytes());
        lemma_split_prefix(s, q1, v.b.spec_to_bytes());
        lemma_split_prefix(s, q0, v.g.spec_to_bytes());
        lemma_decode_field::<F32Bits, 4>(s, 0, v.r);
        lemma_decode_field::<F32Bits, 4>(s, 4, v.g);
        lemma_decode_field::<F32Bits, 4>(s, 8, v.b);
        lemma_decode_field::<F32Bits, 4>(s, 12, v.a);
    }
}

/// The bytes that encode a `HeatseekerInfo`: its fields in order.
#[verifier::opaque]
pub open spec fn heatseeker_info_bytes(v: HeatseekerInfo) -> Seq<u8> {
    v.y_target_dir.spec_to_bytes()
        + v.cur_target_speed.spec_to_bytes()
        + v.time_since_hit.spec_to_bytes()
}


impl FromBytes for HeatseekerInfo {
    open spec fn spec_from_bytes(bytes: Seq<u8>) -> Option<HeatseekerInfo> {
        if bytes.len() == 12 {
            Some(
                HeatseekerInfo {
                    y_target_dir: decode_at(bytes, 0, 4),
                    cur_target_speed: decode_at(bytes, 4, 4),
                    time_since_hit: decode_at(bytes, 8, 4),
                },
            )
        } else {
            None
        }
    }

    fn from_bytes(bytes: &[u8]) -> (r: Option<HeatseekerInfo>) {
        if bytes.len() != 12 {
            return None;
        }
        proof {
            reveal(decode_at);
            <F32Bits as ToBytesExact<4>>::lemma_num_bytes();
        }
        let mut reader = ByteReader::new(bytes);
        let y_target_dir = reader.read::<F32Bits>();
        let cur_target_speed = reader.read::<F32Bits>();
        let time_since_hit = reader.read::<F32Bits>();
        Some(HeatseekerInfo { y_target_dir, cur_target_speed, time_since_hit })
    }
}

impl FromBytesExact for HeatseekerInfo {
    const NUM_BYTES: usize = 12;
}

impl ToBytesExact<12> for HeatseekerInfo {
    open spec fn spec_to_bytes(&self) -> Seq<u8> {
        heatseeker_info_bytes(*self)
    }

    fn to_bytes(&self) -> (r: [u8; 12]) {
        proof {
            reveal(heatseeker_info_bytes);
        }
        let mut writer = ByteWriter::<12>::new();
        writer.write(&self.y_target_dir);
        writer.write(&self.cur_target_speed);
        writer.write(&self.time_since_hit);
        writer.inner()
    }

    proof fn lemma_num_bytes() {
    }

    proof fn lemma_round_trip(&self) {
        reveal(heatseeker_info_bytes);
        let v = *self;
        v.y_target_dir.lemma_round_trip();
        v.cur_target_speed.lemma_round_trip();
        v.time_since_hit.lemma_round_trip();
        let s = self.spec_to_bytes();
        let q0 = v.y_target_dir.spec_to_bytes();
        let q1 = q0 + v.cur_target_speed.spec_to_bytes();
        let q2 = q1 + v.time_since_hit.spec_to_bytes();
        assert(s == q2);
        assert(s.subrange(0, s.len() as int) =~= s);
        lemma_split_prefix(s, q1, v.time_since_hit.spec_to_bytes());
        lemma_split_prefix(s, q0, v.cur_target_speed.spec_to_bytes());
        lemma_decode_field::<F32Bits, 4>(s, 0, v.y_target_dir);
        lemma_decode_field::<F32Bits, 4>(s, 4, v.cur_target_speed);
        lemma_decode_field::<F32Bits, 4>(s, 8, v.time_since_hit);
    }
}

/// The bytes that encode a `DropshotInfo`: its fields in order.
#[verifier::opaque]
pub open spec fn dropshot_info_bytes(v: DropshotInfo) -> Seq<u8> {
    v.charge_level.spec_to_bytes()
        + v.accumulated_hit_force.spec_to_bytes()
        + v.y_target_dir.spec_to_bytes()
        + v.has_damaged.spec_to_bytes()
        + v.last_damage_tick.spec_to_bytes()
}


impl FromBytes for DropshotInfo {
    open spec fn spec_from_bytes(bytes: Seq<u8>) -> Option<DropshotInfo> {
        if bytes.len() == 21 {
            Some(
                DropshotInfo {
                    charge_level: decode_at(bytes, 0, 4),
                    accumulated_hit_force: decode_at(bytes, 4, 4),
                    y_target_dir: decode_at(bytes, 8, 4),
                    has_damaged: decode_at(bytes, 12, 1),
                    last_damage_tick: decode_at(bytes, 13, 8),
                },
            )
        } else {
            None
        }
    }

    fn from_bytes(bytes: &[u8]) -> (r: Option<DropshotInfo>) {
        if bytes.len() != 21 {
            return None;
        }
        proof {
            reveal(decode_at);
            <i32 as ToBytesExact<4>>::lemma_num_bytes();
            <F32Bits as ToBytesExact<4>>::lemma_num_bytes();
            <bool as ToBytesExact<1>>::lemma_num_bytes();
            <u64 as ToBytesExact<8>>::lemma_num_bytes();
        }
        let mut reader = ByteReader::new(bytes);
        let charge_level = reader.read::<i32>();
        let accumulated_hit_force = reader.read::<F32Bits>();
        let y_target_dir = reader.read::<F32Bits>();
        let has_damaged = reader.read::<bool>();
        let last_damage_tick = reader.read::<u64>();
        Some(DropshotInfo { charge_level, accumulated_hit_force, y_target_dir, has_damaged, last_damage_tick })
    }
}

impl FromBytesExact for DropshotInfo {
    const NUM_BYTES: usize = 21;
}

impl ToBytesExact<21> for DropshotInfo {
    open spec fn spec_to_bytes(&self) -> Seq<u8> {
        dropshot_info_bytes(*self)
    }

    fn to_bytes(&self) -> (r: [u8; 21]) {
        proof {
            reveal(dropshot_info_bytes);
        }
        let mut writer = ByteWriter::<21>::new();
        writer.write(&self.charge_level);
        writer.write(&self.accumulated_hit_force);
        writer.write(&self.y_target_dir);
        writer.write(&self.has_damaged);
        writer.write(&self.last_damage_tick);
        writer.inner()
    }

    proof fn lemma_num_bytes() {
    }

    proof fn lemma_round_trip(&self) {
        reveal(dropshot_info_bytes);
        let v = *self;
        v.charge_level.lemma_round_trip();
        v.accumulated_hit_force.lemma_round_trip();
        v.y_target_dir.lemma_round_trip();
        v.has_damaged.lemma_round_trip();
        v.last_damage_tick.lemma_round_trip();
        let s = self.spec_to_bytes();
        let q0 = v.charge_level.spec_to_bytes();
        let q1 = q0 + v.accumulated_hit_force.spec_to_bytes();
        let q2 = q1 + v.y_target_dir.spec_to_bytes();
        let q3 = q2 + v.has_damaged.spec_to_bytes();
        let q4 = q3 + v.last_damage_tick.spec_to_bytes();
        assert(s == q4);
        assert(s.subrange(0, s.len() as int) =~= s);
        lemma_split_prefix(s, q3, v.last_damage_tick.spec_to_bytes());
        lemma_split_prefix(s, q2, v.has_damaged.spec_to_bytes());
        lemma_split_prefix(s, q1, v.y_target_dir.spec_to_bytes());
        lemma_split_prefix(s, q0, v.accumulated_hit_force.spec_to_bytes());
        lemma_decode_field::<i32, 4>(s, 0, v.charge_level);
        lemma_decode_field::<F32Bits, 4>(s, 4, v.accumulated_hit_force);
        lemma_decode_field::<F32Bits, 4>(s, 8, v.y_target_dir);
        lemma_decode_field::<bool, 1>(s, 12, v.has_damaged);
        lemma_decode_field::<u64, 8>(s, 13, v.last_damage_tick);
    }
}

/// The bytes that encode a `BallState`: its fields in order.
#[verifier::opaque]
pub open spec fn ball_state_bytes(v: BallState) -> Seq<u8> {
    v.tick_count_since_update.spec_to_bytes()
        + v.pos.spec_to_bytes()
        + v.rot_mat.spec_to_bytes()
        + v.vel.spec_to_bytes()
        + v.ang_vel.spec_to_bytes()
        + v.hs_info.spec_to_bytes()
        + v.ds_info.spec_to_bytes()
}


impl FromBytes for BallState {
    open spec fn spec_from_bytes(bytes: Seq<u8>) -> Option<BallState> {
        if bytes.len() == 113 {
            Some(
                BallState {
                    tick_count_since_update: decode_at(bytes, 0, 8),
                    pos: decode_at(bytes, 8, 12),
                    rot_mat: decode_at(bytes, 20, 36),
                    vel: decode_at(bytes, 56, 12),
                    ang_vel: decode_at(bytes, 68, 12),
                    hs_info: decode_at(bytes, 80, 12),
                    ds_info: decode_at(bytes, 92, 21),
                },
            )
        } else {
            None
        }
    }

    fn from_bytes(bytes: &[u8]) -> (r: Option<BallState>) {
        if bytes.len() != 113 {
            return None;
        }
        proof {
            reveal(decode_at);
            <u64 as ToBytesExact<8>>::lemma_num_bytes();
            <Vec3 as ToBytesExact<12>>::lemma_num_bytes();
            <RotMat as ToBytesExact<36>>::lemma_num_bytes();
            <HeatseekerInfo as ToBytesExact<12>>::lemma_num_bytes();
            <DropshotInfo as ToBytesExact<21>>::lemma_num_bytes();
        }
        let mut reader = ByteReader::new(bytes);
        let tick_count_since_update = reader.read::<u64>();
        let pos = reader.read::<Vec3>();
        let rot_mat = reader.read::<RotMat>();
        let vel = reader.read::<Vec3>();
        let ang_vel = reader.read::<Vec3>();
        let hs_info = reader.read::<HeatseekerInfo>();
        let ds_info = reader.read::<DropshotInfo>();
        Some(BallState { tick_count_since_update, pos, rot_mat, vel, ang_vel, hs_info, ds_info })
    }
}

impl FromBytesExact for BallState {
    const NUM_BYTES: usize = 113;
}

impl ToBytesExact<113> for BallState {
    open spec fn spec_to_bytes(&self) -> Seq<u8> {
        ball_state_bytes(*self)
    }

    fn to_bytes(&self) -> (r: [u8; 113]) {
        proof {
            reveal(ball_state_bytes);
        }
        let mut writer = ByteWriter::<113>::new();
        writer.write(&self.tick_count_since_update);
        writer.write(&self.pos);
        writer.write(&self.rot_mat);
        writer.write(&self.vel);
        writer.write(&self.ang_vel);
        writer.write(&self.hs_info);
        writer.write(&self.ds_info);
        writer.inner()
    }

    proof fn lemma_num_bytes() {
    }

    proof fn lemma_round_trip(&self) {
        reveal(ball_state_bytes);
        let v = *self;
        v.tick_count_since_update.lemma_round_trip();
        v.pos.lemma_round_trip();
        v.rot_mat.lemma_round_trip();
        v.vel.lemma_round_trip();
        v.ang_vel.lemma_round_trip();
        v.hs_info.lemma_round_trip();
        v.ds_info.lemma_round_trip();
        let s = self.spec_to_bytes();
        let q0 = v.tick_count_since_update.spec_to_bytes();
        let q1 = q0 + v.pos.spec_to_bytes();
        let q2 = q1 + v.rot_mat.spec_to_bytes();
        let q3 = q2 + v.vel.spec_to_bytes();
        let q4 = q3 + v.ang_vel.spec_to_bytes();
        let q5 = q4 + v.hs_info.spec_to_bytes();
        let q6 = q5 + v.ds_info.spec_to_bytes();
        assert(s == q6);
        assert(s.subrange(0, s.len() as int) =~= s);
        lemma_split_prefix(s, q5, v.ds_info.spec_to_bytes());
        lemma_split_prefix(s, q4, v.hs_info.spec_to_bytes());
        lemma_split_prefix(s, q3, v.ang_vel.spec_to_bytes());
        lemma_split_prefix(s, q2, v.vel.spec_to_bytes());
        lemma_split_prefix(s, q1, v.rot_mat.spec_to_bytes());
        lemma_split_prefix(s, q0, v.pos.spec_to_bytes());
        lemma_decode_field::<u64, 8>(s, 0, v.tick_count_since_update);
        lemma_decode_field::<Vec3, 12>(s, 8, v.pos);
        lemma_decode_field::<RotMat, 36>(s, 20, v.rot_mat);
        lemma_decode_field::<Vec3, 12>(s, 56, v.vel);
        lemma_decode_field::<Vec3, 12>(s, 68, v.ang_vel);
        lemma_decode_field::<HeatseekerInfo, 12>(s, 80, v.hs_info);
        lemma_decode_field::<DropshotInfo, 21>(s, 92, v.ds_info);
    }
}

/// The bytes that encode a `BoostPadState`: its fields in order.
#[verifier::opaque]
pub open spec fn boost_pad_state_bytes(v: BoostPadState) -> Seq<u8> {
    v.is_active.spec_to_bytes()
        + v.cooldown.spec_to_bytes()
        + v.cur_locked_car_id.spec_to_bytes()
        + v.prev_locked_car_id.spec_to_bytes()
}


impl FromBytes for BoostPadState {
    open spec fn spec_from_bytes(bytes: Seq<u8>) -> Option<BoostPadState> {
        if bytes.len() == 13 {
            Some(
                BoostPadState {
                    is_active: decode_at(bytes, 0, 1),
                    cooldown: decode_at(bytes, 1, 4),
                    cur_locked_car_id: decode_at(bytes, 5, 4),
                    prev_locked_car_id: decode_at(bytes, 9, 4),
                },
            )
        } else {
            None
        }
    }

    fn from_bytes(bytes: &[u8]) -> (r: Option<BoostPadState>) {
        if bytes.len() != 13 {
            return None;
        }
        proof {
            reveal(decode_at);
            <bool as ToBytesExact<1>>::lemma_num_bytes();
            <F32Bits as ToBytesExact<4>>::lemma_num_bytes();
            <u32 as ToBytesExact<4>>::lemma_num_bytes();
        }
        let mut reader = ByteReader::new(bytes);
        let is_active = reader.read::<bool>();
        let cooldown = reader.read::<F32Bits>();
        let cur_locked_car_id = reader.read::<u32>();
        let prev_locked_car_id = reader.read::<u32>();
        Some(BoostPadState { is_active, cooldown, cur_locked_car_id, prev_locked_car_id })
    }
}

impl FromBytesExact for BoostPadState {
    const NUM_BYTES: usize = 13;
}

impl ToBytesExact<13> for BoostPadState {
    open spec fn spec_to_bytes(&self) -> Seq<u8> {
        boost_pad_state_bytes(*self)
    }

    fn to_bytes(&self) -> (r: [u8; 13]) {
        proof {
            reveal(boost_pad_state_bytes);
        }
        let mut writer = ByteWriter::<13>::new();
        writer.write(&self.is_active);
        writer.write(&self.cooldown);
        writer.write(&self.cur_locked_car_id);
        writer.write(&self.prev_locked_car_id);
        writer.inner()
    }

    proof fn lemma_num_bytes() {
    }

    proof fn lemma_round_trip(&self) {
        reveal(boost_pad_state_bytes);
        let v = *self;
        v.is_active.lemma_round_trip();
        v.cooldown.lemma_round_trip();
        v.cur_locked_car_id.lemma_round_trip();
        v.prev_locked_car_id.lemma_round_trip();
        let s = self.spec_to_bytes();
        let q0 = v.is_active.spec_to_bytes();
        let q1 = q0 + v.cooldown.spec_to_bytes();
        let q2 = q1 + v.cur_locked_car_id.spec_to_bytes();
        let q3 = q2 + v.prev_locked_car_id.spec_to_bytes();
        assert(s == q3);
        assert(s.subrange(0, s.len() as int) =~= s);
        lemma_split_prefix(s, q2, v.prev_locked_car_id.spec_to_bytes());
        lemma_split_prefix(s, q1, v.cur_locked_car_id.spec_to_bytes());
        lemma_split_prefix(s, q0, v.cooldown.spec_to_bytes());
        lemma_decode_field::<bool, 1>(s, 0, v.is_active);
        lemma_decode_field::<F32Bits, 4>(s, 1, v.cooldown);
        lemma_decode_field::<u32, 4>(s, 5, v.cur_locked_car_id);
        lemma_decode_field::<u32, 4>(s, 9, v.prev_locked_car_id);
    }
}

/// The bytes that encode a `BoostPad`: its fields in order.
#[verifier::opaque]
pub open spec fn boost_pad_bytes(v: BoostPad) -> Seq<u8> {
    v.is_big.spec_to_bytes()
        + v.position.spec_to_bytes()
        + v.state.spec_to_bytes()
}


impl FromBytes for BoostPad {
    open spec fn spec_from_bytes(bytes: Seq<u8>) -> Option<BoostPad> {
        if bytes.len() == 26 {
            Some(
                BoostPad {
                    is_big: decode_at(bytes, 0, 1),
                    position: decode_at(bytes, 1, 12),
                    state: decode_at(bytes, 13, 13),
                },
            )
        } else {
            None
        }
    }

    fn from_bytes(bytes: &[u8]) -> (r: Option<BoostPad>) {
        if bytes.len() != 26 {
            return None;
        }
        proof {
            reveal(decode_at);
            <bool as ToBytesExact<1>>::lemma_num_bytes();
            <Vec3 as ToBytesExact<12>>::lemma_num_bytes();
            <BoostPadState as ToBytesExact<13>>::lemma_num_bytes();
        }
        let mut reader = ByteReader::new(bytes);
        let is_big = reader.read::<bool>();
        let position = reader.read::<Vec3>();
        let state = reader.read::<BoostPadState>();
        Some(BoostPad { is_big, position, state })
    }
}

impl FromBytesExact for BoostPad {
    const NUM_BYTES: usize = 26;
}

impl ToBytesExact<26> for BoostPad {
    open spec fn spec_to_bytes(&self) -> Seq<u8> {
        boost_pad_bytes(*self)
    }

    fn to_bytes(&self) -> (r: [u8; 26]) {
        proof {
            reveal(boost_pad_bytes);
        }
        let mut writer = ByteWriter::<26>::new();
        writer.write(&self.is_big);
        writer.write(&self.position);
        writer.write(&self.state);
        writer.inner()
    }

    proof fn lemma_num_bytes() {
    }

    proof fn lemma_round_trip(&self) {
        reveal(boost_pad_bytes);
        let v = *self;
        v.is_big.lemma_round_trip();
        v.position.lemma_round_trip();
        v.state.lemma_round_trip();
        let s = self.spec_to_bytes();
        let q0 = v.is_big.spec_to_bytes();
        let q1 = q0 + v.position.spec_to_bytes();
        let q2 = q1 + v.state.spec_to_bytes();
        assert(s == q2);
        assert(s.subrange(0, s.len() as int) =~= s);
        lemma_split_prefix(s, q1, v.state.spec_to_bytes());
        lemma_split_prefix(s, q0, v.position.spec_to_bytes());
        lemma_decode_field::<bool, 1>(s, 0, v.is_big);
        lemma_decode_field::<Vec3, 12>(s, 1, v.position);
        lemma_decode_field::<BoostPadState, 13>(s, 13, v.state);
    }
}

/// The bytes that encode a `BallHitInfo`: its fields in order.
#[verifier::opaque]
pub open spec fn ball_hit_info_bytes(v: BallHitInfo) -> Seq<u8> {
    v.is_valid.spec_to_bytes()
        + v.relative_pos_on_ball.spec_to_bytes()
        + v.ball_pos.spec_to_bytes()
        + v.extra_hit_vel.spec_to_bytes()
        + v.tick_count_when_hit.spec_to_bytes()
        + v.tick_count_when_extra_impulse_applied.spec_to_bytes()
}


impl FromBytes for BallHitInfo {
    open spec fn spec_from_bytes(bytes: Seq<u8>) -> Option<BallHitInfo> {
        if bytes.len() == 53 {
            Some(
                BallHitInfo {
                    is_valid: decode_at(bytes, 0, 1),
                    relative_pos_on_ball: decode_at(bytes, 1, 12),
                    ball_pos: decode_at(bytes, 13, 12),
                    extra_hit_vel: decode_at(bytes, 25, 12),
                    tick_count_when_hit: decode_at(bytes, 37, 8),
                    tick_count_when_extra_impulse_applied: decode_at(bytes, 45, 8),
                },
            )
        } else {
            None
        }
    }

    fn from_bytes(bytes: &[u8]) -> (r: Option<BallHitInfo>) {
        if bytes.len() != 53 {
            return None;
        }
        proof {
            reveal(decode_at);
            <bool as ToBytesExact<1>>::lemma_num_bytes();
            <Vec3 as ToBytesExact<12>>::lemma_num_bytes();
            <u64 as ToBytesExact<8>>::lemma_num_bytes();
        }
        let mut reader = ByteReader::new(bytes);
        let is_valid = reader.read::<bool>();
        let relative_pos_on_ball = reader.read::<Vec3>();
        let ball_pos = reader.read::<Vec3>();
        let extra_hit_vel = reader.read::<Vec3>();
        let tick_count_when_hit = reader.read::<u64>();
        let tick_count_when_extra_impulse_applied = reader.read::<u64>();
        Some(BallHitInfo { is_valid, relative_pos_on_ball, ball_pos, extra_hit_vel, tick_count_when_hit, tick_count_when_extra_impulse_applied })
    }
}

impl FromBytesExact for BallHitInfo {
    const NUM_BYTES: usize = 53;
}

impl ToBytesExact<53> for BallHitInfo {
    open spec fn spec_to_bytes(&self) -> Seq<u8> {
        ball_hit_info_bytes(*self)
    }

    fn to_bytes(&self) -> (r: [u8; 53]) {
        proof {
            reveal(ball_hit_info_bytes);
        }
        let mut writer = ByteWriter::<53>::new();
        writer.write(&self.is_valid);
        writer.write(&self.relative_pos_on_ball);
        writer.write(&self.ball_pos);
        writer.write(&self.extra_hit_vel);
        writer.write(&self.tick_count_when_hit);
        writer.write(&self.tick_count_when_extra_impulse_applied);
        writer.inner()
    }

    proof fn lemma_num_bytes() {
    }

    proof fn lemma_round_trip(&self) {
        reveal(ball_hit_info_bytes);
        let v = *self;
        v.is_valid.lemma_round_trip();
        v.relative_pos_on_ball.lemma_round_trip();
        v.ball_pos.lemma_round_trip();
        v.extra_hit_vel.lemma_round_trip();
        v.tick_count_when_hit.lemma_round_trip();
        v.tick_count_when_extra_impulse_applied.lemma_round_trip();
        let s = self.spec_to_bytes();
        let q0 = v.is_valid.spec_to_bytes();
        let q1 = q0 + v.relative_pos_on_ball.spec_to_bytes();
        let q2 = q1 + v.ball_pos.spec_to_bytes();
        let q3 = q2 + v.extra_hit_vel.spec_to_bytes();
        let q4 = q3 + v.tick_count_when_hit.spec_to_bytes();
        let q5 = q4 + v.tick_count_when_extra_impulse_applied.spec_to_bytes();
        assert(s == q5);
        assert(s.subrange(0, s.len() as int) =~= s);
        lemma_split_prefix(s, q4, v.tick_count_when_extra_impulse_applied.spec_to_bytes());
        lemma_split_prefix(s, q3, v.tick_count_when_hit.spec_to_bytes());
        lemma_split_prefix(s, q2, v.extra_hit_vel.spec_to_bytes());
        lemma_split_prefix(s, q1, v.ball_pos.spec_to_bytes());
        lemma_split_prefix(s, q0, v.relative_pos_on_ball.spec_to_bytes());
        lemma_decode_field::<bool, 1>(s, 0, v.is_valid);
        lemma_decode_field::<Vec3, 12>(s, 1, v.relative_pos_on_ball);
        lemma_decode_field::<Vec3, 12>(s, 13, v.ball_pos);
        lemma_decode_field::<Vec3, 12>(s, 25, v.extra_hit_vel);
        lemma_decode_field::<u64, 8>(s, 37, v.tick_count_when_hit);
        lemma_decode_field::<u64, 8>(s, 45, v.tick_count_when_extra_impulse_applied);
    }
}

/// The bytes that encode a `CarControls`: its fields in order.
#[verifier::opaque]
pub open spec fn car_controls_bytes(v: CarControls) -> Seq<u8> {
    v.throttle.spec_to_bytes()
        + v.steer.spec_to_bytes()
        + v.pitch.spec_to_bytes()
        + v.yaw.spec_to_bytes()
        + v.roll.spec_to_bytes()
        + v.boost.spec_to_bytes()
        + v.jump.spec_to_bytes()
        + v.handbrake.spec_to_bytes()
}


impl FromBytes for CarControls {
    open spec fn spec_from_bytes(bytes: Seq<u8>) -> Option<CarControls> {
        if bytes.len() == 23 {
            Some(
                CarControls {
                    throttle: decode_at(bytes, 0, 4),
                    steer: decode_at(bytes, 4, 4),
                    pitch: decode_at(bytes, 8, 4),
                    yaw: decode_at(bytes, 12, 4),
                    roll: decode_at(bytes, 16, 4),
                    boost: decode_at(bytes, 20, 1),
                    jump: decode_at(bytes, 21, 1),
                    handbrake: decode_at(bytes, 22, 1),
                },
            )
        } else {
            None
        }
    }

    fn from_bytes(bytes: &[u8]) -> (r: Option<CarControls>) {
        if bytes.len() != 23 {
            return None;
        }
        proof {
            reveal(decode_at);
            <F32Bits as ToBytesExact<4>>::lemma_num_bytes();
            <bool as ToBytesExact<1>>::lemma_num_bytes();
        }
        let mut reader = ByteReader::new(bytes);
        let throttle = reader.read::<F32Bits>();
        let steer = reader.read::<F32Bits>();
        let pitch = reader.read::<F32Bits>();
        let yaw = reader.read::<F32Bits>();
        let roll = reader.read::<F32Bits>();
        let boost = reader.read::<bool>();
        let jump = reader.read::<bool>();
        let handbrake = reader.read::<bool>();
        Some(CarControls { throttle, steer, pitch, yaw, roll, boost, jump, handbrake })
    }
}

impl FromBytesExact for CarControls {
    const NUM_BYTES: usize = 23;
}

impl ToBytesExact<23> for CarControls {
    open spec fn spec_to_bytes(&self) -> Seq<u8> {
        car_controls_bytes(*self)
    }

    fn to_bytes(&self) -> (r: [u8; 23]) {
        proof {
            reveal(car_controls_bytes);
        }
        let mut writer = ByteWriter::<23>::new();
        writer.write(&self.throttle);
        writer.write(&self.steer);
        writer.write(&self.pitch);
        writer.write(&self.yaw);
        writer.write(&self.roll);
        writer.write(&self.boost);
        writer.write(&self.jump);
        writer.write(&self.handbrake);
        writer.inner()
    }

    proof fn lemma_num_bytes() {
    }

    proof fn lemma_round_trip(&self) {
        reveal(car_controls_bytes);
        let v = *self;
        v.throttle.lemma_round_trip();
        v.steer.lemma_round_trip();
        v.pitch.lemma_round_trip();
        v.yaw.lemma_round_trip();
        v.roll.lemma_round_trip();
        v.boost.lemma_round_trip();
        v.jump.lemma_round_trip();
        v.handbrake.lemma_round_trip();
        let s = self.spec_to_bytes();
        let q0 = v.throttle.spec_to_bytes();
        let q1 = q0 + v.steer.spec_to_bytes();
        let q2 = q1 + v.pitch.spec_to_bytes();
        let q3 = q2 + v.yaw.spec_to_bytes();
        let q4 = q3 + v.roll.spec_to_bytes();
        let q5 = q4 + v.boost.spec_to_bytes();
        let q6 = q5 + v.jump.spec_to_bytes();
        let q7 = q6 + v.handbrake.spec_to_bytes();
        assert(s == q7);
        assert(s.subrange(0, s.len() as int) =~= s);
        lemma_split_prefix(s, q6, v.handbrake.spec_to_bytes());
        lemma_split_prefix(s, q5, v.jump.spec_to_bytes());
        lemma_split_prefix(s, q4, v.boost.spec_to_bytes());
        lemma_split_prefix(s, q3, v.roll.spec_to_bytes());
        lemma_split_prefix(s, q2, v.yaw.spec_to_bytes());
        lemma_split_prefix(s, q1, v.pitch.spec_to_bytes());
        lemma_split_prefix(s, q0, v.steer.spec_to_bytes());
        lemma_decode_field::<F32Bits, 4>(s, 0, v.throttle);
        lemma_decode_field::<F32Bits, 4>(s, 4, v.steer);
        lemma_decode_field::<F32Bits, 4>(s, 8, v.pitch);
        lemma_decode_field::<F32Bits, 4>(s, 12, v.yaw);
        lemma_decode_field::<F32Bits, 4>(s, 16, v.roll);
        lemma_decode_field::<bool, 1>(s, 20, v.boost);
        lemma_decode_field::<bool, 1>(s, 21, v.jump);
        lemma_decode_field::<bool, 1>(s, 22, v.handbrake);
    }
}

/// The bytes that encode a `WorldContact`: its fields in order.
#[verifier::opaque]
pub open spec fn world_contact_bytes(v: WorldContact) -> Seq<u8> {
    v.has_contact.spec_to_bytes()
        + v.contact_normal.spec_to_bytes()
}


impl FromBytes for WorldContact {
    open spec fn spec_from_bytes(bytes: Seq<u8>) -> Option<WorldContact> {
        if bytes.len() == 13 {
            Some(
                WorldContact {
                    has_contact: decode_at(bytes, 0, 1),
                    contact_normal: decode_at(bytes, 1, 12),
                },
            )
        } else {
            None
        }
    }

    fn from_bytes(bytes: &[u8]) -> (r: Option<WorldContact>) {
        if bytes.len() != 13 {
            return None;
        }
        proof {
            reveal(decode_at);
            <bool as ToBytesExact<1>>::lemma_num_bytes();
            <Vec3 as ToBytesExact<12>>::lemma_num_bytes();
        }
        let mut reader = ByteReader::new(bytes);
        let has_contact = reader.read::<bool>();
        let contact_normal = reader.read::<Vec3>();
        Some(WorldContact { has_contact, contact_normal })
    }
}

impl FromBytesExact for WorldContact {
    const NUM_BYTES: usize = 13;
}

impl ToBytesExact<13> for WorldContact {
    open spec fn spec_to_bytes(&self) -> Seq<u8> {
        world_contact_bytes(*self)
    }

    fn to_bytes(&self) -> (r: [u8; 13]) {
        proof {
            reveal(world_contact_bytes);
        }
        let mut writer = ByteWriter::<13>::new();
        writer.write(&self.has_contact);
        writer.write(&self.contact_normal);
        writer.inner()
    }

    proof fn lemma_num_bytes() {
    }

    proof fn lemma_round_trip(&self) {
        reveal(world_contact_bytes);
        let v = *self;
        v.has_contact.lemma_round_trip();
        v.contact_normal.lemma_round_trip();
        let s = self.spec_to_bytes();
        let q0 = v.has_contact.spec_to_bytes();
        let q1 = q0 + v.contact_normal.spec_to_bytes();
        assert(s == q1);
        assert(s.subrange(0, s.len() as int) =~= s);
        lemma_split_prefix(s, q0, v.contact_normal.spec_to_bytes());
        lemma_decode_field::<bool, 1>(s, 0, v.has_contact);
        lemma_decode_field::<Vec3, 12>(s, 1, v.contact_normal);
    }
}

/// The bytes that encode a `CarContact`: its fields in order.
#[verifier::opaque]
pub open spec fn car_contact_bytes(v: CarContact) -> Seq<u8> {
    v.other_car_id.spec_to_bytes()
        + v.cooldown_timer.spec_to_bytes()
}


impl FromBytes for CarContact {
    open spec fn spec_from_bytes(bytes: Seq<u8>) -> Option<CarContact> {
        if bytes.len() == 8 {
            Some(
                CarContact {
                    other_car_id: decode_at(bytes, 0, 4),
                    cooldown_timer: decode_at(bytes, 4, 4),
                },
            )
        } else {
            None
        }
    }

    fn from_bytes(bytes: &[u8]) -> (r: Option<CarContact>) {
        if bytes.len() != 8 {
            return None;
        }
        proof {
            reveal(decode_at);
            <u32 as ToBytesExact<4>>::lemma_num_bytes();
            <F32Bits as ToBytesExact<4>>::lemma_num_bytes();
        }
        let mut reader = ByteReader::new(bytes);
        let other_car_id = reader.read::<u32>();
        let cooldown_timer = reader.read::<F32Bits>();
        Some(CarContact { other_car_id, cooldown_timer })
    }
}

impl FromBytesExact for CarContact {
    const NUM_BYTES: usize = 8;
}

impl ToBytesExact<8> for CarContact {
    open spec fn spec_to_bytes(&self) -> Seq<u8> {
        car_contact_bytes(*self)
    }

    fn to_bytes(&self) -> (r: [u8; 8]) {
        proof {
            reveal(car_contact_bytes);
        }
        let mut writer = ByteWriter::<8>::new();
        writer.write(&self.other_car_id);
        writer.write(&self.cooldown_timer);
        writer.inner()
    }

    proof fn lemma_num_bytes() {
    }

    proof fn lemma_round_trip(&self) {
        reveal(car_contact_bytes);
        let v = *self;
        v.other_car_id.lemma_round_trip();
        v.cooldown_timer.lemma_round_trip();
        let s = self.spec_to_bytes();
        let q0 = v.other_car_id.spec_to_bytes();
        let q1 = q0 + v.cooldown_timer.spec_to_bytes();
        assert(s == q1);
        assert(s.subrange(0, s.len() as int) =~= s);
        lemma_split_prefix(s, q0, v.cooldown_timer.spec_to_bytes());
        lemma_decode_field::<u32, 4>(s, 0, v.other_car_id);
        lemma_decode_field::<F32Bits, 4>(s, 4, v.cooldown_timer);
    }
}

/// The bytes that encode the first 8 fields of a `CarState`.
#[verifier::opaque]
pub open spec fn car_state_bytes_upto_8(v: CarState) -> Seq<u8> {
    v.tick_count_since_update.spec_to_bytes()
        + v.pos.spec_to_bytes()
        + v.rot_mat.spec_to_bytes()
        + v.vel.spec_to_bytes()
        + v.ang_vel.spec_to_bytes()
        + v.is_on_ground.spec_to_bytes()
        + v.wheels_with_contact.spec_to_bytes()
        + v.has_jumped.spec_to_bytes()
}

/// The bytes that encode the first 16 fields of a `CarState`.
#[verifier::opaque]
pub open spec fn car_state_bytes_upto_16(v: CarState) -> Seq<u8> {
    car_state_bytes_upto_8(v)
        + v.has_double_jumped.spec_to_bytes()
        + v.has_flipped.spec_to_bytes()
        + v.flip_rel_torque.spec_to_bytes()
        + v.jump_time.spec_to_bytes()
        + v.flip_time.spec_to_bytes()
        + v.is_flipping.spec_to_bytes()
        + v.is_jumping.spec_to_bytes()
        + v.air_time.spec_to_bytes()
}

/// The bytes that encode the first 24 fields of a `CarState`.
#[verifier::opaque]
pub open spec fn car_state_bytes_upto_24(v: CarState) -> Seq<u8> {
    car_state_bytes_upto_16(v)
        + v.air_time_since_jump.spec_to_bytes()
        + v.boost.spec_to_bytes()
        + v.time_since_boosted.spec_to_bytes()
        + v.is_boosting.spec_to_bytes()
        + v.boosting_time.spec_to_bytes()
        + v.is_supersonic.spec_to_bytes()
        + v.supersonic_time.spec_to_bytes()
        + v.handbrake_val.spec_to_bytes()
}

/// The bytes that encode a `CarState`: its fields in order.
#[verifier::opaque]
pub open spec fn car_state_bytes(v: CarState) -> Seq<u8> {
    car_state_bytes_upto_24(v)
        + v.is_auto_flipping.spec_to_bytes()
        + v.auto_flip_timer.spec_to_bytes()
        + v.auto_flip_torque_scale.spec_to_bytes()
        + v.world_contact.spec_to_bytes()
        + v.car_contact.spec_to_bytes()
        + v.is_demoed.spec_to_bytes()
        + v.demo_respawn_timer.spec_to_bytes()
        + v.ball_hit_info.spec_to_bytes()
        + v.last_controls.spec_to_bytes()
}

proof fn lemma_car_state_bytes_upto_8_len(v: CarState)
    ensures
        car_state_bytes_upto_8(v).len() == 86,
{
    reveal(car_state_bytes_upto_8);
    v.tick_count_since_update.lemma_round_trip();
    v.pos.lemma_round_trip();
    v.rot_mat.lemma_round_trip();
    v.vel.lemma_round_trip();
    v.ang_vel.lemma_round_trip();
    v.is_on_ground.lemma_round_trip();
    v.wheels_with_contact.lemma_round_trip();
    v.has_jumped.lemma_round_trip();
}

proof fn lemma_car_state_bytes_upto_8_fields(v: CarState, s: Seq<u8>)
    requires
        86 <= s.len(),
        s.subrange(0, 86) == car_state_bytes_upto_8(v),
    ensures
        decode_at::<u64>(s, 0, 8) == v.tick_count_since_update,
        decode_at::<Vec3>(s, 8, 12) == v.pos,
        decode_at::<RotMat>(s, 20, 36) == v.rot_mat,
        decode_at::<Vec3>(s, 56, 12) == v.vel,
        decode_at::<Vec3>(s, 68, 12) == v.ang_vel,
        decode_at::<bool>(s, 80, 1) == v.is_on_ground,
        decode_at::<[bool; 4]>(s, 81, 4) == v.wheels_with_contact,
        decode_at::<bool>(s, 85, 1) == v.has_jumped,
{
    reveal(car_state_bytes_upto_8);
    v.tick_count_since_update.lemma_round_trip();
    v.pos.lemma_round_trip();
    v.rot_mat.lemma_round_trip();
    v.vel.lemma_round_trip();
    v.ang_vel.lemma_round_trip();
    v.is_on_ground.lemma_round_trip();
    v.wheels_with_contact.lemma_round_trip();
    v.has_jumped.lemma_round_trip();
    let q0 = v.tick_count_since_update.spec_to_bytes();
    let q1 = q0 + v.pos.spec_to_bytes();
    let q2 = q1 + v.rot_mat.spec_to_bytes();
    let q3 = q2 + v.vel.spec_to_bytes();
    let q4 = q3 + v.ang_vel.spec_to_bytes();
    let q5 = q4 + v.is_on_ground.spec_to_bytes();
    let q6 = q5 + v.wheels_with_contact.spec_to_bytes();
    let q7 = q6 + v.has_jumped.spec_to_bytes();
    assert(s.subrange(0, 86) == q7);
    lemma_split_prefix(s, q6, v.has_jumped.spec_to_bytes());
    lemma_split_prefix(s, q5, v.wheels_with_contact.spec_to_bytes());
    lemma_split_prefix(s, q4, v.is_on_ground.spec_to_bytes());
    lemma_split_prefix(s, q3, v.ang_vel.spec_to_bytes());
    lemma_split_prefix(s, q2, v.vel.spec_to_bytes());
    lemma_split_prefix(s, q1, v.rot_mat.spec_to_bytes());
    lemma_split_prefix(s, q0, v.pos.spec_to_bytes());
    lemma_decode_field::<u64, 8>(s, 0, v.tick_count_since_update);
    lemma_decode_field::<Vec3, 12>(s, 8, v.pos);
    lemma_decode_field::<RotMat, 36>(s, 20, v.rot_mat);
    lemma_decode_field::<Vec3, 12>(s, 56, v.vel);
    lemma_decode_field::<Vec3, 12>(s, 68, v.ang_vel);
    lemma_decode_field::<bool, 1>(s, 80, v.is_on_ground);
    lemma_decode_field::<[bool; 4], 4>(s, 81, v.wheels_with_contact);
    lemma_decode_field::<bool, 1>(s, 85, v.has_jumped);
}

proof fn lemma_car_state_bytes_upto_16_len(v: CarState)
    ensures
        car_state_bytes_upto_16(v).len() == 114,
{
    reveal(car_state_bytes_upto_16);
    lemma_car_state_bytes_upto_8_len(v);
    v.has_double_jumped.lemma_round_trip();
    v.has_flipped.lemma_round_trip();
    v.flip_rel_torque.lemma_round_trip();
    v.jump_time.lemma_round_trip();
    v.flip_time.lemma_round_trip();
    v.is_flipping.lemma_round_trip();
    v.is_jumping.lemma_round_trip();
    v.air_time.lemma_round_trip();
}

proof fn lemma_car_state_bytes_upto_16_fields(v: CarState, s: Seq<u8>)
    requires
        114 <= s.len(),
        s.subrange(0, 114) == car_state_bytes_upto_16(v),
    ensures
        decode_at::<u64>(s, 0, 8) == v.tick_count_since_update,
        decode_at::<Vec3>(s, 8, 12) == v.pos,
        decode_at::<RotMat>(s, 20, 36) == v.rot_mat,
        decode_at::<Vec3>(s, 56, 12) == v.vel,
        decode_at::<Vec3>(s, 68, 12) == v.ang_vel,
        decode_at::<bool>(s, 80, 1) == v.is_on_ground,
        decode_at::<[bool; 4]>(s, 81, 4) == v.wheels_with_contact,
        decode_at::<bool>(s, 85, 1) == v.has_jumped,
        decode_at::<bool>(s, 86, 1) == v.has_double_jumped,
        decode_at::<bool>(s, 87, 1) == v.has_flipped,
        decode_at::<Vec3>(s, 88, 12) == v.flip_rel_torque,
        decode_at::<F32Bits>(s, 100, 4) == v.jump_time,
        decode_at::<F32Bits>(s, 104, 4) == v.flip_time,
        decode_at::<bool>(s, 108, 1) == v.is_flipping,
        decode_at::<bool>(s, 109, 1) == v.is_jumping,
        decode_at::<F32Bits>(s, 110, 4) == v.air_time,
{
    reveal(car_state_bytes_upto_16);
    lemma_car_state_bytes_upto_8_len(v);
    v.has_double_jumped.lemma_round_trip();
    v.has_flipped.lemma_round_trip();
    v.flip_rel_torque.lemma_round_trip();
    v.jump_time.lemma_round_trip();
    v.flip_time.lemma_round_trip();
    v.is_flipping.lemma_round_trip();
    v.is_jumping.lemma_round_trip();
    v.air_time.lemma_round_trip();
    let q0 = car_state_bytes_upto_8(v);
    let q1 = q0 + v.has_double_jumped.spec_to_bytes();
    let q2 = q1 + v.has_flipped.spec_to_bytes();
    let q3 = q2 + v.flip_rel_torque.spec_to_bytes();
    let q4 = q3 + v.jump_time.spec_to_bytes();
    let q5 = q4 + v.flip_time.spec_to_bytes();
    let q6 = q5 + v.is_flipping.spec_to_bytes();
    let q7 = q6 + v.is_jumping.spec_to_bytes();
    let q8 = q7 + v.air_time.spec_to_bytes();
    assert(s.subrange(0, 114) == q8);
    lemma_split_prefix(s, q7, v.air_time.spec_to_bytes());
    lemma_split_prefix(s, q6, v.is_jumping.spec_to_bytes());
    lemma_split_prefix(s, q5, v.is_flipping.spec_to_bytes());
    lemma_split_prefix(s, q4, v.flip_time.spec_to_bytes());
    lemma_split_prefix(s, q3, v.jump_time.spec_to_bytes());
    lemma_split_prefix(s, q2, v.flip_rel_torque.spec_to_bytes());
    lemma_split_prefix(s, q1, v.has_flipped.spec_to_bytes());
    lemma_split_prefix(s, q0, v.has_double_jumped.spec_to_bytes());
    lemma_decode_field::<bool, 1>(s, 86, v.has_double_jumped);
    lemma_decode_field::<bool, 1>(s, 87, v.has_flipped);
    lemma_decode_field::<Vec3, 12>(s, 88, v.flip_rel_torque);
    lemma_decode_field::<F32Bits, 4>(s, 100, v.jump_time);
    lemma_decode_field::<F32Bits, 4>(s, 104, v.flip_time);
    lemma_decode_field::<bool, 1>(s, 108, v.is_flipping);
    lemma_decode_field::<bool, 1>(s, 109, v.is_jumping);
    lemma_decode_field::<F32Bits, 4>(s, 110, v.air_time);
    lemma_car_state_bytes_upto_8_fields(v, s);
}

proof fn lemma_car_state_bytes_upto_24_len(v: CarState)
    ensures
        car_state_bytes_upto_24(v).len() == 140,
{
    reveal(car_state_bytes_upto_24);
    lemma_car_state_bytes_upto_16_len(v);
    v.air_time_since_jump.lemma_round_trip();
    v.boost.lemma_round_trip();
    v.time_since_boosted.lemma_round_trip();
    v.is_boosting.lemma_round_trip();
    v.boosting_time.lemma_round_trip();
    v.is_supersonic.lemma_round_trip();
    v.supersonic_time.lemma_round_trip();
    v.handbrake_val.lemma_round_trip();
}

proof fn lemma_car_state_bytes_upto_24_fields(v: CarState, s: Seq<u8>)
    requires
        140 <= s.len(),
        s.subrange(0, 140) == car_state_bytes_upto_24(v),
    ensures
        decode_at::<u64>(s, 0, 8) == v.tick_count_since_update,
        decode_at::<Vec3>(s, 8, 12) == v.pos,
        decode_at::<RotMat>(s, 20, 36) == v.rot_mat,
        decode_at::<Vec3>(s, 56, 12) == v.vel,
        decode_at::<Vec3>(s, 68, 12) == v.ang_vel,
        decode_at::<bool>(s, 80, 1) == v.is_on_ground,
        decode_at::<[bool; 4]>(s, 81, 4) == v.wheels_with_contact,
        decode_at::<bool>(s, 85, 1) == v.has_jumped,
        decode_at::<bool>(s, 86, 1) == v.has_double_jumped,
        decode_at::<bool>(s, 87, 1) == v.has_flipped,
        decode_at::<Vec3>(s, 88, 12) == v.flip_rel_torque,
        decode_at::<F32Bits>(s, 100, 4) == v.jump_time,
        decode_at::<F32Bits>(s, 104, 4) == v.flip_time,
        decode_at::<bool>(s, 108, 1) == v.is_flipping,
        decode_at::<bool>(s, 109, 1) == v.is_jumping,
        decode_at::<F32Bits>(s, 110, 4) == v.air_time,
        decode_at::<F32Bits>(s, 114, 4) == v.air_time_since_jump,
        decode_at::<F32Bits>(s, 118, 4) == v.boost,
        decode_at::<F32Bits>(s, 122, 4) == v.time_since_boosted,
        decode_at::<bool>(s, 126, 1) == v.is_boosting,
        decode_at::<F32Bits>(s, 127, 4) == v.boosting_time,
        decode_at::<bool>(s, 131, 1) == v.is_supersonic,
        decode_at::<F32Bits>(s, 132, 4) == v.supersonic_time,
        decode_at::<F32Bits>(s, 136, 4) == v.handbrake_val,
{
    reveal(car_state_bytes_upto_24);
    lemma_car_state_bytes_upto_16_len(v);
    v.air_time_since_jump.lemma_round_trip();
    v.boost.lemma_round_trip();
    v.time_since_boosted.lemma_round_trip();
    v.is_boosting.lemma_round_trip();
    v.boosting_time.lemma_round_trip();
    v.is_supersonic.lemma_round_trip();
    v.supersonic_time.lemma_round_trip();
    v.handbrake_val.lemma_round_trip();
    let q0 = car_state_bytes_upto_16(v);
    let q1 = q0 + v.air_time_since_jump.spec_to_bytes();
    let q2 = q1 + v.boost.spec_to_bytes();
    let q3 = q2 + v.time_since_boosted.spec_to_bytes();
    let q4 = q3 + v.is_boosting.spec_to_bytes();
    let q5 = q4 + v.boosting_time.spec_to_bytes();
    let q6 = q5 + v.is_supersonic.spec_to_bytes();
    let q7 = q6 + v.supersonic_time.spec_to_bytes();
    let q8 = q7 + v.handbrake_val.spec_to_bytes();
    assert(s.subrange(0, 140) == q8);
    lemma_split_prefix(s, q7, v.handbrake_val.spec_to_bytes());
    lemma_split_prefix(s, q6, v.supersonic_time.spec_to_bytes());
    lemma_split_prefix(s, q5, v.is_supersonic.spec_to_bytes());
    lemma_split_prefix(s, q4, v.boosting_time.spec_to_bytes());
    lemma_split_prefix(s, q3, v.is_boosting.spec_to_bytes());
    lemma_split_prefix(s, q2, v.time_since_boosted.spec_to_bytes());
    lemma_split_prefix(s, q1, v.boost.spec_to_bytes());
    lemma_split_prefix(s, q0, v.air_time_since_jump.spec_to_bytes());
    lemma_decode_field::<F32Bits, 4>(s, 114, v.air_time_since_jump);
    lemma_decode_field::<F32Bits, 4>(s, 118, v.boost);
    lemma_decode_field::<F32Bits, 4>(s, 122, v.time_since_boosted);
    lemma_decode_field::<bool, 1>(s, 126, v.is_boosting);
    lemma_decode_field::<F32Bits, 4>(s, 127, v.boosting_time);
    lemma_decode_field::<bool, 1>(s, 131, v.is_supersonic);
    lemma_decode_field::<F32Bits, 4>(s, 132, v.supersonic_time);
    lemma_decode_field::<F32Bits, 4>(s, 136, v.handbrake_val);
    lemma_car_state_bytes_upto_16_fields(v, s);
}

impl FromBytes for CarState {
    open spec fn spec_from_bytes(bytes: Seq<u8>) -> Option<CarState> {
        if bytes.len() == 251 {
            Some(
                CarState {
                    tick_count_since_update: decode_at(bytes, 0, 8),
                    pos: decode_at(bytes, 8, 12),
                    rot_mat: decode_at(bytes, 20, 36),
                    vel: decode_at(bytes, 56, 12),
                    ang_vel: decode_at(bytes, 68, 12),
                    is_on_ground: decode_at(bytes, 80, 1),
                    wheels_with_contact: decode_at(bytes, 81, 4),
                    has_jumped: decode_at(bytes, 85, 1),
                    has_double_jumped: decode_at(bytes, 86, 1),
                    has_flipped: decode_at(bytes, 87, 1),
                    flip_rel_torque: decode_at(bytes, 88, 12),
                    jump_time: decode_at(bytes, 100, 4),
                    flip_time: decode_at(bytes, 104, 4),
                    is_flipping: decode_at(bytes, 108, 1),
                    is_jumping: decode_at(bytes, 109, 1),
                    air_time: decode_at(bytes, 110, 4),
                    air_time_since_jump: decode_at(bytes, 114, 4),
                    boost: decode_at(bytes, 118, 4),
                    time_since_boosted: decode_at(bytes, 122, 4),
                    is_boosting: decode_at(bytes, 126, 1),
                    boosting_time: decode_at(bytes, 127, 4),
                    is_supersonic: decode_at(bytes, 131, 1),
                    supersonic_time: decode_at(bytes, 132, 4),
                    handbrake_val: decode_at(bytes, 136, 4),
                    is_auto_flipping: decode_at(bytes, 140, 1),
                    auto_flip_timer: decode_at(bytes, 141, 4),
                    auto_flip_torque_scale: decode_at(bytes, 145, 4),
                    world_contact: decode_at(bytes, 149, 13),
                    car_contact: decode_at(bytes, 162, 8),
                    is_demoed: decode_at(bytes, 170, 1),
                    demo_respawn_timer: decode_at(bytes, 171, 4),
                    ball_hit_info: decode_at(bytes, 175, 53),
                    last_controls: decode_at(bytes, 228, 23),
                },
            )
        } else {
            None
        }
    }

    fn from_bytes(bytes: &[u8]) -> (r: Option<CarState>) {
        if bytes.len() != 251 {
            return None;
        }
        proof {
            reveal(decode_at);
            <u64 as ToBytesExact<8>>::lemma_num_bytes();
            <Vec3 as ToBytesExact<12>>::lemma_num_bytes();
            <RotMat as ToBytesExact<36>>::lemma_num_bytes();
            <bool as ToBytesExact<1>>::lemma_num_bytes();
            <[bool; 4] as ToBytesExact<4>>::lemma_num_bytes();
            <F32Bits as ToBytesExact<4>>::lemma_num_bytes();
            <WorldContact as ToBytesExact<13>>::lemma_num_bytes();
            <CarContact as ToBytesExact<8>>::lemma_num_bytes();
            <BallHitInfo as ToBytesExact<53>>::lemma_num_bytes();
            <CarControls as ToBytesExact<23>>::lemma_num_bytes();
        }
        let mut reader = ByteReader::new(bytes);
        let tick_count_since_update = reader.read::<u64>();
        let pos = reader.read::<Vec3>();
        let rot_mat = reader.read::<RotMat>();
        let vel = reader.read::<Vec3>();
        let ang_vel = reader.read::<Vec3>();
        let is_on_ground = reader.read::<bool>();
        let wheels_with_contact = reader.read::<[bool; 4]>();
        let has_jumped = reader.read::<bool>();
        let has_double_jumped = reader.read::<bool>();
        let has_flipped = reader.read::<bool>();
        let flip_rel_torque = reader.read::<Vec3>();
        let jump_time = reader.read::<F32Bits>();
        let flip_time = reader.read::<F32Bits>();
        let is_flipping = reader.read::<bool>();
        let is_jumping = reader.read::<bool>();
        let air_time = reader.read::<F32Bits>();
        let air_time_since_jump = reader.read::<F32Bits>();
        let boost = reader.read::<F32Bits>();
        let time_since_boosted = reader.read::<F32Bits>();
        let is_boosting = reader.read::<bool>();
        let boosting_time = reader.read::<F32Bits>();
        let is_supersonic = reader.read::<bool>();
        let supersonic_time = reader.read::<F32Bits>();
        let handbrake_val = reader.read::<F32Bits>();
        let is_auto_flipping = reader.read::<bool>();
        let auto_flip_timer = reader.read::<F32Bits>();
        let auto_flip_torque_scale = reader.read::<F32Bits>();
        let world_contact = reader.read::<WorldContact>();
        let car_contact = reader.read::<CarContact>();
        let is_demoed = reader.read::<bool>();
        let demo_respawn_timer = reader.read::<F32Bits>();
        let ball_hit_info = reader.read::<BallHitInfo>();
        let last_controls = reader.read::<CarControls>();
        Some(CarState { tick_count_since_update, pos, rot_mat, vel, ang_vel, is_on_ground, wheels_with_contact, has_jumped, has_double_jumped, has_flipped, flip_rel_torque, jump_time, flip_time, is_flipping, is_jumping, air_time, air_time_since_jump, boost, time_since_boosted, is_boosting, boosting_time, is_supersonic, supersonic_time, handbrake_val, is_auto_flipping, auto_flip_timer, auto_flip_torque_scale, world_contact, car_contact, is_demoed, demo_respawn_timer, ball_hit_info, last_controls })
    }
}

impl FromBytesExact for CarState {
    const NUM_BYTES: usize = 251;
}

impl ToBytesExact<251> for CarState {
    open spec fn spec_to_bytes(&self) -> Seq<u8> {
        car_state_bytes(*self)
    }

    fn to_bytes(&self) -> (r: [u8; 251]) {
        proof {
            reveal(car_state_bytes_upto_8);
            reveal(car_state_bytes_upto_16);
            reveal(car_state_bytes_upto_24);
            reveal(car_state_bytes);
        }
        let mut writer = ByteWriter::<251>::new();
        writer.write(&self.tick_count_since_update);
        writer.write(&self.pos);
        writer.write(&self.rot_mat);
        writer.write(&self.vel);
        writer.write(&self.ang_vel);
        writer.write(&self.is_on_ground);
        writer.write(&self.wheels_with_contact);
        writer.write(&self.has_jumped);
        writer.write(&self.has_double_jumped);
        writer.write(&self.has_flipped);
        writer.write(&self.flip_rel_torque);
        writer.write(&self.jump_time);
        writer.write(&self.flip_time);
        writer.write(&self.is_flipping);
        writer.write(&self.is_jumping);
        writer.write(&self.air_time);
        writer.write(&self.air_time_since_jump);
        writer.write(&self.boost);
        writer.write(&self.time_since_boosted);
        writer.write(&self.is_boosting);
        writer.write(&self.boosting_time);
        writer.write(&self.is_supersonic);
        writer.write(&self.supersonic_time);
        writer.write(&self.handbrake_val);
        writer.write(&self.is_auto_flipping);
        writer.write(&self.auto_flip_timer);
        writer.write(&self.auto_flip_torque_scale);
        writer.write(&self.world_contact);
        writer.write(&self.car_contact);
        writer.write(&self.is_demoed);
        writer.write(&self.demo_respawn_timer);
        writer.write(&self.ball_hit_info);
        writer.write(&self.last_controls);
        writer.inner()
    }

    proof fn lemma_num_bytes() {
    }

    proof fn lemma_round_trip(&self) {
        reveal(car_state_bytes);
        lemma_car_state_bytes_upto_24_len(*self);
        let v = *self;
        v.is_auto_flipping.lemma_round_trip();
        v.auto_flip_timer.lemma_round_trip();
        v.auto_flip_torque_scale.lemma_round_trip();
        v.world_contact.lemma_round_trip();
        v.car_contact.lemma_round_trip();
        v.is_demoed.lemma_round_trip();
        v.demo_respawn_timer.lemma_round_trip();
        v.ball_hit_info.lemma_round_trip();
        v.last_controls.lemma_round_trip();
        let s = self.spec_to_bytes();
        let q0 = car_state_bytes_upto_24(v);
        let q1 = q0 + v.is_auto_flipping.spec_to_bytes();
        let q2 = q1 + v.auto_flip_timer.spec_to_bytes();
        let q3 = q2 + v.auto_flip_torque_scale.spec_to_bytes();
        let q4 = q3 + v.world_contact.spec_to_bytes();
        let q5 = q4 + v.car_contact.spec_to_bytes();
        let q6 = q5 + v.is_demoed.spec_to_bytes();
        let q7 = q6 + v.demo_respawn_timer.spec_to_bytes();
        let q8 = q7 + v.ball_hit_info.spec_to_bytes();
        let q9 = q8 + v.last_controls.spec_to_bytes();
        assert(s == q9);
        assert(s.subrange(0, s.len() as int) =~= s);
        lemma_split_prefix(s, q8, v.last_controls.spec_to_bytes());
        lemma_split_prefix(s, q7, v.ball_hit_info.spec_to_bytes());
        lemma_split_prefix(s, q6, v.demo_respawn_timer.spec_to_bytes());
        lemma_split_prefix(s, q5, v.is_demoed.spec_to_bytes());
        lemma_split_prefix(s, q4, v.car_contact.spec_to_bytes());
        lemma_split_prefix(s, q3, v.world_contact.spec_to_bytes());
        lemma_split_prefix(s, q2, v.auto_flip_torque_scale.spec_to_bytes());
        lemma_split_prefix(s, q1, v.auto_flip_timer.spec_to_bytes());
        lemma_split_prefix(s, q0, v.is_auto_flipping.spec_to_bytes());
        lemma_decode_field::<bool, 1>(s, 140, v.is_auto_flipping);
        lemma_decode_field::<F32Bits, 4>(s, 141, v.auto_flip_timer);
        lemma_decode_field::<F32Bits, 4>(s, 145, v.auto_flip_torque_scale);
        lemma_decode_field::<WorldContact, 13>(s, 149, v.world_contact);
        lemma_decode_field::<CarContact, 8>(s, 162, v.car_contact);
        lemma_decode_field::<bool, 1>(s, 170, v.is_demoed);
        lemma_decode_field::<F32Bits, 4>(s, 171, v.demo_respawn_timer);
        lemma_decode_field::<BallHitInfo, 53>(s, 175, v.ball_hit_info);
        lemma_decode_field::<CarControls, 23>(s, 228, v.last_controls);
        lemma_car_state_bytes_upto_24_fields(v, s);
    }
}

/// The bytes that encode a `WheelPairConfig`: its fields in order.
#[verifier::opaque]
pub open spec fn wheel_pair_config_bytes(v: WheelPairConfig) -> Seq<u8> {
    v.wheel_radius.spec_to_bytes()
        + v.suspension_rest_length.spec_to_bytes()
        + v.connection_point_offset.spec_to_bytes()
}


impl FromBytes for WheelPairConfig {
    open spec fn spec_from_bytes(bytes: Seq<u8>) -> Option<WheelPairConfig> {
        if bytes.len() == 20 {
            Some(
                WheelPairConfig {
                    wheel_radius: decode_at(bytes, 0, 4),
                    suspension_rest_length: decode_at(bytes, 4, 4),
                    connection_point_offset: decode_at(bytes, 8, 12),
                },
            )
        } else {
            None
        }
    }

    fn from_bytes(bytes: &[u8]) -> (r: Option<WheelPairConfig>) {
        if bytes.len() != 20 {
            return None;
        }
        proof {
            reveal(decode_at);
            <F32Bits as ToBytesExact<4>>::lemma_num_bytes();
            <Vec3 as ToBytesExact<12>>::lemma_num_bytes();
        }
        let mut reader = ByteReader::new(bytes);
        let wheel_radius = reader.read::<F32Bits>();
        let suspension_rest_length = reader.read::<F32Bits>();
        let connection_point_offset = reader.read::<Vec3>();
        Some(WheelPairConfig { wheel_radius, suspension_rest_length, connection_point_offset })
    }
}

impl FromBytesExact for WheelPairConfig {
    const NUM_BYTES: usize = 20;
}

impl ToBytesExact<20> for WheelPairConfig {
    open spec fn spec_to_bytes(&self) -> Seq<u8> {
        wheel_pair_config_bytes(*self)
    }

    fn to_bytes(&self) -> (r: [u8; 20]) {
        proof {
            reveal(wheel_pair_config_bytes);
        }
        let mut writer = ByteWriter::<20>::new();
        writer.write(&self.wheel_radius);
        writer.write(&self.suspension_rest_length);
        writer.write(&self.connection_point_offset);
        writer.inner()
    }

    proof fn lemma_num_bytes() {
    }

    proof fn lemma_round_trip(&self) {
        reveal(wheel_pair_config_bytes);
        let v = *self;
        v.wheel_radius.lemma_round_trip();
        v.suspension_rest_length.lemma_round_trip();
        v.connection_point_offset.lemma_round_trip();
        let s = self.spec_to_bytes();
        let q0 = v.wheel_radius.spec_to_bytes();
        let q1 = q0 + v.suspension_rest_length.spec_to_bytes();
        let q2 = q1 + v.connection_point_offset.spec_to_bytes();
        assert(s == q2);
        assert(s.subrange(0, s.len() as int) =~= s);
        lemma_split_prefix(s, q1, v.connection_point_offset.spec_to_bytes());
        lemma_split_prefix(s, q0, v.suspension_rest_length.spec_to_bytes());
        lemma_decode_field::<F32Bits, 4>(s, 0, v.wheel_radius);
        lemma_decode_field::<F32Bits, 4>(s, 4, v.suspension_rest_length);
        lemma_decode_field::<Vec3, 12>(s, 8, v.connection_point_offset);
    }
}

/// The bytes that encode a `CarConfig`: its fields in order.
#[verifier::opaque]
pub open spec fn car_config_bytes(v: CarConfig) -> Seq<u8> {
    v.hitbox_size.spec_to_bytes()
        + v.hitbox_pos_offset.spec_to_bytes()
        + v.front_wheels.spec_to_bytes()
        + v.back_wheels.spec_to_bytes()
        + v.three_wheels.spec_to_bytes()
        + v.dodge_deadzone.spec_to_bytes()
}


impl FromBytes for CarConfig {
    open spec fn spec_from_bytes(bytes: Seq<u8>) -> Option<CarConfig> {
        if bytes.len() == 69 {
            Some(
                CarConfig {
                    hitbox_size: decode_at(bytes, 0, 12),
                    hitbox_pos_offset: decode_at(bytes, 12, 12),
                    front_wheels: decode_at(bytes, 24, 20),
                    back_wheels: decode_at(bytes, 44, 20),
                    three_wheels: decode_at(bytes, 64, 1),
                    dodge_deadzone: decode_at(bytes, 65, 4),
                },
            )
        } else {
            None
        }
    }

    fn from_bytes(bytes: &[u8]) -> (r: Option<CarConfig>) {
        if bytes.len() != 69 {
            return None;
        }
        proof {
            reveal(decode_at);
            <Vec3 as ToBytesExact<12>>::lemma_num_bytes();
            <WheelPairConfig as ToBytesExact<20>>::lemma_num_bytes();
            <bool as ToBytesExact<1>>::lemma_num_bytes();
            <F32Bits as ToBytesExact<4>>::lemma_num_bytes();
        }
        let mut reader = ByteReader::new(bytes);
        let hitbox_size = reader.read::<Vec3>();
        let hitbox_pos_offset = reader.read::<Vec3>();
        let front_wheels = reader.read::<WheelPairConfig>();
        let back_wheels = reader.read::<WheelPairConfig>();
        let three_wheels = reader.read::<bool>();
        let dodge_deadzone = reader.read::<F32Bits>();
        Some(CarConfig { hitbox_size, hitbox_pos_offset, front_wheels, back_wheels, three_wheels, dodge_deadzone })
    }
}

impl FromBytesExact for CarConfig {
    const NUM_BYTES: usize = 69;
}

impl ToBytesExact<69> for CarConfig {
    open spec fn spec_to_bytes(&self) -> Seq<u8> {
        car_config_bytes(*self)
    }

    fn to_bytes(&self) -> (r: [u8; 69]) {
        proof {
            reveal(car_config_bytes);
        }
        let mut writer = ByteWriter::<69>::new();
        writer.write(&self.hitbox_size);
        writer.write(&self.hitbox_pos_offset);
        writer.write(&self.front_wheels);
        writer.write(&self.back_wheels);
        writer.write(&self.three_wheels);
        writer.write(&self.dodge_deadzone);
        writer.inner()
    }

    proof fn lemma_num_bytes() {
    }

    proof fn lemma_round_trip(&self) {
        reveal(car_config_bytes);
        let v = *self;
        v.hitbox_size.lemma_round_trip();
        v.hitbox_pos_offset.lemma_round_trip();
        v.front_wheels.lemma_round_trip();
        v.back_wheels.lemma_round_trip();
        v.three_wheels.lemma_round_trip();
        v.dodge_deadzone.lemma_round_trip();
        let s = self.spec_to_bytes();
        let q0 = v.hitbox_size.spec_to_bytes();
        let q1 = q0 + v.hitbox_pos_offset.spec_to_bytes();
        let q2 = q1 + v.front_wheels.spec_to_bytes();
        let q3 = q2 + v.back_wheels.spec_to_bytes();
        let q4 = q3 + v.three_wheels.spec_to_bytes();
        let q5 = q4 + v.dodge_deadzone.spec_to_bytes();
        assert(s == q5);
        assert(s.subrange(0, s.len() as int) =~= s);
        lemma_split_prefix(s, q4, v.dodge_deadzone.spec_to_bytes());
        lemma_split_prefix(s, q3, v.three_wheels.spec_to_bytes());
        lemma_split_prefix(s, q2, v.back_wheels.spec_to_bytes());
        lemma_split_prefix(s, q1, v.front_wheels.spec_to_bytes());
        lemma_split_prefix(s, q0, v.hitbox_pos_offset.spec_to_bytes());
        lemma_decode_field::<Vec3, 12>(s, 0, v.hitbox_size);
        lemma_decode_field::<Vec3, 12>(s, 12, v.hitbox_pos_offset);
        lemma_decode_field::<WheelPairConfig, 20>(s, 24, v.front_wheels);
        lemma_decode_field::<WheelPairConfig, 20>(s, 44, v.back_wheels);
        lemma_decode_field::<bool, 1>(s, 64, v.three_wheels);
        lemma_decode_field::<F32Bits, 4>(s, 65, v.dodge_deadzone);
    }
}

impl FromBytes for [bool; 4] {
    open spec fn spec_from_bytes(bytes: Seq<u8>) -> Option<[bool; 4]> {
        if bytes.len() == 4 {
            Some([bytes[0] != 0, bytes[1] != 0, bytes[2] != 0, bytes[3] != 0])
        } else {
            None
        }
    }

    fn from_bytes(bytes: &[u8]) -> (r: Option<[bool; 4]>) {
        if bytes.len() != 4 {
            return None;
        }
        proof {
            <bool as ToBytesExact<1>>::lemma_num_bytes();
        }
        let mut reader = ByteReader::new(bytes);
        let b0 = reader.read::<bool>();
        let b1 = reader.read::<bool>();
        let b2 = reader.read::<bool>();
        let b3 = reader.read::<bool>();
        Some([b0, b1, b2, b3])
    }
}

impl FromBytesExact for [bool; 4] {
    const NUM_BYTES: usize = 4;
}

impl ToBytesExact<4> for [bool; 4] {
    open spec fn spec_to_bytes(&self) -> Seq<u8> {
        self[0].spec_to_bytes() + self[1].spec_to_bytes() + self[2].spec_to_bytes()
            + self[3].spec_to_bytes()
    }

    fn to_bytes(&self) -> (r: [u8; 4]) {
        let mut writer = ByteWriter::<4>::new();
        writer.write(&self[0]);
        writer.write(&self[1]);
        writer.write(&self[2]);
        writer.write(&self[3]);
        writer.inner()
    }

    proof fn lemma_num_bytes() {
    }

    proof fn lemma_round_trip(&self) {
        let s = self.spec_to_bytes();
        let decoded = [s[0] != 0, s[1] != 0, s[2] != 0, s[3] != 0];
        assert(decoded =~= *self);
    }
}

impl FromBytes for Team {
    open spec fn spec_from_bytes(bytes: Seq<u8>) -> Option<Team> {
        if bytes.len() >= 1 {
            match spec_team_from_u8(bytes[0]) {
                Ok(team) => Some(team),
                Err(_) => None,
            }
        } else {
            None
        }
    }

    fn from_bytes(bytes: &[u8]) -> (r: Option<Team>) {
        if bytes.len() >= 1 {
            match Team::try_from(bytes[0]) {
                Ok(team) => Some(team),
                Err(_) => None,
            }
        } else {
            None
        }
    }
}

impl FromBytesExact for Team {
    const NUM_BYTES: usize = 1;
}

impl ToBytesExact<1> for Team {
    open spec fn spec_to_bytes(&self) -> Seq<u8> {
        seq![spec_team_tag(*self)]
    }

    fn to_bytes(&self) -> (r: [u8; 1]) {
        let r = [self.tag()];
        assert(r@ =~= self.spec_to_bytes());
        r
    }

    proof fn lemma_num_bytes() {
    }

    proof fn lemma_round_trip(&self) {
    }
}

impl FromBytes for GameMode {
    open spec fn spec_from_bytes(bytes: Seq<u8>) -> Option<GameMode> {
        if bytes.len() >= 1 {
            match spec_game_mode_from_u8(bytes[0]) {
                Ok(mode) => Some(mode),
                Err(_) => None,
            }
        } else {
            None
        }
    }

    fn from_bytes(bytes: &[u8]) -> (r: Option<GameMode>) {
        if bytes.len() >= 1 {
            match GameMode::try_from(bytes[0]) {
                Ok(mode) => Some(mode),
                Err(_) => None,
            }
        } else {
            None
        }
    }
}

impl FromBytesExact for GameMode {
    const NUM_BYTES: usize = 1;
}

impl ToBytesExact<1> for GameMode {
    open spec fn spec_to_bytes(&self) -> Seq<u8> {
        seq![spec_game_mode_tag(*self)]
    }

    fn to_bytes(&self) -> (r: [u8; 1]) {
        let r = [self.tag()];
        assert(r@ =~= self.spec_to_bytes());
        r
    }

    proof fn lemma_num_bytes() {
    }

    proof fn lemma_round_trip(&self) {
    }
}

impl FromBytes for TileState {
    open spec fn spec_from_bytes(bytes: Seq<u8>) -> Option<TileState> {
        if bytes.len() >= 1 {
            match spec_tile_state_from_u8(bytes[0]) {
                Ok(state) => Some(state),
                Err(_) => None,
            }
        } else {
            None
        }
    }

    fn from_bytes(bytes: &[u8]) -> (r: Option<TileState>) {
        if bytes.len() >= 1 {
            match TileState::try_from(bytes[0]) {
                Ok(state) => Some(state),
                Err(_) => None,
            }
        } else {
            None
        }
    }
}

impl FromBytesExact for TileState {
    const NUM_BYTES: usize = 1;
}

impl ToBytesExact<1> for TileState {
    open spec fn spec_to_bytes(&self) -> Seq<u8> {
        seq![spec_tile_state_tag(*self)]
    }

    fn to_bytes(&self) -> (r: [u8; 1]) {
        let r = [self.tag()];
        assert(r@ =~= self.spec_to_bytes());
        r
    }

    proof fn lemma_num_bytes() {
    }

    proof fn lemma_round_trip(&self) {
    }
}

/// The bytes that encode a `CarInfo`: its fields in order.
#[verifier::opaque]
pub open spec fn car_info_bytes(v: CarInfo) -> Seq<u8> {
    v.id.spec_to_bytes() + v.team.spec_to_bytes() + v.state.spec_to_bytes() + v.config.spec_to_bytes()
}

impl FromBytes for CarInfo {
    /// `None` where the team byte is not a team.
    open spec fn spec_from_bytes(bytes: Seq<u8>) -> Option<CarInfo> {
        if bytes.len() == 325 {
            match Team::spec_from_bytes(bytes.subrange(4, 5)) {
                Some(team) => Some(
                    CarInfo {
                        id: decode_at(bytes, 0, 4),
                        team,
                        state: decode_at(bytes, 5, 251),
                        config: decode_at(bytes, 256, 69),
                    },
                ),
                None => None,
            }
        } else {
            None
        }
    }

    fn from_bytes(bytes: &[u8]) -> (r: Option<CarInfo>) {
        if bytes.len() != 325 {
            return None;
        }
        proof {
            reveal(decode_at);
            <u32 as ToBytesExact<4>>::lemma_num_bytes();
            <Team as ToBytesExact<1>>::lemma_num_bytes();
            <CarState as ToBytesExact<251>>::lemma_num_bytes();
            <CarConfig as ToBytesExact<69>>::lemma_num_bytes();
        }
        let mut reader = ByteReader::new(bytes);
        let id = reader.read::<u32>();
        if reader.peek::<Team>().is_none() {
            return None;
        }
        let team = reader.read::<Team>();
        let state = reader.read::<CarState>();
        let config = reader.read::<CarConfig>();
        Some(CarInfo { id, team, state, config })
    }
}

impl FromBytesExact for CarInfo {
    const NUM_BYTES: usize = 325;
}

impl ToBytesExact<325> for CarInfo {
    open spec fn spec_to_bytes(&self) -> Seq<u8> {
        car_info_bytes(*self)
    }

    fn to_bytes(&self) -> (r: [u8; 325]) {
        proof {
            reveal(car_info_bytes);
        }
        let mut writer = ByteWriter::<325>::new();
        writer.write(&self.id);
        writer.write(&self.team);
        writer.write(&self.state);
        writer.write(&self.config);
        writer.inner()
    }

    proof fn lemma_num_bytes() {
    }

    proof fn lemma_round_trip(&self) {
        reveal(car_info_bytes);
        self.id.lemma_round_trip();
        self.team.lemma_round_trip();
        self.state.lemma_round_trip();
        self.config.lemma_round_trip();
        let s = self.spec_to_bytes();
        let p1 = self.id.spec_to_bytes();
        let p2 = p1 + self.team.spec_to_bytes();
        let p3 = p2 + self.state.spec_to_bytes();
        assert(s.subrange(0, s.len() as int) =~= s);
        lemma_split_prefix(s, p3, self.config.spec_to_bytes());
        lemma_split_prefix(s, p2, self.state.spec_to_bytes());
        lemma_split_prefix(s, p1, self.team.spec_to_bytes());
        lemma_decode_field::<u32, 4>(s, 0, self.id);
        lemma_decode_field::<CarState, 251>(s, 5, self.state);
        lemma_decode_field::<CarConfig, 69>(s, 256, self.config);
    }
}

/// The bytes that encode a `DropshotTile`: its fields in order.
#[verifier::opaque]
pub open spec fn dropshot_tile_bytes(v: DropshotTile) -> Seq<u8> {
    v.pos.spec_to_bytes() + v.state.spec_to_bytes()
}

impl FromBytes for DropshotTile {
    /// `None` where the state byte is not a tile state.
    open spec fn spec_from_bytes(bytes: Seq<u8>) -> Option<DropshotTile> {
        if bytes.len() == 13 {
            match TileState::spec_from_bytes(bytes.subrange(12, 13)) {
                Some(state) => Some(DropshotTile { pos: decode_at(bytes, 0, 12), state }),
                None => None,
            }
        } else {
            None
        }
    }

    fn from_bytes(bytes: &[u8]) -> (r: Option<DropshotTile>) {
        if bytes.len() != 13 {
            return None;
        }
        proof {
            reveal(decode_at);
            <Vec3 as ToBytesExact<12>>::lemma_num_bytes();
            <TileState as ToBytesExact<1>>::lemma_num_bytes();
        }
        let mut reader = ByteReader::new(bytes);
        let pos = reader.read::<Vec3>();
        if reader.peek::<TileState>().is_none() {
            return None;
        }
        let state = reader.read::<TileState>();
        Some(DropshotTile { pos, state })
    }
}

impl FromBytesExact for DropshotTile {
    const NUM_BYTES: usize = 13;
}

impl ToBytesExact<13> for DropshotTile {
    open spec fn spec_to_bytes(&self) -> Seq<u8> {
        dropshot_tile_bytes(*self)
    }

    fn to_bytes(&self) -> (r: [u8; 13]) {
        proof {
            reveal(dropshot_tile_bytes);
        }
        let mut writer = ByteWriter::<13>::new();
        writer.write(&self.pos);
        writer.write(&self.state);
        writer.inner()
    }

    proof fn lemma_num_bytes() {
    }

    proof fn lemma_round_trip(&self) {
        reveal(dropshot_tile_bytes);
        self.pos.lemma_round_trip();
        self.state.lemma_round_trip();
        let s = self.spec_to_bytes();
        assert(s.subrange(0, s.len() as int) =~= s);
        lemma_split_prefix(s, self.pos.spec_to_bytes(), self.state.spec_to_bytes());
        lemma_decode_field::<Vec3, 12>(s, 0, self.pos);
    }
}

} // verus!
