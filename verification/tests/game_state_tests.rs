use rlviser::bytes::{F32Bits, FromBytes, ToBytes};
use rlviser::rocketsim::{BoostPad, CarInfo, DropshotTile, GameMode, GameState, Team, TileState, Vec3};

fn tile(i: u32) -> DropshotTile {
    DropshotTile { pos: Vec3 { x: F32Bits(i), y: F32Bits(0), z: F32Bits(0) }, state: TileState::Damaged }
}

fn sample_state() -> GameState {
    let mut state = GameState::default();
    state.tick_count = 1234;
    state.tick_rate = F32Bits(120.0f32.to_bits());
    state.game_mode = GameMode::Dropshot;
    let pad_bytes: Vec<u8> = (0..26u8).collect();
    let mut pad = BoostPad::from_bytes(&pad_bytes).unwrap();
    pad.is_big = true;
    state.pads = vec![pad, pad];
    let mut car = CarInfo::from_bytes(&[0u8; 325]).unwrap();
    car.id = 7;
    car.team = Team::Orange;
    state.cars = vec![car];
    state.tiles = [(0..70).map(tile).collect(), (70..140).map(tile).collect()];
    state
}

#[test]
fn game_state_round_trip() {
    let state = sample_state();
    let bytes = state.to_bytes();
    assert_eq!(bytes.len(), 21 + 113 + 2 * 26 + 325 + 140 * 13);
    assert_eq!(GameState::get_num_bytes(&bytes), bytes.len());
    assert_eq!(GameState::read_tick_count(&bytes), 1234);
    assert_eq!(GameState::read_num_pads(&bytes), 2);
    assert_eq!(GameState::read_num_cars(&bytes), 1);
    let back = GameState::from_bytes(&bytes);
    assert_eq!(back.tick_count, 1234);
    assert_eq!(back.tick_rate, state.tick_rate);
    assert_eq!(back.game_mode, GameMode::Dropshot);
    assert_eq!(back.ball, state.ball);
    assert_eq!(back.pads, state.pads);
    assert_eq!(back.cars, state.cars);
    assert_eq!(back.tiles, state.tiles);
}

#[test]
fn game_state_header_layout() {
    let bytes = sample_state().to_bytes();
    assert_eq!(&bytes[0..8], &1234u64.to_le_bytes());
    assert_eq!(&bytes[8..12], &120.0f32.to_le_bytes());
    assert_eq!(bytes[12], 4);
    assert_eq!(&bytes[13..17], &2u32.to_le_bytes());
    assert_eq!(&bytes[17..21], &1u32.to_le_bytes());
}

#[test]
fn game_state_rejects_wrong_sizes_and_tags() {
    let bytes = sample_state().to_bytes();
    assert!(GameState::try_from_bytes(&bytes[..bytes.len() - 1]).is_none());
    assert!(GameState::try_from_bytes(&bytes[..20]).is_none());
    let mut bad_mode = bytes.clone();
    bad_mode[12] = 6;
    assert!(GameState::try_from_bytes(&bad_mode).is_none());
}

#[test]
fn game_state_ignores_bytes_after_the_packet() {
    let bytes = sample_state().to_bytes();
    let mut longer = bytes.clone();
    longer.extend_from_slice(&[7, 7, 7]);
    assert_eq!(GameState::from_bytes(&longer).to_bytes(), bytes);
    assert_eq!(GameState::try_from_bytes(&longer).unwrap().to_bytes(), bytes);
}

#[test]
fn default_game_state_has_resting_ball() {
    let state = GameState::default();
    assert_eq!(state.tick_count, 0);
    assert_eq!(state.game_mode, GameMode::TheVoid);
    assert_eq!(f32::from_bits(state.ball.pos.z.0), 93.15);
    assert_eq!(f32::from_bits(state.ball.rot_mat.x_axis.x.0), 1.0);
    assert!(state.pads.is_empty() && state.cars.is_empty());
}

#[test]
fn game_state_clone_keeps_every_field() {
    let state = sample_state();
    let copy = state.clone();
    assert_eq!(copy.tick_count, state.tick_count);
    assert_eq!(copy.pads, state.pads);
    assert_eq!(copy.cars, state.cars);
    assert_eq!(copy.tiles, state.tiles);
}
