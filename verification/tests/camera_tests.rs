use rlviser::bytes::{F32Bits, FromBytes};
use rlviser::camera::{boost_meter_car_id, camera_after_choice, camera_for_key, sorted_car_ids, tracked_car_id, NumberKey, PrimaryCamera};
use rlviser::mesh::{field_layout, FieldLayout};
use rlviser::rocketsim::{CarInfo, DropshotTile, GameMode, GameState, TileState, Vec3};
use rlviser::udp::{get_tile_color, DrawnTiles, TileColor};

fn car_with_id(id: u32) -> CarInfo {
    let mut car = CarInfo::from_bytes(&[0u8; 325]).unwrap();
    car.id = id;
    car
}

#[test]
fn number_keys_pick_cameras() {
    assert_eq!(camera_for_key(NumberKey::Digit(0)), Some(PrimaryCamera::Spectator));
    assert_eq!(camera_for_key(NumberKey::Digit(3)), Some(PrimaryCamera::TrackCar(3)));
    assert_eq!(camera_for_key(NumberKey::Numpad(8)), Some(PrimaryCamera::TrackCar(8)));
    assert_eq!(camera_for_key(NumberKey::Digit(9)), Some(PrimaryCamera::Director(0)));
    assert_eq!(camera_for_key(NumberKey::Numpad(6)), Some(PrimaryCamera::TrackCar(6)));
    assert_eq!(camera_for_key(NumberKey::Numpad(2)), Some(PrimaryCamera::TrackCar(2)));
    assert_eq!(camera_for_key(NumberKey::Digit(6)), Some(PrimaryCamera::TrackCar(6)));
    assert_eq!(PrimaryCamera::default(), PrimaryCamera::Spectator);
}

#[test]
fn cars_are_counted_in_order_of_ids() {
    let cars = vec![car_with_id(7), car_with_id(2), car_with_id(5)];
    assert_eq!(sorted_car_ids(&cars), vec![2, 5, 7]);
    assert_eq!(tracked_car_id(1, &cars), Some(2));
    assert_eq!(tracked_car_id(3, &cars), Some(7));
    assert_eq!(tracked_car_id(4, &cars), None);
    assert_eq!(tracked_car_id(0, &cars), None);
}

#[test]
fn boost_meter_follows_the_camera() {
    let cars = vec![car_with_id(7), car_with_id(2)];
    assert_eq!(boost_meter_car_id(PrimaryCamera::TrackCar(2), &cars), Some(7));
    assert_eq!(boost_meter_car_id(PrimaryCamera::TrackCar(5), &cars), Some(0));
    assert_eq!(boost_meter_car_id(PrimaryCamera::TrackCar(1), &[]), None);
    assert_eq!(boost_meter_car_id(PrimaryCamera::Director(4), &cars), Some(4));
    assert_eq!(boost_meter_car_id(PrimaryCamera::Spectator, &cars), Some(0));
}

#[test]
fn tiles_colored_by_state() {
    assert_eq!(get_tile_color(TileState::Full), TileColor::Green);
    assert_eq!(get_tile_color(TileState::Damaged), TileColor::Red);
    assert_eq!(get_tile_color(TileState::Broken), TileColor::Black);
}

#[test]
fn field_layouts_by_mode() {
    assert_eq!(field_layout(GameMode::TheVoid), None);
    assert_eq!(field_layout(GameMode::Hoops), Some(FieldLayout::Hoops));
    assert_eq!(field_layout(GameMode::Dropshot), Some(FieldLayout::ShatterShot));
    assert_eq!(field_layout(GameMode::Soccar), Some(FieldLayout::Standard));
    assert_eq!(field_layout(GameMode::Snowday), Some(FieldLayout::Standard));
}

#[test]
fn choosing_the_director_keeps_its_car() {
    assert_eq!(camera_after_choice(PrimaryCamera::Director(5), PrimaryCamera::Director(0)), PrimaryCamera::Director(5));
    assert_eq!(camera_after_choice(PrimaryCamera::TrackCar(2), PrimaryCamera::Director(0)), PrimaryCamera::Director(0));
    assert_eq!(camera_after_choice(PrimaryCamera::Director(5), PrimaryCamera::TrackCar(1)), PrimaryCamera::TrackCar(1));
    assert_eq!(camera_after_choice(PrimaryCamera::Spectator, PrimaryCamera::Spectator), PrimaryCamera::Spectator);
}

#[test]
fn drawn_tiles_follow_the_state() {
    let tile = |state| DropshotTile { pos: Vec3 { x: F32Bits(0), y: F32Bits(0), z: F32Bits(0) }, state };
    let mut state = GameState::default();
    state.tick_count = 1;
    state.tiles = [vec![tile(TileState::Full), tile(TileState::Full)], vec![tile(TileState::Full)]];
    let mut drawn = DrawnTiles::new();
    // first tick: the count differs, the states are taken over
    assert!(!drawn.begin_tick(&state));
    assert_eq!(drawn.blue, vec![TileState::Full, TileState::Full]);
    assert_eq!(drawn.orange, vec![TileState::Full]);
    // same tick again: nothing to do
    assert!(!drawn.begin_tick(&state));
    state.tick_count = 2;
    state.tiles[0][1].state = TileState::Damaged;
    assert!(drawn.begin_tick(&state));
    assert_eq!(drawn.recolor(&state, 0, 0), None);
    assert_eq!(drawn.recolor(&state, 0, 1), Some(TileColor::Red));
    assert_eq!(drawn.blue[1], TileState::Damaged);
    assert_eq!(drawn.recolor(&state, 0, 1), None);
    assert_eq!(drawn.recolor(&state, 1, 0), None);
}
