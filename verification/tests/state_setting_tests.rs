use rlviser::bytes::{F32Bits, FromBytes};
use rlviser::rocketsim::{BoostPad, CarInfo, GameState};
use rlviser::state_setting::{
    set_bool_from_usize, set_half_bool_from_usize, set_user_ball_state, set_user_car_state, set_user_pad_state,
    sorted_pad_codes, EnableBallInfo, EnableCarInfo, EnablePadInfo, SetBallStateAmount, SetCarStateAmount,
    UserBallValues, UserCarStates, UserCarValues, UserPadValues, UserCarState,
};
use rlviser::udp::GameStates;

fn states_with_cars() -> GameStates {
    let mut s = GameStates::default();
    let mut car = CarInfo::from_bytes_zero();
    car.id = 3;
    let mut other = car;
    other.id = 8;
    s.current.cars = vec![other, car];
    s.next.cars = vec![other, car];
    s
}

trait ZeroCar {
    fn from_bytes_zero() -> Self;
}

impl ZeroCar for CarInfo {
    fn from_bytes_zero() -> Self {
        CarInfo::from_bytes(&[0u8; 325]).unwrap()
    }
}

fn no_values() -> UserCarValues {
    UserCarValues {
        pos: [None; 3],
        vel: [None; 3],
        ang_vel: [None; 3],
        has_jumped: 0,
        has_double_jumped: 0,
        has_flipped: 0,
        boost: None,
        demo_respawn_timer: None,
    }
}

#[test]
fn menu_indices_set_flags() {
    let mut b = true;
    set_bool_from_usize(&mut b, 0);
    assert!(b);
    set_bool_from_usize(&mut b, 2);
    assert!(!b);
    set_bool_from_usize(&mut b, 1);
    assert!(b);
    set_half_bool_from_usize(&mut b, 0);
    assert!(b);
    set_half_bool_from_usize(&mut b, 1);
    assert!(!b);
}

#[test]
fn ball_values_are_set_and_copied() {
    let mut s = GameStates::default();
    let user = UserBallValues { pos: [Some(F32Bits(1)), None, Some(F32Bits(3))], vel: [Some(F32Bits(9)); 3], ang_vel: [None; 3] };
    let old_y = s.current.ball.pos.y;
    set_user_ball_state(&mut s, SetBallStateAmount::Pos, &user);
    assert_eq!(s.current.ball.pos.x, F32Bits(1));
    assert_eq!(s.current.ball.pos.y, old_y);
    assert_eq!(s.next.ball.pos, s.current.ball.pos);
    assert_ne!(s.current.ball.vel.x, F32Bits(9));
    set_user_ball_state(&mut s, SetBallStateAmount::All, &user);
    assert_eq!(s.current.ball.vel.x, F32Bits(9));
    assert_eq!(s.next.ball.vel.z, F32Bits(9));
}

#[test]
fn car_values_are_set_for_the_car_with_the_id() {
    let mut s = states_with_cars();
    let mut user = no_values();
    user.boost = Some(F32Bits(33.0f32.to_bits()));
    assert!(set_user_car_state(&mut s, 3, SetCarStateAmount::Boost, &user));
    assert_eq!(s.current.cars[1].state.boost, F32Bits(33.0f32.to_bits()));
    assert_eq!(s.next.cars[1].state.boost, F32Bits(33.0f32.to_bits()));
    assert_eq!(s.current.cars[0].state.boost, F32Bits(0));
    assert!(!set_user_car_state(&mut s, 99, SetCarStateAmount::All, &user));
}

#[test]
fn demo_timer_marks_car_demolished() {
    let mut s = states_with_cars();
    let mut user = no_values();
    user.demo_respawn_timer = Some(F32Bits(2.0f32.to_bits()));
    set_user_car_state(&mut s, 8, SetCarStateAmount::DemoRespawnTimer, &user);
    assert!(s.current.cars[0].state.is_demoed && s.next.cars[0].state.is_demoed);
    let mut t = states_with_cars();
    user.demo_respawn_timer = Some(F32Bits((-0.0f32).to_bits()));
    set_user_car_state(&mut t, 8, SetCarStateAmount::DemoRespawnTimer, &user);
    assert!(!t.current.cars[0].state.is_demoed);
}

#[test]
fn jumped_flag_is_cleared_in_both_states_on_its_own() {
    let mut s = states_with_cars();
    s.current.cars[1].state.has_jumped = true;
    s.next.cars[1].state.has_jumped = false;
    let mut user = no_values();
    user.has_jumped = 0;
    set_user_car_state(&mut s, 3, SetCarStateAmount::Jumped, &user);
    assert!(s.current.cars[1].state.has_jumped);
    assert!(!s.next.cars[1].state.has_jumped);
    user.has_jumped = 1;
    set_user_car_state(&mut s, 3, SetCarStateAmount::All, &user);
    assert!(!s.current.cars[1].state.has_jumped);
}

#[test]
fn pad_found_by_code() {
    let pad = BoostPad::from_bytes(&[0u8; 26]).unwrap();
    let mut s = GameStates::default();
    s.current = GameState::default();
    s.current.pads = vec![pad, pad, pad];
    s.next.pads = vec![pad, pad, pad];
    let sorted = sorted_pad_codes(&[30, 10, 20]);
    assert_eq!(sorted, vec![(1, 10), (2, 20), (0, 30)]);
    let user = UserPadValues { is_active: 1, cooldown: Some(F32Bits(5)) };
    assert_eq!(set_user_pad_state(&mut s, &sorted, 20, &user), Some(2));
    assert!(s.current.pads[2].state.is_active && s.next.pads[2].state.is_active);
    assert_eq!(s.next.pads[2].state.cooldown, F32Bits(5));
    assert!(!s.current.pads[0].state.is_active);
    assert_eq!(set_user_pad_state(&mut s, &sorted, 25, &user), None);
}

#[test]
fn sorted_codes_keep_order_of_equal_codes() {
    assert_eq!(sorted_pad_codes(&[5, 1, 5, 1]), vec![(1, 1), (3, 1), (0, 5), (2, 5)]);
    assert!(sorted_pad_codes(&[]).is_empty());
}

#[test]
fn menus_toggle() {
    let mut pads = EnablePadInfo::new();
    assert_eq!(pads.get(4), None);
    pads.toggle(4);
    assert_eq!(pads.get(4), Some(true));
    pads.toggle(4);
    assert_eq!(pads.get(4), Some(false));
    let mut cars = EnableCarInfo::new();
    cars.toggle(1);
    assert_eq!(cars.get(1), Some(true));
    let mut ball = EnableBallInfo(false);
    ball.toggle();
    assert!(ball.0);
}

#[test]
fn typed_car_values_are_kept_and_forgotten() {
    let mut typed = UserCarStates::new();
    let state = UserCarState {
        pos: [String::from("1"), String::new(), String::new()],
        vel: Default::default(),
        ang_vel: Default::default(),
        has_jumped: 0,
        has_double_jumped: 0,
        has_flipped: 0,
        boost: String::from("50"),
        demo_respawn_timer: String::new(),
    };
    typed.insert(3, state);
    assert_eq!(typed.get(3).unwrap().boost, "50");
    typed.remove(3);
    assert!(typed.get(3).is_none());
    typed.clear();
    assert!(typed.get(1).is_none());
}

#[test]
fn setting_car_values_again_changes_nothing() {
    let mut user = no_values();
    user.pos = [Some(F32Bits(1.0f32.to_bits())), None, Some(F32Bits(3.0f32.to_bits()))];
    user.has_jumped = 1;
    user.has_flipped = 2;
    user.boost = Some(F32Bits(50.0f32.to_bits()));
    user.demo_respawn_timer = Some(F32Bits(1.5f32.to_bits()));
    for amount in [
        SetCarStateAmount::Pos,
        SetCarStateAmount::Jumped,
        SetCarStateAmount::Flipped,
        SetCarStateAmount::Boost,
        SetCarStateAmount::DemoRespawnTimer,
        SetCarStateAmount::All,
    ] {
        let mut s = states_with_cars();
        s.current.cars[1].state.has_jumped = true;
        s.next.cars[1].state.has_jumped = true;
        assert!(set_user_car_state(&mut s, 3, amount, &user));
        let once = (s.current.cars.clone(), s.next.cars.clone());
        assert!(set_user_car_state(&mut s, 3, amount, &user));
        assert_eq!(once, (s.current.cars.clone(), s.next.cars.clone()));
    }
}
