use rlviser::bytes::F32Bits;
use rlviser::rocketsim::GameState;
use rlviser::udp::{accepts_game_state, GameStates, LastPacketTimesElapsed, PacketSmoothing, UdpPacketTypes};

fn state_at(tick: u64, rot: u32) -> GameState {
    let mut s = GameState::default();
    s.tick_count = tick;
    s.ball.rot_mat.x_axis.x = F32Bits(rot);
    s
}

#[test]
fn packet_types_from_bytes() {
    assert_eq!(UdpPacketTypes::new(0), Some(UdpPacketTypes::Quit));
    assert_eq!(UdpPacketTypes::new(1), Some(UdpPacketTypes::GameState));
    assert_eq!(UdpPacketTypes::new(5), Some(UdpPacketTypes::Render));
    assert_eq!(UdpPacketTypes::new(6), None);
    assert_eq!(UdpPacketTypes::new(255), None);
    for b in 0..6u8 {
        assert_eq!(UdpPacketTypes::new(b).unwrap().as_byte(), b);
    }
    assert_eq!(UdpPacketTypes::Speed.as_byte(), 4);
}

#[test]
fn stale_game_states_are_refused() {
    assert!(accepts_game_state(100, 101));
    assert!(accepts_game_state(100, 100));
    assert!(!accepts_game_state(100, 99));
    assert!(accepts_game_state(100, 15));
    assert!(!accepts_game_state(100, 16));
    assert!(accepts_game_state(0, 1_000_000));
}

#[test]
fn smoothing_from_settings_value() {
    assert_eq!(PacketSmoothing::from_usize(0), PacketSmoothing::Disabled);
    assert_eq!(PacketSmoothing::from_usize(1), PacketSmoothing::Interpolate);
    assert_eq!(PacketSmoothing::from_usize(2), PacketSmoothing::Extrapolate);
    assert_eq!(PacketSmoothing::default(), PacketSmoothing::Interpolate);
}

#[test]
fn interpolation_shows_the_previous_packet() {
    let mut states = GameStates::default();
    states.advance(PacketSmoothing::Interpolate, state_at(10, 1), true);
    states.advance(PacketSmoothing::Interpolate, state_at(20, 2), true);
    assert_eq!(states.last.tick_count, 10);
    assert_eq!(states.current.tick_count, 10);
    assert_eq!(states.next.tick_count, 20);
    assert_eq!(states.current.ball.rot_mat.x_axis.x, F32Bits(1));
}

#[test]
fn direct_smoothing_shows_the_newest_packet() {
    let mut states = GameStates::default();
    states.advance(PacketSmoothing::Disabled, state_at(10, 1), false);
    assert_eq!(states.current.tick_count, 10);
    assert_eq!(states.current.ball.rot_mat.x_axis.x, F32Bits(1));
    states.advance(PacketSmoothing::Extrapolate, state_at(20, 2), true);
    assert_eq!(states.last.tick_count, 10);
    assert_eq!(states.current.tick_count, 20);
    assert_eq!(states.next.tick_count, 20);
    assert_eq!(states.current.ball.rot_mat.x_axis.x, F32Bits(1));
    assert_eq!(states.next.ball.rot_mat.x_axis.x, F32Bits(1));
}

#[test]
fn packet_times_keep_the_last_fifteen() {
    let mut times = LastPacketTimesElapsed::default();
    assert_eq!(times.len(), 0);
    assert!(times.times_kept().is_empty());
    for i in 0..15u32 {
        times.push(F32Bits(i));
    }
    assert_eq!(times.len(), 15);
    let kept: Vec<u32> = times.times_kept().iter().map(|t| t.0).collect();
    assert_eq!(kept, (0..15).collect::<Vec<u32>>());
    times.push(F32Bits(100));
    let kept: Vec<u32> = times.times_kept().iter().map(|t| t.0).collect();
    assert_eq!(kept.len(), 15);
    assert!(kept.contains(&100));
    assert!(!kept.contains(&0));
    assert_eq!(kept[14], 100);
    times.reset();
    assert_eq!(times.len(), 0);
    times.push(F32Bits(7));
    assert_eq!(times.times_kept().iter().map(|t| t.0).collect::<Vec<u32>>(), vec![7]);
}

#[test]
fn ball_sent_towards_goal() {
    let mut s = GameStates::default();
    s.last.tick_count = 7;
    s.set_ball_towards_goal();
    for b in [&s.current.ball, &s.next.ball] {
        assert_eq!(f32::from_bits(b.pos.x.0), 0.0);
        assert_eq!(f32::from_bits(b.pos.y.0), -2000.0);
        assert_eq!(f32::from_bits(b.pos.z.0), 1500.0);
        assert_eq!(f32::from_bits(b.vel.x.0), 50.0);
        assert_eq!(f32::from_bits(b.vel.y.0), 1500.0);
        assert_eq!(f32::from_bits(b.vel.z.0), 1.0);
    }
    assert_eq!(s.last.tick_count, 7);
    assert_eq!(s.last.ball.pos, GameStates::default().last.ball.pos);
}
