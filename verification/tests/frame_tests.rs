use rlviser::bytes::F32Bits;
use rlviser::frame::{apply_udp_updates, FrameRequest, UdpUpdate};
use rlviser::render::RenderMessage;
use rlviser::renderer::RenderGroups;
use rlviser::rocketsim::GameState;
use rlviser::udp::LastPacketTimesElapsed;

fn state_at(tick: u64) -> GameState {
    let mut s = GameState::default();
    s.tick_count = tick;
    s
}

#[test]
fn frame_takes_updates_in_order() {
    let mut groups = RenderGroups::new();
    let mut times = LastPacketTimesElapsed::new();
    times.push(F32Bits(1));
    let updates = vec![
        UdpUpdate::State(state_at(3)),
        UdpUpdate::Render(RenderMessage::AddRender(1, vec![])),
        UdpUpdate::Render(RenderMessage::AddRender(2, vec![])),
        UdpUpdate::Render(RenderMessage::RemoveRender(1)),
        UdpUpdate::Paused(true),
        UdpUpdate::State(state_at(5)),
        UdpUpdate::Connection,
    ];
    let out = apply_udp_updates(updates, &mut groups, &mut times);
    assert!(!out.exit);
    assert_eq!(out.new_state.unwrap().tick_count, 5);
    assert_eq!(out.requests, vec![FrameRequest::Paused(true), FrameRequest::Connection]);
    assert!(groups.group(1).is_none());
    assert!(groups.group(2).is_some());
    assert_eq!(times.len(), 1);
}

#[test]
fn speed_forgets_packet_times_and_exit_stops() {
    let mut groups = RenderGroups::new();
    let mut times = LastPacketTimesElapsed::new();
    times.push(F32Bits(1));
    let updates = vec![
        UdpUpdate::Speed(F32Bits(2.0f32.to_bits())),
        UdpUpdate::Exit,
        UdpUpdate::Render(RenderMessage::AddRender(9, vec![])),
        UdpUpdate::State(state_at(7)),
    ];
    let out = apply_udp_updates(updates, &mut groups, &mut times);
    assert!(out.exit);
    assert!(out.new_state.is_none());
    assert_eq!(out.requests, vec![FrameRequest::Speed(F32Bits(2.0f32.to_bits()))]);
    assert!(groups.group(9).is_none());
    assert_eq!(times.len(), 0);
    let out = apply_udp_updates(vec![], &mut groups, &mut times);
    assert!(!out.exit && out.new_state.is_none() && out.requests.is_empty());
}
