use bmw_enet::tunnel::{receive_datagram, receive_relay_message, FrameAction, RxOutcome};
use bmw_enet::relay::{relay_setup_check, RelaySetupError};
use bmw_enet::addr::{Endpoint, IpAddress};
use bmw_enet::frame::{FrameType, TunnelFrame};
use bmw_enet::relay::{validate_relay_hello, HelloRejection, JoinDecision, RelayRole, RoomSlots};
use bmw_enet::state::{ConnectionState, GatewayState};
use bmw_enet::tunnel::{
    apply_hello_control, apply_peer_decision, apply_relay_control, apply_safety_control,
    apply_status_control, check_start, clock_low, decide_peer, echo_rtt_ms, keepalive_is_reply,
    loss_sequence, mark_relay_joined, mark_started, mark_waiting, note_car_frame_sent,
    note_control_frame, note_ethernet_injected, note_goodbye, note_keepalive, note_peer_timeout,
    note_relay_lost, note_relay_silence, peer_timed_out, peer_timeout_ms, plaintext_refused,
    probe_interval_ms, refresh_vehicle_link, relay_peer_timeout_ms, relay_probe_interval_ms,
    relay_role_for, should_resend_hello, should_send_status, status_flags, tunnel_role,
    PeerDecision, StartError, TunnelRole,
};

fn ep(a: u8, b: u8, c: u8, d: u8, port: u16) -> Endpoint {
    Endpoint { ip: IpAddress::V4(u32::from_be_bytes([a, b, c, d])), port }
}

#[test]
fn roles_from_labels() {
    assert_eq!(tunnel_role("agent"), TunnelRole::Agent);
    assert_eq!(tunnel_role("gateway"), TunnelRole::Gateway);
    assert_eq!(tunnel_role("lab"), TunnelRole::Other);
    assert_eq!(relay_role_for(TunnelRole::Gateway), RelayRole::Gateway);
    assert_eq!(relay_role_for(TunnelRole::Other), RelayRole::Agent);
}

#[test]
fn start_requires_key_when_crypto_required() {
    assert_eq!(check_start(true, false), Err(StartError::PasswordMissing));
    assert_eq!(check_start(true, true), Ok(()));
    assert_eq!(check_start(false, false), Ok(()));
    assert!(StartError::PasswordMissing.message().starts_with("require_crypto is set"));
}

#[test]
fn first_allowed_sender_becomes_peer() {
    let src = ep(192, 168, 1, 20, 50000);
    let d = decide_peer(TunnelRole::Gateway, None, &[], None, src);
    assert_eq!(d, PeerDecision::Switch(src));
    assert_eq!(apply_peer_decision(None, d), Some(src));
    let refused = decide_peer(TunnelRole::Gateway, None, &["10.0.0.0/8".to_string()], None, src);
    assert_eq!(refused, PeerDecision::Drop);
}

#[test]
fn gateway_follows_new_laptop() {
    let old = ep(192, 168, 1, 20, 50000);
    let new = ep(192, 168, 1, 21, 50001);
    assert_eq!(decide_peer(TunnelRole::Gateway, None, &[], Some(old), new), PeerDecision::Switch(new));
}

#[test]
fn agent_with_fixed_peer_follows_tunnel_port_only() {
    let configured = ep(192, 168, 1, 2, 47900);
    let other_nic = ep(10, 0, 0, 2, 47900);
    let stranger = ep(10, 0, 0, 3, 5555);
    assert_eq!(
        decide_peer(TunnelRole::Agent, Some(configured), &[], Some(configured), other_nic),
        PeerDecision::Switch(other_nic)
    );
    assert_eq!(decide_peer(TunnelRole::Agent, Some(configured), &[], Some(configured), stranger), PeerDecision::Drop);
    assert_eq!(decide_peer(TunnelRole::Gateway, Some(configured), &[], Some(configured), other_nic), PeerDecision::Drop);
    assert_eq!(decide_peer(TunnelRole::Other, None, &[], Some(configured), stranger), PeerDecision::Keep);
    assert_eq!(apply_peer_decision(Some(configured), PeerDecision::Keep), Some(configured));
}

#[test]
fn same_ip_new_port_resyncs() {
    let a = ep(192, 168, 1, 2, 1000);
    let b = ep(192, 168, 1, 2, 1001);
    assert_eq!(decide_peer(TunnelRole::Gateway, None, &[], Some(a), b), PeerDecision::Refresh { peer: b, resync: true });
    assert_eq!(decide_peer(TunnelRole::Gateway, None, &[], Some(a), a), PeerDecision::Refresh { peer: a, resync: false });
}

#[test]
fn plaintext_refused_only_when_required() {
    let plain = TunnelFrame::keepalive(1, 2, 0).encode(None).unwrap();
    assert!(plaintext_refused(true, &plain));
    assert!(!plaintext_refused(false, &plain));
    assert!(plaintext_refused(true, b"junk"));
}

#[test]
fn keepalive_cookie_and_rtt() {
    assert!(keepalive_is_reply(&[0, 0, 0, 0, 0, 0, 0, 1]));
    assert!(!keepalive_is_reply(&[0, 0, 0, 0, 0, 0, 0, 0]));
    assert!(!keepalive_is_reply(&[1]));
    assert_eq!(echo_rtt_ms(1_000, 990), Some(10));
    assert_eq!(echo_rtt_ms(5, u32::MAX - 4), Some(10));
    assert_eq!(echo_rtt_ms(100, 100), None);
    assert_eq!(echo_rtt_ms(100_000, 1), None);
    assert_eq!(clock_low(0x1_0000_0005), 5);
    assert_eq!(loss_sequence(FrameType::Ethernet, 9), Some(9));
    assert_eq!(loss_sequence(FrameType::Keepalive, 9), None);
}

#[test]
fn tick_timing() {
    assert_eq!(probe_interval_ms(TunnelRole::Agent, 1000), 250);
    assert_eq!(probe_interval_ms(TunnelRole::Agent, 10), 200);
    assert_eq!(probe_interval_ms(TunnelRole::Gateway, 1000), 1000);
    assert_eq!(probe_interval_ms(TunnelRole::Gateway, 10), 200);
    assert_eq!(peer_timeout_ms(TunnelRole::Agent, 5000), 20_000);
    assert_eq!(peer_timeout_ms(TunnelRole::Gateway, 5000), 5000);
    assert_eq!(peer_timeout_ms(TunnelRole::Gateway, 10), 1000);
    assert_eq!(relay_probe_interval_ms(100), 500);
    assert_eq!(relay_peer_timeout_ms(100), 15_000);
    assert!(should_resend_hello(TunnelRole::Agent, 6, ConnectionState::WaitingForPeer));
    assert!(!should_resend_hello(TunnelRole::Agent, 6, ConnectionState::Connected));
    assert!(!should_resend_hello(TunnelRole::Gateway, 6, ConnectionState::WaitingForPeer));
    assert!(should_send_status(TunnelRole::Gateway, 3));
    assert!(!should_send_status(TunnelRole::Agent, 3));
    assert!(should_send_status(TunnelRole::Agent, 8));
    assert!(peer_timed_out(true, 1001, 1000));
    assert!(!peer_timed_out(true, 1000, 1000));
    assert!(!peer_timed_out(false, 5000, 1000));
}

#[test]
fn engine_status_flow() {
    let mut st = GatewayState::new("t".into());
    mark_started(&mut st);
    assert_eq!(st.connection, ConnectionState::Starting);
    assert!(st.gateway_running);
    mark_waiting(&mut st, Some(ep(192, 168, 1, 2, 47900)));
    assert_eq!(st.status_message, "Waiting for peer at 192.168.1.2:47900");
    mark_waiting(&mut st, None);
    assert_eq!(st.status_message, "Waiting for agent connection");
    note_keepalive(&mut st);
    assert_eq!(st.connection, ConnectionState::Connected);
    assert!(st.laptop_connected);
    note_goodbye(&mut st, TunnelRole::Gateway);
    assert_eq!(st.status_message, "Peer disconnected");
    assert_eq!(st.connection, ConnectionState::Reconnecting);
    note_ethernet_injected(&mut st, TunnelRole::Gateway, 1234, false);
    assert_eq!(st.status_message, "Connected");
    assert_eq!(st.vehicle.last_activity_ms, 1234);
    assert!(!st.vehicle.awake);
}

#[test]
fn vehicle_flags_follow_link() {
    let mut st = GatewayState::new("t".into());
    note_car_frame_sent(&mut st, TunnelRole::Agent, 100);
    assert!(!st.vehicle.awake);
    refresh_vehicle_link(&mut st, true, 200);
    note_car_frame_sent(&mut st, TunnelRole::Agent, 300);
    assert!(st.vehicle.awake);
    refresh_vehicle_link(&mut st, true, 10_300);
    assert!(st.vehicle.awake);
    refresh_vehicle_link(&mut st, true, 10_301);
    assert!(!st.vehicle.awake);
    note_car_frame_sent(&mut st, TunnelRole::Agent, 20_000);
    refresh_vehicle_link(&mut st, false, 20_001);
    assert!(!st.vehicle.awake && !st.vehicle.link_up);
    assert_eq!(status_flags(&st, TunnelRole::Gateway), (false, false, false));
}

#[test]
fn controls_update_status() {
    let mut st = GatewayState::new("t".into());
    apply_status_control(&mut st, TunnelRole::Gateway, true, true);
    assert!(st.vehicle.link_up && st.vehicle.awake && st.laptop_connected);
    let mut agent = GatewayState::new("t".into());
    apply_status_control(&mut agent, TunnelRole::Agent, true, true);
    assert!(!agent.vehicle.link_up && agent.laptop_connected);
    assert_eq!(agent.connection, ConnectionState::Connected);
    apply_hello_control(&mut st, "agent", "laptop");
    assert_eq!(st.status_message, "Hello from agent@laptop");
    apply_safety_control(&mut st, false, &["a".to_string(), "b".to_string()]);
    assert_eq!(st.status_message, "Safety: a; b");
    apply_safety_control(&mut st, true, &["ignored".to_string()]);
    assert_eq!(st.status_message, "Safety: a; b");
    note_control_frame(&mut st);
    assert_eq!(st.status_message, "Connected");
    note_peer_timeout(&mut st, TunnelRole::Gateway);
    assert_eq!(st.status_message, "Peer timeout — reconnecting");
    assert!(!st.vehicle.link_up && !st.laptop_connected);
    note_peer_timeout(&mut agent, TunnelRole::Agent);
    assert_eq!(agent.connection, ConnectionState::Failed);
}

#[test]
fn relay_status_flow() {
    let mut st = GatewayState::new("t".into());
    mark_relay_joined(&mut st, "relay.example:47910");
    assert_eq!(st.status_message, "Joined relay relay.example:47910");
    assert_eq!(st.connection, ConnectionState::WaitingForPeer);
    assert!(!note_relay_silence(&mut st, TunnelRole::Gateway));
    apply_relay_control(&mut st, TunnelRole::Gateway, Some((true, false)));
    assert_eq!(st.status_message, "Connected via relay");
    assert!(st.vehicle.link_up);
    assert!(note_relay_silence(&mut st, TunnelRole::Gateway));
    assert_eq!(st.status_message, "Relay peer timeout — waiting");
    assert!(!st.vehicle.link_up);
    note_relay_lost(&mut st);
    assert_eq!(st.connection, ConnectionState::Failed);
    assert_eq!(st.status_message, "Relay connection lost");
}

#[test]
fn relay_rooms_pair_two_roles() {
    let mut room = RoomSlots::empty();
    assert_eq!(room.join(RelayRole::Agent), JoinDecision::Wait);
    assert_eq!(room.join(RelayRole::Agent), JoinDecision::Duplicate);
    assert_eq!(room.join(RelayRole::Gateway), JoinDecision::HandOff);
    assert!(!room.gateway_waiting && !room.agent_waiting);
}

#[test]
fn relay_hello_checks() {
    let t = validate_relay_hello("BMWENETR1", "gateway", "bmw-abcd").ok().unwrap();
    assert_eq!(t.role, RelayRole::Gateway);
    assert_eq!(t.room, "BMW-ABCD");
    assert!(matches!(validate_relay_hello("nope", "gateway", "x"), Err(HelloRejection::BadMagic)));
    assert!(matches!(validate_relay_hello("BMWENETR1", "car", "x"), Err(HelloRejection::MissingRoleOrPairCode)));
    assert!(matches!(validate_relay_hello("BMWENETR1", "agent", ""), Err(HelloRejection::MissingRoleOrPairCode)));
}

#[test]
fn relay_mode_needs_url_then_pair_code() {
    assert_eq!(relay_setup_check("", ""), Err(RelaySetupError::RelayUrlMissing));
    assert_eq!(relay_setup_check("relay.example:47910", ""), Err(RelaySetupError::PairCodeMissing));
    assert_eq!(relay_setup_check("relay.example:47910", "BMW-AB12"), Ok(()));
    assert_eq!(RelaySetupError::RelayUrlMissing.message(), "relay_url is empty — set --relay host:47910");
}

#[test]
fn datagram_step_learns_peer_and_answers_probe() {
    let desk = ep(192, 168, 1, 10, 47900);
    let mut st = GatewayState::new("0.1.0".to_string());
    let probe = TunnelFrame::keepalive(7, 1234, 0).encode(None).unwrap();
    let step = receive_datagram(TunnelRole::Gateway, None, &[], None, desk, false, None, &probe, 2000, &mut st);
    assert_eq!(step.decision, PeerDecision::Switch(desk));
    assert_eq!(step.slot, Some(desk));
    assert!(matches!(
        step.outcome,
        RxOutcome::Frame { rx_sequence: None, action: FrameAction::Keepalive { reply_echo: Some(1234), rtt_ms: None } }
    ));
    assert_eq!(st.connection, ConnectionState::Connected);
    assert!(st.laptop_connected);

    // A reply to our own probe is an RTT sample.
    let reply = TunnelFrame::keepalive(8, 1990, 1).encode(None).unwrap();
    let step = receive_datagram(TunnelRole::Gateway, None, &[], Some(desk), desk, false, None, &reply, 2000, &mut st);
    assert!(matches!(
        step.outcome,
        RxOutcome::Frame { action: FrameAction::Keepalive { reply_echo: None, rtt_ms: Some(10) }, .. }
    ));
}

#[test]
fn datagram_step_drops_refused_senders_and_plaintext() {
    let desk = ep(192, 168, 1, 10, 47900);
    let mut st = GatewayState::new("0.1.0".to_string());
    let probe = TunnelFrame::keepalive(7, 1234, 0).encode(None).unwrap();
    let only_lan = vec!["10.0.0.0/8".to_string()];
    let step = receive_datagram(TunnelRole::Gateway, None, &only_lan, None, desk, false, None, &probe, 0, &mut st);
    assert_eq!(step.decision, PeerDecision::Drop);
    assert_eq!(step.slot, None);
    assert!(matches!(step.outcome, RxOutcome::Dropped));
    assert_eq!(st.connection, ConnectionState::Stopped);

    let step = receive_datagram(TunnelRole::Gateway, None, &[], None, desk, true, None, &probe, 0, &mut st);
    assert!(matches!(step.outcome, RxOutcome::Dropped));
    let step = receive_datagram(TunnelRole::Gateway, None, &[], None, desk, false, None, b"junk", 0, &mut st);
    assert!(matches!(step.outcome, RxOutcome::Undecodable));
}

#[test]
fn datagram_step_ethernet_and_goodbye() {
    let car = ep(192, 168, 1, 20, 50000);
    let mut st = GatewayState::new("0.1.0".to_string());
    let eth = TunnelFrame::ethernet(42, 0, b"frame-bytes-here".to_vec()).unwrap().encode(None).unwrap();
    let step = receive_datagram(TunnelRole::Gateway, None, &[], None, car, false, None, &eth, 0, &mut st);
    match step.outcome {
        RxOutcome::Frame { rx_sequence: Some(42), action: FrameAction::Inject(p) } => assert_eq!(p, b"frame-bytes-here".to_vec()),
        _ => panic!("expected an Ethernet frame"),
    }
    // Injection has not happened yet: the status is unchanged.
    assert_eq!(st.connection, ConnectionState::Stopped);

    let bye = TunnelFrame { header: bmw_enet::frame::FrameHeader { version: 1, frame_type: FrameType::Goodbye, flags: 0, sequence: 43, payload_len: 0, timestamp_ms_lo: 0 }, payload: vec![] };
    let pkt = bye.encode(None).unwrap();
    let out = receive_relay_message(TunnelRole::Gateway, false, None, &pkt, 0, &mut st);
    assert!(matches!(out, RxOutcome::Frame { action: FrameAction::Goodbye, .. }));
    assert_eq!(st.connection, ConnectionState::Reconnecting);
    assert!(!st.laptop_connected);
}
