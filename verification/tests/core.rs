use bmw_enet::resolve::{connect_pair_code, connect_refusal_message, connect_target, ConnectRefusal};
use bmw_enet::addr::{endpoint_string, ip_allowed, ip_in_cidr, looks_like_enet_subnet, parse_cidr, Endpoint, IpAddress};
use bmw_enet::config::LogLevel;
use bmw_enet::discovery::{
    accept_announce, default_discovery_port, discovery_body, frame_discovery, generate_pair_code,
    interface_from_counters, pair_code_from_bytes, pair_codes_compatible, pick_enet_interface,
    score_enet_candidate, DiscoveredGateway, InterfaceInfo, DISCOVERY_MAGIC,
};
use bmw_enet::safety::{flash_safety_issues, safety_warning, SafetyIssue, MIN_QUALITY_SAMPLES};
use bmw_enet::semver::parse_semver;
use bmw_enet::state::{ConnectionState, GatewayState, VehicleState};
use bmw_enet::stats::{backoff_delay, backoff_delay_ms, PacketStats};
use bmw_enet::status::{friendly_line, friendly_status, present_state};
use std::time::Duration;

fn v4(a: u8, b: u8, c: u8, d: u8) -> IpAddress {
    IpAddress::V4(u32::from_be_bytes([a, b, c, d]))
}

#[test]
fn pair_code_format() {
    let c = generate_pair_code();
    assert!(c.starts_with("BMW-"));
    assert_eq!(c.len(), 8);
}

#[test]
fn pair_code_from_known_bytes() {
    // byte % 32 indexes "ABCDEFGHJKLMNPQRSTUVWXYZ23456789"
    assert_eq!(pair_code_from_bytes([0, 1, 31, 32]), "BMW-AB9A");
    assert_eq!(pair_code_from_bytes([8, 13, 24, 255]), "BMW-JP29");
}

#[test]
fn backoff_grows() {
    assert!(backoff_delay(500, 10_000, 0) < backoff_delay(500, 10_000, 3));
    assert_eq!(backoff_delay(500, 1000, 20), Duration::from_millis(1000));
}

#[test]
fn backoff_exact_values() {
    assert_eq!(backoff_delay_ms(500, 10_000, 0), 500);
    assert_eq!(backoff_delay_ms(500, 10_000, 3), 4000);
    assert_eq!(backoff_delay_ms(500, 10_000, 5), 10_000);
    assert_eq!(backoff_delay_ms(u64::MAX, u64::MAX, 10), u64::MAX);
}

#[test]
fn semver_parses() {
    assert_eq!(parse_semver("v0.1.19"), Some((0, 1, 19)));
    assert_eq!(parse_semver("1.2.3"), Some((1, 2, 3)));
    assert!(parse_semver("v0.1.20") > parse_semver("v0.1.19"));
    assert!(parse_semver("nope").is_none());
}

#[test]
fn semver_edge_cases() {
    assert_eq!(parse_semver("  v1.2  "), Some((1, 2, 0)));
    assert_eq!(parse_semver("2.3.4-rc1"), Some((2, 3, 4)));
    assert_eq!(parse_semver("1.x.3"), None);
    assert_eq!(parse_semver("1"), None);
}

#[test]
fn link_local_detection() {
    assert!(looks_like_enet_subnet(v4(169, 254, 1, 1)));
    assert!(!looks_like_enet_subnet(v4(192, 168, 1, 1)));
}

#[test]
fn scoring_prefers_name() {
    let a = InterfaceInfo {
        name: "Ethernet 3".into(),
        description: "USB ENET".into(),
        mac: "00:11:22:33:44:55".into(),
        ipv4: vec![v4(169, 254, 5, 77)],
        is_up: true,
        has_link_local: true,
    };
    let b = InterfaceInfo {
        name: "Wi-Fi".into(),
        description: "Wireless".into(),
        mac: "aa:bb:cc:dd:ee:ff".into(),
        ipv4: vec![v4(192, 168, 1, 10)],
        is_up: true,
        has_link_local: false,
    };
    assert!(score_enet_candidate(&a, "Ethernet 3") > score_enet_candidate(&b, "Ethernet 3"));
}

#[test]
fn scoring_exact_values() {
    let a = InterfaceInfo {
        name: "Ethernet 3".into(),
        description: "USB ENET".into(),
        mac: String::new(),
        ipv4: vec![],
        is_up: true,
        has_link_local: true,
    };
    // 100 (name) + 50 (link-local) + 5*3 ("enet", "usb", "ethernet") + 10 (up)
    assert_eq!(score_enet_candidate(&a, "ethernet 3"), 175);
    let vpn = InterfaceInfo {
        name: "vEthernet (WSL)".into(),
        description: "Hyper-V Virtual Ethernet Adapter".into(),
        mac: String::new(),
        ipv4: vec![],
        is_up: false,
        has_link_local: false,
    };
    // +5 ("ethernet") -40 ("hyper-v") -40 ("vethernet")
    assert_eq!(score_enet_candidate(&vpn, ""), -75);
}

#[test]
fn pick_takes_best_positive() {
    let mk = |name: &str, up: bool| InterfaceInfo {
        name: name.into(),
        description: String::new(),
        mac: String::new(),
        ipv4: vec![],
        is_up: up,
        has_link_local: false,
    };
    let picked = pick_enet_interface(vec![mk("wifi", true), mk("usb-eth", true), mk("docker0", true)], "");
    assert_eq!(picked.map(|i| i.name), Some("usb-eth".to_string()));
    let none = pick_enet_interface(vec![mk("docker0", true), mk("tap1", false)], "");
    assert!(none.is_none());
    // Ties go to the name that sorts first.
    let tie = pick_enet_interface(vec![mk("b", true), mk("a", true)], "");
    assert_eq!(tie.map(|i| i.name), Some("a".to_string()));
    assert!(pick_enet_interface(vec![], "x").is_none());
}

#[test]
fn interface_from_counters_flags() {
    let i = interface_from_counters("eth0".into(), "m".into(), vec![v4(10, 0, 0, 1), v4(169, 254, 2, 2)], 0, 5);
    assert!(i.is_up);
    assert!(i.has_link_local);
    let j = interface_from_counters("eth1".into(), "m".into(), vec![], 0, 0);
    assert!(!j.is_up);
    assert!(!j.has_link_local);
}

#[test]
fn cidr_match() {
    let ip = v4(192, 168, 1, 50);
    assert!(ip_allowed(ip, &["192.168.0.0/16".into()]));
    assert!(!ip_allowed(ip, &["10.0.0.0/8".into()]));
    assert!(ip_allowed(ip, &["192.168.1.50".into()]));
}

#[test]
fn cidr_edges() {
    assert!(ip_allowed(v4(1, 2, 3, 4), &[]));
    assert_eq!(parse_cidr("10.0.0.0/8"), Some((v4(10, 0, 0, 0), 8)));
    assert_eq!(parse_cidr("10.0.0.0"), None);
    assert_eq!(parse_cidr("10.0.0.0/300"), None);
    assert!(ip_in_cidr(v4(8, 8, 8, 8), v4(1, 1, 1, 1), 0));
    assert!(!ip_in_cidr(v4(8, 8, 8, 8), v4(8, 8, 8, 8), 33));
    assert!(!ip_in_cidr(v4(8, 8, 8, 8), IpAddress::V6(1), 0));
    assert!(ip_in_cidr(IpAddress::V6(0xfe80 << 112 | 5), IpAddress::V6(0xfe80 << 112), 10));
}

#[test]
fn endpoint_text_forms() {
    assert_eq!(endpoint_string(Endpoint { ip: v4(192, 168, 1, 5), port: 47900 }), "192.168.1.5:47900");
    assert_eq!(endpoint_string(Endpoint { ip: IpAddress::V6(1), port: 9 }), "[::1]:9");
}

#[test]
fn discovery_framing() {
    let framed = frame_discovery(b"{}");
    assert_eq!(&framed[..8], DISCOVERY_MAGIC.as_bytes());
    assert_eq!(discovery_body(&framed).unwrap(), b"{}");
    assert!(discovery_body(b"BMWENET").is_err());
    assert!(discovery_body(b"XMWENET1{}").is_err());
    assert_eq!(default_discovery_port(), 47902);
}

#[test]
fn pair_code_filter() {
    assert!(pair_codes_compatible("", "BMW-ABCD"));
    assert!(pair_codes_compatible("bmw-abcd", "BMW-ABCD"));
    assert!(pair_codes_compatible("BMW-ABCD", ""));
    assert!(!pair_codes_compatible("BMW-ABCD", "BMW-ABCE"));
    let found = vec![DiscoveredGateway {
        addr: v4(192, 168, 1, 2),
        tunnel_port: 47900,
        api_port: 47901,
        hostname: "desk".into(),
        pair_code: "BMW-TEST".into(),
        password_required: false,
    }];
    assert!(!accept_announce(&found, "BMW-TEST", "BMW-TEST", v4(192, 168, 1, 2)));
    assert!(accept_announce(&found, "BMW-TEST", "bmw-test", v4(192, 168, 1, 3)));
    assert!(!accept_announce(&found, "BMW-TEST", "BMW-OTHR", v4(192, 168, 1, 4)));
}

fn healthy_vehicle() -> VehicleState {
    VehicleState { link_up: true, awake: true, last_activity_ms: 0, discovered_ip: Some("169.254.5.77".into()), vin: None }
}

#[test]
fn safe_when_healthy() {
    let (max_rtt, max_loss, max_cpu) = (20.0f64, 0.001f64, 80.0f64);
    let (rtt_p99, loss, cpu) = (2.0f64, 0.0f64, 10.0f64);
    let issues = flash_safety_issues(true, &healthy_vehicle(), rtt_p99 >= max_rtt, loss >= max_loss, cpu >= max_cpu, 1000, MIN_QUALITY_SAMPLES);
    assert!(issues.is_empty());
}

#[test]
fn unsafe_on_loss() {
    let (max_rtt, max_loss, max_cpu) = (20.0f64, 0.001f64, 80.0f64);
    let (rtt_p99, loss, cpu) = (2.0f64, 0.05f64, 10.0f64);
    let vehicle = VehicleState { link_up: true, awake: true, last_activity_ms: 0, discovered_ip: None, vin: None };
    let issues = flash_safety_issues(true, &vehicle, rtt_p99 >= max_rtt, loss >= max_loss, cpu >= max_cpu, 1000, MIN_QUALITY_SAMPLES);
    assert!(!issues.is_empty());
    assert_eq!(issues, vec![SafetyIssue::LossOverLimit]);
}

#[test]
fn safety_issue_order_and_texts() {
    let vehicle = VehicleState { link_up: false, awake: false, last_activity_ms: 0, discovered_ip: None, vin: None };
    let issues = flash_safety_issues(false, &vehicle, true, false, true, 3, 20);
    assert_eq!(
        issues,
        vec![
            SafetyIssue::PeerDisconnected,
            SafetyIssue::LinkDown,
            SafetyIssue::Asleep,
            SafetyIssue::RttOverLimit,
            SafetyIssue::CpuOverLimit,
            SafetyIssue::FewSamples
        ]
    );
    assert_eq!(SafetyIssue::LinkDown.fixed_reason(), Some("Vehicle ENET link is down"));
    assert_eq!(SafetyIssue::RttOverLimit.fixed_reason(), None);
    assert_eq!(
        safety_warning(&["a".to_string(), "b".to_string()]),
        "FLASHING NOT RECOMMENDED: a; b. Do not start ECU programming until these are resolved."
    );
    assert!(safety_warning(&[]).starts_with("Connection quality is within flash-safe thresholds."));
}

#[test]
fn friendly_texts() {
    let mut st = GatewayState::new("1.0".into());
    assert_eq!(friendly_status(&st), "Gateway is stopped");
    st.gateway_running = true;
    st.connection = ConnectionState::WaitingForPeer;
    assert_eq!(friendly_status(&st), "Waiting for laptop… open the Agent on the laptop");
    st.laptop_connected = true;
    st.vehicle.link_up = true;
    assert_eq!(friendly_status(&st), "Laptop connected — waiting for vehicle wake / ignition");
    st.vehicle.awake = true;
    assert_eq!(friendly_status(&st), "Ready — vehicle is awake");
    assert_eq!(friendly_line(false, true, true), "Waiting for desktop…");
    assert_eq!(friendly_line(true, false, true), "Desktop OK — plug ENET into car + laptop");
    assert_eq!(friendly_line(true, true, false), "ENET link up — turn ignition ON");
    assert_eq!(friendly_line(true, true, true), "Ready — vehicle awake");
}

#[test]
fn dashboard_hides_vehicle_without_laptop() {
    let mut st = GatewayState::new("1.0".into());
    st.vehicle.link_up = true;
    st.vehicle.awake = true;
    present_state(&mut st, true);
    assert!(st.gateway_running);
    assert!(!st.vehicle.link_up && !st.vehicle.awake);
}

#[test]
fn gateway_state_new_and_defaults() {
    let st = GatewayState::new("0.9".into());
    assert_eq!(st.status_message, "Stopped");
    assert_eq!(st.version, "0.9");
    assert_eq!(st.connection, ConnectionState::Stopped);
    assert_eq!(LogLevel::default().as_filter(), "info");
    assert_eq!(LogLevel::Trace.as_filter(), "trace");
}

#[test]
fn stats_sequence_gaps() {
    let mut s = PacketStats::new();
    s.record_rx(100, Some(1));
    s.record_rx(100, Some(2));
    s.record_rx(100, Some(5));
    assert_eq!(s.seq_gaps, 2);
    assert_eq!(s.rx_packets, 3);
    assert_eq!(s.rx_bytes, 300);
    s.reset_rx_sequence();
    s.record_rx(10, Some(100));
    assert_eq!(s.seq_gaps, 2);
    s.record_tx(64);
    s.record_drop();
    s.record_error();
    s.record_reconnect();
    assert_eq!((s.tx_packets, s.tx_bytes, s.dropped, s.errors, s.reconnects), (1, 64, 1, 1, 1));
}

#[test]
fn connect_request_checks_address() {
    let local = [v4(192, 168, 1, 5), v4(10, 0, 0, 2)];
    assert_eq!(connect_target("  192.168.1.20 ", &local), Ok(v4(192, 168, 1, 20)));
    assert_eq!(connect_target("desktop", &local), Err(ConnectRefusal::InvalidAddress));
    assert_eq!(connect_target("10.0.0.2", &local), Err(ConnectRefusal::OwnAddress(v4(10, 0, 0, 2))));
    assert_eq!(
        connect_refusal_message(" desktop ", ConnectRefusal::InvalidAddress),
        "Invalid IP address: desktop"
    );
    assert_eq!(
        connect_refusal_message("10.0.0.2", ConnectRefusal::OwnAddress(v4(10, 0, 0, 2))),
        "10.0.0.2 is this laptop's own IP. Copy a Desktop LAN IP from http://127.0.0.1:47901/"
    );
    assert_eq!(connect_pair_code(Some("  BMW-AB12 ")).as_deref(), Some("BMW-AB12"));
    assert_eq!(connect_pair_code(Some("   ")), None);
    assert_eq!(connect_pair_code(None), None);
}

#[test]
fn log_level_from_settings_text() {
    assert_eq!(LogLevel::from_setting("WARN"), LogLevel::Warn);
    assert_eq!(LogLevel::from_setting("Error"), LogLevel::Error);
    assert_eq!(LogLevel::from_setting("debug"), LogLevel::Debug);
    assert_eq!(LogLevel::from_setting("TRACE"), LogLevel::Trace);
    assert_eq!(LogLevel::from_setting("verbose"), LogLevel::Info);
}

#[test]
fn version_text_reads_back() {
    for (a, b, c) in [(0u64, 0u64, 0u64), (1, 2, 3), (10, 200, 3000), (u64::MAX, 7, u64::MAX)] {
        assert_eq!(parse_semver(&format!("{a}.{b}.{c}")), Some((a, b, c)));
        assert_eq!(parse_semver(&format!("v{a}.{b}.{c}")), Some((a, b, c)));
        assert_eq!(parse_semver(&format!(" vv{a}.{b}.{c}-rc1 ")), Some((a, b, c)));
        assert_eq!(parse_semver(&format!("{a}.{b}")), Some((a, b, 0)));
    }
}
