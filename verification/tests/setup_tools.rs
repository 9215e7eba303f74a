use bmw_enet::installer::service_command_line;
use bmw_enet::addr::IpAddress;
use bmw_enet::config::{ensure_pair_code, setup_hints, Role as ProcessRole};
use bmw_enet::discovery::DiscoveredGateway;
use bmw_enet::installer::{
    config_contents, config_file_name, dashboard_url, install_result, read_pair_code, setup_args, InstallRequest,
    PreparedPackage, Role,
};
use bmw_enet::relay::relay_join_reply;
use bmw_enet::resolve::{
    cached_peer, is_own_address, password_warning, pick_discovered, plan_peer_resolution, saved_peer, PasswordWarning,
    PeerPlan, ResolveFailure,
};
use bmw_enet::setup::{prompt_answer, wireguard_desktop_conf, wireguard_laptop_conf};
use bmw_enet::simframes::{fake_ethernet_ipv4, fake_ethernet_udp_broadcast};
use bmw_enet::updater::notes_ok;

fn ip(a: u8, b: u8, c: u8, d: u8) -> IpAddress {
    IpAddress::V4(u32::from_be_bytes([a, b, c, d]))
}

fn request(role: Role, pair_code: &str, password: &str) -> InstallRequest {
    InstallRequest { role, pair_code: pair_code.into(), password: password.into(), start_service: true, open_dashboard: false }
}

#[test]
fn host_config_text() {
    let text = config_contents(&request(Role::Host, "ignored", "pa\"ss"));
    assert!(text.starts_with("# Generated by BMW-ENET-Setup\nrole = \"gateway\"\n"));
    assert!(text.contains("\npair_code = \"\"\npassword = \"pass\"\nrequire_crypto = false\n"));
    assert!(text.ends_with("log_dir = \"logs\"\nmanage_firewall = true\n"));
    assert!(text.contains("virtual_interface = \"BMW-ENET\"\n"));
}

#[test]
fn client_config_text_and_readback() {
    let text = config_contents(&request(Role::Client, "  BMW-\"AB12 ", ""));
    assert!(text.contains("\npair_code = \"BMW-AB12\"\npassword = \"\"\n"));
    assert!(!text.contains("virtual_interface"));
    assert_eq!(read_pair_code(&text).as_deref(), Some("BMW-AB12"));
    let host = config_contents(&request(Role::Host, "", ""));
    assert_eq!(read_pair_code(&host), None);
    assert_eq!(read_pair_code("x = 1\r\n  pair_code == \"BMW-XY\" \n").as_deref(), Some("BMW-XY"));
    assert_eq!(config_file_name(Role::Client), "agent.toml");
}

#[test]
fn setup_helper_arguments() {
    let args = setup_args(&request(Role::Client, " BMW-1 ", "pw"), "C:/cfg/agent.toml");
    assert_eq!(args, vec!["agent", "--config", "C:/cfg/agent.toml", "--yes", "--pair-code", "BMW-1", "--password", "pw"]);
    let host = setup_args(&request(Role::Host, "BMW-1", ""), "g.toml");
    assert_eq!(host, vec!["gateway", "--config", "g.toml", "--yes"]);
}

#[test]
fn install_report() {
    let req = request(Role::Host, "BMW-REQ", "");
    let pkg = PreparedPackage { version: "v1.2.3".into(), extract_dir: "x".into() };
    let r = install_result(&req, "C:/dir".into(), &pkg, Some("BMW-FILE".into()));
    assert_eq!(r.version, "v1.2.3");
    assert_eq!(r.pair_code_hint, "BMW-FILE");
    assert_eq!(r.dashboard_url.as_deref(), Some("http://127.0.0.1:47901/"));
    let client = install_result(&request(Role::Client, "BMW-REQ", ""), "d".into(), &pkg, None);
    assert_eq!(client.pair_code_hint, "BMW-REQ");
    assert_eq!(dashboard_url(Role::Client), None);
}

#[test]
fn checklist_texts() {
    let hints = setup_hints(ProcessRole::Gateway, 47901, "", true, None);
    assert_eq!(hints.len(), 5);
    assert_eq!(hints[1], "2. Open http://127.0.0.1:47901/ in a browser for the dashboard.");
    assert_eq!(hints[2], "3. On the laptop, install the Agent and enter pair code (shown in dashboard) (or leave blank to auto-find).");
    let agent = setup_hints(ProcessRole::Agent, 1, "", false, Some(ip(192, 168, 1, 50)));
    assert_eq!(agent[1], "2. Connecting to desktop at 192.168.1.50.");
    let none = setup_hints(ProcessRole::Agent, 1, "", false, None);
    assert_eq!(none[1], "2. Set peer_addr or enable auto_discover.");
}

#[test]
fn pair_code_is_kept_or_generated() {
    let mut kept = " BMW-KEEP ".to_string();
    ensure_pair_code(&mut kept);
    assert_eq!(kept, " BMW-KEEP ");
    let mut blank = "   ".to_string();
    ensure_pair_code(&mut blank);
    assert!(blank.starts_with("BMW-"));
    assert_eq!(blank.len(), 8);
}

#[test]
fn peer_resolution_rules() {
    let saved = Some(ip(10, 0, 0, 2));
    assert_eq!(cached_peer(true, saved, None), None);
    assert_eq!(cached_peer(false, None, saved), saved);
    assert_eq!(plan_peer_resolution(true, None, true, false), PeerPlan::WireguardDesktop);
    assert_eq!(plan_peer_resolution(false, saved, false, false), PeerPlan::Saved);
    assert_eq!(plan_peer_resolution(false, saved, true, false), PeerPlan::Discover);
    assert_eq!(plan_peer_resolution(true, saved, true, true), PeerPlan::Saved);
    assert_eq!(saved_peer(None, None, None, true), Err(ResolveFailure::NoDesktopFound));
    assert_eq!(saved_peer(None, None, None, false), Err(ResolveFailure::NothingConfigured));
    assert_eq!(saved_peer(None, None, saved, false), Ok(ip(10, 0, 0, 2)));
    assert_eq!(password_warning(true, true), Some(PasswordWarning::DesktopNeedsPassword));
    assert_eq!(password_warning(false, false), Some(PasswordWarning::DesktopHasNoPassword));
    assert_eq!(password_warning(true, false), None);
    assert!(is_own_address(ip(1, 1, 1, 1), &[ip(2, 2, 2, 2), ip(1, 1, 1, 1)]));
}

#[test]
fn discovered_desktop_choice() {
    let gw = |d: u8| DiscoveredGateway {
        addr: ip(192, 168, 1, d),
        tunnel_port: 47900,
        api_port: 47901,
        hostname: "h".into(),
        pair_code: "c".into(),
        password_required: false,
    };
    let found = vec![gw(1), gw(2), gw(3)];
    assert_eq!(pick_discovered(&found, Some(ip(192, 168, 1, 3))), Some(2));
    assert_eq!(pick_discovered(&found, Some(ip(10, 0, 0, 1))), Some(0));
    assert_eq!(pick_discovered(&found, None), Some(0));
    assert_eq!(pick_discovered(&[], None), None);
}

#[test]
fn prompt_answers() {
    assert!(prompt_answer("\n", true));
    assert!(!prompt_answer("  \n", false));
    assert!(prompt_answer(" YES\n", false));
    assert!(prompt_answer("y", false));
    assert!(!prompt_answer("yep", true));
}

#[test]
fn wireguard_templates() {
    let d = wireguard_desktop_conf();
    assert!(d.contains("ListenPort = 51820\n"));
    let l = wireguard_laptop_conf("1.2.3.4:51820");
    assert!(l.contains("\nEndpoint = 1.2.3.4:51820\nAllowedIPs = 10.66.0.1/32\n"));
}

#[test]
fn lab_frames() {
    let f = fake_ethernet_ipv4(b"hi");
    assert_eq!(f, vec![0xff, 0xff, 0xff, 0xff, 0xff, 0xff, 0, 1, 2, 3, 4, 5, 0x08, 0x00, b'h', b'i']);
    let b = fake_ethernet_udp_broadcast(6811, b"x");
    assert_eq!(&b[14..], &[0x1a, 0x9b, b'x']);
}

#[test]
fn relay_join_replies() {
    assert_eq!(relay_join_reply("waiting", None), Ok(()));
    assert_eq!(relay_join_reply("paired", Some("peer connected")), Ok(()));
    assert_eq!(relay_join_reply("error", Some("bad magic")), Err("bad magic".to_string()));
    assert_eq!(relay_join_reply("error", None), Err("relay error".to_string()));
}

#[test]
fn release_note_cut_points() {
    assert!(notes_ok(&"x".repeat(500)));
    assert!(notes_ok(&"é".repeat(150)));
    assert!(!notes_ok(&format!("{}é", "x".repeat(399))));
}

#[test]
fn service_command_line_quotes_paths() {
    assert_eq!(
        service_command_line(Role::Client, "C:\\BMW-ENET\\Client\\enet-agent.exe", "C:\\BMW-ENET\\Client\\config\\agent.toml", "  BMW-AB12 "),
        "\"C:\\BMW-ENET\\Client\\enet-agent.exe\" --config \"C:\\BMW-ENET\\Client\\config\\agent.toml\" --pair-code BMW-AB12"
    );
    assert_eq!(
        service_command_line(Role::Host, "C:\\h\\enet-gateway.exe", "C:\\h\\gateway.toml", "BMW-AB12"),
        "\"C:\\h\\enet-gateway.exe\" --config \"C:\\h\\gateway.toml\""
    );
    assert_eq!(
        service_command_line(Role::Client, "a.exe", "c.toml", "   "),
        "\"a.exe\" --config \"c.toml\""
    );
}

#[test]
fn ensure_pair_code_generates() {
    // The pair code of a default configuration is empty.
    let mut pair_code = String::new();
    assert!(pair_code.is_empty());
    ensure_pair_code(&mut pair_code);
    let code = pair_code.clone();
    assert!(code.starts_with("BMW-"));
    ensure_pair_code(&mut pair_code);
    assert_eq!(pair_code, code);
}
