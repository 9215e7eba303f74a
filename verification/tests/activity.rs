use bmw_enet::activity::{watch_status, ActivityLog, ActivityWatch, ACTIVITY_LOG_CAP};
use bmw_enet::state::{ConnectionState, GatewayState};

fn lines(v: Vec<bmw_enet::activity::ActivityLine>) -> Vec<(String, String)> {
    v.into_iter().map(|l| (l.level.to_string(), l.message)).collect()
}

#[test]
fn activity_log_starts_with_ready_line() {
    let log = ActivityLog::new(1000);
    let e = log.entries();
    assert_eq!(e.len(), 1);
    assert_eq!(e[0].ts_ms, 1000);
    assert_eq!(e[0].level, "info");
    assert_eq!(e[0].message, "Dashboard ready — waiting for laptop agent");
}

#[test]
fn activity_log_keeps_newest_lines() {
    let mut log = ActivityLog::new(0);
    for i in 0..1000u64 {
        log.push(i + 1, "info", format!("line {i}"));
    }
    let e = log.entries();
    assert_eq!(e.len(), ACTIVITY_LOG_CAP);
    assert_eq!(e[0].message, "line 600");
    assert_eq!(e[e.len() - 1].message, "line 999");
    assert_eq!(e[e.len() - 1].ts_ms, 1000);
}

#[test]
fn watcher_reports_changes_once() {
    let mut w = ActivityWatch::new();
    let mut st = GatewayState::new("0.1.0".into());
    st.connection = ConnectionState::Connected;
    st.laptop_connected = true;
    st.vehicle.link_up = true;
    st.vehicle.discovered_ip = Some("169.254.10.10".into());
    let first = lines(watch_status(&mut w, &st, "10.0.0.5:47900"));
    assert_eq!(
        first,
        vec![
            ("info".to_string(), "Tunnel state → Connected".to_string()),
            ("info".to_string(), "Laptop connected · 10.0.0.5:47900".to_string()),
            ("info".to_string(), "Peer endpoint · 10.0.0.5:47900".to_string()),
            ("info".to_string(), "Vehicle ENET · 169.254.10.10".to_string()),
        ]
    );
    assert!(watch_status(&mut w, &st, "10.0.0.5:47900").is_empty());
    assert!(watch_status(&mut w, &st, "").is_empty());

    st.vehicle.awake = true;
    assert_eq!(lines(watch_status(&mut w, &st, "")), vec![("info".to_string(), "Vehicle state → AWAKE".to_string())]);

    st.laptop_connected = false;
    st.connection = ConnectionState::WaitingForPeer;
    st.vehicle.link_up = false;
    st.vehicle.awake = false;
    assert_eq!(
        lines(watch_status(&mut w, &st, "")),
        vec![
            ("info".to_string(), "Tunnel state → WaitingForPeer".to_string()),
            ("warn".to_string(), "Laptop disconnected".to_string()),
            ("warn".to_string(), "Vehicle ENET link down".to_string()),
            ("info".to_string(), "Vehicle state → SLEEP".to_string()),
        ]
    );
}

#[test]
fn laptop_without_endpoint_and_link_without_address() {
    let mut w = ActivityWatch::new();
    let mut st = GatewayState::new("0.1.0".into());
    st.connection = ConnectionState::Starting;
    st.laptop_connected = true;
    st.vehicle.link_up = true;
    assert_eq!(
        lines(watch_status(&mut w, &st, "")),
        vec![
            ("info".to_string(), "Laptop connected".to_string()),
            ("info".to_string(), "Vehicle ENET · link up".to_string()),
        ]
    );
}
