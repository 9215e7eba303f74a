//! Shared runtime state models for the dashboards and services.

use vstd::prelude::*;

verus! {

/// High-level connection state of the tunnel.
#[derive(Debug, Clone, Copy, PartialEq, Eq, Structural)]
pub enum ConnectionState {
    /// Not started.
    Stopped,
    /// Starting / binding sockets.
    Starting,
    /// Waiting for peer.
    WaitingForPeer,
    /// Tunnel established.
    Connected,
    /// Transient error; retrying.
    Reconnecting,
    /// Fatal error; requires user action.
    Failed,
}

impl Default for ConnectionState {
    fn default() -> (s: Self)
        ensures
            s == ConnectionState::Stopped,
    {
        ConnectionState::Stopped
    }
}

/// Observed vehicle / ENET side state.
#[derive(Debug, Clone, PartialEq)]
pub struct VehicleState {
    /// Physical/link-level ENET up.
    pub link_up: bool,
    /// Recent diagnostic traffic or discovery response.
    pub awake: bool,
    /// Unix ms of last observed ENET activity.
    pub last_activity_ms: u64,
    /// Discovered vehicle gateway IP if known.
    pub discovered_ip: Option<String>,
    /// VIN if learned from DoIP announcement (optional).
    pub vin: Option<String>,
}

impl VehicleState {
    /// The state before anything is known: link down, asleep, no activity.
    pub open spec fn is_initial(&self) -> bool {
        &&& !self.link_up
        &&& !self.awake
        &&& self.last_activity_ms == 0
        &&& self.discovered_ip is None
        &&& self.vin is None
    }
}

impl Default for VehicleState {
    fn default() -> (s: Self)
        ensures
            s.is_initial(),
    {
        VehicleState {
            link_up: false,
            awake: false,
            last_activity_ms: 0,
            discovered_ip: None,
            vin: None,
        }
    }
}

/// Aggregated gateway status published to the dashboards / API.
#[derive(Debug, Clone)]
pub struct GatewayState {
    /// Tunnel connection state.
    pub connection: ConnectionState,
    /// Vehicle state.
    pub vehicle: VehicleState,
    /// Laptop/agent peer connected (from gateway POV).
    pub laptop_connected: bool,
    /// Gateway service running.
    pub gateway_running: bool,
    /// Human-readable status line.
    pub status_message: String,
    /// Last error string if any.
    pub last_error: Option<String>,
    /// Software version.
    pub version: String,
}

impl Default for GatewayState {
    fn default() -> (s: Self)
        ensures
            s.connection == ConnectionState::Stopped,
            s.vehicle.is_initial(),
            !s.laptop_connected,
            !s.gateway_running,
            s.status_message@ == Seq::<char>::empty(),
            s.last_error is None,
            s.version@ == Seq::<char>::empty(),
    {
        GatewayState {
            connection: ConnectionState::default(),
            vehicle: VehicleState::default(),
            laptop_connected: false,
            gateway_running: false,
            status_message: String::new(),
            last_error: None,
            version: String::new(),
        }
    }
}

/// The published status as plain values: what the dashboards show.
pub struct StatusModel {
    /// Tunnel connection state.
    pub connection: ConnectionState,
    /// ENET carrier up.
    pub link_up: bool,
    /// Vehicle awake (recent car traffic).
    pub awake: bool,
    /// Unix ms of the last car traffic seen.
    pub last_activity_ms: u64,
    /// Discovered vehicle gateway IP, if known.
    pub discovered_ip: Option<Seq<char>>,
    /// VIN, if known.
    pub vin: Option<Seq<char>>,
    /// Laptop/agent peer connected.
    pub laptop_connected: bool,
    /// Gateway service running.
    pub gateway_running: bool,
    /// Human-readable status line.
    pub status_message: Seq<char>,
    /// Last error, if any.
    pub last_error: Option<Seq<char>>,
    /// Software version.
    pub version: Seq<char>,
}

/// The text of an optional string.
pub open spec fn opt_text(o: Option<String>) -> Option<Seq<char>> {
    match o {
        Some(s) => Some(s@),
        None => None,
    }
}

impl View for GatewayState {
    type V = StatusModel;

    open spec fn view(&self) -> StatusModel {
        StatusModel {
            connection: self.connection,
            link_up: self.vehicle.link_up,
            awake: self.vehicle.awake,
            last_activity_ms: self.vehicle.last_activity_ms,
            discovered_ip: opt_text(self.vehicle.discovered_ip),
            vin: opt_text(self.vehicle.vin),
            laptop_connected: self.laptop_connected,
            gateway_running: self.gateway_running,
            status_message: self.status_message@,
            last_error: opt_text(self.last_error),
            version: self.version@,
        }
    }
}

impl GatewayState {
    /// Create with version stamped and status "Stopped".
    pub fn new(version: String) -> (s: Self)
        ensures
            s.connection == ConnectionState::Stopped,
            s.vehicle.is_initial(),
            !s.laptop_connected,
            !s.gateway_running,
            s.status_message@ == "Stopped"@,
            s.last_error is None,
            s.version == version,
    {
        GatewayState {
            connection: ConnectionState::Stopped,
            vehicle: VehicleState::default(),
            laptop_connected: false,
            gateway_running: false,
            status_message: String::from_str("Stopped"),
            last_error: None,
            version,
        }
    }
}

} // verus!
