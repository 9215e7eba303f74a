//! Decisions of the tunnel engines (LAN UDP and relay TCP): which peer to
//! talk to, what each received frame changes in the published status, and
//! what the periodic keepalive tick does. The engines' sockets, tasks and
//! timers perform the actions these functions choose.

use crate::addr::{allowed_by, endpoint_string, endpoint_text, ip_allowed, Endpoint};
use crate::error::ProtocolError;
use crate::crypto::SessionCrypto;
use crate::frame::{
    decoded_view, header_valid, key_of, lemma_decoded_view, parsed_header, FrameHeader, FrameType,
    TunnelFrame, FLAG_ENCRYPTED,
};
use crate::relay::RelayRole;
use crate::state::{ConnectionState, GatewayState, StatusModel};
use crate::text::{chars_equal, chars_of, joined, push_char, push_joined, push_text, texts};
use vstd::prelude::*;

verus! {

/// The role an engine plays, as its options label names it.
#[derive(Debug, Clone, Copy, PartialEq, Eq, Structural)]
pub enum TunnelRole {
    /// "agent": the laptop next to the car.
    Agent,
    /// "gateway": the desktop running the tools.
    Gateway,
    /// Any other label.
    Other,
}

/// The role a label names.
pub open spec fn role_named(label: Seq<char>) -> TunnelRole {
    if label == "agent"@ {
        TunnelRole::Agent
    } else if label == "gateway"@ {
        TunnelRole::Gateway
    } else {
        TunnelRole::Other
    }
}

/// Reads the role label of the tunnel options.
pub fn tunnel_role(label: &str) -> (r: TunnelRole)
    ensures
        r == role_named(label@),
{
    let v = chars_of(label);
    let agent = chars_of("agent");
    let gateway = chars_of("gateway");
    if chars_equal(v.as_slice(), agent.as_slice()) {
        TunnelRole::Agent
    } else if chars_equal(v.as_slice(), gateway.as_slice()) {
        TunnelRole::Gateway
    } else {
        TunnelRole::Other
    }
}

/// The role an engine announces to the relay: "gateway" joins as the
/// gateway, every other label as the agent.
pub fn relay_role_for(role: TunnelRole) -> (r: RelayRole)
    ensures
        r == (if role == TunnelRole::Gateway {
            RelayRole::Gateway
        } else {
            RelayRole::Agent
        }),
{
    match role {
        TunnelRole::Gateway => RelayRole::Gateway,
        _ => RelayRole::Agent,
    }
}

/// Why an engine refuses to start.
#[derive(Debug, Clone, Copy, PartialEq, Eq, Structural)]
pub enum StartError {
    /// Encryption is required but no password was configured.
    PasswordMissing,
}

impl StartError {
    /// The message shown to the user.
    pub fn message(self) -> (s: &'static str)
        ensures
            s@ == "require_crypto is set but no password is configured — set the same password on both PCs"@,
    {
        "require_crypto is set but no password is configured — set the same password on both PCs"
    }
}

/// An engine starts unless encryption is required without a key.
pub fn check_start(require_crypto: bool, has_crypto: bool) -> (r: Result<(), StartError>)
    ensures
        r is Err <==> (require_crypto && !has_crypto),
{
    if require_crypto && !has_crypto {
        Err(StartError::PasswordMissing)
    } else {
        Ok(())
    }
}

/// What to do with the sender of a received datagram.
#[derive(Debug, Clone, Copy, PartialEq, Eq, Structural)]
pub enum PeerDecision {
    /// Drop the datagram.
    Drop,
    /// Make `0` the tunnel peer: announce it and restart loss tracking.
    Switch(Endpoint),
    /// The current peer's address (maybe from another port): talk to `peer`;
    /// restart loss tracking when `resync`.
    Refresh { peer: Endpoint, resync: bool },
    /// Accept the datagram and keep the current peer.
    Keep,
}

/// The peer rule of the LAN engine, for an allowed sender `src`.
///
/// No peer yet: learn `src`. Same IP as the peer: follow its port. Another
/// IP: an agent with a fixed peer follows a reply from the tunnel port (a
/// multi-homed desktop), drops anything else; without a fixed peer the
/// gateway takes the newcomer and other roles keep their peer.
pub open spec fn peer_decision(
    role: TunnelRole,
    configured: Option<Endpoint>,
    slot: Option<Endpoint>,
    src: Endpoint,
) -> PeerDecision {
    match slot {
        None => PeerDecision::Switch(src),
        Some(existing) => if existing.ip != src.ip {
            let tunnel_port = match configured {
                Some(p) => p.port,
                None => existing.port,
            };
            if role == TunnelRole::Agent && configured is Some && src.port == tunnel_port {
                PeerDecision::Switch(Endpoint { ip: src.ip, port: tunnel_port })
            } else if configured is Some {
                PeerDecision::Drop
            } else if role == TunnelRole::Gateway {
                PeerDecision::Switch(src)
            } else {
                PeerDecision::Keep
            }
        } else {
            PeerDecision::Refresh { peer: src, resync: existing != src }
        },
    }
}

/// The peer slot after a decision.
pub open spec fn slot_after(slot: Option<Endpoint>, d: PeerDecision) -> Option<Endpoint> {
    match d {
        PeerDecision::Switch(p) => Some(p),
        PeerDecision::Refresh { peer, .. } => Some(peer),
        _ => slot,
    }
}

/// Decides what the sender `src` of a datagram means for the peer slot:
/// senders outside the allow-list are dropped, the others follow
/// [`peer_decision`].
pub fn decide_peer(
    role: TunnelRole,
    configured: Option<Endpoint>,
    allowed_cidrs: &[String],
    slot: Option<Endpoint>,
    src: Endpoint,
) -> (d: PeerDecision)
    ensures
        d == (if allowed_by(src.ip, allowed_cidrs@) {
            peer_decision(role, configured, slot, src)
        } else {
            PeerDecision::Drop
        }),
{
    if !ip_allowed(src.ip, allowed_cidrs) {
        return PeerDecision::Drop;
    }
    match slot {
        None => PeerDecision::Switch(src),
        Some(existing) => {
            if existing.ip != src.ip {
                let tunnel_port = match configured {
                    Some(p) => p.port,
                    None => existing.port,
                };
                if role == TunnelRole::Agent && configured.is_some() && src.port == tunnel_port {
                    PeerDecision::Switch(Endpoint { ip: src.ip, port: tunnel_port })
                } else if configured.is_some() {
                    PeerDecision::Drop
                } else if role == TunnelRole::Gateway {
                    PeerDecision::Switch(src)
                } else {
                    PeerDecision::Keep
                }
            } else {
                PeerDecision::Refresh { peer: src, resync: existing != src }
            }
        },
    }
}

/// The peer slot after applying a decision.
pub fn apply_peer_decision(slot: Option<Endpoint>, d: PeerDecision) -> (r: Option<Endpoint>)
    ensures
        r == slot_after(slot, d),
{
    match d {
        PeerDecision::Switch(p) => Some(p),
        PeerDecision::Refresh { peer, .. } => Some(peer),
        _ => slot,
    }
}

/// With encryption required, a datagram that is not an encrypted frame
/// (or no frame at all) is refused before decoding.
pub open spec fn refuses_plaintext(require_crypto: bool, data: Seq<u8>) -> bool {
    require_crypto && !(header_valid(data) && parsed_header(data).flags & FLAG_ENCRYPTED != 0)
}

/// Whether a received datagram is refused for being plaintext.
pub fn plaintext_refused(require_crypto: bool, data: &[u8]) -> (r: bool)
    ensures
        r == refuses_plaintext(require_crypto, data@),
{
    if !require_crypto {
        return false;
    }
    match TunnelFrame::is_encrypted_raw(data) {
        Ok(enc) => !enc,
        Err(_) => true,
    }
}

/// The sequence number that loss tracking sees: only Ethernet frames share
/// one sequence space.
pub fn loss_sequence(frame_type: FrameType, sequence: u64) -> (r: Option<u64>)
    ensures
        r == (if frame_type == FrameType::Ethernet {
            Some(sequence)
        } else {
            None
        }),
{
    if frame_type == FrameType::Ethernet {
        Some(sequence)
    } else {
        None
    }
}

/// A keepalive whose cookie (big-endian, byte 7) is 1 is a reply, not a probe.
pub fn keepalive_is_reply(payload: &[u8]) -> (r: bool)
    ensures
        r == (payload@.len() >= 8 && payload@[7] == 1u8),
{
    payload.len() >= 8 && payload[7] == 1u8
}

/// The round trip of an echoed low-32-bit millisecond timestamp: the
/// wrapping difference to `now_lo`, when it is positive and at most a minute.
pub open spec fn echo_rtt(now_lo: u32, ts_lo: u32) -> Option<u32> {
    let delta = if now_lo >= ts_lo {
        (now_lo - ts_lo) as u32
    } else {
        (now_lo + 0x1_0000_0000 - ts_lo) as u32
    };
    if 0 < delta && delta <= 60_000 {
        Some(delta)
    } else {
        None
    }
}

/// Round-trip milliseconds of a keepalive reply, if plausible.
pub fn echo_rtt_ms(now_lo: u32, ts_lo: u32) -> (r: Option<u32>)
    ensures
        r == echo_rtt(now_lo, ts_lo),
{
    let delta = now_lo.wrapping_sub(ts_lo);
    if 0 < delta && delta <= 60_000 {
        Some(delta)
    } else {
        None
    }
}

/// Low 32 bits of a millisecond clock, as timestamps carry it.
pub fn clock_low(now_ms: u64) -> (r: u32)
    ensures
        r == now_ms % 0x1_0000_0000,
{
    let r = (now_ms & 0xffff_ffffu64) as u32;
    assert((now_ms & 0xffff_ffffu64) == now_ms % 0x1_0000_0000) by (bit_vector);
    r
}

// ---------------------------------------------------------------------------
// Status transitions of the LAN engine.
// ---------------------------------------------------------------------------

/// The engine has bound its socket.
pub open spec fn after_start(m: StatusModel) -> StatusModel {
    StatusModel {
        connection: ConnectionState::Starting,
        gateway_running: true,
        status_message: "Starting"@,
        ..m
    }
}

/// The engine waits for its peer (a fixed one, or the first agent to call).
pub open spec fn after_waiting(m: StatusModel, peer: Option<Endpoint>) -> StatusModel {
    StatusModel {
        connection: ConnectionState::WaitingForPeer,
        status_message: match peer {
            Some(p) => "Waiting for peer at "@ + endpoint_text(p),
            None => "Waiting for agent connection"@,
        },
        ..m
    }
}

/// The agent forwarded a frame from the car: that is car activity, and the
/// car is awake when the ENET carrier is up.
pub open spec fn after_car_frame_sent(m: StatusModel, role: TunnelRole, now_ms: u64) -> StatusModel {
    if role == TunnelRole::Agent {
        StatusModel { last_activity_ms: now_ms, awake: m.awake || m.link_up, ..m }
    } else {
        m
    }
}

/// A tunnelled Ethernet frame reached the local port (`via_relay` selects
/// the relay engine's wording). On the gateway it is car activity too.
pub open spec fn after_ethernet_injected(
    m: StatusModel,
    role: TunnelRole,
    now_ms: u64,
    via_relay: bool,
) -> StatusModel {
    let c = StatusModel {
        connection: ConnectionState::Connected,
        laptop_connected: true,
        status_message: connected_text(via_relay),
        ..m
    };
    if role == TunnelRole::Gateway {
        StatusModel { last_activity_ms: now_ms, awake: c.awake || c.link_up, ..c }
    } else {
        c
    }
}

/// "Connected", or "Connected via relay".
pub open spec fn connected_text(via_relay: bool) -> Seq<char> {
    if via_relay {
        "Connected via relay"@
    } else {
        "Connected"@
    }
}

/// A keepalive arrived on the LAN engine.
pub open spec fn after_keepalive(m: StatusModel) -> StatusModel {
    StatusModel { connection: ConnectionState::Connected, laptop_connected: true, ..m }
}

/// A Status control payload arrived: the gateway takes the laptop's vehicle
/// flags (the agent owns them and ignores the desktop's); the agent treats
/// the desktop's Status as proof that the tunnel is up.
pub open spec fn after_status_control(
    m: StatusModel,
    role: TunnelRole,
    vehicle_link: bool,
    vehicle_awake: bool,
) -> StatusModel {
    if role == TunnelRole::Gateway {
        StatusModel { link_up: vehicle_link, awake: vehicle_awake, laptop_connected: true, ..m }
    } else {
        StatusModel {
            laptop_connected: true,
            connection: ConnectionState::Connected,
            status_message: "Connected"@,
            ..m
        }
    }
}

/// A Hello control payload arrived.
pub open spec fn after_hello_control(m: StatusModel, role: Seq<char>, hostname: Seq<char>) -> StatusModel {
    StatusModel { status_message: "Hello from "@ + role + seq!['@'] + hostname, ..m }
}

/// A safety probe arrived; an unsafe result is shown with its reasons.
pub open spec fn after_safety_control(m: StatusModel, safe: bool, reasons: Seq<Seq<char>>) -> StatusModel {
    if safe {
        m
    } else {
        StatusModel { status_message: "Safety: "@ + joined(reasons, "; "@), ..m }
    }
}

/// Any control frame proves the path is live both ways.
pub open spec fn after_control_frame(m: StatusModel) -> StatusModel {
    StatusModel {
        connection: ConnectionState::Connected,
        laptop_connected: true,
        status_message: "Connected"@,
        ..m
    }
}

/// The peer said goodbye; the gateway forgets the laptop's vehicle flags.
pub open spec fn after_goodbye(m: StatusModel, role: TunnelRole) -> StatusModel {
    let c = StatusModel {
        connection: ConnectionState::Reconnecting,
        laptop_connected: false,
        status_message: "Peer disconnected"@,
        ..m
    };
    if role == TunnelRole::Gateway {
        StatusModel { link_up: false, awake: false, ..c }
    } else {
        c
    }
}

/// Milliseconds since the last car traffic (0 when the clock went back).
pub open spec fn activity_age(now_ms: u64, last_ms: u64) -> int {
    if now_ms >= last_ms {
        now_ms - last_ms
    } else {
        0
    }
}

/// The agent polled its ENET carrier: no carrier means asleep, and awake
/// expires after ten seconds without car traffic.
pub open spec fn after_link_refresh(m: StatusModel, link: bool, now_ms: u64) -> StatusModel {
    StatusModel {
        link_up: link,
        awake: if !link {
            false
        } else if m.awake && m.last_activity_ms > 0 && activity_age(now_ms, m.last_activity_ms)
            > 10_000 {
            false
        } else {
            m.awake
        },
        ..m
    }
}

/// The peer stayed silent past the timeout: the gateway reconnects and
/// forgets the vehicle flags; the agent fails so that it looks for the
/// desktop again.
pub open spec fn after_peer_timeout(m: StatusModel, role: TunnelRole) -> StatusModel {
    if role == TunnelRole::Gateway {
        StatusModel {
            laptop_connected: false,
            connection: ConnectionState::Reconnecting,
            status_message: "Peer timeout — reconnecting"@,
            link_up: false,
            awake: false,
            ..m
        }
    } else {
        StatusModel {
            laptop_connected: false,
            connection: ConnectionState::Failed,
            status_message: "Peer timeout — re-detecting desktop IP"@,
            ..m
        }
    }
}

/// Marks the engine as starting.
pub fn mark_started(st: &mut GatewayState)
    ensures
        final(st)@ == after_start(old(st)@),
{
    st.connection = ConnectionState::Starting;
    st.gateway_running = true;
    st.status_message = crate::text::text_string("Starting");
}

/// Marks the engine as waiting for its peer.
pub fn mark_waiting(st: &mut GatewayState, peer: Option<Endpoint>)
    ensures
        final(st)@ == after_waiting(old(st)@, peer),
{
    st.connection = ConnectionState::WaitingForPeer;
    match peer {
        Some(p) => {
            let mut msg = crate::text::text_string("Waiting for peer at ");
            let t = endpoint_string(p);
            push_text(&mut msg, t.as_str());
            st.status_message = msg;
        },
        None => {
            st.status_message = crate::text::text_string("Waiting for agent connection");
        },
    }
}

/// Records that a car frame went out through the tunnel.
pub fn note_car_frame_sent(st: &mut GatewayState, role: TunnelRole, now_ms: u64)
    ensures
        final(st)@ == after_car_frame_sent(old(st)@, role, now_ms),
{
    if role == TunnelRole::Agent {
        st.vehicle.last_activity_ms = now_ms;
        if st.vehicle.link_up {
            st.vehicle.awake = true;
        }
    }
}

/// Records that a tunnelled Ethernet frame was injected locally.
pub fn note_ethernet_injected(st: &mut GatewayState, role: TunnelRole, now_ms: u64, via_relay: bool)
    ensures
        final(st)@ == after_ethernet_injected(old(st)@, role, now_ms, via_relay),
{
    st.connection = ConnectionState::Connected;
    st.laptop_connected = true;
    st.status_message = if via_relay {
        crate::text::text_string("Connected via relay")
    } else {
        crate::text::text_string("Connected")
    };
    if role == TunnelRole::Gateway {
        st.vehicle.last_activity_ms = now_ms;
        if st.vehicle.link_up {
            st.vehicle.awake = true;
        }
    }
}

/// Records a received keepalive (LAN engine).
pub fn note_keepalive(st: &mut GatewayState)
    ensures
        final(st)@ == after_keepalive(old(st)@),
{
    st.connection = ConnectionState::Connected;
    st.laptop_connected = true;
}

/// Applies a received Status payload.
pub fn apply_status_control(st: &mut GatewayState, role: TunnelRole, vehicle_link: bool, vehicle_awake: bool)
    ensures
        final(st)@ == after_status_control(old(st)@, role, vehicle_link, vehicle_awake),
{
    if role == TunnelRole::Gateway {
        st.vehicle.link_up = vehicle_link;
        st.vehicle.awake = vehicle_awake;
        st.laptop_connected = true;
    } else {
        st.laptop_connected = true;
        st.connection = ConnectionState::Connected;
        st.status_message = crate::text::text_string("Connected");
    }
}

/// Applies a received Hello payload.
pub fn apply_hello_control(st: &mut GatewayState, role: &str, hostname: &str)
    ensures
        final(st)@ == after_hello_control(old(st)@, role@, hostname@),
{
    let mut msg = crate::text::text_string("Hello from ");
    push_text(&mut msg, role);
    push_char(&mut msg, '@');
    push_text(&mut msg, hostname);
    assert(msg@ =~= "Hello from "@ + role@ + seq!['@'] + hostname@);
    st.status_message = msg;
}

/// Applies a received safety probe.
pub fn apply_safety_control(st: &mut GatewayState, safe: bool, reasons: &[String])
    ensures
        final(st)@ == after_safety_control(old(st)@, safe, texts(reasons@)),
{
    if !safe {
        let mut msg = crate::text::text_string("Safety: ");
        push_joined(&mut msg, reasons, "; ");
        st.status_message = msg;
    }
}

/// Records that a control frame arrived.
pub fn note_control_frame(st: &mut GatewayState)
    ensures
        final(st)@ == after_control_frame(old(st)@),
{
    st.connection = ConnectionState::Connected;
    st.laptop_connected = true;
    st.status_message = crate::text::text_string("Connected");
}

/// Records the peer's goodbye.
pub fn note_goodbye(st: &mut GatewayState, role: TunnelRole)
    ensures
        final(st)@ == after_goodbye(old(st)@, role),
{
    st.connection = ConnectionState::Reconnecting;
    st.laptop_connected = false;
    st.status_message = crate::text::text_string("Peer disconnected");
    if role == TunnelRole::Gateway {
        st.vehicle.link_up = false;
        st.vehicle.awake = false;
    }
}

/// Records a poll of the ENET carrier (agent).
pub fn refresh_vehicle_link(st: &mut GatewayState, link: bool, now_ms: u64)
    ensures
        final(st)@ == after_link_refresh(old(st)@, link, now_ms),
{
    st.vehicle.link_up = link;
    if !link {
        st.vehicle.awake = false;
    } else if st.vehicle.awake {
        let age = now_ms.saturating_sub(st.vehicle.last_activity_ms);
        if st.vehicle.last_activity_ms > 0 && age > 10_000 {
            st.vehicle.awake = false;
        }
    }
}

/// Records a peer timeout.
pub fn note_peer_timeout(st: &mut GatewayState, role: TunnelRole)
    ensures
        final(st)@ == after_peer_timeout(old(st)@, role),
{
    st.laptop_connected = false;
    if role == TunnelRole::Gateway {
        st.connection = ConnectionState::Reconnecting;
        st.status_message = crate::text::text_string("Peer timeout — reconnecting");
        st.vehicle.link_up = false;
        st.vehicle.awake = false;
    } else {
        st.connection = ConnectionState::Failed;
        st.status_message = crate::text::text_string("Peer timeout — re-detecting desktop IP");
    }
}

// ---------------------------------------------------------------------------
// Status transitions of the relay engine.
// ---------------------------------------------------------------------------

/// The engine joined its relay room.
pub open spec fn after_relay_joined(m: StatusModel, relay_url: Seq<char>) -> StatusModel {
    StatusModel {
        connection: ConnectionState::WaitingForPeer,
        gateway_running: true,
        status_message: "Joined relay "@ + relay_url,
        ..m
    }
}

/// A keepalive (probe or reply) arrived over the relay.
pub open spec fn after_relay_keepalive(m: StatusModel) -> StatusModel {
    StatusModel {
        connection: ConnectionState::Connected,
        laptop_connected: true,
        status_message: "Connected via relay"@,
        ..m
    }
}

/// A readable control payload arrived over the relay; `status` holds the
/// vehicle flags of a Status payload.
pub open spec fn after_relay_control(m: StatusModel, role: TunnelRole, status: Option<(bool, bool)>) -> StatusModel {
    let s = match status {
        Some((link, awake)) => if role == TunnelRole::Gateway {
            StatusModel { link_up: link, awake: awake, laptop_connected: true, ..m }
        } else {
            StatusModel { laptop_connected: true, ..m }
        },
        None => m,
    };
    StatusModel {
        connection: ConnectionState::Connected,
        status_message: "Connected via relay"@,
        ..s
    }
}

/// The peer said goodbye over the relay.
pub open spec fn after_relay_goodbye(m: StatusModel, role: TunnelRole) -> StatusModel {
    let c = StatusModel { connection: ConnectionState::Reconnecting, laptop_connected: false, ..m };
    if role == TunnelRole::Gateway {
        StatusModel { link_up: false, awake: false, ..c }
    } else {
        c
    }
}

/// The relay peer stayed silent past the timeout: a connected engine stops
/// claiming to be connected.
pub open spec fn after_relay_silence(m: StatusModel, role: TunnelRole) -> StatusModel {
    if m.connection == ConnectionState::Connected {
        let c = StatusModel {
            connection: ConnectionState::Reconnecting,
            laptop_connected: false,
            status_message: "Relay peer timeout — waiting"@,
            ..m
        };
        if role == TunnelRole::Gateway {
            StatusModel { link_up: false, awake: false, ..c }
        } else {
            c
        }
    } else {
        m
    }
}

/// The relay connection died.
pub open spec fn after_relay_lost(m: StatusModel) -> StatusModel {
    StatusModel {
        connection: ConnectionState::Failed,
        laptop_connected: false,
        status_message: "Relay connection lost"@,
        ..m
    }
}

/// Marks the engine as joined to its relay room.
pub fn mark_relay_joined(st: &mut GatewayState, relay_url: &str)
    ensures
        final(st)@ == after_relay_joined(old(st)@, relay_url@),
{
    st.connection = ConnectionState::WaitingForPeer;
    st.gateway_running = true;
    let mut msg = crate::text::text_string("Joined relay ");
    push_text(&mut msg, relay_url);
    st.status_message = msg;
}

/// Records a keepalive received over the relay.
pub fn note_relay_keepalive(st: &mut GatewayState)
    ensures
        final(st)@ == after_relay_keepalive(old(st)@),
{
    st.connection = ConnectionState::Connected;
    st.laptop_connected = true;
    st.status_message = crate::text::text_string("Connected via relay");
}

/// Applies a readable control payload received over the relay.
pub fn apply_relay_control(st: &mut GatewayState, role: TunnelRole, status: Option<(bool, bool)>)
    ensures
        final(st)@ == after_relay_control(old(st)@, role, status),
{
    match status {
        Some((link, awake)) => {
            if role == TunnelRole::Gateway {
                st.vehicle.link_up = link;
                st.vehicle.awake = awake;
            }
            st.laptop_connected = true;
        },
        None => {},
    }
    st.connection = ConnectionState::Connected;
    st.status_message = crate::text::text_string("Connected via relay");
}

/// Records the peer's goodbye over the relay.
pub fn note_relay_goodbye(st: &mut GatewayState, role: TunnelRole)
    ensures
        final(st)@ == after_relay_goodbye(old(st)@, role),
{
    st.connection = ConnectionState::Reconnecting;
    st.laptop_connected = false;
    if role == TunnelRole::Gateway {
        st.vehicle.link_up = false;
        st.vehicle.awake = false;
    }
}

/// Records relay peer silence; returns whether a reconnect is to be counted.
pub fn note_relay_silence(st: &mut GatewayState, role: TunnelRole) -> (counted: bool)
    ensures
        final(st)@ == after_relay_silence(old(st)@, role),
        counted == (old(st).connection == ConnectionState::Connected),
{
    if st.connection == ConnectionState::Connected {
        st.connection = ConnectionState::Reconnecting;
        st.laptop_connected = false;
        st.status_message = crate::text::text_string("Relay peer timeout — waiting");
        if role == TunnelRole::Gateway {
            st.vehicle.link_up = false;
            st.vehicle.awake = false;
        }
        true
    } else {
        false
    }
}

/// Records that the relay connection died.
pub fn note_relay_lost(st: &mut GatewayState)
    ensures
        final(st)@ == after_relay_lost(old(st)@),
{
    st.connection = ConnectionState::Failed;
    st.laptop_connected = false;
    st.status_message = crate::text::text_string("Relay connection lost");
}

// ---------------------------------------------------------------------------
// The keepalive tick.
// ---------------------------------------------------------------------------

/// Keepalive period of the LAN engine: agents probe every 200–250 ms to keep
/// the laptop's Wi-Fi awake, others at most every 200 ms.
pub open spec fn probe_interval(role: TunnelRole, configured_ms: u64) -> u64 {
    if role == TunnelRole::Agent {
        if configured_ms < 200 {
            200
        } else if configured_ms > 250 {
            250
        } else {
            configured_ms
        }
    } else if configured_ms < 200 {
        200
    } else {
        configured_ms
    }
}

/// Keepalive period of the LAN engine.
pub fn probe_interval_ms(role: TunnelRole, keepalive_interval_ms: u64) -> (ms: u64)
    ensures
        ms == probe_interval(role, keepalive_interval_ms),
        role == TunnelRole::Agent ==> 200 <= ms <= 250,
        ms >= 200,
{
    if role == TunnelRole::Agent {
        if keepalive_interval_ms < 200 {
            200
        } else if keepalive_interval_ms > 250 {
            250
        } else {
            keepalive_interval_ms
        }
    } else if keepalive_interval_ms < 200 {
        200
    } else {
        keepalive_interval_ms
    }
}

/// Peer silence tolerated by the LAN engine: at least 20 s on the agent
/// (Wi-Fi sleep), at least 1 s elsewhere.
pub fn peer_timeout_ms(role: TunnelRole, configured_ms: u64) -> (ms: u64)
    ensures
        ms == (if role == TunnelRole::Agent {
            if configured_ms < 20_000 {
                20_000
            } else {
                configured_ms
            }
        } else if configured_ms < 1000 {
            1000
        } else {
            configured_ms
        }),
{
    if role == TunnelRole::Agent {
        if configured_ms < 20_000 {
            20_000
        } else {
            configured_ms
        }
    } else if configured_ms < 1000 {
        1000
    } else {
        configured_ms
    }
}

/// Keepalive period of the relay engine: at least 500 ms.
pub fn relay_probe_interval_ms(configured_ms: u64) -> (ms: u64)
    ensures
        ms == (if configured_ms < 500 {
            500
        } else {
            configured_ms
        }),
{
    if configured_ms < 500 {
        500
    } else {
        configured_ms
    }
}

/// Peer silence tolerated by the relay engine: at least 15 s.
pub fn relay_peer_timeout_ms(configured_ms: u64) -> (ms: u64)
    ensures
        ms == (if configured_ms < 15_000 {
            15_000
        } else {
            configured_ms
        }),
{
    if configured_ms < 15_000 {
        15_000
    } else {
        configured_ms
    }
}

/// The next tick count (wrapping).
pub fn next_tick(tick: u32) -> (r: u32)
    ensures
        r == (if tick == u32::MAX {
            0
        } else {
            tick + 1
        }),
{
    tick.wrapping_add(1)
}

/// While not connected, the agent resends its Hello every fifth tick.
pub fn should_resend_hello(role: TunnelRole, tick: u32, connection: ConnectionState) -> (r: bool)
    ensures
        r == (role == TunnelRole::Agent && tick % 5 == 1 && connection != ConnectionState::Connected),
{
    role == TunnelRole::Agent && tick % 5 == 1 && connection != ConnectionState::Connected
}

/// The gateway reports its status on every tick, the agent on every fourth.
pub fn should_send_status(role: TunnelRole, tick: u32) -> (r: bool)
    ensures
        r == (role != TunnelRole::Agent || tick % 4 == 0),
{
    role != TunnelRole::Agent || tick % 4 == 0
}

/// The flags a Status payload carries: (vehicle link, vehicle awake, peer
/// connected). Only the agent reports vehicle flags.
pub fn status_flags(st: &GatewayState, role: TunnelRole) -> (r: (bool, bool, bool))
    ensures
        r.0 == (role == TunnelRole::Agent && st.vehicle.link_up),
        r.1 == (role == TunnelRole::Agent && st.vehicle.awake),
        r.2 == (st.connection == ConnectionState::Connected),
{
    let agent = role == TunnelRole::Agent;
    (agent && st.vehicle.link_up, agent && st.vehicle.awake, st.connection == ConnectionState::Connected)
}

/// A known peer that stayed silent longer than the timeout has timed out.
pub fn peer_timed_out(has_peer: bool, silent_ms: u64, timeout_ms: u64) -> (r: bool)
    ensures
        r == (has_peer && silent_ms > timeout_ms),
{
    has_peer && silent_ms > timeout_ms
}

// ---------------------------------------------------------------------------
// Laws.
// ---------------------------------------------------------------------------

/// The vehicle is only ever reported awake with its ENET link up.
pub open spec fn awake_needs_link(m: StatusModel) -> bool {
    m.awake ==> m.link_up
}

/// Every status transition keeps "awake implies link up", provided a
/// Status payload from the laptop obeys it too; a carrier poll restores it.
pub proof fn lemma_awake_needs_link(
    m: StatusModel,
    role: TunnelRole,
    now_ms: u64,
    link: bool,
    vehicle_link: bool,
    vehicle_awake: bool,
    via_relay: bool,
    peer: Option<Endpoint>,
    text: Seq<char>,
    reasons: Seq<Seq<char>>,
    safe: bool,
)
    requires
        awake_needs_link(m),
        vehicle_awake ==> vehicle_link,
    ensures
        awake_needs_link(after_start(m)),
        awake_needs_link(after_waiting(m, peer)),
        awake_needs_link(after_car_frame_sent(m, role, now_ms)),
        awake_needs_link(after_ethernet_injected(m, role, now_ms, via_relay)),
        awake_needs_link(after_keepalive(m)),
        awake_needs_link(after_status_control(m, role, vehicle_link, vehicle_awake)),
        awake_needs_link(after_hello_control(m, text, text)),
        awake_needs_link(after_safety_control(m, safe, reasons)),
        awake_needs_link(after_control_frame(m)),
        awake_needs_link(after_goodbye(m, role)),
        awake_needs_link(after_peer_timeout(m, role)),
        awake_needs_link(after_relay_joined(m, text)),
        awake_needs_link(after_relay_keepalive(m)),
        awake_needs_link(after_relay_control(m, role, Some((vehicle_link, vehicle_awake)))),
        awake_needs_link(after_relay_control(m, role, None)),
        awake_needs_link(after_relay_goodbye(m, role)),
        awake_needs_link(after_relay_silence(m, role)),
        awake_needs_link(after_relay_lost(m)),
        forall|any: StatusModel| #[trigger] awake_needs_link(after_link_refresh(any, link, now_ms)),
{
}

/// The laptop agent owns the vehicle flags: nothing the desktop sends
/// changes them on the agent.
pub proof fn lemma_agent_keeps_vehicle_flags(
    m: StatusModel,
    vehicle_link: bool,
    vehicle_awake: bool,
    status: Option<(bool, bool)>,
)
    ensures
        after_status_control(m, TunnelRole::Agent, vehicle_link, vehicle_awake).link_up == m.link_up,
        after_status_control(m, TunnelRole::Agent, vehicle_link, vehicle_awake).awake == m.awake,
        after_relay_control(m, TunnelRole::Agent, status).link_up == m.link_up,
        after_relay_control(m, TunnelRole::Agent, status).awake == m.awake,
        after_goodbye(m, TunnelRole::Agent).link_up == m.link_up,
        after_goodbye(m, TunnelRole::Agent).awake == m.awake,
        after_peer_timeout(m, TunnelRole::Agent).link_up == m.link_up,
        after_peer_timeout(m, TunnelRole::Agent).awake == m.awake,
{
}

/// Traffic from the peer marks the tunnel connected; losing the peer never
/// leaves the laptop reported as connected.
pub proof fn lemma_traffic_connects_silence_disconnects(
    m: StatusModel,
    role: TunnelRole,
    now_ms: u64,
    via_relay: bool,
    status: Option<(bool, bool)>,
)
    ensures
        after_ethernet_injected(m, role, now_ms, via_relay).connection == ConnectionState::Connected,
        after_ethernet_injected(m, role, now_ms, via_relay).laptop_connected,
        after_keepalive(m).connection == ConnectionState::Connected,
        after_control_frame(m).connection == ConnectionState::Connected,
        after_relay_keepalive(m).connection == ConnectionState::Connected,
        after_relay_control(m, role, status).connection == ConnectionState::Connected,
        !after_goodbye(m, role).laptop_connected,
        after_goodbye(m, role).connection != ConnectionState::Connected,
        !after_peer_timeout(m, role).laptop_connected,
        after_peer_timeout(m, role).connection != ConnectionState::Connected,
        !after_relay_goodbye(m, role).laptop_connected,
        after_relay_silence(m, role).connection != ConnectionState::Connected,
        m.connection == ConnectionState::Connected ==> !after_relay_silence(m, role).laptop_connected,
        !after_relay_lost(m).laptop_connected,
{
}

/// The first allowed sender becomes the peer; a gateway without a fixed
/// peer always follows the latest allowed sender; senders outside the
/// allow-list never change the peer.
pub proof fn lemma_peer_learning(
    role: TunnelRole,
    configured: Option<Endpoint>,
    cidrs: Seq<String>,
    slot: Option<Endpoint>,
    src: Endpoint,
)
    ensures
        allowed_by(src.ip, cidrs) && slot is None ==> slot_after(
            slot,
            if allowed_by(src.ip, cidrs) {
                peer_decision(role, configured, slot, src)
            } else {
                PeerDecision::Drop
            },
        ) == Some(src),
        allowed_by(src.ip, cidrs) && role == TunnelRole::Gateway && configured is None ==> slot_after(
            slot,
            peer_decision(role, configured, slot, src),
        ) == Some(src),
        !allowed_by(src.ip, cidrs) ==> slot_after(slot, PeerDecision::Drop) == slot,
{
}

/// With a fixed peer configured, a sender at another address is dropped,
/// except that an agent follows a reply from the configured tunnel port.
pub proof fn lemma_fixed_peer_guarded(
    role: TunnelRole,
    configured: Endpoint,
    existing: Endpoint,
    src: Endpoint,
)
    requires
        existing.ip != src.ip,
    ensures
        peer_decision(role, Some(configured), Some(existing), src) == (if role == TunnelRole::Agent
            && src.port == configured.port {
            PeerDecision::Switch(Endpoint { ip: src.ip, port: configured.port })
        } else {
            PeerDecision::Drop
        }),
{
}

// ---------------------------------------------------------------------------
// Receiving: one step per datagram (LAN) or relay message.
// ---------------------------------------------------------------------------

/// What the engine does with a decoded frame.
pub enum FrameAction {
    /// Inject the Ethernet frame into the local port; on success the status
    /// takes [`note_ethernet_injected`].
    Inject(Vec<u8>),
    /// A keepalive: answer a probe with a reply echoing its timestamp, and
    /// take the round trip of an answered own probe as an RTT sample.
    Keepalive {
        /// Timestamp to echo in the reply (a probe), or none (a reply).
        reply_echo: Option<u32>,
        /// RTT sample in milliseconds, for a reply to one of ours.
        rtt_ms: Option<u32>,
    },
    /// A control payload to parse and apply; a Hello is acknowledged with a
    /// keepalive reply.
    Control {
        /// Hello, Status or SafetyProbe.
        kind: FrameType,
        /// The payload to parse.
        payload: Vec<u8>,
        /// Answer with a keepalive reply.
        ack_hello: bool,
    },
    /// The peer said goodbye (the status has already taken it).
    Goodbye,
    /// Nothing to do (an Ack).
    Ignore,
}

/// A frame action as plain values.
pub enum ActionModel {
    /// Inject these bytes.
    Inject(Seq<u8>),
    /// Keepalive reply / RTT sample.
    Keepalive { reply_echo: Option<u32>, rtt_ms: Option<u32> },
    /// Control payload.
    Control { kind: FrameType, payload: Seq<u8>, ack_hello: bool },
    /// Goodbye.
    Goodbye,
    /// Nothing.
    Ignore,
}

/// A frame action seen by value.
pub open spec fn action_view(a: FrameAction) -> ActionModel {
    match a {
        FrameAction::Inject(p) => ActionModel::Inject(p@),
        FrameAction::Keepalive { reply_echo, rtt_ms } => ActionModel::Keepalive { reply_echo, rtt_ms },
        FrameAction::Control { kind, payload, ack_hello } => ActionModel::Control {
            kind,
            payload: payload@,
            ack_hello,
        },
        FrameAction::Goodbye => ActionModel::Goodbye,
        FrameAction::Ignore => ActionModel::Ignore,
    }
}

/// What a decoded frame asks of the engine, `now_lo` being the low 32 bits
/// of the clock in milliseconds.
pub open spec fn frame_action(h: FrameHeader, p: Seq<u8>, now_lo: u32) -> ActionModel {
    match h.frame_type {
        FrameType::Ethernet => ActionModel::Inject(p),
        FrameType::Keepalive => {
            let is_reply = p.len() >= 8 && p[7] == 1u8;
            ActionModel::Keepalive {
                reply_echo: if is_reply {
                    None
                } else {
                    Some(h.timestamp_ms_lo)
                },
                rtt_ms: if is_reply {
                    echo_rtt(now_lo, h.timestamp_ms_lo)
                } else {
                    None
                },
            }
        },
        FrameType::Goodbye => ActionModel::Goodbye,
        FrameType::Ack => ActionModel::Ignore,
        _ => ActionModel::Control { kind: h.frame_type, payload: p, ack_hello: h.frame_type == FrameType::Hello },
    }
}

/// What a received message leads to.
pub enum RxOutcome {
    /// Refused (non-peer sender or plaintext under required encryption):
    /// count a drop.
    Dropped,
    /// Not a readable frame: count an error.
    Undecodable,
    /// A frame: count it as received (with its sequence number when it
    /// carries Ethernet data), then act.
    Frame {
        /// Sequence number for loss tracking.
        rx_sequence: Option<u64>,
        /// What to do.
        action: FrameAction,
    },
}

/// An outcome as plain values.
pub enum OutcomeModel {
    /// Count a drop.
    Dropped,
    /// Count an error.
    Undecodable,
    /// Count the frame, then act.
    Frame { rx_sequence: Option<u64>, action: ActionModel },
}

/// An outcome seen by value.
pub open spec fn outcome_view(o: RxOutcome) -> OutcomeModel {
    match o {
        RxOutcome::Dropped => OutcomeModel::Dropped,
        RxOutcome::Undecodable => OutcomeModel::Undecodable,
        RxOutcome::Frame { rx_sequence, action } => OutcomeModel::Frame { rx_sequence, action: action_view(action) },
    }
}

/// What an accepted message leads to: plaintext is refused when encryption
/// is required, an unreadable message is an error, a frame is acted on.
pub open spec fn message_outcome(require_crypto: bool, key: Option<Seq<u8>>, data: Seq<u8>, now_lo: u32) -> OutcomeModel {
    if refuses_plaintext(require_crypto, data) {
        OutcomeModel::Dropped
    } else {
        match decoded_view(data, key) {
            None => OutcomeModel::Undecodable,
            Some((h, p)) => OutcomeModel::Frame {
                rx_sequence: if h.frame_type == FrameType::Ethernet {
                    Some(h.sequence)
                } else {
                    None
                },
                action: frame_action(h, p, now_lo),
            },
        }
    }
}

/// Reads one accepted message: the plaintext check, decoding and the action
/// its frame asks for.
fn message_step(require_crypto: bool, crypto: Option<&SessionCrypto>, data: &[u8], now_lo: u32) -> (o: RxOutcome)
    ensures
        outcome_view(o) == message_outcome(require_crypto, key_of(crypto), data@, now_lo),
{
    if plaintext_refused(require_crypto, data) {
        return RxOutcome::Dropped;
    }
    let r = TunnelFrame::decode(data, crypto);
    proof {
        lemma_decoded_view(data@, key_of(crypto), r);
    }
    let frame = match r {
        Ok(f) => f,
        Err(_) => return RxOutcome::Undecodable,
    };
    let h = frame.header;
    let rx_sequence = loss_sequence(h.frame_type, h.sequence);
    let action = match h.frame_type {
        FrameType::Ethernet => FrameAction::Inject(frame.payload),
        FrameType::Keepalive => {
            let is_reply = keepalive_is_reply(frame.payload.as_slice());
            if is_reply {
                FrameAction::Keepalive { reply_echo: None, rtt_ms: echo_rtt_ms(now_lo, h.timestamp_ms_lo) }
            } else {
                FrameAction::Keepalive { reply_echo: Some(h.timestamp_ms_lo), rtt_ms: None }
            }
        },
        FrameType::Goodbye => FrameAction::Goodbye,
        FrameType::Ack => FrameAction::Ignore,
        _ => FrameAction::Control {
            kind: h.frame_type,
            ack_hello: h.frame_type == FrameType::Hello,
            payload: frame.payload,
        },
    };
    RxOutcome::Frame { rx_sequence, action }
}

/// One received datagram on the LAN engine.
pub struct RxStep {
    /// What the sender means for the peer slot (a `Switch` or a resyncing
    /// `Refresh` restarts loss tracking; anything but `Drop` counts as
    /// hearing from the peer).
    pub decision: PeerDecision,
    /// The peer slot afterwards (replies go there).
    pub slot: Option<Endpoint>,
    /// What the datagram leads to.
    pub outcome: RxOutcome,
}

/// The status after an outcome on the LAN engine: a keepalive marks the
/// tunnel connected, a goodbye disconnects; the other actions change it
/// only once the engine has performed them.
pub open spec fn status_after_rx(m: StatusModel, role: TunnelRole, o: OutcomeModel) -> StatusModel {
    match o {
        OutcomeModel::Frame { action: ActionModel::Keepalive { .. }, .. } => after_keepalive(m),
        OutcomeModel::Frame { action: ActionModel::Goodbye, .. } => after_goodbye(m, role),
        _ => m,
    }
}

/// Handles a datagram from `src` on the LAN engine: the peer decision
/// (allow-list, learning, switching), then, unless dropped, the message
/// itself; keepalives and goodbyes update the status here.
pub fn receive_datagram(
    role: TunnelRole,
    configured: Option<Endpoint>,
    allowed_cidrs: &[String],
    slot: Option<Endpoint>,
    src: Endpoint,
    require_crypto: bool,
    crypto: Option<&SessionCrypto>,
    data: &[u8],
    now_lo: u32,
    st: &mut GatewayState,
) -> (step: RxStep)
    ensures
        step.decision == (if allowed_by(src.ip, allowed_cidrs@) {
            peer_decision(role, configured, slot, src)
        } else {
            PeerDecision::Drop
        }),
        step.slot == slot_after(slot, step.decision),
        outcome_view(step.outcome) == (if step.decision == PeerDecision::Drop {
            OutcomeModel::Dropped
        } else {
            message_outcome(require_crypto, key_of(crypto), data@, now_lo)
        }),
        final(st)@ == status_after_rx(old(st)@, role, outcome_view(step.outcome)),
{
    let decision = decide_peer(role, configured, allowed_cidrs, slot, src);
    let next = apply_peer_decision(slot, decision);
    let outcome = match decision {
        PeerDecision::Drop => RxOutcome::Dropped,
        _ => message_step(require_crypto, crypto, data, now_lo),
    };
    match &outcome {
        RxOutcome::Frame { action: FrameAction::Keepalive { .. }, .. } => note_keepalive(st),
        RxOutcome::Frame { action: FrameAction::Goodbye, .. } => note_goodbye(st, role),
        _ => {},
    }
    RxStep { decision, slot: next, outcome }
}

/// The status after an outcome on the relay engine.
pub open spec fn status_after_relay_rx(m: StatusModel, role: TunnelRole, o: OutcomeModel) -> StatusModel {
    match o {
        OutcomeModel::Frame { action: ActionModel::Keepalive { .. }, .. } => after_relay_keepalive(m),
        OutcomeModel::Frame { action: ActionModel::Goodbye, .. } => after_relay_goodbye(m, role),
        _ => m,
    }
}

/// Handles a message read from the relay stream (the relay pairs the two
/// sides, so there is no peer slot): the message itself; keepalives and
/// goodbyes update the status here.
pub fn receive_relay_message(
    role: TunnelRole,
    require_crypto: bool,
    crypto: Option<&SessionCrypto>,
    data: &[u8],
    now_lo: u32,
    st: &mut GatewayState,
) -> (o: RxOutcome)
    ensures
        outcome_view(o) == message_outcome(require_crypto, key_of(crypto), data@, now_lo),
        final(st)@ == status_after_relay_rx(old(st)@, role, outcome_view(o)),
{
    let outcome = message_step(require_crypto, crypto, data, now_lo);
    match &outcome {
        RxOutcome::Frame { action: FrameAction::Keepalive { .. }, .. } => note_relay_keepalive(st),
        RxOutcome::Frame { action: FrameAction::Goodbye, .. } => note_relay_goodbye(st, role),
        _ => {},
    }
    outcome
}

/// A received Hello is acknowledged at once (so the laptop leaves
/// "waiting"), while Status and SafetyProbe payloads are only applied: each
/// control frame hands its payload on unchanged, and only a Hello asks for
/// the keepalive reply.
pub proof fn lemma_hello_acknowledged(h: FrameHeader, p: Seq<u8>, now_lo: u32)
    ensures
        h.frame_type == FrameType::Hello ==> frame_action(h, p, now_lo) == (ActionModel::Control {
            kind: FrameType::Hello,
            payload: p,
            ack_hello: true,
        }),
        h.frame_type == FrameType::Status ==> frame_action(h, p, now_lo) == (ActionModel::Control {
            kind: FrameType::Status,
            payload: p,
            ack_hello: false,
        }),
        h.frame_type == FrameType::SafetyProbe ==> frame_action(h, p, now_lo) == (
        ActionModel::Control { kind: FrameType::SafetyProbe, payload: p, ack_hello: false }),
        frame_action(h, p, now_lo) matches ActionModel::Control { ack_hello, .. } ==> (ack_hello
            <==> h.frame_type == FrameType::Hello),
{
}

/// What each kind of frame asks of the engine: Ethernet data is injected
/// as received, a probe (cookie byte not 1) is answered echoing its
/// timestamp, a reply to our own probe yields the echoed round trip, a
/// goodbye is reported and an Ack asks for nothing.
pub proof fn lemma_frame_actions(h: FrameHeader, p: Seq<u8>, now_lo: u32)
    ensures
        h.frame_type == FrameType::Ethernet ==> frame_action(h, p, now_lo) == ActionModel::Inject(p),
        h.frame_type == FrameType::Keepalive && !(p.len() >= 8 && p[7] == 1u8) ==> frame_action(
            h,
            p,
            now_lo,
        ) == (ActionModel::Keepalive { reply_echo: Some(h.timestamp_ms_lo), rtt_ms: None }),
        h.frame_type == FrameType::Keepalive && p.len() >= 8 && p[7] == 1u8 ==> frame_action(
            h,
            p,
            now_lo,
        ) == (ActionModel::Keepalive { reply_echo: None, rtt_ms: echo_rtt(now_lo, h.timestamp_ms_lo) }),
        h.frame_type == FrameType::Goodbye ==> frame_action(h, p, now_lo) == ActionModel::Goodbye,
        h.frame_type == FrameType::Ack ==> frame_action(h, p, now_lo) == ActionModel::Ignore,
{
}

} // verus!
