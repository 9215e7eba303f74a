//! What the dashboards tell the user: one-line status texts and the vehicle
//! indicators they may show.

use crate::state::{ConnectionState, GatewayState, StatusModel};
use crate::text::text_string;
use vstd::prelude::*;

verus! {

/// The desktop dashboard's one-line status for a published state.
pub open spec fn friendly_text(m: StatusModel) -> Seq<char> {
    if !m.gateway_running {
        "Gateway is stopped"@
    } else if m.laptop_connected || m.connection == ConnectionState::Connected {
        if m.awake {
            "Ready — vehicle is awake"@
        } else if m.link_up {
            "Laptop connected — waiting for vehicle wake / ignition"@
        } else {
            "Laptop connected — plug in ENET and wake the car"@
        }
    } else {
        match m.connection {
            ConnectionState::WaitingForPeer | ConnectionState::Starting => "Waiting for laptop… open the Agent on the laptop"@,
            ConnectionState::Reconnecting => "Laptop disconnected — reconnecting…"@,
            ConnectionState::Failed => "Something went wrong — check logs"@,
            ConnectionState::Stopped => "Stopped"@,
            ConnectionState::Connected => "Connected"@,
        }
    }
}

/// The desktop dashboard's one-line status.
pub fn friendly_status(state: &GatewayState) -> (s: String)
    ensures
        s@ == friendly_text(state@),
{
    if !state.gateway_running {
        return text_string("Gateway is stopped");
    }
    if state.laptop_connected || state.connection == ConnectionState::Connected {
        if state.vehicle.awake {
            text_string("Ready — vehicle is awake")
        } else if state.vehicle.link_up {
            text_string("Laptop connected — waiting for vehicle wake / ignition")
        } else {
            text_string("Laptop connected — plug in ENET and wake the car")
        }
    } else {
        match state.connection {
            ConnectionState::WaitingForPeer | ConnectionState::Starting => text_string(
                "Waiting for laptop… open the Agent on the laptop",
            ),
            ConnectionState::Reconnecting => text_string("Laptop disconnected — reconnecting…"),
            ConnectionState::Failed => text_string("Something went wrong — check logs"),
            ConnectionState::Stopped => text_string("Stopped"),
            ConnectionState::Connected => text_string("Connected"),
        }
    }
}

/// The laptop dashboard's one-line status.
pub open spec fn friendly_line_text(desktop: bool, enet: bool, awake: bool) -> Seq<char> {
    if !desktop {
        "Waiting for desktop…"@
    } else if !enet {
        "Desktop OK — plug ENET into car + laptop"@
    } else if !awake {
        "ENET link up — turn ignition ON"@
    } else {
        "Ready — vehicle awake"@
    }
}

/// The laptop dashboard's one-line status.
pub fn friendly_line(desktop: bool, enet: bool, awake: bool) -> (s: String)
    ensures
        s@ == friendly_line_text(desktop, enet, awake),
{
    if !desktop {
        text_string("Waiting for desktop…")
    } else if !enet {
        text_string("Desktop OK — plug ENET into car + laptop")
    } else if !awake {
        text_string("ENET link up — turn ignition ON")
    } else {
        text_string("Ready — vehicle awake")
    }
}

/// The state the desktop dashboard shows: `running` says whether a tunnel
/// is up, and without a connected laptop no vehicle indicator is shown
/// (the desktop's own adapter proves nothing about the car).
pub open spec fn presented(m: StatusModel, running: bool) -> StatusModel {
    let r = StatusModel { gateway_running: running, ..m };
    if !r.laptop_connected && r.connection != ConnectionState::Connected {
        StatusModel { link_up: false, awake: false, ..r }
    } else {
        r
    }
}

/// Prepares a state for the desktop dashboard.
pub fn present_state(state: &mut GatewayState, running: bool)
    ensures
        final(state)@ == presented(old(state)@, running),
{
    state.gateway_running = running;
    if !state.laptop_connected && state.connection != ConnectionState::Connected {
        state.vehicle.link_up = false;
        state.vehicle.awake = false;
    }
}

/// The dashboard never claims a ready vehicle without a connected laptop.
pub proof fn lemma_no_vehicle_without_laptop(m: StatusModel, running: bool)
    ensures
        !presented(m, running).laptop_connected && presented(m, running).connection
            != ConnectionState::Connected ==> !presented(m, running).awake && !presented(
            m,
            running,
        ).link_up,
        friendly_text(presented(m, running)) == "Ready — vehicle is awake"@ ==> (running
            && m.awake && (m.laptop_connected || m.connection == ConnectionState::Connected)),
{
    let ready = "Ready — vehicle is awake"@;
    let p = presented(m, running);
    if friendly_text(p) == ready {
        reveal_strlit("Ready — vehicle is awake");
        reveal_strlit("Gateway is stopped");
        reveal_strlit("Laptop connected — waiting for vehicle wake / ignition");
        reveal_strlit("Laptop connected — plug in ENET and wake the car");
        reveal_strlit("Waiting for laptop… open the Agent on the laptop");
        reveal_strlit("Laptop disconnected — reconnecting…");
        reveal_strlit("Something went wrong — check logs");
        reveal_strlit("Stopped");
        reveal_strlit("Connected");
        assert(ready.len() == 24);
        assert("Gateway is stopped"@.len() == 18);
        assert("Laptop connected — waiting for vehicle wake / ignition"@.len() != 24);
        assert("Laptop connected — plug in ENET and wake the car"@.len() != 24);
        assert("Waiting for laptop… open the Agent on the laptop"@.len() != 24);
        assert("Laptop disconnected — reconnecting…"@.len() != 24);
        assert("Something went wrong — check logs"@.len() != 24);
        assert("Stopped"@.len() == 7);
        assert("Connected"@.len() == 9);
    }
}

/// The desktop line tells the truth about the car: with the gateway running
/// and a laptop connected it says "ready" exactly when the vehicle is awake,
/// asks to wait for wake / ignition only when the ENET link is up, and asks
/// to plug in ENET when the link is down; each of these texts appears only
/// in its own situation.
pub proof fn lemma_friendly_text_truthful(m: StatusModel)
    ensures
        m.gateway_running && (m.laptop_connected || m.connection == ConnectionState::Connected) ==> {
            &&& m.awake ==> friendly_text(m) == "Ready — vehicle is awake"@
            &&& !m.awake && m.link_up ==> friendly_text(m)
                == "Laptop connected — waiting for vehicle wake / ignition"@
            &&& !m.awake && !m.link_up ==> friendly_text(m)
                == "Laptop connected — plug in ENET and wake the car"@
        },
        friendly_text(m) == "Laptop connected — waiting for vehicle wake / ignition"@ ==> (
        m.gateway_running && (m.laptop_connected || m.connection == ConnectionState::Connected)
            && !m.awake && m.link_up),
        friendly_text(m) == "Laptop connected — plug in ENET and wake the car"@ ==> (
        m.gateway_running && (m.laptop_connected || m.connection == ConnectionState::Connected)
            && !m.awake && !m.link_up),
        friendly_text(m) == "Gateway is stopped"@ <==> !m.gateway_running,
{
    let wait = "Laptop connected — waiting for vehicle wake / ignition"@;
    let plug = "Laptop connected — plug in ENET and wake the car"@;
    reveal_strlit("Ready — vehicle is awake");
    reveal_strlit("Gateway is stopped");
    reveal_strlit("Laptop connected — waiting for vehicle wake / ignition");
    reveal_strlit("Laptop connected — plug in ENET and wake the car");
    reveal_strlit("Waiting for laptop… open the Agent on the laptop");
    reveal_strlit("Laptop disconnected — reconnecting…");
    reveal_strlit("Something went wrong — check logs");
    reveal_strlit("Stopped");
    reveal_strlit("Connected");
    assert("Ready — vehicle is awake"@.len() == 24);
    assert("Gateway is stopped"@.len() == 18);
    assert(wait.len() == 54);
    assert(plug.len() == 48);
    assert("Waiting for laptop… open the Agent on the laptop"@.len() == 48);
    assert("Waiting for laptop… open the Agent on the laptop"@[0] != plug[0]);
    assert("Laptop disconnected — reconnecting…"@.len() == 35);
    assert("Something went wrong — check logs"@.len() == 33);
    assert("Stopped"@.len() == 7);
    assert("Connected"@.len() == 9);
}

/// The laptop line asks for the next missing step and says "ready" only
/// when everything is there: desktop first, then the ENET link, then the
/// ignition.
pub proof fn lemma_friendly_line_steps(desktop: bool, enet: bool, awake: bool)
    ensures
        (friendly_line_text(desktop, enet, awake) == "Waiting for desktop…"@) <==> !desktop,
        (friendly_line_text(desktop, enet, awake) == "Desktop OK — plug ENET into car + laptop"@)
            <==> (desktop && !enet),
        (friendly_line_text(desktop, enet, awake) == "ENET link up — turn ignition ON"@) <==> (desktop
            && enet && !awake),
        (friendly_line_text(desktop, enet, awake) == "Ready — vehicle awake"@) <==> (desktop && enet
            && awake),
{
    reveal_strlit("Waiting for desktop…");
    reveal_strlit("Desktop OK — plug ENET into car + laptop");
    reveal_strlit("ENET link up — turn ignition ON");
    reveal_strlit("Ready — vehicle awake");
    assert("Waiting for desktop…"@.len() == 20);
    assert("Desktop OK — plug ENET into car + laptop"@.len() == 40);
    assert("ENET link up — turn ignition ON"@.len() == 31);
    assert("Ready — vehicle awake"@.len() == 21);
}

} // verus!
