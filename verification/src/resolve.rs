//! How the laptop agent finds the desktop: a saved address, LAN discovery
//! or the WireGuard desktop address, in that order of preference rules.

use crate::addr::{ip_string, ip_text, ip_text_value, parse_ip_text, IpAddress};
use crate::discovery::DiscoveredGateway;
use crate::text::{chars_of, push_text, string_from_chars, text_string, trim_bounds, trimmed};
use vstd::prelude::*;

verus! {

/// The address hint the agent starts from: none when re-detection is
/// forced, else the configured peer, else the command-line peer.
pub open spec fn cached_hint(force_discover: bool, config_peer: Option<IpAddress>, arg_peer: Option<IpAddress>) -> Option<IpAddress> {
    if force_discover {
        None
    } else {
        match config_peer {
            Some(p) => Some(p),
            None => arg_peer,
        }
    }
}

/// The address hint the agent starts from.
pub fn cached_peer(force_discover: bool, config_peer: Option<IpAddress>, arg_peer: Option<IpAddress>) -> (r: Option<IpAddress>)
    ensures
        r == cached_hint(force_discover, config_peer, arg_peer),
{
    if force_discover {
        None
    } else {
        match config_peer {
            Some(p) => Some(p),
            None => arg_peer,
        }
    }
}

/// The first step of resolving the desktop.
#[derive(Debug, Clone, Copy, PartialEq, Eq, Structural)]
pub enum PeerPlan {
    /// Use the configured WireGuard desktop address.
    WireguardDesktop,
    /// Listen for the desktop's LAN beacon first.
    Discover,
    /// Go straight to the saved address.
    Saved,
}

/// Over WireGuard without a hint the desktop's tunnel address is used; on
/// other paths the LAN is searched whenever discovery is on, re-detection
/// is forced or no hint exists (DHCP addresses change).
pub open spec fn peer_plan(wireguard: bool, cached: Option<IpAddress>, auto_discover: bool, force_discover: bool) -> PeerPlan {
    if wireguard && cached is None {
        PeerPlan::WireguardDesktop
    } else if (auto_discover || force_discover || cached is None) && !wireguard {
        PeerPlan::Discover
    } else {
        PeerPlan::Saved
    }
}

/// Chooses the first step of resolving the desktop.
pub fn plan_peer_resolution(wireguard: bool, cached: Option<IpAddress>, auto_discover: bool, force_discover: bool) -> (p: PeerPlan)
    ensures
        p == peer_plan(wireguard, cached, auto_discover, force_discover),
{
    if wireguard && cached.is_none() {
        PeerPlan::WireguardDesktop
    } else if (auto_discover || force_discover || cached.is_none()) && !wireguard {
        PeerPlan::Discover
    } else {
        PeerPlan::Saved
    }
}

/// Among discovered desktops, the one at the hinted address if it answered,
/// else the first one heard.
pub fn pick_discovered(found: &[DiscoveredGateway], cached: Option<IpAddress>) -> (r: Option<usize>)
    ensures
        found@.len() == 0 <==> r is None,
        r matches Some(i) ==> i < found@.len() && (match cached {
            Some(c) => if exists|j: int| 0 <= j < found@.len() && #[trigger] found@[j].addr == c {
                found@[i as int].addr == c && forall|j: int| 0 <= j < i ==> #[trigger] found@[j].addr != c
            } else {
                i == 0
            },
            None => i == 0,
        }),
{
    if found.len() == 0 {
        return None;
    }
    match cached {
        None => Some(0),
        Some(c) => {
            let mut i: usize = 0;
            while i < found.len()
                invariant
                    cached == Some(c),
                    found@.len() > 0,
                    i <= found@.len(),
                    forall|j: int| 0 <= j < i ==> #[trigger] found@[j].addr != c,
                decreases found@.len() - i,
            {
                if found[i].addr == c {
                    assert(found@[i as int].addr == c);
                    return Some(i);
                }
                i = i + 1;
            }
            Some(0)
        },
    }
}

/// A password mismatch between the desktop and this agent.
#[derive(Debug, Clone, Copy, PartialEq, Eq, Structural)]
pub enum PasswordWarning {
    /// The desktop requires a password and this agent has none.
    DesktopNeedsPassword,
    /// This agent has a password and the desktop uses none.
    DesktopHasNoPassword,
}

impl PasswordWarning {
    /// The warning printed for the mismatch.
    pub fn message(self) -> (s: &'static str)
        ensures
            s@ == (match self {
                PasswordWarning::DesktopNeedsPassword => "WARNING: desktop requires a password, but this agent has an empty password."@,
                PasswordWarning::DesktopHasNoPassword => "WARNING: this agent has a password set, but the desktop does not — clear password on the laptop or set the same password on the Host."@,
            }),
    {
        match self {
            PasswordWarning::DesktopNeedsPassword => "WARNING: desktop requires a password, but this agent has an empty password.",
            PasswordWarning::DesktopHasNoPassword => "WARNING: this agent has a password set, but the desktop does not — clear password on the laptop or set the same password on the Host.",
        }
    }
}

/// Whether the desktop's announced password setting disagrees with ours.
pub fn password_warning(desktop_requires: bool, local_password_empty: bool) -> (r: Option<PasswordWarning>)
    ensures
        r == (if desktop_requires && local_password_empty {
            Some(PasswordWarning::DesktopNeedsPassword)
        } else if !desktop_requires && !local_password_empty {
            Some(PasswordWarning::DesktopHasNoPassword)
        } else {
            None
        }),
{
    if desktop_requires && local_password_empty {
        Some(PasswordWarning::DesktopNeedsPassword)
    } else if !desktop_requires && !local_password_empty {
        Some(PasswordWarning::DesktopHasNoPassword)
    } else {
        None
    }
}

/// Why no desktop address could be found.
#[derive(Debug, Clone, Copy, PartialEq, Eq, Structural)]
pub enum ResolveFailure {
    /// Nothing saved and discovery is off.
    NothingConfigured,
    /// Discovery heard no desktop and nothing is saved.
    NoDesktopFound,
}

impl ResolveFailure {
    /// The explanation shown to the user.
    pub fn message(self) -> (s: &'static str)
        ensures
            s@ == (match self {
                ResolveFailure::NothingConfigured => "No desktop address configured and auto-discover is off.\nOpen http://127.0.0.1:47903/ and click Auto-find, or enter a Desktop IP."@,
                ResolveFailure::NoDesktopFound => "No desktop on this LAN yet.\nMake sure the Host is running on the desktop (http://127.0.0.1:47901/).\nSame home router required (not Guest / client-isolation Wi‑Fi).\nWindows Firewall must allow UDP 47900 and 47902.\nFallback: open http://127.0.0.1:47903/, enter a Desktop LAN IP, click Connect."@,
            }),
    {
        match self {
            ResolveFailure::NothingConfigured => "No desktop address configured and auto-discover is off.\nOpen http://127.0.0.1:47903/ and click Auto-find, or enter a Desktop IP.",
            ResolveFailure::NoDesktopFound => "No desktop on this LAN yet.\nMake sure the Host is running on the desktop (http://127.0.0.1:47901/).\nSame home router required (not Guest / client-isolation Wi‑Fi).\nWindows Firewall must allow UDP 47900 and 47902.\nFallback: open http://127.0.0.1:47903/, enter a Desktop LAN IP, click Connect.",
        }
    }
}

/// When discovery found nothing (or was skipped): the hint, else the
/// configured peer, else the command-line peer; failing that, which failure.
pub fn saved_peer(
    cached: Option<IpAddress>,
    config_peer: Option<IpAddress>,
    arg_peer: Option<IpAddress>,
    auto_discover: bool,
) -> (r: Result<IpAddress, ResolveFailure>)
    ensures
        r == (match cached {
            Some(p) => Ok::<IpAddress, ResolveFailure>(p),
            None => match config_peer {
                Some(p) => Ok(p),
                None => match arg_peer {
                    Some(p) => Ok(p),
                    None => if auto_discover {
                        Err(ResolveFailure::NoDesktopFound)
                    } else {
                        Err(ResolveFailure::NothingConfigured)
                    },
                },
            },
        }),
{
    match cached {
        Some(p) => Ok(p),
        None => match config_peer {
            Some(p) => Ok(p),
            None => match arg_peer {
                Some(p) => Ok(p),
                None => if auto_discover {
                    Err(ResolveFailure::NoDesktopFound)
                } else {
                    Err(ResolveFailure::NothingConfigured)
                },
            },
        },
    }
}

/// Whether the chosen desktop address is one of this laptop's own.
pub fn is_own_address(peer: IpAddress, local: &[IpAddress]) -> (r: bool)
    ensures
        r == exists|i: int| 0 <= i < local@.len() && #[trigger] local@[i] == peer,
{
    let mut i: usize = 0;
    while i < local.len()
        invariant
            i <= local@.len(),
            forall|j: int| 0 <= j < i ==> #[trigger] local@[j] != peer,
        decreases local@.len() - i,
    {
        if local[i] == peer {
            return true;
        }
        i = i + 1;
    }
    false
}

/// Why the status page's Connect request is refused.
#[derive(Debug, Clone, Copy, PartialEq, Eq, Structural)]
pub enum ConnectRefusal {
    /// The text is not an IP address.
    InvalidAddress,
    /// The address is one of this laptop's own.
    OwnAddress(IpAddress),
}

/// What a Connect request with `peer_text` leads to: the address it names,
/// trimmed, unless that does not parse or belongs to this laptop.
pub open spec fn connect_target_of(peer_text: Seq<char>, local: Seq<IpAddress>) -> Result<IpAddress, ConnectRefusal> {
    match ip_text_value(trimmed(peer_text)) {
        None => Err(ConnectRefusal::InvalidAddress),
        Some(ip) => if local.contains(ip) {
            Err(ConnectRefusal::OwnAddress(ip))
        } else {
            Ok(ip)
        },
    }
}

/// Checks the desktop address typed on the status page against this
/// laptop's own addresses.
pub fn connect_target(peer_text: &str, local: &[IpAddress]) -> (r: Result<IpAddress, ConnectRefusal>)
    ensures
        r == connect_target_of(peer_text@, local@),
{
    let all = chars_of(peer_text);
    let (a, b) = trim_bounds(all.as_slice());
    let t = string_from_chars(vstd::slice::slice_subrange(all.as_slice(), a, b));
    match parse_ip_text(t.as_str()) {
        None => Err(ConnectRefusal::InvalidAddress),
        Some(ip) => {
            if is_own_address(ip, local) {
                Err(ConnectRefusal::OwnAddress(ip))
            } else {
                proof {
                    if local@.contains(ip) {
                        let i = choose|i: int| 0 <= i < local@.len() && local@[i] == ip;
                        assert(local@[i] == ip);
                    }
                }
                Ok(ip)
            }
        },
    }
}

/// The message the status page shows for a refused Connect request.
pub fn connect_refusal_message(peer_text: &str, refusal: ConnectRefusal) -> (m: String)
    ensures
        m@ == (match refusal {
            ConnectRefusal::InvalidAddress => "Invalid IP address: "@ + trimmed(peer_text@),
            ConnectRefusal::OwnAddress(ip) => ip_text(ip)
                + " is this laptop's own IP. Copy a Desktop LAN IP from http://127.0.0.1:47901/"@,
        }),
{
    match refusal {
        ConnectRefusal::InvalidAddress => {
            let all = chars_of(peer_text);
            let (a, b) = trim_bounds(all.as_slice());
            let mut m = text_string("Invalid IP address: ");
            crate::text::push_chars(&mut m, vstd::slice::slice_subrange(all.as_slice(), a, b));
            m
        },
        ConnectRefusal::OwnAddress(ip) => {
            let mut m = ip_string(ip);
            push_text(&mut m, " is this laptop's own IP. Copy a Desktop LAN IP from http://127.0.0.1:47901/");
            m
        },
    }
}

/// The pair code a Connect request sets: its trimmed text, unless blank.
pub fn connect_pair_code(requested: Option<&str>) -> (r: Option<String>)
    ensures
        match requested {
            Some(c) => if trimmed(c@).len() > 0 {
                r matches Some(s) && s@ == trimmed(c@)
            } else {
                r is None
            },
            None => r is None,
        },
{
    match requested {
        None => None,
        Some(c) => {
            let all = chars_of(c);
            let (a, b) = trim_bounds(all.as_slice());
            if a == b {
                None
            } else {
                Some(string_from_chars(vstd::slice::slice_subrange(all.as_slice(), a, b)))
            }
        },
    }
}

} // verus!
