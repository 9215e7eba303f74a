//! The setup wizard's console answers and the WireGuard configuration
//! templates it writes.

use crate::text::{chars_equal, chars_of, push_text, text_string, to_lowercase, trimmed, trim_bounds, unicode_lower};
use vstd::prelude::*;

verus! {

/// A yes/no answer: an empty (trimmed) line takes the default; otherwise
/// only "y" and "yes" (in any case) mean yes.
pub open spec fn answer_is_yes(line: Seq<char>, default_yes: bool) -> bool {
    let t = unicode_lower(trimmed(line));
    if t.len() == 0 {
        default_yes
    } else {
        t == "y"@ || t == "yes"@
    }
}

/// Reads a yes/no answer typed at a prompt.
pub fn prompt_answer(line: &str, default_yes: bool) -> (yes: bool)
    ensures
        yes == answer_is_yes(line@, default_yes),
{
    let v = chars_of(line);
    let (a, b) = trim_bounds(v.as_slice());
    let t = crate::text::string_from_chars(vstd::slice::slice_subrange(v.as_slice(), a, b));
    let lower = to_lowercase(t.as_str());
    let l = chars_of(lower.as_str());
    if l.len() == 0 {
        return default_yes;
    }
    let y = chars_of("y");
    let yes = chars_of("yes");
    chars_equal(l.as_slice(), y.as_slice()) || chars_equal(l.as_slice(), yes.as_slice())
}

/// The desktop's WireGuard configuration (keys are placeholders to replace).
pub open spec fn wireguard_desktop_text() -> Seq<char> {
    "# BMW ENET — Desktop WireGuard\n# 1) Install WireGuard  2) Generate real keys: wg genkey | tee private.key | wg pubkey\n# 3) Replace REPLACE_* keys below  4) Activate this tunnel  5) Start enet-gateway\n\n[Interface]\nPrivateKey = REPLACE_DESKTOP_PRIVATE_KEY________________=\nAddress = 10.66.0.1/24\nListenPort = 51820\n\n[Peer]\nPublicKey = REPLACE_LAPTOP_PUBLIC_KEY__________________=\nAllowedIPs = 10.66.0.2/32\n"@
}

/// The laptop's WireGuard configuration, dialing `endpoint`.
pub open spec fn wireguard_laptop_text(endpoint: Seq<char>) -> Seq<char> {
    "# BMW ENET — Laptop WireGuard\n# Import into WireGuard app, activate, then start enet-agent (network_mode=wireguard)\n\n[Interface]\nPrivateKey = REPLACE_LAPTOP_PRIVATE_KEY_________________=\nAddress = 10.66.0.2/24\n\n[Peer]\nPublicKey = REPLACE_DESKTOP_PUBLIC_KEY_________________=\nEndpoint = "@
        + endpoint + "\nAllowedIPs = 10.66.0.1/32\nPersistentKeepalive = 25\n"@
}

/// The desktop's WireGuard configuration.
pub fn wireguard_desktop_conf() -> (s: String)
    ensures
        s@ == wireguard_desktop_text(),
{
    text_string(
        "# BMW ENET — Desktop WireGuard\n# 1) Install WireGuard  2) Generate real keys: wg genkey | tee private.key | wg pubkey\n# 3) Replace REPLACE_* keys below  4) Activate this tunnel  5) Start enet-gateway\n\n[Interface]\nPrivateKey = REPLACE_DESKTOP_PRIVATE_KEY________________=\nAddress = 10.66.0.1/24\nListenPort = 51820\n\n[Peer]\nPublicKey = REPLACE_LAPTOP_PUBLIC_KEY__________________=\nAllowedIPs = 10.66.0.2/32\n",
    )
}

/// The laptop's WireGuard configuration.
pub fn wireguard_laptop_conf(desktop_endpoint: &str) -> (s: String)
    ensures
        s@ == wireguard_laptop_text(desktop_endpoint@),
{
    let mut s = text_string(
        "# BMW ENET — Laptop WireGuard\n# Import into WireGuard app, activate, then start enet-agent (network_mode=wireguard)\n\n[Interface]\nPrivateKey = REPLACE_LAPTOP_PRIVATE_KEY_________________=\nAddress = 10.66.0.2/24\n\n[Peer]\nPublicKey = REPLACE_DESKTOP_PUBLIC_KEY_________________=\nEndpoint = ",
    );
    push_text(&mut s, desktop_endpoint);
    push_text(&mut s, "\nAllowedIPs = 10.66.0.1/32\nPersistentKeepalive = 25\n");
    s
}

} // verus!
