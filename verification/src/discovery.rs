//! LAN pairing without manual IPs (pair codes, discovery datagrams, which
//! announcements to accept) and ENET adapter auto-detection.

use crate::addr::{is_enet_subnet, looks_like_enet_subnet, IpAddress};
use crate::magic::DEFAULT_DISCOVERY_PORT;
use crate::text::{
    chars_contain, chars_eq_ignore_ascii_case, chars_of, contains_chars, eq_ascii_case, push_char,
    push_text, to_lowercase, unicode_lower,
};
use chacha20poly1305::aead::rand_core::RngCore;
use vstd::prelude::*;

verus! {

/// Discovery beacon / query magic.
pub const DISCOVERY_MAGIC: &'static str = "BMWENET1";

/// The bytes of the discovery magic "BMWENET1".
pub open spec fn discovery_magic_bytes() -> Seq<u8> {
    seq![0x42u8, 0x4du8, 0x57u8, 0x45u8, 0x4eu8, 0x45u8, 0x54u8, 0x31u8]
}

/// Message exchanged on the discovery UDP port (carried as JSON after the
/// magic).
#[derive(Debug, Clone, PartialEq, Eq)]
pub enum DiscoveryMessage {
    /// Agent looking for a gateway.
    Query {
        /// Optional pair code filter (empty = accept any).
        pair_code: String,
    },
    /// Gateway advertising itself.
    Announce {
        /// Human hostname.
        hostname: String,
        /// Software version.
        version: String,
        /// Tunnel UDP port.
        tunnel_port: u16,
        /// HTTP dashboard / API port.
        api_port: u16,
        /// Pair code shown in the desktop UI.
        pair_code: String,
        /// Whether a password is configured.
        password_required: bool,
    },
}

/// Why a datagram is not a discovery message.
#[derive(Debug, Clone, Copy, PartialEq, Eq, Structural)]
pub enum DiscoveryError {
    /// The datagram does not start with the discovery magic.
    BadMagic,
}

/// The bytes of the discovery magic.
fn magic_vec() -> (v: Vec<u8>)
    ensures
        v@ == discovery_magic_bytes(),
{
    let v: Vec<u8> = vec![0x42u8, 0x4du8, 0x57u8, 0x45u8, 0x4eu8, 0x45u8, 0x54u8, 0x31u8];
    assert(v@ =~= discovery_magic_bytes());
    v
}

/// A discovery datagram: the magic, then the message's JSON text.
pub fn frame_discovery(json: &[u8]) -> (out: Vec<u8>)
    ensures
        out@ == discovery_magic_bytes() + json@,
{
    let mut out = magic_vec();
    let mut i: usize = 0;
    while i < json.len()
        invariant
            i <= json@.len(),
            out@ == discovery_magic_bytes() + json@.take(i as int),
        decreases json@.len() - i,
    {
        out.push(json[i]);
        i = i + 1;
        assert(out@ =~= discovery_magic_bytes() + json@.take(i as int));
    }
    assert(json@.take(json@.len() as int) =~= json@);
    out
}

/// What `discovery_body` reads back of a datagram that `frame_discovery`
/// built is exactly the JSON text that went in.
pub proof fn lemma_discovery_framing_roundtrip(json: Seq<u8>)
    ensures
        (discovery_magic_bytes() + json).len() >= 8,
        (discovery_magic_bytes() + json).take(8) == discovery_magic_bytes(),
        (discovery_magic_bytes() + json).skip(8) == json,
{
    assert((discovery_magic_bytes() + json).take(8) =~= discovery_magic_bytes());
    assert((discovery_magic_bytes() + json).skip(8) =~= json);
}

/// The JSON text of a discovery datagram, after its magic.
pub fn discovery_body(data: &[u8]) -> (r: Result<&[u8], DiscoveryError>)
    ensures
        match r {
            Ok(body) => data@.len() >= 8 && data@.take(8) == discovery_magic_bytes() && body@
                == data@.skip(8),
            Err(_) => !(data@.len() >= 8 && data@.take(8) == discovery_magic_bytes()),
        },
{
    let magic = magic_vec();
    if data.len() < 8 {
        return Err(DiscoveryError::BadMagic);
    }
    let mut i: usize = 0;
    while i < 8
        invariant
            data@.len() >= 8,
            magic@ == discovery_magic_bytes(),
            i <= 8,
            forall|j: int| 0 <= j < i ==> data@[j] == magic@[j],
        decreases 8 - i,
    {
        if data[i] != magic[i] {
            assert(data@.take(8)[i as int] != discovery_magic_bytes()[i as int]);
            return Err(DiscoveryError::BadMagic);
        }
        i = i + 1;
    }
    assert(data@.take(8) =~= discovery_magic_bytes());
    let body = vstd::slice::slice_subrange(data, 8, data.len());
    assert(body@ =~= data@.skip(8));
    Ok(body)
}

/// A query's and an announcement's pair codes match when either is empty or
/// they are equal up to ASCII case.
pub open spec fn codes_compatible(want: Seq<char>, have: Seq<char>) -> bool {
    want.len() == 0 || have.len() == 0 || eq_ascii_case(want, have)
}

/// Whether a pair code filter lets a peer's code through.
pub fn pair_codes_compatible(want: &str, have: &str) -> (r: bool)
    ensures
        r == codes_compatible(want@, have@),
{
    let w = chars_of(want);
    let h = chars_of(have);
    w.len() == 0 || h.len() == 0 || chars_eq_ignore_ascii_case(w.as_slice(), h.as_slice())
}

/// Resolved gateway from LAN discovery.
#[derive(Debug, Clone)]
pub struct DiscoveredGateway {
    /// Source IP of the announce packet.
    pub addr: IpAddress,
    /// Tunnel port.
    pub tunnel_port: u16,
    /// API port.
    pub api_port: u16,
    /// Hostname.
    pub hostname: String,
    /// Pair code.
    pub pair_code: String,
    /// Password required flag.
    pub password_required: bool,
}

/// Whether an announcement from `src` is taken: its pair code passes the
/// filter and no gateway at that address was found before.
pub open spec fn announce_taken(
    found: Seq<DiscoveredGateway>,
    want: Seq<char>,
    announced: Seq<char>,
    src: IpAddress,
) -> bool {
    codes_compatible(want, announced) && !(exists|i: int| 0 <= i < found.len() && #[trigger] found[i].addr == src)
}

/// Decides whether an announcement is added to the discovered gateways.
pub fn accept_announce(
    found: &[DiscoveredGateway],
    want: &str,
    announced: &str,
    src: IpAddress,
) -> (r: bool)
    ensures
        r == announce_taken(found@, want@, announced@, src),
{
    if !pair_codes_compatible(want, announced) {
        return false;
    }
    let mut i: usize = 0;
    while i < found.len()
        invariant
            i <= found@.len(),
            forall|j: int| 0 <= j < i ==> #[trigger] found@[j].addr != src,
        decreases found@.len() - i,
    {
        if found[i].addr == src {
            return false;
        }
        i = i + 1;
    }
    true
}

/// Default discovery port helper.
pub fn default_discovery_port() -> (p: u16)
    ensures
        p == DEFAULT_DISCOVERY_PORT,
{
    DEFAULT_DISCOVERY_PORT
}

// ---------------------------------------------------------------------------
// Pair codes.
// ---------------------------------------------------------------------------

/// The 32 pair-code characters: no I, O, 0 or 1, which read alike.
pub open spec fn pair_alphabet() -> Seq<char> {
    seq![
        'A', 'B', 'C', 'D', 'E', 'F', 'G', 'H', 'J', 'K', 'L', 'M', 'N', 'P', 'Q', 'R',
        'S', 'T', 'U', 'V', 'W', 'X', 'Y', 'Z', '2', '3', '4', '5', '6', '7', '8', '9',
    ]
}

/// The pair code made from four random bytes: "BMW-" and one alphabet
/// character per byte (the byte modulo 32).
pub open spec fn pair_code_of(bytes: Seq<u8>) -> Seq<char> {
    "BMW-"@ + Seq::new(4, |i: int| pair_alphabet()[(bytes[i] % 32) as int])
}

/// Whether `c` is a well-formed pair code: "BMW-" and four alphabet characters.
pub open spec fn is_pair_code(c: Seq<char>) -> bool {
    &&& c.len() == 8
    &&& c.take(4) == "BMW-"@
    &&& forall|i: int| 4 <= i < 8 ==> pair_alphabet().contains(#[trigger] c[i])
}

/// Builds the pair code for four random bytes.
pub fn pair_code_from_bytes(bytes: [u8; 4]) -> (code: String)
    ensures
        code@ == pair_code_of(bytes@),
        is_pair_code(code@),
{
    let alphabet: [char; 32] = [
        'A', 'B', 'C', 'D', 'E', 'F', 'G', 'H', 'J', 'K', 'L', 'M', 'N', 'P', 'Q', 'R',
        'S', 'T', 'U', 'V', 'W', 'X', 'Y', 'Z', '2', '3', '4', '5', '6', '7', '8', '9',
    ];
    assert(alphabet@ =~= pair_alphabet());
    let mut code = String::new();
    push_text(&mut code, "BMW-");
    proof {
        reveal_strlit("BMW-");
    }
    let mut i: usize = 0;
    while i < 4
        invariant
            i <= 4,
            alphabet@ == pair_alphabet(),
            "BMW-"@.len() == 4,
            code@ == "BMW-"@ + Seq::new(i as nat, |k: int| pair_alphabet()[(bytes@[k] % 32) as int]),
        decreases 4 - i,
    {
        let c = alphabet[(bytes[i] % 32) as usize];
        push_char(&mut code, c);
        i = i + 1;
        assert(code@ =~= "BMW-"@ + Seq::new(i as nat, |k: int| pair_alphabet()[(bytes@[k] % 32) as int]));
    }
    assert(code@ =~= pair_code_of(bytes@));
    assert(code@.take(4) =~= "BMW-"@);
    assert forall|k: int| 4 <= k < 8 implies pair_alphabet().contains(#[trigger] code@[k]) by {
        assert(code@[k] == pair_alphabet()[(bytes@[k - 4] % 32) as int]);
    }
    code
}

/// Calls `OsRng::try_fill_bytes` for four bytes of operating-system
/// randomness; `None` when the OS source fails. Nothing is promised about
/// the bytes.
#[verifier::external_body]
fn os_random_bytes() -> (r: Option<[u8; 4]>) {
    let mut buf = [0u8; 4];
    match chacha20poly1305::aead::OsRng.try_fill_bytes(&mut buf) {
        Ok(()) => Some(buf),
        Err(_) => None,
    }
}

/// Calls `SystemTime::now` and gives the nanoseconds since the Unix epoch
/// (0 before it). Nothing is promised about the value.
#[verifier::external_body]
fn unix_time_nanos() -> (t: u64) {
    std::time::SystemTime::now().duration_since(std::time::UNIX_EPOCH).map(|d| d.as_nanos() as u64).unwrap_or(0)
}

/// The four low bytes of `t`, least significant first.
pub fn low_bytes(t: u64) -> (b: [u8; 4])
    ensures
        b@ == seq![(t % 256) as u8, ((t / 256) % 256) as u8, ((t / 65536) % 256) as u8, ((t / 16777216) % 256) as u8],
{
    let b = [(t & 0xff) as u8, ((t >> 8u64) & 0xff) as u8, ((t >> 16u64) & 0xff) as u8, ((t >> 24u64) & 0xff) as u8];
    assert((t & 0xff) == t % 256) by (bit_vector);
    assert(((t >> 8u64) & 0xff) == (t / 256) % 256) by (bit_vector);
    assert(((t >> 16u64) & 0xff) == (t / 65536) % 256) by (bit_vector);
    assert(((t >> 24u64) & 0xff) == (t / 16777216) % 256) by (bit_vector);
    assert(b@ =~= seq![(t % 256) as u8, ((t / 256) % 256) as u8, ((t / 65536) % 256) as u8, ((t / 16777216) % 256) as u8]);
    b
}

/// Generate a short human-friendly pair code (e.g. `BMW-7K2Q`) from OS
/// randomness, or from the clock when that is unavailable.
pub fn generate_pair_code() -> (code: String)
    ensures
        is_pair_code(code@),
{
    let bytes = match os_random_bytes() {
        Some(b) => b,
        None => low_bytes(unix_time_nanos()),
    };
    pair_code_from_bytes(bytes)
}

// ---------------------------------------------------------------------------
// ENET adapter detection.
// ---------------------------------------------------------------------------

/// Snapshot of a network interface useful for auto-detection.
#[derive(Debug, Clone, PartialEq, Eq)]
pub struct InterfaceInfo {
    /// OS interface name (e.g. "eth0", "Ethernet 2").
    pub name: String,
    /// Optional friendly description.
    pub description: String,
    /// MAC address string.
    pub mac: String,
    /// Assigned IPv4 addresses.
    pub ipv4: Vec<IpAddress>,
    /// Whether the link is reported up.
    pub is_up: bool,
    /// Whether any address is in 169.254.0.0/16.
    pub has_link_local: bool,
}

/// Whether any of the addresses is ENET link-local.
pub open spec fn any_link_local(ips: Seq<IpAddress>) -> bool {
    exists|i: int| 0 <= i < ips.len() && is_enet_subnet(#[trigger] ips[i])
}

/// An interface as the OS enumeration reports it: up when it has moved any
/// traffic, link-local when one of its addresses is.
pub fn interface_from_counters(
    name: String,
    mac: String,
    ipv4: Vec<IpAddress>,
    received: u64,
    transmitted: u64,
) -> (i: InterfaceInfo)
    ensures
        i.name == name,
        i.description@ == Seq::<char>::empty(),
        i.mac == mac,
        i.ipv4@ == ipv4@,
        i.is_up == (received > 0 || transmitted > 0),
        i.has_link_local == any_link_local(ipv4@),
{
    let mut has_link_local = false;
    let mut k: usize = 0;
    while k < ipv4.len()
        invariant
            k <= ipv4@.len(),
            has_link_local == (exists|j: int| 0 <= j < k && is_enet_subnet(#[trigger] ipv4@[j])),
        decreases ipv4@.len() - k,
    {
        if looks_like_enet_subnet(ipv4[k]) {
            has_link_local = true;
        }
        k = k + 1;
    }
    InterfaceInfo {
        name,
        description: String::new(),
        mac,
        ipv4,
        is_up: received > 0 || transmitted > 0,
        has_link_local,
    }
}

/// Name fragments of likely ENET adapters.
pub open spec fn enet_hints() -> Seq<Seq<char>> {
    seq!["enet"@, "realtek"@, "usb"@, "ethernet"@]
}

/// Name fragments of virtual / tunnel adapters.
pub open spec fn virtual_hints() -> Seq<Seq<char>> {
    seq!["wintun"@, "tap"@, "vpn"@, "hyper-v"@, "vethernet"@, "docker"@, "wsll"@]
}

/// How many fragments occur in `a` or in `b`.
pub open spec fn hint_hits(hints: Seq<Seq<char>>, a: Seq<char>, b: Seq<char>) -> int
    decreases hints.len(),
{
    if hints.len() == 0 {
        0
    } else {
        hint_hits(hints.drop_last(), a, b) + if contains_chars(a, hints.last()) || contains_chars(
            b,
            hints.last(),
        ) {
            1int
        } else {
            0int
        }
    }
}

/// Likelihood that an interface is the BMW ENET adapter: +100 for the
/// preferred name (ASCII case ignored), +50 for a link-local address, +5
/// for each ENET hint and -40 for each virtual-adapter hint in the
/// lower-cased description or name, +10 when up.
pub open spec fn enet_score(
    name: Seq<char>,
    description: Seq<char>,
    is_up: bool,
    has_link_local: bool,
    preferred: Seq<char>,
) -> int {
    let desc = unicode_lower(description);
    let lname = unicode_lower(name);
    (if preferred.len() > 0 && eq_ascii_case(name, preferred) {
        100int
    } else {
        0int
    }) + (if has_link_local {
        50int
    } else {
        0int
    }) + 5 * hint_hits(enet_hints(), desc, lname) - 40 * hint_hits(virtual_hints(), desc, lname) + (
    if is_up {
        10int
    } else {
        0int
    })
}

/// The score of an interface.
pub open spec fn score_of(iface: InterfaceInfo, preferred: Seq<char>) -> int {
    enet_score(iface.name@, iface.description@, iface.is_up, iface.has_link_local, preferred)
}

/// 1 when `w` occurs in `d` or in `n`, else 0.
pub open spec fn mentions(d: Seq<char>, n: Seq<char>, w: Seq<char>) -> int {
    if contains_chars(d, w) || contains_chars(n, w) {
        1
    } else {
        0
    }
}

/// The score of an interface, term by term (with `d` and `n` its lower-cased
/// description and name): +100 when its name is the preferred one, +50 with
/// a link-local address, +10 when up, +5 for each of "enet", "realtek",
/// "usb", "ethernet" it mentions, and -40 for each of the virtual / tunnel
/// adapter words "wintun", "tap", "vpn", "hyper-v", "vethernet", "docker",
/// "wsll"; so a TAP or VPN adapter is pushed well below a plain Ethernet
/// port.
pub proof fn lemma_enet_score_terms(
    name: Seq<char>,
    description: Seq<char>,
    is_up: bool,
    has_link_local: bool,
    preferred: Seq<char>,
)
    ensures
        ({
            let d = unicode_lower(description);
            let n = unicode_lower(name);
            enet_score(name, description, is_up, has_link_local, preferred) == (if preferred.len() > 0
                && eq_ascii_case(name, preferred) {
                100int
            } else {
                0int
            }) + (if has_link_local {
                50int
            } else {
                0int
            }) + (if is_up {
                10int
            } else {
                0int
            }) + 5 * (mentions(d, n, "enet"@) + mentions(d, n, "realtek"@) + mentions(d, n, "usb"@)
                + mentions(d, n, "ethernet"@)) - 40 * (mentions(d, n, "wintun"@) + mentions(d, n, "tap"@)
                + mentions(d, n, "vpn"@) + mentions(d, n, "hyper-v"@) + mentions(d, n, "vethernet"@)
                + mentions(d, n, "docker"@) + mentions(d, n, "wsll"@))
        }),
{
    let d = unicode_lower(description);
    let n = unicode_lower(name);
    let g = enet_hints();
    let b = virtual_hints();
    reveal_with_fuel(hint_hits, 8);
    assert(g.drop_last() =~= seq!["enet"@, "realtek"@, "usb"@]);
    assert(g.drop_last().drop_last() =~= seq!["enet"@, "realtek"@]);
    assert(g.drop_last().drop_last().drop_last() =~= seq!["enet"@]);
    assert(g.drop_last().drop_last().drop_last().drop_last() =~= Seq::<Seq<char>>::empty());
    assert(hint_hits(g, d, n) == mentions(d, n, "enet"@) + mentions(d, n, "realtek"@) + mentions(d, n, "usb"@)
        + mentions(d, n, "ethernet"@));
    let b1 = b.drop_last();
    let b2 = b1.drop_last();
    let b3 = b2.drop_last();
    let b4 = b3.drop_last();
    let b5 = b4.drop_last();
    let b6 = b5.drop_last();
    let b7 = b6.drop_last();
    assert(b1 =~= seq!["wintun"@, "tap"@, "vpn"@, "hyper-v"@, "vethernet"@, "docker"@]);
    assert(b2 =~= seq!["wintun"@, "tap"@, "vpn"@, "hyper-v"@, "vethernet"@]);
    assert(b3 =~= seq!["wintun"@, "tap"@, "vpn"@, "hyper-v"@]);
    assert(b4 =~= seq!["wintun"@, "tap"@, "vpn"@]);
    assert(b5 =~= seq!["wintun"@, "tap"@]);
    assert(b6 =~= seq!["wintun"@]);
    assert(b7 =~= Seq::<Seq<char>>::empty());
    assert(hint_hits(b, d, n) == mentions(d, n, "wintun"@) + mentions(d, n, "tap"@) + mentions(d, n, "vpn"@)
        + mentions(d, n, "hyper-v"@) + mentions(d, n, "vethernet"@) + mentions(d, n, "docker"@)
        + mentions(d, n, "wsll"@));
}

/// A virtual or tunnel adapter (TAP, VPN, Wintun, Hyper-V, Docker, WSL)
/// that is not the preferred one and has no link-local address scores below
/// zero, so auto-detection never takes it for the ENET adapter.
pub proof fn lemma_virtual_adapter_not_picked(iface: InterfaceInfo, preferred: Seq<char>)
    requires
        !(preferred.len() > 0 && eq_ascii_case(iface.name@, preferred)),
        !iface.has_link_local,
        ({
            let d = unicode_lower(iface.description@);
            let n = unicode_lower(iface.name@);
            mentions(d, n, "wintun"@) == 1 || mentions(d, n, "tap"@) == 1 || mentions(d, n, "vpn"@) == 1
                || mentions(d, n, "hyper-v"@) == 1 || mentions(d, n, "vethernet"@) == 1 || mentions(
                d,
                n,
                "docker"@,
            ) == 1 || mentions(d, n, "wsll"@) == 1
        }),
    ensures
        score_of(iface, preferred) <= -10,
{
    lemma_enet_score_terms(iface.name@, iface.description@, iface.is_up, iface.has_link_local, preferred);
}

/// Counts the hints among `hints` found in `desc` or `name`.
fn count_hints(hints: &[&str], desc: &[char], name: &[char]) -> (n: i32)
    requires
        hints@.len() <= 16,
    ensures
        n == hint_hits(hints@.map_values(|h: &str| h@), desc@, name@),
        0 <= n <= hints@.len(),
{
    let ghost hs = hints@.map_values(|h: &str| h@);
    let mut n: i32 = 0;
    let mut i: usize = 0;
    while i < hints.len()
        invariant
            hs == hints@.map_values(|h: &str| h@),
            hints@.len() <= 16,
            i <= hints@.len(),
            n == hint_hits(hs.take(i as int), desc@, name@),
            0 <= n <= i,
        decreases hints@.len() - i,
    {
        let h = chars_of(hints[i]);
        assert(hs.take(i + 1).drop_last() =~= hs.take(i as int));
        assert(hs.take(i + 1).last() == hints@[i as int]@);
        if chars_contain(desc, h.as_slice()) || chars_contain(name, h.as_slice()) {
            n = n + 1;
        }
        i = i + 1;
    }
    assert(hs.take(hints@.len() as int) =~= hs);
    n
}

/// Score an interface for likelihood of being the BMW ENET NIC.
pub fn score_enet_candidate(iface: &InterfaceInfo, preferred_name: &str) -> (score: i32)
    ensures
        score == score_of(*iface, preferred_name@),
{
    let mut score: i32 = 0;
    let name = chars_of(iface.name.as_str());
    let preferred = chars_of(preferred_name);
    if preferred.len() > 0 && chars_eq_ignore_ascii_case(name.as_slice(), preferred.as_slice()) {
        score = score + 100;
    }
    if iface.has_link_local {
        score = score + 50;
    }
    let desc_s = to_lowercase(iface.description.as_str());
    let name_s = to_lowercase(iface.name.as_str());
    let desc = chars_of(desc_s.as_str());
    let lname = chars_of(name_s.as_str());
    let good: [&str; 4] = ["enet", "realtek", "usb", "ethernet"];
    let bad: [&str; 7] = ["wintun", "tap", "vpn", "hyper-v", "vethernet", "docker", "wsll"];
    assert(good@.map_values(|h: &str| h@) =~= enet_hints());
    assert(bad@.map_values(|h: &str| h@) =~= virtual_hints());
    let g = count_hints(&good, desc.as_slice(), lname.as_slice());
    let b = count_hints(&bad, desc.as_slice(), lname.as_slice());
    score = score + 5 * g - 40 * b;
    if iface.is_up {
        score = score + 10;
    }
    score
}

/// `a` comes before `b` in code-point order (the order of `String`).
pub open spec fn name_before(a: Seq<char>, b: Seq<char>) -> bool {
    exists|k: int|
        0 <= k <= a.len() && k <= b.len() && a.take(k) == b.take(k) && ((k == a.len() && k
            < b.len()) || (k < a.len() && k < b.len() && (a[k] as u32) < (b[k] as u32)))
}

/// Whether `a` sorts before `b`.
fn chars_before(a: &[char], b: &[char]) -> (r: bool)
    ensures
        r == name_before(a@, b@),
{
    let mut k: usize = 0;
    while k < a.len() && k < b.len() && a[k] == b[k]
        invariant
            k <= a@.len(),
            k <= b@.len(),
            a@.take(k as int) == b@.take(k as int),
        decreases a@.len() - k,
    {
        assert(a@.take(k + 1) =~= a@.take(k as int).push(a@[k as int]));
        assert(b@.take(k + 1) =~= b@.take(k as int).push(b@[k as int]));
        k = k + 1;
    }
    let r = if k < a.len() && k < b.len() {
        (a[k] as u32) < (b[k] as u32)
    } else {
        k == a.len() && k < b.len()
    };
    proof {
        if r {
            assert(name_before(a@, b@));
        } else {
            assert forall|j: int|
                0 <= j <= a@.len() && j <= b@.len() && a@.take(j) == b@.take(j) implies !((j
                == a@.len() && j < b@.len()) || (j < a@.len() && j < b@.len() && (a@[j] as u32)
                < (b@[j] as u32))) by {
                if j < k {
                    assert(a@.take(k as int)[j] == a@[j]);
                    assert(b@.take(k as int)[j] == b@[j]);
                } else if j > k {
                    assert(a@.take(j)[k as int] == a@[k as int]);
                    assert(b@.take(j)[k as int] == b@[k as int]);
                }
            }
        }
    }
    r
}

/// `i` is the pick among `cands`: the highest score, ties going to the name
/// that sorts first and then to the earlier entry.
pub open spec fn is_pick(cands: Seq<InterfaceInfo>, preferred: Seq<char>, i: int) -> bool {
    &&& 0 <= i < cands.len()
    &&& forall|j: int| 0 <= j < cands.len() ==> score_of(#[trigger] cands[j], preferred) <= score_of(cands[i], preferred)
    &&& forall|j: int| 0 <= j < cands.len() && score_of(#[trigger] cands[j], preferred) == score_of(cands[i], preferred)
        ==> !name_before(cands[j].name@, cands[i].name@)
    &&& forall|j: int| 0 <= j < i && score_of(#[trigger] cands[j], preferred) == score_of(cands[i], preferred)
        ==> cands[j].name@ != cands[i].name@
}

/// Pick the best ENET candidate, if its score is positive: the highest
/// score wins, ties go to the name that sorts first (the enumeration is
/// listed by name) and then to the earlier entry.
pub fn pick_enet_interface(candidates: Vec<InterfaceInfo>, preferred: &str) -> (r: Option<InterfaceInfo>)
    ensures
        match r {
            Some(c) => exists|i: int| is_pick(candidates@, preferred@, i) && c == candidates@[i]
                && score_of(c, preferred@) > 0,
            None => forall|i: int| is_pick(candidates@, preferred@, i) ==> score_of(
                #[trigger] candidates@[i],
                preferred@,
            ) <= 0,
        },
{
    if candidates.len() == 0 {
        return None;
    }
    let ghost cs = candidates@;
    let mut best: usize = 0;
    let mut best_score = score_enet_candidate(&candidates[0], preferred);
    let mut best_name = chars_of(candidates[0].name.as_str());
    let mut i: usize = 1;
    while i < candidates.len()
        invariant
            cs == candidates@,
            1 <= i <= cs.len(),
            best < i,
            best_score == score_of(cs[best as int], preferred@),
            best_name@ == cs[best as int].name@,
            forall|j: int| 0 <= j < i ==> score_of(#[trigger] cs[j], preferred@) <= best_score,
            forall|j: int| 0 <= j < i && score_of(#[trigger] cs[j], preferred@) == best_score
                ==> !name_before(cs[j].name@, best_name@),
            forall|j: int| 0 <= j < best && score_of(#[trigger] cs[j], preferred@) == best_score
                ==> cs[j].name@ != best_name@,
        decreases cs.len() - i,
    {
        let s = score_enet_candidate(&candidates[i], preferred);
        let n = chars_of(candidates[i].name.as_str());
        if s > best_score || (s == best_score && chars_before(n.as_slice(), best_name.as_slice())) {
            proof {
                if s == best_score {
                    assert forall|j: int| 0 <= j < i && score_of(#[trigger] cs[j], preferred@) == s
                        implies !name_before(cs[j].name@, n@) && cs[j].name@ != n@ by {
                        lemma_name_before_transitive_not(cs[j].name@, best_name@, n@);
                    }
                }
            }
            best = i;
            best_score = s;
            best_name = n;
        }
        i = i + 1;
    }
    proof {
        assert(is_pick(cs, preferred@, best as int));
    }
    if best_score > 0 {
        let mut candidates = candidates;
        let c = candidates.remove(best);
        Some(c)
    } else {
        proof {
            assert forall|k: int| is_pick(cs, preferred@, k) implies score_of(#[trigger] cs[k], preferred@) <= 0 by {
                assert(score_of(cs[k], preferred@) <= score_of(cs[best as int], preferred@));
            }
        }
        None
    }
}

/// Code-point order is transitive.
proof fn lemma_name_before_transitive(a: Seq<char>, n: Seq<char>, b: Seq<char>)
    requires
        name_before(a, n),
        name_before(n, b),
    ensures
        name_before(a, b),
{
    let k1 = choose|k: int|
        0 <= k <= a.len() && k <= n.len() && a.take(k) == n.take(k) && ((k == a.len() && k
            < n.len()) || (k < a.len() && k < n.len() && (a[k] as u32) < (n[k] as u32)));
    let k2 = choose|k: int|
        0 <= k <= n.len() && k <= b.len() && n.take(k) == b.take(k) && ((k == n.len() && k
            < b.len()) || (k < n.len() && k < b.len() && (n[k] as u32) < (b[k] as u32)));
    if k1 < k2 {
        assert(a.take(k1) =~= b.take(k1)) by {
            assert forall|j: int| 0 <= j < k1 implies a.take(k1)[j] == b.take(k1)[j] by {
                assert(a.take(k1)[j] == n.take(k1)[j]);
                assert(n.take(k2)[j] == b.take(k2)[j]);
            }
        }
        if k1 < a.len() {
            assert(n.take(k2)[k1] == b.take(k2)[k1]);
        }
        assert(0 <= k1 <= a.len() && k1 <= b.len() && a.take(k1) == b.take(k1) && ((k1 == a.len()
            && k1 < b.len()) || (k1 < a.len() && k1 < b.len() && (a[k1] as u32) < (b[k1] as u32))));
    } else if k2 < k1 {
        assert(a.take(k2) =~= b.take(k2)) by {
            assert forall|j: int| 0 <= j < k2 implies a.take(k2)[j] == b.take(k2)[j] by {
                assert(a.take(k1)[j] == n.take(k1)[j]);
                assert(n.take(k2)[j] == b.take(k2)[j]);
            }
        }
        assert(a.take(k1)[k2] == n.take(k1)[k2]);
        assert(0 <= k2 <= a.len() && k2 <= b.len() && a.take(k2) == b.take(k2) && (k2 < a.len()
            && k2 < b.len() && (a[k2] as u32) < (b[k2] as u32)));
    } else {
        assert(a.take(k1) =~= b.take(k1)) by {
            assert forall|j: int| 0 <= j < k1 implies a.take(k1)[j] == b.take(k1)[j] by {
                assert(a.take(k1)[j] == n.take(k1)[j]);
                assert(n.take(k2)[j] == b.take(k2)[j]);
            }
        }
        assert(0 <= k1 <= a.len() && k1 <= b.len() && a.take(k1) == b.take(k1) && ((k1 == a.len()
            && k1 < b.len()) || (k1 < a.len() && k1 < b.len() && (a[k1] as u32) < (b[k1] as u32))));
    }
}

/// If `n` sorts before `b` and `a` does not sort before `b`, then `a` does
/// not sort before `n` and differs from it.
proof fn lemma_name_before_transitive_not(a: Seq<char>, b: Seq<char>, n: Seq<char>)
    requires
        name_before(n, b),
        !name_before(a, b),
    ensures
        !name_before(a, n),
        a != n,
{
    if name_before(a, n) {
        lemma_name_before_transitive(a, n, b);
    }
}

} // verus!
