//! IP addresses, CIDR allow-lists and the ENET link-local subnet.

use crate::text::{
    after_char, before_char, chars_of, decimal, find_char, parse_unsigned, parse_unsigned_chars,
    push_char, push_decimal,
};
use vstd::prelude::*;

verus! {

/// An IP address as its numeric value (IPv4 in 32 bits, IPv6 in 128 bits,
/// most significant byte first, as `u32::from(Ipv4Addr)` gives it).
#[derive(Debug, Clone, Copy, PartialEq, Eq, Structural)]
pub enum IpAddress {
    /// IPv4 address.
    V4(u32),
    /// IPv6 address.
    V6(u128),
}

/// A transport endpoint (address and port).
#[derive(Debug, Clone, Copy, PartialEq, Eq, Structural)]
pub struct Endpoint {
    /// IP address.
    pub ip: IpAddress,
    /// UDP/TCP port.
    pub port: u16,
}

/// Dotted-decimal text of an IPv4 address.
pub open spec fn ipv4_text(a: u32) -> Seq<char> {
    decimal((a >> 24u32) as nat) + seq!['.'] + decimal(((a >> 16u32) & 0xffu32) as nat) + seq!['.']
        + decimal(((a >> 8u32) & 0xffu32) as nat) + seq!['.'] + decimal((a & 0xffu32) as nat)
}

/// The text `Display` writes for an IPv6 address.
pub uninterp spec fn ipv6_display(bits: u128) -> Seq<char>;

/// Calls `Display` of `Ipv6Addr` on the address with these bits.
#[verifier::external_body]
fn ipv6_text(bits: u128) -> (s: String)
    ensures
        s@ == ipv6_display(bits),
{
    core::net::Ipv6Addr::from(bits).to_string()
}

/// The text `Display` writes for an IP address.
pub open spec fn ip_text(ip: IpAddress) -> Seq<char> {
    match ip {
        IpAddress::V4(a) => ipv4_text(a),
        IpAddress::V6(b) => ipv6_display(b),
    }
}

/// Writes an IP address as text.
pub fn ip_string(ip: IpAddress) -> (s: String)
    ensures
        s@ == ip_text(ip),
{
    match ip {
        IpAddress::V4(a) => {
            let mut s = String::new();
            push_decimal(&mut s, (a >> 24u32) as u64);
            push_char(&mut s, '.');
            push_decimal(&mut s, ((a >> 16u32) & 0xffu32) as u64);
            push_char(&mut s, '.');
            push_decimal(&mut s, ((a >> 8u32) & 0xffu32) as u64);
            push_char(&mut s, '.');
            push_decimal(&mut s, (a & 0xffu32) as u64);
            assert(s@ =~= ipv4_text(a));
            s
        },
        IpAddress::V6(b) => ipv6_text(b),
    }
}

/// The text `Display` writes for a socket address: `a.b.c.d:port`, or
/// `[v6]:port`.
pub open spec fn endpoint_text(ep: Endpoint) -> Seq<char> {
    match ep.ip {
        IpAddress::V4(a) => ipv4_text(a) + seq![':'] + decimal(ep.port as nat),
        IpAddress::V6(b) => seq!['['] + ipv6_display(b) + seq![']', ':'] + decimal(ep.port as nat),
    }
}

/// Writes an endpoint as its socket-address text.
pub fn endpoint_string(ep: Endpoint) -> (s: String)
    ensures
        s@ == endpoint_text(ep),
{
    let mut s = String::new();
    match ep.ip {
        IpAddress::V4(a) => {
            push_decimal(&mut s, (a >> 24u32) as u64);
            push_char(&mut s, '.');
            push_decimal(&mut s, ((a >> 16u32) & 0xffu32) as u64);
            push_char(&mut s, '.');
            push_decimal(&mut s, ((a >> 8u32) & 0xffu32) as u64);
            push_char(&mut s, '.');
            push_decimal(&mut s, (a & 0xffu32) as u64);
        },
        IpAddress::V6(b) => {
            push_char(&mut s, '[');
            let t = ipv6_text(b);
            crate::text::push_text(&mut s, t.as_str());
            push_char(&mut s, ']');
        },
    }
    push_char(&mut s, ':');
    push_decimal(&mut s, ep.port as u64);
    assert(s@ =~= endpoint_text(ep));
    s
}

/// Return true if `ip` is in 169.254.0.0/16 (BMW ENET link-local).
pub open spec fn is_enet_subnet(ip: IpAddress) -> bool {
    match ip {
        IpAddress::V4(a) => (a >> 24u32) == 169 && ((a >> 16u32) & 0xffu32) == 254,
        IpAddress::V6(_) => false,
    }
}

/// Return true if `ip` is in 169.254.0.0/16.
pub fn looks_like_enet_subnet(ip: IpAddress) -> (r: bool)
    ensures
        r == is_enet_subnet(ip),
{
    match ip {
        IpAddress::V4(a) => (a >> 24u32) == 169 && ((a >> 16u32) & 0xffu32) == 254,
        IpAddress::V6(_) => false,
    }
}

/// `ip` and `network` are the same family and agree on their first `prefix`
/// bits (prefix lengths beyond the family's width match nothing).
pub open spec fn in_prefix(ip: IpAddress, network: IpAddress, prefix: u8) -> bool {
    match (ip, network) {
        (IpAddress::V4(a), IpAddress::V4(b)) => prefix <= 32 && (prefix == 0 || (a >> (32
            - prefix) as u32) == (b >> (32 - prefix) as u32)),
        (IpAddress::V6(a), IpAddress::V6(b)) => prefix <= 128 && (prefix == 0 || (a >> (128
            - prefix) as u128) == (b >> (128 - prefix) as u128)),
        _ => false,
    }
}

/// Two 128-bit values agree under the mask of their top `128 - sh` bits
/// exactly when they agree after shifting out the low `sh` bits.
#[verifier::rlimit(100)]
proof fn lemma_mask_agrees_u128(a: u128, b: u128, sh: u128)
    by (bit_vector)
    requires
        sh < 128u128,
    ensures
        ((a & (0xffff_ffff_ffff_ffff_ffff_ffff_ffff_ffffu128 << sh)) == (b & (
        0xffff_ffff_ffff_ffff_ffff_ffff_ffff_ffffu128 << sh))) == ((a >> sh) == (b >> sh)),
{
}

/// Whether `ip` lies in `network/prefix`.
pub fn ip_in_cidr(ip: IpAddress, network: IpAddress, prefix: u8) -> (r: bool)
    ensures
        r == in_prefix(ip, network, prefix),
{
    match (ip, network) {
        (IpAddress::V4(a), IpAddress::V4(b)) => {
            if prefix > 32 {
                return false;
            }
            let mask: u32 = if prefix == 0 {
                0u32
            } else {
                u32::MAX << (32 - prefix) as u32
            };
            let r = (a & mask) == (b & mask);
            proof {
                if prefix > 0 {
                    let sh = (32 - prefix) as u32;
                    assert(((a & (0xffff_ffffu32 << sh)) == (b & (0xffff_ffffu32 << sh))) == ((a
                        >> sh) == (b >> sh))) by (bit_vector)
                        requires
                            sh < 32u32,
                    ;
                } else {
                    assert((a & 0u32) == (b & 0u32)) by (bit_vector);
                }
            }
            r
        },
        (IpAddress::V6(a), IpAddress::V6(b)) => {
            if prefix > 128 {
                return false;
            }
            let mask: u128 = if prefix == 0 {
                0u128
            } else {
                u128::MAX << (128 - prefix) as u128
            };
            let r = (a & mask) == (b & mask);
            proof {
                if prefix > 0 {
                    lemma_mask_agrees_u128(a, b, (128 - prefix) as u128);
                } else {
                    assert((a & 0u128) == (b & 0u128)) by (bit_vector);
                }
            }
            r
        },
        _ => false,
    }
}

/// The address that `str::parse::<IpAddr>` reads from `text`, if it reads one.
pub uninterp spec fn ip_text_value(text: Seq<char>) -> Option<IpAddress>;

/// Calls `str::parse::<IpAddr>` and gives the address as its numeric value;
/// the grammar it accepts is only named.
#[verifier::external_body]
pub(crate) fn parse_ip_text(text: &str) -> (r: Option<IpAddress>)
    ensures
        r == ip_text_value(text@),
{
    match text.parse::<core::net::IpAddr>() {
        Ok(core::net::IpAddr::V4(a)) => Some(IpAddress::V4(u32::from(a))),
        Ok(core::net::IpAddr::V6(a)) => Some(IpAddress::V6(u128::from(a))),
        Err(_) => None,
    }
}

/// What `parse_cidr` reads from `text`: an address before the first '/', a
/// `u8` prefix length after it.
pub open spec fn cidr_of(text: Seq<char>) -> Option<(IpAddress, u8)> {
    match after_char(text, '/') {
        None => None,
        Some(p) => match (ip_text_value(before_char(text, '/')), parse_unsigned(p, 255)) {
            (Some(ip), Some(n)) => Some((ip, n as u8)),
            _ => None,
        },
    }
}

/// Parse simple CIDR like "192.168.0.0/16" into (network, prefix_len).
pub fn parse_cidr(cidr: &str) -> (r: Option<(IpAddress, u8)>)
    ensures
        r == cidr_of(cidr@),
{
    let all = chars_of(cidr);
    let n = all.len();
    let slash = match find_char(all.as_slice(), '/') {
        Some(i) => i,
        None => return None,
    };
    let ip_chars = vstd::slice::slice_subrange(all.as_slice(), 0, slash);
    let prefix_chars = vstd::slice::slice_subrange(all.as_slice(), slash + 1, n);
    let ip_text = crate::text::string_from_chars(ip_chars);
    let ip = match parse_ip_text(ip_text.as_str()) {
        Some(ip) => ip,
        None => return None,
    };
    let prefix = match parse_unsigned_chars(prefix_chars, 255) {
        Some(p) => p as u8,
        None => return None,
    };
    Some((ip, prefix))
}

/// Whether one allow-list entry admits `ip`: a CIDR containing it, or (when
/// the entry is not a CIDR) a single address equal to it.
pub open spec fn entry_allows(entry: Seq<char>, ip: IpAddress) -> bool {
    match cidr_of(entry) {
        Some((net, prefix)) => in_prefix(ip, net, prefix),
        None => ip_text_value(entry) == Some(ip),
    }
}

/// Whether `ip` passes an allow-list: an empty list allows every address,
/// otherwise some entry must admit it.
pub open spec fn allowed_by(ip: IpAddress, cidrs: Seq<String>) -> bool {
    cidrs.len() == 0 || exists|i: int| 0 <= i < cidrs.len() && entry_allows(#[trigger] cidrs[i]@, ip)
}

/// Return true if `ip` is contained in any of the CIDR strings (or the list is empty).
pub fn ip_allowed(ip: IpAddress, cidrs: &[String]) -> (r: bool)
    ensures
        r == allowed_by(ip, cidrs@),
{
    if cidrs.len() == 0 {
        return true;
    }
    let mut i: usize = 0;
    while i < cidrs.len()
        invariant
            i <= cidrs@.len(),
            forall|j: int| 0 <= j < i ==> !entry_allows(#[trigger] cidrs@[j]@, ip),
        decreases cidrs@.len() - i,
    {
        let entry = cidrs[i].as_str();
        let hit = match parse_cidr(entry) {
            Some((net, prefix)) => ip_in_cidr(ip, net, prefix),
            None => match parse_ip_text(entry) {
                Some(single) => single == ip,
                None => false,
            },
        };
        if hit {
            assert(entry_allows(cidrs@[i as int]@, ip));
            return true;
        }
        i = i + 1;
    }
    false
}

} // verus!
