//! Relay (remote mode) framing, addresses and pairing rules.
//!
//! On the relay TCP stream every message is `[u32 BE length][bytes]`; the
//! first message from each side is a JSON hello, after which tunnel frames flow.

use crate::frame::MAX_TUNNEL_PACKET;
use crate::magic::DEFAULT_RELAY_PORT;
use crate::text::{
    chars_equal, chars_of, chars_start_with, decimal, find_char, has_prefix, index_of, push_char,
    push_decimal, string_from_chars, to_uppercase, trim_bounds, trimmed, unicode_upper,
};
use crate::wire::{be32, from_be32, get_u32, lemma_be32_roundtrip, put_u32};
use vstd::prelude::*;

verus! {

/// Relay handshake roles.
#[derive(Debug, Clone, Copy, PartialEq, Eq, Structural)]
pub enum RelayRole {
    /// Desktop gateway.
    Gateway,
    /// Laptop agent.
    Agent,
}

impl RelayRole {
    /// The role's name on the wire.
    pub open spec fn label(self) -> Seq<char> {
        match self {
            RelayRole::Gateway => "gateway"@,
            RelayRole::Agent => "agent"@,
        }
    }

    /// The role's name on the wire ("gateway" or "agent").
    pub fn as_str(self) -> (s: &'static str)
        ensures
            s@ == self.label(),
    {
        match self {
            RelayRole::Gateway => "gateway",
            RelayRole::Agent => "agent",
        }
    }

    /// The role named by `s`, if it names one.
    pub fn from_label(s: &str) -> (r: Option<RelayRole>)
        ensures
            r == (if s@ == "gateway"@ {
                Some(RelayRole::Gateway)
            } else if s@ == "agent"@ {
                Some(RelayRole::Agent)
            } else {
                None
            }),
    {
        let text = chars_of(s);
        let gw = chars_of("gateway");
        if chars_equal(text.as_slice(), gw.as_slice()) {
            return Some(RelayRole::Gateway);
        }
        let ag = chars_of("agent");
        if chars_equal(text.as_slice(), ag.as_slice()) {
            return Some(RelayRole::Agent);
        }
        None
    }
}

/// Errors of the relay stream framing.
#[derive(Debug, Clone, Copy, PartialEq, Eq, Structural)]
pub enum RelayFrameError {
    /// A message to send is longer than a tunnel packet may be.
    TooLarge(usize),
    /// A received length prefix is zero or longer than a tunnel packet may be.
    InvalidLength(u32),
}

/// Frame a message for the relay stream: 4-byte big-endian length, then the bytes.
pub fn encode_relay_frame(data: &[u8]) -> (r: Result<Vec<u8>, RelayFrameError>)
    ensures
        data@.len() > MAX_TUNNEL_PACKET ==> r == Err::<Vec<u8>, RelayFrameError>(
            RelayFrameError::TooLarge(data@.len() as usize),
        ),
        data@.len() <= MAX_TUNNEL_PACKET ==> (r matches Ok(v) && v@ == be32(data@.len() as u32)
            + data@),
{
    if data.len() > MAX_TUNNEL_PACKET {
        return Err(RelayFrameError::TooLarge(data.len()));
    }
    let mut out: Vec<u8> = Vec::new();
    put_u32(&mut out, data.len() as u32);
    out.extend_from_slice(data);
    Ok(out)
}

/// Read a relay length prefix: the body length, refused when zero or longer
/// than a tunnel packet may be.
pub fn relay_frame_len(prefix: [u8; 4]) -> (r: Result<usize, RelayFrameError>)
    ensures
        ({
            let n = from_be32(prefix@);
            if n == 0 || n > MAX_TUNNEL_PACKET {
                r == Err::<usize, RelayFrameError>(RelayFrameError::InvalidLength(n))
            } else {
                r == Ok::<usize, RelayFrameError>(n as usize)
            }
        }),
{
    let n = get_u32(&prefix, 0);
    assert(prefix@.subrange(0, 4) =~= prefix@);
    if n == 0 || n as usize > MAX_TUNNEL_PACKET {
        Err(RelayFrameError::InvalidLength(n))
    } else {
        Ok(n as usize)
    }
}

/// A message framed for the relay stream reads back as its own length.
pub proof fn lemma_relay_frame_roundtrip(data: Seq<u8>)
    requires
        0 < data.len() <= MAX_TUNNEL_PACKET,
    ensures
        from_be32(be32(data.len() as u32)) == data.len(),
        (be32(data.len() as u32) + data).subrange(4, 4 + data.len() as int) == data,
{
    lemma_be32_roundtrip(data.len() as u32);
    assert((be32(data.len() as u32) + data).subrange(4, 4 + data.len() as int) =~= data);
}

/// The relay address with surrounding white space and a `tcp://` or
/// `relay://` scheme removed, and `:47910` appended when it names no port.
pub open spec fn normalized_relay_addr(s: Seq<char>) -> Seq<char> {
    let t = trimmed(s);
    let u = if has_prefix(t, "tcp://"@) {
        t.subrange(("tcp://"@).len() as int, t.len() as int)
    } else if has_prefix(t, "relay://"@) {
        t.subrange(("relay://"@).len() as int, t.len() as int)
    } else {
        t
    };
    if index_of(u, ':') is Some {
        u
    } else {
        u + seq![':'] + decimal(DEFAULT_RELAY_PORT as nat)
    }
}

/// Normalize a relay address to `host:port`.
pub fn normalize_relay_addr(relay_addr: &str) -> (r: String)
    ensures
        r@ == normalized_relay_addr(relay_addr@),
{
    let all = chars_of(relay_addr);
    let (a, b) = trim_bounds(all.as_slice());
    let t = vstd::slice::slice_subrange(all.as_slice(), a, b);
    let tcp = chars_of("tcp://");
    let relay = chars_of("relay://");
    let u = if chars_start_with(t, tcp.as_slice()) {
        vstd::slice::slice_subrange(t, tcp.len(), t.len())
    } else if chars_start_with(t, relay.as_slice()) {
        vstd::slice::slice_subrange(t, relay.len(), t.len())
    } else {
        t
    };
    let mut out = string_from_chars(u);
    if find_char(u, ':').is_none() {
        push_char(&mut out, ':');
        push_decimal(&mut out, DEFAULT_RELAY_PORT as u64);
    }
    out
}

/// Who is waiting in a relay room (one room per pair code).
#[derive(Debug, Clone, Copy, PartialEq, Eq, Structural)]
pub struct RoomSlots {
    /// A desktop gateway is connected and waiting for its laptop.
    pub gateway_waiting: bool,
    /// A laptop agent is connected and waiting for its desktop.
    pub agent_waiting: bool,
}

/// What the relay does with a joining connection.
#[derive(Debug, Clone, Copy, PartialEq, Eq, Structural)]
pub enum JoinDecision {
    /// Park the connection in the room until the other role joins.
    Wait,
    /// The other role is waiting: hand this connection to it and pipe bytes.
    HandOff,
    /// This role is already in the room: refuse.
    Duplicate,
}

/// Why a relay hello is refused.
#[derive(Debug, Clone, Copy, PartialEq, Eq, Structural)]
pub enum HelloRejection {
    /// The magic is not `BMWENETR1`.
    BadMagic,
    /// The role is neither gateway nor agent, or the pair code is empty.
    MissingRoleOrPairCode,
}

/// A relay room: the hello's role and its room key (the pair code in
/// Unicode upper case).
pub struct RoomTicket {
    /// Role of the joining connection.
    pub role: RelayRole,
    /// Room key.
    pub room: String,
}

/// Check a relay hello's fields (missing fields given as empty strings):
/// the magic first, then an empty (upper-cased) pair code or an unknown role.
pub fn validate_relay_hello(magic: &str, role: &str, pair_code: &str) -> (r: Result<
    RoomTicket,
    HelloRejection,
>)
    ensures
        magic@ != "BMWENETR1"@ ==> r matches Err(HelloRejection::BadMagic),
        magic@ == "BMWENETR1"@ ==> match r {
            Err(e) => e == HelloRejection::MissingRoleOrPairCode && (unicode_upper(pair_code@).len()
                == 0 || !(role@ == "gateway"@ || role@ == "agent"@)),
            Ok(t) => unicode_upper(pair_code@).len() > 0 && t.room@ == unicode_upper(pair_code@)
                && t.role == (if role@ == "gateway"@ {
                RelayRole::Gateway
            } else {
                RelayRole::Agent
            }) && (role@ == "gateway"@ || role@ == "agent"@),
        },
{
    let m = chars_of(magic);
    let expected = chars_of("BMWENETR1");
    if !chars_equal(m.as_slice(), expected.as_slice()) {
        return Err(HelloRejection::BadMagic);
    }
    let parsed = RelayRole::from_label(role);
    let room = to_uppercase(pair_code);
    if room.as_str().is_empty() {
        return Err(HelloRejection::MissingRoleOrPairCode);
    }
    match parsed {
        Some(r) => Ok(RoomTicket { role: r, room }),
        None => Err(HelloRejection::MissingRoleOrPairCode),
    }
}

impl RoomSlots {
    /// A room nobody has joined.
    pub fn empty() -> (r: Self)
        ensures
            !r.gateway_waiting && !r.agent_waiting,
    {
        RoomSlots { gateway_waiting: false, agent_waiting: false }
    }

    /// A room never holds both roles waiting: the second role is handed to the first.
    pub open spec fn wf(self) -> bool {
        !(self.gateway_waiting && self.agent_waiting)
    }

    /// The room and decision after a connection of `role` joins: refused if
    /// its role is already there, handed to the other role if that one waits
    /// (which then leaves the room), otherwise it waits.
    pub open spec fn joined(self, role: RelayRole) -> (RoomSlots, JoinDecision) {
        match role {
            RelayRole::Gateway => if self.gateway_waiting {
                (self, JoinDecision::Duplicate)
            } else if self.agent_waiting {
                (RoomSlots { agent_waiting: false, ..self }, JoinDecision::HandOff)
            } else {
                (RoomSlots { gateway_waiting: true, ..self }, JoinDecision::Wait)
            },
            RelayRole::Agent => if self.agent_waiting {
                (self, JoinDecision::Duplicate)
            } else if self.gateway_waiting {
                (RoomSlots { gateway_waiting: false, ..self }, JoinDecision::HandOff)
            } else {
                (RoomSlots { agent_waiting: true, ..self }, JoinDecision::Wait)
            },
        }
    }

    /// A connection of `role` joins the room.
    pub fn join(&mut self, role: RelayRole) -> (d: JoinDecision)
        ensures
            (*final(self), d) == old(self).joined(role),
    {
        match role {
            RelayRole::Gateway => {
                if self.gateway_waiting {
                    JoinDecision::Duplicate
                } else if self.agent_waiting {
                    self.agent_waiting = false;
                    JoinDecision::HandOff
                } else {
                    self.gateway_waiting = true;
                    JoinDecision::Wait
                }
            },
            RelayRole::Agent => {
                if self.agent_waiting {
                    JoinDecision::Duplicate
                } else if self.gateway_waiting {
                    self.gateway_waiting = false;
                    JoinDecision::HandOff
                } else {
                    self.agent_waiting = true;
                    JoinDecision::Wait
                }
            },
        }
    }
}

/// Joining keeps a room from holding both roles at once.
pub proof fn lemma_join_keeps_wf(room: RoomSlots, role: RelayRole)
    requires
        room.wf(),
    ensures
        room.joined(role).0.wf(),
{
}

/// Pairing law: in an empty room the first connection waits and a connection
/// of the other role is handed to it, leaving the room empty; a second
/// connection of the same role is refused and changes nothing.
pub proof fn lemma_room_pairs(first: RelayRole, second: RelayRole)
    ensures
        ({
            let (r1, d1) = RoomSlots { gateway_waiting: false, agent_waiting: false }.joined(first);
            let (r2, d2) = r1.joined(second);
            &&& d1 == JoinDecision::Wait
            &&& first != second ==> d2 == JoinDecision::HandOff && !r2.gateway_waiting
                && !r2.agent_waiting
            &&& first == second ==> d2 == JoinDecision::Duplicate && r2 == r1
        }),
{
}

/// The relay's first reply to a join: "error" refuses it with the relay's
/// message ("relay error" when it gives none); "waiting", "paired" or any
/// other status lets the tunnel start.
pub fn relay_join_reply(status: &str, message: Option<&str>) -> (r: Result<(), String>)
    ensures
        status@ == "error"@ ==> (r matches Err(m) && m@ == (match message {
            Some(t) => t@,
            None => "relay error"@,
        })),
        status@ != "error"@ ==> r is Ok,
{
    let st = chars_of(status);
    let err = chars_of("error");
    if chars_equal(st.as_slice(), err.as_slice()) {
        match message {
            Some(t) => Err(crate::text::text_string(t)),
            None => Err(crate::text::text_string("relay error")),
        }
    } else {
        Ok(())
    }
}

/// What relay mode is missing before an agent can dial the relay.
#[derive(Debug, Clone, Copy, PartialEq, Eq, Structural)]
pub enum RelaySetupError {
    /// No relay address configured.
    RelayUrlMissing,
    /// No pair code to meet the desktop under.
    PairCodeMissing,
}

impl RelaySetupError {
    /// The message printed before retrying.
    pub fn message(self) -> (s: &'static str)
        ensures
            s@ == (match self {
                RelaySetupError::RelayUrlMissing => "relay_url is empty — set --relay host:47910"@,
                RelaySetupError::PairCodeMissing => "pair_code required for relay mode (from desktop dashboard)"@,
            }),
    {
        match self {
            RelaySetupError::RelayUrlMissing => "relay_url is empty — set --relay host:47910",
            RelaySetupError::PairCodeMissing => "pair_code required for relay mode (from desktop dashboard)",
        }
    }
}

/// Relay mode needs a relay address, then a pair code.
pub fn relay_setup_check(relay_url: &str, pair_code: &str) -> (r: Result<(), RelaySetupError>)
    ensures
        r == (if relay_url@.len() == 0 {
            Err::<(), RelaySetupError>(RelaySetupError::RelayUrlMissing)
        } else if pair_code@.len() == 0 {
            Err(RelaySetupError::PairCodeMissing)
        } else {
            Ok(())
        }),
{
    let url = chars_of(relay_url);
    let code = chars_of(pair_code);
    if url.len() == 0 {
        Err(RelaySetupError::RelayUrlMissing)
    } else if code.len() == 0 {
        Err(RelaySetupError::PairCodeMissing)
    } else {
        Ok(())
    }
}

} // verus!
