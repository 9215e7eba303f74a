//! Tunnel frame codec.
//!
//! Header layout (24 bytes, big-endian integers):
//! ```text
//! 0      magic "ENET" (4)
//! 4      version u8
//! 5      frame_type u8
//! 6      flags u16
//! 8      sequence u64
//! 16     payload_len u16
//! 18     reserved u16 (written as zero, ignored when read)
//! 20     timestamp_ms_lo u32  (low 32 bits of unix ms for RTT)
//! ```

use crate::crypto::{
    chacha20poly1305_open, chacha20poly1305_seal, nonce_bytes, seal_fits, SessionCrypto,
};
use crate::error::ProtocolError;
use crate::wire::{
    be16, be32, be64, from_be16, from_be32, from_be64, get_u16, get_u32, get_u64, lemma_be16_roundtrip,
    lemma_be32_roundtrip, lemma_be64_roundtrip, put_u16, put_u32, put_u64,
};
use vstd::prelude::*;

verus! {

/// Current wire protocol version.
pub const PROTOCOL_VERSION: u8 = 1;

/// Fixed header length in bytes.
pub const HEADER_LEN: usize = 24;

/// Maximum Ethernet frame we will tunnel (jumbo not required for ENET).
pub const MAX_ETHERNET_FRAME: usize = 1518;

/// Maximum UDP payload including header + optional AEAD tag overhead.
pub const MAX_TUNNEL_PACKET: usize = HEADER_LEN + MAX_ETHERNET_FRAME + 16;

/// Flag: payload is AEAD-encrypted.
pub const FLAG_ENCRYPTED: u16 = 0x0001;

/// Discriminant for tunnel frame kinds.
#[derive(Debug, Clone, Copy, PartialEq, Eq, Structural)]
pub enum FrameType {
    /// Raw Ethernet frame from ENET ↔ TAP.
    Ethernet,
    /// Keepalive / RTT probe.
    Keepalive,
    /// Peer hello / capability exchange.
    Hello,
    /// Peer goodbye / graceful shutdown.
    Goodbye,
    /// Status / health advertisement.
    Status,
    /// Explicit ack for reliability experiments (optional).
    Ack,
    /// Flash-safety probe result.
    SafetyProbe,
}

impl FrameType {
    /// The wire code of a frame type.
    pub open spec fn code(self) -> u8 {
        match self {
            FrameType::Ethernet => 1,
            FrameType::Keepalive => 2,
            FrameType::Hello => 3,
            FrameType::Goodbye => 4,
            FrameType::Status => 5,
            FrameType::Ack => 6,
            FrameType::SafetyProbe => 7,
        }
    }

    /// The frame type with a given wire code, if any.
    pub open spec fn from_code(v: u8) -> Option<FrameType> {
        if v == 1 {
            Some(FrameType::Ethernet)
        } else if v == 2 {
            Some(FrameType::Keepalive)
        } else if v == 3 {
            Some(FrameType::Hello)
        } else if v == 4 {
            Some(FrameType::Goodbye)
        } else if v == 5 {
            Some(FrameType::Status)
        } else if v == 6 {
            Some(FrameType::Ack)
        } else if v == 7 {
            Some(FrameType::SafetyProbe)
        } else {
            None
        }
    }

    /// The wire code of this frame type.
    pub fn as_u8(self) -> (v: u8)
        ensures
            v == self.code(),
            FrameType::from_code(v) == Some(self),
    {
        match self {
            FrameType::Ethernet => 1,
            FrameType::Keepalive => 2,
            FrameType::Hello => 3,
            FrameType::Goodbye => 4,
            FrameType::Status => 5,
            FrameType::Ack => 6,
            FrameType::SafetyProbe => 7,
        }
    }

    /// Parse a wire code; codes outside 1..=7 are refused.
    pub fn from_u8(v: u8) -> (r: Result<FrameType, ProtocolError>)
        ensures
            match FrameType::from_code(v) {
                Some(t) => r == Ok::<FrameType, ProtocolError>(t),
                None => r == Err::<FrameType, ProtocolError>(ProtocolError::BadFrameType(v)),
            },
    {
        match v {
            1 => Ok(FrameType::Ethernet),
            2 => Ok(FrameType::Keepalive),
            3 => Ok(FrameType::Hello),
            4 => Ok(FrameType::Goodbye),
            5 => Ok(FrameType::Status),
            6 => Ok(FrameType::Ack),
            7 => Ok(FrameType::SafetyProbe),
            other => Err(ProtocolError::BadFrameType(other)),
        }
    }
}

/// The magic bytes "ENET".
pub open spec fn magic_bytes() -> Seq<u8> {
    seq![0x45u8, 0x4eu8, 0x45u8, 0x54u8]
}

/// Fixed 24-byte tunnel header.
#[derive(Debug, Clone, Copy, PartialEq, Eq, Structural)]
pub struct FrameHeader {
    /// Protocol version.
    pub version: u8,
    /// Frame type.
    pub frame_type: FrameType,
    /// Bit flags (bit0 = encrypted, bit1 = compressed reserved).
    pub flags: u16,
    /// Monotonic sequence number per direction.
    pub sequence: u64,
    /// Payload length in bytes.
    pub payload_len: u16,
    /// Low 32 bits of sender unix timestamp in milliseconds (RTT).
    pub timestamp_ms_lo: u32,
}

/// The 24 bytes that encode a header.
pub open spec fn header_bytes(h: FrameHeader) -> Seq<u8> {
    magic_bytes() + seq![h.version, h.frame_type.code()] + be16(h.flags) + be64(h.sequence) + be16(
        h.payload_len,
    ) + be16(0) + be32(h.timestamp_ms_lo)
}

/// The header read from the first 24 bytes of `s`, given its decoded type.
pub open spec fn read_header(s: Seq<u8>, t: FrameType) -> FrameHeader {
    FrameHeader {
        version: s[4],
        frame_type: t,
        flags: from_be16(s.subrange(6, 8)),
        sequence: from_be64(s.subrange(8, 16)),
        payload_len: from_be16(s.subrange(16, 18)),
        timestamp_ms_lo: from_be32(s.subrange(20, 24)),
    }
}

/// Whether the front of `s` holds a valid header (length, magic, version, type).
pub open spec fn header_valid(s: Seq<u8>) -> bool {
    &&& s.len() >= HEADER_LEN
    &&& s.subrange(0, 4) == magic_bytes()
    &&& s[4] == PROTOCOL_VERSION
    &&& FrameType::from_code(s[5]) is Some
}

/// The header at the front of `s` (meaningful when `header_valid(s)`).
pub open spec fn parsed_header(s: Seq<u8>) -> FrameHeader {
    read_header(s, FrameType::from_code(s[5]).unwrap())
}

/// `r` is what decoding a header from the front of `s` gives: the first failing
/// check in the order length, magic, version, type, or the header itself.
pub open spec fn header_decoded(s: Seq<u8>, r: Result<FrameHeader, ProtocolError>) -> bool {
    if s.len() < HEADER_LEN {
        r == Err::<FrameHeader, ProtocolError>(ProtocolError::TooShort(s.len() as usize))
    } else if s.subrange(0, 4) != magic_bytes() {
        r matches Err(ProtocolError::BadControl(m)) && m@ == bad_magic_text(s.subrange(0, 4))
    } else if s[4] != PROTOCOL_VERSION {
        r == Err::<FrameHeader, ProtocolError>(ProtocolError::BadVersion(s[4]))
    } else if FrameType::from_code(s[5]) is None {
        r == Err::<FrameHeader, ProtocolError>(ProtocolError::BadFrameType(s[5]))
    } else {
        r == Ok::<FrameHeader, ProtocolError>(parsed_header(s))
    }
}

/// Encoding a header and reading it back (whatever follows it) gives the
/// header, with the reserved field read as written.
pub proof fn lemma_header_roundtrip(h: FrameHeader, rest: Seq<u8>)
    requires
        h.version == PROTOCOL_VERSION,
    ensures
        header_bytes(h).len() == HEADER_LEN,
        header_valid(header_bytes(h) + rest),
        parsed_header(header_bytes(h) + rest) == h,
        (header_bytes(h) + rest).subrange(HEADER_LEN as int, (header_bytes(h) + rest).len() as int)
            == rest,
{
    let s = header_bytes(h) + rest;
    lemma_be16_roundtrip(h.flags);
    lemma_be64_roundtrip(h.sequence);
    lemma_be16_roundtrip(h.payload_len);
    lemma_be16_roundtrip(0);
    lemma_be32_roundtrip(h.timestamp_ms_lo);
    assert(header_bytes(h).len() == 24);
    assert(s.subrange(0, 4) =~= magic_bytes());
    assert(s[4] == h.version);
    assert(s[5] == h.frame_type.code());
    assert(s.subrange(6, 8) =~= be16(h.flags));
    assert(s.subrange(8, 16) =~= be64(h.sequence));
    assert(s.subrange(16, 18) =~= be16(h.payload_len));
    assert(s.subrange(20, 24) =~= be32(h.timestamp_ms_lo));
    assert(s.subrange(24, s.len() as int) =~= rest);
    assert(FrameType::from_code(h.frame_type.code()) == Some(h.frame_type));
}

/// Two lower-case hex digits of a byte.
pub open spec fn byte_hex(b: u8) -> Seq<char> {
    seq![crate::updater::hex_digit((b / 16) as nat), crate::updater::hex_digit((b % 16) as nat)]
}

/// Bytes as `{:02x?}` lists them inside the brackets: two hex digits each,
/// separated by ", ".
pub open spec fn hex_list(b: Seq<u8>) -> Seq<char>
    decreases b.len(),
{
    if b.len() == 0 {
        Seq::empty()
    } else if b.len() == 1 {
        byte_hex(b[0])
    } else {
        hex_list(b.drop_last()) + ", "@ + byte_hex(b.last())
    }
}

/// The message of a wrong magic: "bad magic: [..]" with the bytes read.
pub open spec fn bad_magic_text(magic: Seq<u8>) -> Seq<char> {
    "bad magic: ["@ + hex_list(magic) + "]"@
}

fn hex_char(n: u8) -> (c: char)
    requires
        n < 16,
    ensures
        c == crate::updater::hex_digit(n as nat),
{
    if n < 10 {
        ((48 + n) as u8) as char
    } else {
        ((87 + n) as u8) as char
    }
}

/// Builds the "bad magic" message from the bytes read.
fn bad_magic_message(magic: &[u8]) -> (s: String)
    ensures
        s@ == bad_magic_text(magic@),
{
    let mut s = crate::text::text_string("bad magic: [");
    let ghost head = s@;
    let mut i: usize = 0;
    while i < magic.len()
        invariant
            i <= magic@.len(),
            head == "bad magic: ["@,
            s@ == head + hex_list(magic@.take(i as int)),
        decreases magic@.len() - i,
    {
        let ghost before = s@;
        if i > 0 {
            crate::text::push_text(&mut s, ", ");
        }
        let b = magic[i];
        crate::text::push_char(&mut s, hex_char(b / 16));
        crate::text::push_char(&mut s, hex_char(b % 16));
        proof {
            let t = magic@.take(i + 1);
            assert(t.drop_last() =~= magic@.take(i as int));
            assert(t.last() == b);
            if i == 0 {
                assert(t.len() == 1);
                assert(t[0] == b);
            }
        }
        i = i + 1;
        assert(s@ =~= head + hex_list(magic@.take(i as int)));
    }
    assert(magic@.take(magic@.len() as int) =~= magic@);
    crate::text::push_text(&mut s, "]");
    s
}

impl FrameHeader {
    /// Encode the header, appending its 24 bytes to `buf`.
    pub fn encode(&self, buf: &mut Vec<u8>)
        ensures
            final(buf)@ == old(buf)@ + header_bytes(*self),
    {
        let ghost start = buf@;
        buf.push(0x45u8);
        buf.push(0x4eu8);
        buf.push(0x45u8);
        buf.push(0x54u8);
        buf.push(self.version);
        buf.push(self.frame_type.as_u8());
        put_u16(buf, self.flags);
        put_u64(buf, self.sequence);
        put_u16(buf, self.payload_len);
        put_u16(buf, 0);
        put_u32(buf, self.timestamp_ms_lo);
        assert(buf@ =~= start + header_bytes(*self));
    }

    /// Decode a header from the front of `data`.
    pub fn decode(data: &[u8]) -> (r: Result<FrameHeader, ProtocolError>)
        ensures
            header_decoded(data@, r),
    {
        if data.len() < HEADER_LEN {
            return Err(ProtocolError::TooShort(data.len()));
        }
        if !(data[0] == 0x45u8 && data[1] == 0x4eu8 && data[2] == 0x45u8 && data[3] == 0x54u8) {
            let magic = vstd::slice::slice_subrange(data, 0, 4);
            assert(data@.subrange(0, 4) != magic_bytes()) by {
                if data@.subrange(0, 4) == magic_bytes() {
                    assert(data@.subrange(0, 4)[0] == data@[0]);
                    assert(data@.subrange(0, 4)[1] == data@[1]);
                    assert(data@.subrange(0, 4)[2] == data@[2]);
                    assert(data@.subrange(0, 4)[3] == data@[3]);
                }
            }
            return Err(ProtocolError::BadControl(bad_magic_message(magic)));
        }
        assert(data@.subrange(0, 4) =~= magic_bytes());
        let version = data[4];
        if version != PROTOCOL_VERSION {
            return Err(ProtocolError::BadVersion(version));
        }
        let frame_type = FrameType::from_u8(data[5])?;
        let flags = get_u16(data, 6);
        let sequence = get_u64(data, 8);
        let payload_len = get_u16(data, 16);
        let timestamp_ms_lo = get_u32(data, 20);
        Ok(FrameHeader { version, frame_type, flags, sequence, payload_len, timestamp_ms_lo })
    }
}

/// A complete tunnel frame.
#[derive(Debug, Clone, PartialEq, Eq)]
pub struct TunnelFrame {
    /// Header.
    pub header: FrameHeader,
    /// Payload bytes (Ethernet frame or control blob).
    pub payload: Vec<u8>,
}

impl View for TunnelFrame {
    type V = (FrameHeader, Seq<u8>);

    open spec fn view(&self) -> (FrameHeader, Seq<u8>) {
        (self.header, self.payload@)
    }
}

/// The key of an optional session crypto.
pub open spec fn key_of(crypto: Option<&SessionCrypto>) -> Option<Seq<u8>> {
    match crypto {
        Some(c) => Some(c@),
        None => None,
    }
}

/// The body sent for a payload: the payload itself, or its sealed form under
/// the key with the nonce of the header's sequence (`None` when it cannot be sealed).
pub open spec fn sent_body(h: FrameHeader, payload: Seq<u8>, key: Option<Seq<u8>>) -> Option<Seq<u8>> {
    match key {
        None => Some(payload),
        Some(k) => if seal_fits(payload.len()) {
            Some(chacha20poly1305_seal(k, nonce_bytes(h.sequence), payload))
        } else {
            None
        },
    }
}

/// The header sent with a body: the encrypted flag set when a key is used, and
/// the payload length set to the body's length (truncated to 16 bits).
pub open spec fn sent_header(h: FrameHeader, key: Option<Seq<u8>>, body_len: nat) -> FrameHeader {
    FrameHeader {
        version: h.version,
        frame_type: h.frame_type,
        flags: if key is Some {
            h.flags | FLAG_ENCRYPTED
        } else {
            h.flags
        },
        sequence: h.sequence,
        payload_len: body_len as u16,
        timestamp_ms_lo: h.timestamp_ms_lo,
    }
}

/// The datagram that encodes a frame, or `None` when its payload cannot be sealed.
pub open spec fn encoded_frame(f: (FrameHeader, Seq<u8>), key: Option<Seq<u8>>) -> Option<Seq<u8>> {
    match sent_body(f.0, f.1, key) {
        None => None,
        Some(b) => Some(header_bytes(sent_header(f.0, key, b.len())) + b),
    }
}

/// A frame that decoding gives back after encoding: current version, payload
/// length matching the payload, encrypted flag clear, and a sent body (with
/// its tag when sealed) that fits the 16-bit length field.
pub open spec fn roundtrip_frame(f: (FrameHeader, Seq<u8>), key: Option<Seq<u8>>) -> bool {
    &&& f.0.version == PROTOCOL_VERSION
    &&& f.0.payload_len == f.1.len()
    &&& f.0.flags & FLAG_ENCRYPTED == 0
    &&& sent_body(f.0, f.1, key) matches Some(b) && b.len() <= u16::MAX
}

/// The header of a decrypted frame: encrypted flag cleared, length of the plaintext.
pub open spec fn opened_header(h: FrameHeader, plain_len: nat) -> FrameHeader {
    FrameHeader {
        version: h.version,
        frame_type: h.frame_type,
        flags: h.flags & !FLAG_ENCRYPTED,
        sequence: h.sequence,
        payload_len: plain_len as u16,
        timestamp_ms_lo: h.timestamp_ms_lo,
    }
}

/// `r` is what decoding the datagram `s` gives with the optional key: header
/// errors first, then a too-short body, then (for an encrypted frame) a missing
/// key or failed authentication; otherwise the frame, decrypted when flagged.
pub open spec fn frame_decoded(s: Seq<u8>, key: Option<Seq<u8>>, r: Result<TunnelFrame, ProtocolError>) -> bool {
    if !header_valid(s) {
        &&& r is Err
        &&& header_decoded(s, Err::<FrameHeader, ProtocolError>(r->Err_0))
    } else {
        let h = parsed_header(s);
        if s.len() - HEADER_LEN < h.payload_len {
            r == Err::<TunnelFrame, ProtocolError>(ProtocolError::TooShort(s.len() as usize))
        } else {
            let p = s.subrange(HEADER_LEN as int, HEADER_LEN + h.payload_len);
            if h.flags & FLAG_ENCRYPTED == 0 {
                r matches Ok(f) && f@ == (h, p)
            } else {
                match key {
                    None => r matches Err(ProtocolError::CryptoFailed),
                    Some(k) => match chacha20poly1305_open(k, nonce_bytes(h.sequence), p) {
                        None => r matches Err(ProtocolError::CryptoFailed),
                        Some(pt) => r matches Ok(f) && f@ == (opened_header(h, pt.len()), pt),
                    },
                }
            }
        }
    }
}

/// The frame a datagram reads as, if it reads as one: the header and the
/// payload (opened with `key` when it is sealed).
pub open spec fn decoded_view(s: Seq<u8>, key: Option<Seq<u8>>) -> Option<(FrameHeader, Seq<u8>)> {
    if !header_valid(s) {
        None
    } else {
        let h = parsed_header(s);
        if s.len() - HEADER_LEN < h.payload_len {
            None
        } else {
            let p = s.subrange(HEADER_LEN as int, HEADER_LEN + h.payload_len);
            if h.flags & FLAG_ENCRYPTED == 0 {
                Some((h, p))
            } else {
                match key {
                    None => None,
                    Some(k) => match chacha20poly1305_open(k, nonce_bytes(h.sequence), p) {
                        None => None,
                        Some(pt) => Some((opened_header(h, pt.len()), pt)),
                    },
                }
            }
        }
    }
}

/// Decoding succeeds exactly when the datagram reads as a frame, and gives
/// that frame.
pub proof fn lemma_decoded_view(s: Seq<u8>, key: Option<Seq<u8>>, r: Result<TunnelFrame, ProtocolError>)
    requires
        frame_decoded(s, key, r),
    ensures
        r is Ok <==> decoded_view(s, key) is Some,
        r matches Ok(f) ==> decoded_view(s, key) == Some(f@),
{
}

impl TunnelFrame {
    /// Construct an Ethernet tunnel frame; frames over `MAX_ETHERNET_FRAME` bytes are refused.
    pub fn ethernet(sequence: u64, timestamp_ms_lo: u32, frame: Vec<u8>) -> (r: Result<
        TunnelFrame,
        ProtocolError,
    >)
        ensures
            frame@.len() > MAX_ETHERNET_FRAME ==> r == Err::<TunnelFrame, ProtocolError>(
                ProtocolError::PayloadTooLarge(frame@.len() as usize),
            ),
            frame@.len() <= MAX_ETHERNET_FRAME ==> (r matches Ok(f) && f@ == (
                FrameHeader {
                    version: PROTOCOL_VERSION,
                    frame_type: FrameType::Ethernet,
                    flags: 0,
                    sequence,
                    payload_len: frame@.len() as u16,
                    timestamp_ms_lo,
                },
                frame@,
            )),
    {
        if frame.len() > MAX_ETHERNET_FRAME {
            return Err(ProtocolError::PayloadTooLarge(frame.len()));
        }
        let payload_len = frame.len() as u16;
        Ok(TunnelFrame {
            header: FrameHeader {
                version: PROTOCOL_VERSION,
                frame_type: FrameType::Ethernet,
                flags: 0,
                sequence,
                payload_len,
                timestamp_ms_lo,
            },
            payload: frame,
        })
    }

    /// Construct a keepalive frame carrying an 8-byte big-endian echo cookie.
    pub fn keepalive(sequence: u64, timestamp_ms_lo: u32, cookie: u64) -> (f: TunnelFrame)
        ensures
            f@ == (
                FrameHeader {
                    version: PROTOCOL_VERSION,
                    frame_type: FrameType::Keepalive,
                    flags: 0,
                    sequence,
                    payload_len: 8,
                    timestamp_ms_lo,
                },
                be64(cookie),
            ),
    {
        let mut payload: Vec<u8> = Vec::new();
        put_u64(&mut payload, cookie);
        assert(payload@ =~= be64(cookie));
        TunnelFrame {
            header: FrameHeader {
                version: PROTOCOL_VERSION,
                frame_type: FrameType::Keepalive,
                flags: 0,
                sequence,
                payload_len: 8,
                timestamp_ms_lo,
            },
            payload,
        }
    }

    /// Encode to datagram bytes, encrypting the payload when `crypto` is given.
    pub fn encode(&self, crypto: Option<&SessionCrypto>) -> (r: Result<Vec<u8>, ProtocolError>)
        ensures
            r is Ok <==> encoded_frame(self@, key_of(crypto)) is Some,
            r matches Ok(v) ==> encoded_frame(self@, key_of(crypto)) == Some(v@),
            r matches Err(e) ==> e is CryptoFailed,
    {
        let mut flags = self.header.flags;
        let body: Vec<u8> = match crypto {
            Some(c) => {
                let sealed = c.encrypt(self.header.sequence, self.payload.as_slice())?;
                flags = flags | FLAG_ENCRYPTED;
                sealed
            },
            None => self.payload.clone(),
        };
        let header = FrameHeader {
            version: self.header.version,
            frame_type: self.header.frame_type,
            flags,
            sequence: self.header.sequence,
            payload_len: body.len() as u16,
            timestamp_ms_lo: self.header.timestamp_ms_lo,
        };
        assert(header == sent_header(self.header, key_of(crypto), body@.len()));
        let mut out: Vec<u8> = Vec::new();
        header.encode(&mut out);
        out.extend_from_slice(body.as_slice());
        assert(out@ =~= header_bytes(header) + body@);
        Ok(out)
    }

    /// Decode from datagram bytes, decrypting flagged payloads with `crypto`.
    ///
    /// Decoding what `encode` produced with the same key gives the frame back.
    pub fn decode(data: &[u8], crypto: Option<&SessionCrypto>) -> (r: Result<TunnelFrame, ProtocolError>)
        ensures
            frame_decoded(data@, key_of(crypto), r),
            forall|f: (FrameHeader, Seq<u8>)|
                roundtrip_frame(f, key_of(crypto)) && #[trigger] encoded_frame(f, key_of(crypto))
                    == Some(data@) ==> (r matches Ok(g) && g@ == f),
    {
        let header = match FrameHeader::decode(data) {
            Ok(h) => h,
            Err(e) => {
                proof {
                    assert forall|f: (FrameHeader, Seq<u8>)|
                        roundtrip_frame(f, key_of(crypto)) && #[trigger] encoded_frame(
                            f,
                            key_of(crypto),
                        ) == Some(data@) implies false by {
                        let b = sent_body(f.0, f.1, key_of(crypto)).unwrap();
                        lemma_header_roundtrip(sent_header(f.0, key_of(crypto), b.len()), b);
                    }
                }
                return Err(e);
            },
        };
        proof {
            assert(header_valid(data@));
        }
        let rest = data.len() - HEADER_LEN;
        let plen = header.payload_len as usize;
        if rest < plen {
            proof {
                assert forall|f: (FrameHeader, Seq<u8>)|
                    roundtrip_frame(f, key_of(crypto)) && #[trigger] encoded_frame(
                        f,
                        key_of(crypto),
                    ) == Some(data@) implies false by {
                    let b = sent_body(f.0, f.1, key_of(crypto)).unwrap();
                    let sh = sent_header(f.0, key_of(crypto), b.len());
                    lemma_header_roundtrip(sh, b);
                }
            }
            return Err(ProtocolError::TooShort(data.len()));
        }
        let body = vstd::slice::slice_subrange(data, HEADER_LEN, HEADER_LEN + plen);
        let payload = vstd::slice::slice_to_vec(body);
        if header.flags & FLAG_ENCRYPTED != 0 {
            match crypto {
                None => {
                    proof {
                        assert forall|f: (FrameHeader, Seq<u8>)|
                            roundtrip_frame(f, key_of(crypto)) && #[trigger] encoded_frame(
                                f,
                                key_of(crypto),
                            ) == Some(data@) implies false by {
                            let b = sent_body(f.0, f.1, key_of(crypto)).unwrap();
                            let sh = sent_header(f.0, key_of(crypto), b.len());
                            lemma_header_roundtrip(sh, b);
                            assert(sh.flags == f.0.flags);
                        }
                    }
                    Err(ProtocolError::CryptoFailed)
                },
                Some(c) => {
                    let opened = c.decrypt(header.sequence, payload.as_slice());
                    match opened {
                        Err(e) => {
                            proof {
                                assert forall|f: (FrameHeader, Seq<u8>)|
                                    roundtrip_frame(f, key_of(crypto)) && #[trigger] encoded_frame(
                                        f,
                                        key_of(crypto),
                                    ) == Some(data@) implies false by {
                                    let b = sent_body(f.0, f.1, key_of(crypto)).unwrap();
                                    let sh = sent_header(f.0, key_of(crypto), b.len());
                                    lemma_header_roundtrip(sh, b);
                                    assert(body@ =~= b);
                                }
                            }
                            Err(e)
                        },
                        Ok(pt) => {
                            let plain_len = pt.len() as u16;
                            let h2 = FrameHeader {
                                version: header.version,
                                frame_type: header.frame_type,
                                flags: header.flags & !FLAG_ENCRYPTED,
                                sequence: header.sequence,
                                payload_len: plain_len,
                                timestamp_ms_lo: header.timestamp_ms_lo,
                            };
                            let out = TunnelFrame { header: h2, payload: pt };
                            proof {
                                assert forall|f: (FrameHeader, Seq<u8>)|
                                    roundtrip_frame(f, key_of(crypto)) && #[trigger] encoded_frame(
                                        f,
                                        key_of(crypto),
                                    ) == Some(data@) implies out@ == f by {
                                    let b = sent_body(f.0, f.1, key_of(crypto)).unwrap();
                                    let sh = sent_header(f.0, key_of(crypto), b.len());
                                    lemma_header_roundtrip(sh, b);
                                    assert(body@ =~= b);
                                    let fl = f.0.flags;
                                    assert((fl | 1u16) & !1u16 == fl) by (bit_vector)
                                        requires
                                            fl & 1u16 == 0u16,
                                    ;
                                }
                            }
                            Ok(out)
                        },
                    }
                },
            }
        } else {
            let out = TunnelFrame { header, payload };
            proof {
                assert forall|f: (FrameHeader, Seq<u8>)|
                    roundtrip_frame(f, key_of(crypto)) && #[trigger] encoded_frame(
                        f,
                        key_of(crypto),
                    ) == Some(data@) implies out@ == f by {
                    let b = sent_body(f.0, f.1, key_of(crypto)).unwrap();
                    let sh = sent_header(f.0, key_of(crypto), b.len());
                    lemma_header_roundtrip(sh, b);
                    let fl = f.0.flags;
                    if key_of(crypto) is Some {
                        assert((fl | 1u16) & 1u16 != 0u16) by (bit_vector);
                    }
                    assert(body@ =~= b);
                }
            }
            Ok(out)
        }
    }

    /// Whether a datagram's header carries the encrypted flag (header errors pass through).
    pub fn is_encrypted_raw(data: &[u8]) -> (r: Result<bool, ProtocolError>)
        ensures
            header_valid(data@) ==> r == Ok::<bool, ProtocolError>(
                parsed_header(data@).flags & FLAG_ENCRYPTED != 0,
            ),
            !header_valid(data@) ==> (r is Err && header_decoded(
                data@,
                Err::<FrameHeader, ProtocolError>(r->Err_0),
            )),
    {
        let header = FrameHeader::decode(data)?;
        Ok(header.flags & FLAG_ENCRYPTED != 0)
    }
}

} // verus!
