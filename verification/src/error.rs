//! Protocol-level errors.

use vstd::prelude::*;

verus! {

/// Protocol-level errors.
#[derive(Debug, Clone, PartialEq, Eq)]
pub enum ProtocolError {
    /// Packet too short to contain a header (or its announced payload).
    TooShort(usize),
    /// Unsupported protocol version.
    BadVersion(u8),
    /// Invalid frame type discriminant.
    BadFrameType(u8),
    /// AEAD authentication failed (or no key for an encrypted frame).
    CryptoFailed,
    /// Payload exceeds maximum Ethernet frame size.
    PayloadTooLarge(usize),
    /// Malformed control data (e.g. a wrong magic).
    BadControl(String),
}

} // verus!
