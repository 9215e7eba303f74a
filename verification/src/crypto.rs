//! Optional AEAD for tunnel payloads (ChaCha20-Poly1305) and the PSK key derivation.

use crate::error::ProtocolError;
use crate::wire::be64;
use chacha20poly1305::aead::{Aead, KeyInit};
use sha2::Digest;
use vstd::string::StringSliceAdditionalSpecFns;
use vstd::prelude::*;

verus! {

/// The ciphertext-with-tag that ChaCha20-Poly1305 produces for `plaintext`
/// under `key` and `nonce` (no associated data).
pub uninterp spec fn chacha20poly1305_seal(key: Seq<u8>, nonce: Seq<u8>, plaintext: Seq<u8>) -> Seq<u8>;

/// What ChaCha20-Poly1305 decryption of `ciphertext` under `key` and `nonce`
/// gives: the plaintext, or `None` when authentication fails.
pub uninterp spec fn chacha20poly1305_open(key: Seq<u8>, nonce: Seq<u8>, ciphertext: Seq<u8>) -> Option<Seq<u8>>;

/// The SHA-256 digest of `data`.
pub uninterp spec fn sha256_digest(data: Seq<u8>) -> Seq<u8>;

/// ChaCha20 can encrypt a message of this length before its block counter runs out.
pub open spec fn seal_fits(len: nat) -> bool {
    len / 64 < u32::MAX
}

/// Optional bytes seen by value.
pub open spec fn bytes_view(o: Option<Vec<u8>>) -> Option<Seq<u8>> {
    match o {
        Some(v) => Some(v@),
        None => None,
    }
}

/// Calls `ChaCha20Poly1305::encrypt` (no associated data). The crate's source
/// refuses messages whose 64-byte block count reaches `u32::MAX` and otherwise
/// returns the ciphertext followed by a 16-byte tag; the bytes themselves are
/// only named, not described.
#[verifier::external_body]
fn aead_seal(key: &[u8; 32], nonce: &[u8; 12], plaintext: &[u8]) -> (sealed: Option<Vec<u8>>)
    ensures
        sealed is Some <==> seal_fits(plaintext@.len()),
        sealed matches Some(c) ==> c@ == chacha20poly1305_seal(key@, nonce@, plaintext@),
        sealed matches Some(c) ==> c@.len() == plaintext@.len() + 16,
{
    let cipher = chacha20poly1305::ChaCha20Poly1305::new(chacha20poly1305::Key::from_slice(key));
    cipher.encrypt(chacha20poly1305::Nonce::from_slice(nonce), plaintext).ok()
}

/// Calls `ChaCha20Poly1305::decrypt` (no associated data). Its result is the
/// named opening; a successful opening is 16 bytes shorter than the input,
/// and opening what encryption produced under the same key and nonce gives the
/// plaintext back (AEAD correctness, as the source's tag check shows). That a
/// tampered ciphertext is refused holds only with overwhelming probability and
/// is not stated.
#[verifier::external_body]
fn aead_open(key: &[u8; 32], nonce: &[u8; 12], ciphertext: &[u8]) -> (opened: Option<Vec<u8>>)
    ensures
        bytes_view(opened) == chacha20poly1305_open(key@, nonce@, ciphertext@),
        opened matches Some(p) ==> p@.len() + 16 == ciphertext@.len(),
        forall|p: Seq<u8>|
            bytes_view(opened) == Some(p) || !seal_fits(p.len()) || #[trigger] chacha20poly1305_seal(key@, nonce@, p) != ciphertext@,
{
    let cipher = chacha20poly1305::ChaCha20Poly1305::new(chacha20poly1305::Key::from_slice(key));
    cipher.decrypt(chacha20poly1305::Nonce::from_slice(nonce), ciphertext).ok()
}

/// Calls `sha2::Sha256::digest`; the 32-byte result is the named digest.
#[verifier::external_body]
pub(crate) fn sha256(data: &[u8]) -> (digest: [u8; 32])
    ensures
        digest@ == sha256_digest(data@),
{
    sha2::Sha256::digest(data).into()
}

/// The 12-byte nonce for a sequence number: four zero bytes, then the
/// sequence in big-endian order.
pub open spec fn nonce_bytes(sequence: u64) -> Seq<u8> {
    seq![0u8, 0u8, 0u8, 0u8] + be64(sequence)
}

/// Builds the AEAD nonce for `sequence`.
pub fn nonce_from_sequence(sequence: u64) -> (nonce: [u8; 12])
    ensures
        nonce@ == nonce_bytes(sequence),
{
    let nonce: [u8; 12] = [
        0u8,
        0u8,
        0u8,
        0u8,
        (sequence >> 56u64) as u8,
        (sequence >> 48u64) as u8,
        (sequence >> 40u64) as u8,
        (sequence >> 32u64) as u8,
        (sequence >> 24u64) as u8,
        (sequence >> 16u64) as u8,
        (sequence >> 8u64) as u8,
        sequence as u8,
    ];
    assert(nonce@ =~= nonce_bytes(sequence));
    nonce
}

/// Session crypto holding a 32-byte pre-shared key.
#[derive(Clone, Copy)]
pub struct SessionCrypto {
    key: [u8; 32],
}

impl View for SessionCrypto {
    type V = Seq<u8>;

    closed spec fn view(&self) -> Seq<u8> {
        self.key@
    }
}

impl SessionCrypto {
    /// Create from a raw 32-byte key.
    pub fn from_key(key: [u8; 32]) -> (crypto: Self)
        ensures
            crypto@ == key@,
    {
        SessionCrypto { key }
    }

    /// Encrypt a payload; the nonce is derived from the sequence number.
    pub fn encrypt(&self, sequence: u64, plaintext: &[u8]) -> (r: Result<Vec<u8>, ProtocolError>)
        ensures
            r is Ok <==> seal_fits(plaintext@.len()),
            r matches Ok(c) ==> c@ == chacha20poly1305_seal(self@, nonce_bytes(sequence), plaintext@),
            r matches Ok(c) ==> c@.len() == plaintext@.len() + 16,
            r matches Err(e) ==> e is CryptoFailed,
    {
        let nonce = nonce_from_sequence(sequence);
        match aead_seal(&self.key, &nonce, plaintext) {
            Some(c) => Ok(c),
            None => Err(ProtocolError::CryptoFailed),
        }
    }

    /// Decrypt and authenticate a payload.
    pub fn decrypt(&self, sequence: u64, ciphertext: &[u8]) -> (r: Result<Vec<u8>, ProtocolError>)
        ensures
            r is Ok <==> chacha20poly1305_open(self@, nonce_bytes(sequence), ciphertext@) is Some,
            r matches Ok(p) ==> Some(p@) == chacha20poly1305_open(
                self@,
                nonce_bytes(sequence),
                ciphertext@,
            ),
            r matches Ok(p) ==> p@.len() + 16 == ciphertext@.len(),
            r matches Err(e) ==> e is CryptoFailed,
            forall|p: Seq<u8>|
                seal_fits(p.len()) && #[trigger] chacha20poly1305_seal(self@, nonce_bytes(sequence), p)
                    == ciphertext@ ==> (r matches Ok(q) && q@ == p),
    {
        let nonce = nonce_from_sequence(sequence);
        match aead_open(&self.key, &nonce, ciphertext) {
            Some(p) => Ok(p),
            None => Err(ProtocolError::CryptoFailed),
        }
    }
}

/// Derive a 32-byte key from a password: SHA-256 over a fixed label followed
/// by the password's UTF-8 bytes.
pub fn derive_key_from_password(password: &str) -> (key: [u8; 32])
    ensures
        key@ == sha256_digest("bmw-enet-gateway-v1:".spec_bytes() + password.spec_bytes()),
{
    let label: &str = "bmw-enet-gateway-v1:";
    let label_bytes = label.as_bytes();
    let mut data = vstd::slice::slice_to_vec(label_bytes);
    assert(data@ == label.spec_bytes());
    let pw = password.as_bytes();
    data.extend_from_slice(pw);
    assert(data@ == label.spec_bytes() + password.spec_bytes());
    sha256(data.as_slice())
}

} // verus!
