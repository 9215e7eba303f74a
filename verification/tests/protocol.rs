use bmw_enet::crypto::{derive_key_from_password, SessionCrypto};
use bmw_enet::error::ProtocolError;
use bmw_enet::frame::{FrameHeader, FrameType, TunnelFrame, HEADER_LEN, MAX_ETHERNET_FRAME};
use bmw_enet::relay::{encode_relay_frame, normalize_relay_addr, relay_frame_len, RelayFrameError};

#[test]
fn roundtrip_ethernet() {
    let payload: Vec<u8> = b"\xff\xff\xff\xff\xff\xff\x00\x11\x22\x33\x44\x55\x08\x00hello".to_vec();
    let frame = TunnelFrame::ethernet(42, 123456, payload.clone()).unwrap();
    let encoded = frame.encode(None).unwrap();
    let decoded = TunnelFrame::decode(&encoded, None).unwrap();
    assert_eq!(decoded.header.sequence, 42);
    assert_eq!(decoded.header.frame_type, FrameType::Ethernet);
    assert_eq!(decoded.payload, payload);
}

#[test]
fn reject_oversized() {
    let big = vec![0u8; MAX_ETHERNET_FRAME + 1];
    assert!(TunnelFrame::ethernet(1, 0, big).is_err());
}

#[test]
fn encrypt_roundtrip() {
    let key = derive_key_from_password("test-secret");
    let crypto = SessionCrypto::from_key(key);
    let pt = b"ethernet-frame-bytes";
    let ct = crypto.encrypt(7, pt).unwrap();
    assert_ne!(&ct[..], &pt[..]);
    let rt = crypto.decrypt(7, &ct).unwrap();
    assert_eq!(&rt[..], &pt[..]);
}

#[test]
fn tamper_detected() {
    let crypto = SessionCrypto::from_key(derive_key_from_password("x"));
    let mut ct = crypto.encrypt(1, b"abc").unwrap();
    ct[0] ^= 0xff;
    assert!(crypto.decrypt(1, &ct).is_err());
}

#[test]
fn normalize_adds_port() {
    assert_eq!(normalize_relay_addr("example.com"), "example.com:47910");
    assert_eq!(normalize_relay_addr("example.com:1234"), "example.com:1234");
    assert_eq!(normalize_relay_addr("tcp://a:9"), "a:9");
}

#[test]
fn normalize_trims_and_strips_relay_scheme() {
    assert_eq!(normalize_relay_addr("  relay://host  "), "host:47910");
    assert_eq!(normalize_relay_addr("relay://h:1"), "h:1");
}

#[test]
fn encrypted_frame_roundtrip_sets_flag() {
    let crypto = SessionCrypto::from_key(derive_key_from_password("lab-secret"));
    let payload = b"\xff\xff\xff\xff\xff\xff\xaa\xbb\xcc\xdd\xee\xff\x08\x00SECRET".to_vec();
    let frame = TunnelFrame::ethernet(9, 77, payload.clone()).unwrap();
    let wire = frame.encode(Some(&crypto)).unwrap();
    assert_eq!(TunnelFrame::is_encrypted_raw(&wire), Ok(true));
    assert_eq!(wire.len(), HEADER_LEN + payload.len() + 16);
    let back = TunnelFrame::decode(&wire, Some(&crypto)).unwrap();
    assert_eq!(back.payload, payload);
    assert_eq!(back.header.sequence, 9);
    assert_eq!(back.header.timestamp_ms_lo, 77);
    // Without the key the encrypted frame is refused.
    assert!(TunnelFrame::decode(&wire, None).is_err());
    // A plaintext frame is not flagged.
    let plain = frame.encode(None).unwrap();
    assert_eq!(TunnelFrame::is_encrypted_raw(&plain), Ok(false));
}

#[test]
fn wrong_key_is_refused() {
    let a = SessionCrypto::from_key(derive_key_from_password("one"));
    let b = SessionCrypto::from_key(derive_key_from_password("two"));
    let frame = TunnelFrame::keepalive(3, 5, 0);
    let wire = frame.encode(Some(&a)).unwrap();
    assert_eq!(TunnelFrame::decode(&wire, Some(&b)).err(), Some(ProtocolError::CryptoFailed));
}

#[test]
fn header_errors_in_order() {
    assert_eq!(FrameHeader::decode(&[0u8; 10]).err(), Some(ProtocolError::TooShort(10)));
    let mut bytes = TunnelFrame::keepalive(1, 2, 0).encode(None).unwrap();
    bytes[4] = 9;
    assert_eq!(FrameHeader::decode(&bytes).err(), Some(ProtocolError::BadVersion(9)));
    bytes[4] = 1;
    bytes[5] = 200;
    assert_eq!(FrameHeader::decode(&bytes).err(), Some(ProtocolError::BadFrameType(200)));
    bytes[0] = b'X';
    assert_eq!(
        FrameHeader::decode(&bytes).err(),
        Some(ProtocolError::BadControl("bad magic: [58, 4e, 45, 54]".to_string()))
    );
    assert_eq!(format!("bad magic: {:02x?}", &bytes[..4]), "bad magic: [58, 4e, 45, 54]");
}

#[test]
fn frame_type_codes() {
    assert_eq!(FrameType::from_u8(1), Ok(FrameType::Ethernet));
    assert_eq!(FrameType::from_u8(7), Ok(FrameType::SafetyProbe));
    assert_eq!(FrameType::from_u8(6), Ok(FrameType::Ack));
    assert_eq!(FrameType::from_u8(0), Err(ProtocolError::BadFrameType(0)));
    assert_eq!(FrameType::Goodbye.as_u8(), 4);
}

#[test]
fn keepalive_carries_cookie() {
    let f = TunnelFrame::keepalive(11, 22, 1);
    assert_eq!(f.header.frame_type, FrameType::Keepalive);
    assert_eq!(f.payload, vec![0, 0, 0, 0, 0, 0, 0, 1]);
    assert_eq!(f.header.payload_len, 8);
}

#[test]
fn nonce_and_key_derivation_are_stable() {
    let a = derive_key_from_password("secret");
    let b = derive_key_from_password("secret");
    let c = derive_key_from_password("other");
    assert_eq!(a, b);
    assert_ne!(a, c);
    assert_eq!(bmw_enet::crypto::nonce_from_sequence(0x0102), [0, 0, 0, 0, 0, 0, 0, 0, 0, 0, 1, 2]);
}

#[test]
fn relay_frame_prefix() {
    let framed = encode_relay_frame(b"abc").unwrap();
    assert_eq!(framed, vec![0, 0, 0, 3, b'a', b'b', b'c']);
    assert_eq!(relay_frame_len([0, 0, 0, 3]), Ok(3));
    assert!(relay_frame_len([0, 0, 0, 0]).is_err());
    assert!(relay_frame_len([0, 1, 0, 0]).is_err());
    assert!(matches!(encode_relay_frame(&vec![0u8; 5000]), Err(RelayFrameError::TooLarge(_))));
}
