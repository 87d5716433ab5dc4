use moq_net::coding::{Decode, DecodeError, Encode, EncodeError};
use moq_net::lite::{Datagram, Version};

#[test]
fn roundtrip() {
    let original = Datagram {
        subscribe: 7,
        sequence: 42,
        timestamp: 1_000,
        payload: b"hello".to_vec(),
    };
    let mut buf = Vec::new();
    original.encode(&mut buf, Version::Lite05).unwrap();
    let mut slice = &buf[..];
    let decoded = Datagram::decode(&mut slice, Version::Lite05).unwrap();
    assert_eq!(decoded, original);
    assert!(slice.is_empty(), "payload has no trailing length prefix");
}

#[test]
fn empty_payload() {
    let original = Datagram {
        subscribe: 0,
        sequence: 0,
        timestamp: 0,
        payload: Vec::new(),
    };
    let mut buf = Vec::new();
    original.encode(&mut buf, Version::Lite05).unwrap();
    let mut slice = &buf[..];
    let decoded = Datagram::decode(&mut slice, Version::Lite05).unwrap();
    assert_eq!(decoded, original);
}

#[test]
fn no_inner_length_prefix() {
    // The payload is boundary-delimited, so the encoding is exactly the three varints followed
    // by the raw bytes (5 here) with nothing in between.
    let dg = Datagram {
        subscribe: 1,
        sequence: 2,
        timestamp: 3,
        payload: b"world".to_vec(),
    };
    let buf = dg.encode_bytes(Version::Lite05).unwrap();
    // 1 + 1 + 1 (single-byte varints) + 5 payload = 8 bytes, no length byte.
    assert_eq!(buf.len(), 8);
    assert_eq!(&buf[3..], b"world");
}

#[test]
fn rejects_old_versions() {
    let dg = Datagram {
        subscribe: 1,
        sequence: 2,
        timestamp: 3,
        payload: b"x".to_vec(),
    };
    let mut buf = Vec::new();
    assert!(matches!(
        dg.encode(&mut buf, Version::Lite04),
        Err(EncodeError::Version)
    ));

    let mut slice = &b"\x01\x02\x03x"[..];
    assert!(matches!(
        Datagram::decode(&mut slice, Version::Lite04),
        Err(DecodeError::Version)
    ));
}
