use msg_socket::wire::{Codec, Message, WireError, DEFAULT_MAX_PAYLOAD};

#[test]
fn encode_layout() {
    let m = Message::new(7, b"ping".to_vec());
    let bytes = msg_socket::wire::encode(&m);
    assert_eq!(&bytes[0..4], &[0, 0, 0, 7]);
    assert_eq!(&bytes[4..8], &[0, 0, 0, 4]);
    assert_eq!(&bytes[8..], b"ping");
}

#[test]
fn decode_round_trip() {
    let m = Message::new(0xDEADBEEF, b"hello world".to_vec());
    let bytes = msg_socket::wire::encode(&m);
    let mut codec = Codec::new();
    codec.feed(&bytes);
    let got = codec.decode().unwrap().unwrap();
    assert_eq!(got.id(), 0xDEADBEEF);
    assert_eq!(got.into_payload(), b"hello world".to_vec());
    assert!(codec.decode().unwrap().is_none());
    assert!(codec.finish().is_ok());
}

#[test]
fn decode_needs_whole_frame() {
    let m = Message::new(1, b"abcdef".to_vec());
    let bytes = msg_socket::wire::encode(&m);
    let mut codec = Codec::new();
    codec.feed(&bytes[..3].to_vec());
    assert!(codec.decode().unwrap().is_none());
    codec.feed(&bytes[3..10].to_vec());
    assert!(codec.decode().unwrap().is_none());
    codec.feed(&bytes[10..].to_vec());
    let got = codec.decode().unwrap().unwrap();
    assert_eq!(got.id(), 1);
    assert_eq!(got.into_payload(), b"abcdef".to_vec());
}

#[test]
fn decode_two_frames_in_order() {
    let mut bytes = msg_socket::wire::encode(&Message::new(1, b"first".to_vec()));
    bytes.extend_from_slice(&msg_socket::wire::encode(&Message::new(2, b"second".to_vec())));
    let mut codec = Codec::new();
    codec.feed(&bytes);
    let a = codec.decode().unwrap().unwrap();
    let b = codec.decode().unwrap().unwrap();
    assert_eq!(a.id(), 1);
    assert_eq!(b.id(), 2);
    assert_eq!(a.into_payload(), b"first".to_vec());
    assert_eq!(b.into_payload(), b"second".to_vec());
}

#[test]
fn decode_rejects_oversize_frame() {
    let m = Message::new(9, b"12345".to_vec());
    let bytes = msg_socket::wire::encode(&m);
    let mut codec = Codec::with_max_payload(4);
    codec.feed(&bytes);
    assert_eq!(codec.decode(), Err(WireError::LengthExceeded(4)));
}

#[test]
fn default_max_payload_is_16_mib() {
    assert_eq!(DEFAULT_MAX_PAYLOAD, 16 * 1024 * 1024);
}

#[test]
fn finish_reports_truncated_frame() {
    let m = Message::new(3, b"xyz".to_vec());
    let bytes = msg_socket::wire::encode(&m);
    let mut codec = Codec::new();
    codec.feed(&bytes[..bytes.len() - 1].to_vec());
    assert!(codec.decode().unwrap().is_none());
    assert_eq!(codec.finish(), Err(WireError::Truncated));
}

#[test]
fn empty_payload_frame() {
    let m = Message::new(0, Vec::new());
    let bytes = msg_socket::wire::encode(&m);
    assert_eq!(bytes.len(), 8);
    let mut codec = Codec::new();
    codec.feed(&bytes);
    let got = codec.decode().unwrap().unwrap();
    assert_eq!(got.id(), 0);
    assert!(got.into_payload().is_empty());
}
