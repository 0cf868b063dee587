use iroh_drop::frame::{encode_frame, FrameError, FrameReader, MAX_FRAME_LEN};
use iroh_drop::message::{DecodeError, Postcard, ProtocolMessage, SymmetricalPostcard};

fn codec() -> SymmetricalPostcard<ProtocolMessage> {
    Postcard::new()
}

fn round_trip(m: &ProtocolMessage) -> ProtocolMessage {
    let c = codec();
    let bytes = c.serialize(m);
    c.deserialize(&bytes).expect("a serialized message decodes")
}

fn same(a: &ProtocolMessage, b: &ProtocolMessage) -> bool {
    match (a, b) {
        (ProtocolMessage::IntroRequest { name: x }, ProtocolMessage::IntroRequest { name: y }) => x == y,
        (ProtocolMessage::IntroResponse { name: x }, ProtocolMessage::IntroResponse { name: y }) => x == y,
        (
            ProtocolMessage::SendRequest { name: n1, hash: h1, size: s1 },
            ProtocolMessage::SendRequest { name: n2, hash: h2, size: s2 },
        ) => n1 == n2 && h1 == h2 && s1 == s2,
        (ProtocolMessage::Finish, ProtocolMessage::Finish) => true,
        _ => false,
    }
}

#[test]
fn round_trip_every_variant() {
    let msgs = vec![
        ProtocolMessage::IntroRequest { name: "Alice".to_string() },
        ProtocolMessage::IntroResponse { name: "Bob".to_string() },
        ProtocolMessage::IntroRequest { name: String::new() },
        ProtocolMessage::IntroResponse { name: "Zoë 🚀".to_string() },
        ProtocolMessage::SendRequest { name: "report.txt".to_string(), hash: [7u8; 32], size: 0 },
        ProtocolMessage::SendRequest { name: "big.bin".to_string(), hash: [255u8; 32], size: u64::MAX },
        ProtocolMessage::Finish,
    ];
    for m in &msgs {
        assert!(same(m, &round_trip(m)));
    }
}

#[test]
fn intro_request_bytes() {
    let bytes = codec().serialize(&ProtocolMessage::IntroRequest { name: "Bob".to_string() });
    assert_eq!(bytes, vec![0, 3, b'B', b'o', b'b']);
}

#[test]
fn intro_response_bytes_non_ascii() {
    let bytes = codec().serialize(&ProtocolMessage::IntroResponse { name: "é".to_string() });
    assert_eq!(bytes, vec![1, 2, 0xC3, 0xA9]);
}

#[test]
fn finish_bytes() {
    assert_eq!(codec().serialize(&ProtocolMessage::Finish), vec![3]);
}

#[test]
fn send_request_bytes_with_multibyte_size() {
    let mut hash = [0u8; 32];
    hash[0] = 0xAB;
    hash[31] = 0xCD;
    let bytes = codec().serialize(&ProtocolMessage::SendRequest {
        name: "a".to_string(),
        hash,
        size: 300,
    });
    let mut expected = vec![2, 1, b'a'];
    expected.extend_from_slice(&hash);
    expected.extend_from_slice(&[0xAC, 0x02]);
    assert_eq!(bytes, expected);
}

#[test]
fn decode_rejects_empty_payload() {
    assert_eq!(codec().deserialize(&[]).unwrap_err(), DecodeError);
}

#[test]
fn decode_rejects_unknown_tag() {
    assert!(codec().deserialize(&[4]).is_err());
}

#[test]
fn decode_rejects_truncated_string() {
    assert!(codec().deserialize(&[0, 5, b'A', b'l']).is_err());
}

#[test]
fn decode_rejects_invalid_utf8() {
    assert!(codec().deserialize(&[1, 1, 0xFF]).is_err());
}

#[test]
fn decode_rejects_short_digest() {
    let mut bytes = vec![2, 1, b'a'];
    bytes.extend_from_slice(&[9u8; 31]);
    assert!(codec().deserialize(&bytes).is_err());
}

#[test]
fn decode_rejects_overlong_tag() {
    assert!(codec().deserialize(&[0x80, 0x80, 0x80, 0x80, 0x80, 0x00]).is_err());
    assert!(codec().deserialize(&[0x83, 0x80, 0x80, 0x80, 0x10]).is_err());
}

#[test]
fn decode_ignores_trailing_bytes() {
    let m = codec().deserialize(&[3, 9, 9, 9]).unwrap();
    assert!(matches!(m, ProtocolMessage::Finish));
}

#[test]
fn frame_bytes_exact() {
    let frame = encode_frame(&[1, 2, 3]).unwrap();
    assert_eq!(frame, vec![0, 0, 0, 3, 1, 2, 3]);
}

#[test]
fn frame_of_empty_payload() {
    assert_eq!(encode_frame(&[]).unwrap(), vec![0, 0, 0, 0]);
}

#[test]
fn frame_at_the_limit_and_over_it() {
    let payload = vec![0u8; MAX_FRAME_LEN];
    let frame = encode_frame(&payload).unwrap();
    assert_eq!(frame.len(), MAX_FRAME_LEN + 4);
    assert_eq!(&frame[..4], &[0, 0x80, 0, 0]);
    let payload = vec![0u8; MAX_FRAME_LEN + 1];
    assert_eq!(encode_frame(&payload).unwrap_err(), FrameError::Oversized);
}

#[test]
fn reader_waits_for_whole_frames() {
    let mut r = FrameReader::new();
    r.push(&[0, 0]);
    assert_eq!(r.next_frame().unwrap(), None);
    r.push(&[0, 2, 7]);
    assert_eq!(r.next_frame().unwrap(), None);
    r.push(&[8, 0, 0, 0, 1, 9]);
    assert_eq!(r.next_frame().unwrap(), Some(vec![7, 8]));
    assert_eq!(r.next_frame().unwrap(), Some(vec![9]));
    assert_eq!(r.next_frame().unwrap(), None);
    assert_eq!(r.finish(), Ok(()));
}

#[test]
fn reader_refuses_oversized_header() {
    let mut r = FrameReader::new();
    r.push(&[0, 0x80, 0, 1]);
    assert_eq!(r.next_frame(), Err(FrameError::Oversized));
}

#[test]
fn reader_reports_truncated_end() {
    let mut r = FrameReader::new();
    r.push(&[0, 0, 0, 5, 1]);
    assert_eq!(r.next_frame().unwrap(), None);
    assert_eq!(r.finish(), Err(FrameError::Truncated));
}
