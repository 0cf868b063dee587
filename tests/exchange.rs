use iroh_drop::frame::{encode_frame, FrameReader};
use iroh_drop::message::{Postcard, ProtocolMessage, SymmetricalPostcard};
use iroh_drop::protocol::{
    is_fresh, next_incoming, scan_targets, InboundAction, Incoming, LocalProtocolMessage, Protocol,
    ProtocolError, Sighting, ALPN, FRESHNESS_WINDOW_SECS,
};
use iroh_drop::registry::{same_node, PeerRegistry};

const ALICE: [u8; 32] = [0xA1; 32];
const BOB: [u8; 32] = [0xB0; 32];

fn codec() -> SymmetricalPostcard<ProtocolMessage> {
    Postcard::new()
}

/// Writes `m` as a frame into `reader`, as a stream would deliver it.
fn deliver(reader: &mut FrameReader, m: &ProtocolMessage) {
    let payload = codec().serialize(m);
    reader.push(&encode_frame(&payload).unwrap());
}

fn read(reader: &mut FrameReader, at_end: bool) -> Incoming {
    next_incoming(reader, &codec(), at_end).expect("a whole frame or the end is buffered")
}

#[test]
fn registry_upsert_then_get() {
    let mut reg = PeerRegistry::new();
    reg.upsert(ALICE, "Alice".to_string());
    assert_eq!(reg.get(&ALICE).unwrap().name, "Alice");
    assert!(reg.contains(&ALICE));
}

#[test]
fn registry_last_write_wins() {
    let mut reg = PeerRegistry::new();
    reg.upsert(ALICE, "Alice".to_string());
    reg.upsert(BOB, "Bob".to_string());
    reg.upsert(ALICE, "Alicia".to_string());
    assert_eq!(reg.get(&ALICE).unwrap().name, "Alicia");
    assert_eq!(reg.get(&BOB).unwrap().name, "Bob");
}

#[test]
fn registry_never_upserted_is_unknown() {
    let mut reg = PeerRegistry::new();
    assert!(!reg.contains(&ALICE));
    reg.upsert(BOB, "Bob".to_string());
    assert!(!reg.contains(&ALICE));
    assert!(reg.get(&ALICE).is_none());
}

#[test]
fn same_node_compares_every_byte() {
    let mut other = ALICE;
    other[31] = 0;
    assert!(same_node(&ALICE, &ALICE));
    assert!(!same_node(&ALICE, &other));
}

#[test]
fn send_file_to_unknown_peer_is_refused() {
    let alice = Protocol::new("Alice".to_string());
    match alice.send_file(&BOB, "report.txt".to_string()) {
        Err(e) => assert_eq!(e, ProtocolError::UnknownNode),
        Ok(_) => panic!("an unknown peer was accepted"),
    }
}

#[test]
fn offer_from_unknown_peer_is_dropped() {
    let mut bob = Protocol::new("Bob".to_string());
    let offer = ProtocolMessage::SendRequest { name: "x".to_string(), hash: [1; 32], size: 5 };
    let action = bob.accept(&ALICE, Incoming::Message(offer));
    assert!(matches!(action, InboundAction::Continue));
    assert!(!bob.is_known_node(&ALICE));
}

#[test]
fn introduce_twice_overwrites() {
    let mut alice = Protocol::new("Alice".to_string());
    let first = Incoming::Message(ProtocolMessage::IntroResponse { name: "Bob".to_string() });
    let second = Incoming::Message(ProtocolMessage::IntroResponse { name: "Robert".to_string() });
    assert_eq!(alice.intro_reply(BOB, first).unwrap(), "Bob");
    assert_eq!(alice.intro_reply(BOB, second).unwrap(), "Robert");
    assert_eq!(alice.node_name(&BOB).unwrap(), "Robert");
}

#[test]
fn intro_reply_errors() {
    let mut alice = Protocol::new("Alice".to_string());
    let wrong = Incoming::Message(ProtocolMessage::Finish);
    assert_eq!(alice.intro_reply(BOB, wrong).unwrap_err(), ProtocolError::UnexpectedResponse);
    let request = Incoming::Message(ProtocolMessage::IntroRequest { name: "Bob".to_string() });
    assert_eq!(alice.intro_reply(BOB, request).unwrap_err(), ProtocolError::UnexpectedResponse);
    assert_eq!(alice.intro_reply(BOB, Incoming::Closed).unwrap_err(), ProtocolError::RemoteAborted);
    assert_eq!(alice.intro_reply(BOB, Incoming::Malformed).unwrap_err(), ProtocolError::Malformed);
    assert_eq!(alice.intro_reply(BOB, Incoming::Failed).unwrap_err(), ProtocolError::Transport);
    assert!(!alice.is_known_node(&BOB));
}

#[test]
fn should_introduce_only_unknown_peers() {
    let mut alice = Protocol::new("Alice".to_string());
    assert!(alice.should_introduce(&BOB));
    let reply = Incoming::Message(ProtocolMessage::IntroResponse { name: "Bob".to_string() });
    alice.intro_reply(BOB, reply).unwrap();
    assert!(!alice.should_introduce(&BOB));
}

#[test]
fn end_to_end_introduce_then_send() {
    let mut alice = Protocol::new("Alice".to_string());
    let mut bob = Protocol::new("Bob".to_string());

    // Alice opens an introduction stream to Bob.
    let mut at_bob = FrameReader::new();
    let mut at_alice = FrameReader::new();
    deliver(&mut at_bob, &alice.send_intro());
    let action = bob.accept(&ALICE, read(&mut at_bob, false));
    match action {
        InboundAction::Reply(m) => deliver(&mut at_alice, &m),
        _ => panic!("an introduction gets a reply"),
    }
    assert_eq!(bob.node_name(&ALICE).unwrap(), "Alice");
    let name = alice.intro_reply(BOB, read(&mut at_alice, false)).unwrap();
    assert_eq!(name, "Bob");
    assert_eq!(alice.node_name(&BOB).unwrap(), "Bob");
    deliver(&mut at_bob, &ProtocolMessage::Finish);
    assert!(matches!(bob.accept(&ALICE, read(&mut at_bob, true)), InboundAction::Drain));

    // Alice sends a file on a second stream.
    let bytes = b"quarterly numbers".to_vec();
    let pending = alice.send_file(&BOB, "report.txt".to_string()).unwrap();
    let hash = [0x42u8; 32];
    let mut at_bob = FrameReader::new();
    for m in pending.messages(hash, bytes.len() as u64) {
        deliver(&mut at_bob, &m);
    }
    let mut events = Vec::new();
    loop {
        match bob.accept(&ALICE, read(&mut at_bob, true)) {
            InboundAction::Download(request) => {
                assert_eq!(request.from, ALICE);
                if let Some(e) = request.completed(true) {
                    events.push(e);
                }
            }
            InboundAction::Drain => break,
            _ => panic!("nothing else was sent"),
        }
    }
    assert_eq!(events.len(), 1);
    match &events[0] {
        LocalProtocolMessage::FileDownloaded { name, hash: h, size } => {
            assert_eq!(name, "report.txt");
            assert_eq!(h, &hash);
            assert_eq!(*size, bytes.len() as u64);
        }
    }
}

#[test]
fn failed_fetch_emits_nothing() {
    let mut bob = Protocol::new("Bob".to_string());
    let intro = Incoming::Message(ProtocolMessage::IntroRequest { name: "Alice".to_string() });
    bob.accept(&ALICE, intro);
    let offer = ProtocolMessage::SendRequest { name: "x".to_string(), hash: [3; 32], size: 1 };
    match bob.accept(&ALICE, Incoming::Message(offer)) {
        InboundAction::Download(request) => assert!(request.completed(false).is_none()),
        _ => panic!("a known peer's offer is fetched"),
    }
}

#[test]
fn unreachable_peer_reads_fail_and_drain() {
    let mut alice = Protocol::new("Alice".to_string());
    let reply = Incoming::Message(ProtocolMessage::IntroResponse { name: "Bob".to_string() });
    alice.intro_reply(BOB, reply).unwrap();
    assert!(alice.send_file(&BOB, "f".to_string()).is_ok());
    assert_eq!(alice.intro_reply(BOB, Incoming::Failed).unwrap_err(), ProtocolError::Transport);
    assert!(matches!(alice.accept(&BOB, Incoming::Failed), InboundAction::Drain));
}

#[test]
fn malformed_frame_then_truncated_stream() {
    let mut bob = Protocol::new("Bob".to_string());
    let mut at_bob = FrameReader::new();
    at_bob.push(&encode_frame(&[9, 9]).unwrap());
    deliver(&mut at_bob, &ProtocolMessage::IntroRequest { name: "Alice".to_string() });
    at_bob.push(&[0, 0, 0, 10, 0, 1]);

    let first = read(&mut at_bob, true);
    assert!(matches!(first, Incoming::Malformed));
    assert!(matches!(bob.accept(&ALICE, first), InboundAction::Continue));
    let second = read(&mut at_bob, true);
    assert!(matches!(bob.accept(&ALICE, second), InboundAction::Reply(_)));
    let third = read(&mut at_bob, true);
    assert!(matches!(third, Incoming::Failed));
    assert!(matches!(bob.accept(&ALICE, third), InboundAction::Drain));
}

#[test]
fn oversized_header_fails_the_stream() {
    let mut at_bob = FrameReader::new();
    at_bob.push(&[0xFF, 0xFF, 0xFF, 0xFF]);
    assert!(matches!(read(&mut at_bob, false), Incoming::Failed));
}

#[test]
fn clean_end_between_frames_is_closed() {
    let mut at_bob = FrameReader::new();
    assert!(next_incoming(&mut at_bob, &codec(), false).is_none());
    assert!(matches!(read(&mut at_bob, true), Incoming::Closed));
}

#[test]
fn freshness_window_edges() {
    assert_eq!(FRESHNESS_WINDOW_SECS, 60);
    assert!(is_fresh(0, 0));
    assert!(is_fresh(59, 999_999_999));
    assert!(is_fresh(60, 0));
    assert!(!is_fresh(60, 1));
    assert!(!is_fresh(61, 0));
}

#[test]
fn protocol_identifier() {
    assert_eq!(ALPN, "iroh-drop/0");
}

#[test]
fn scan_keeps_fresh_local_sightings_in_order() {
    let carol = [0xC0u8; 32];
    let sightings = vec![
        Sighting { node: ALICE, local: true, secs: 5, nanos: 0 },
        Sighting { node: BOB, local: false, secs: 1, nanos: 0 },
        Sighting { node: carol, local: true, secs: 60, nanos: 1 },
        Sighting { node: BOB, local: true, secs: 60, nanos: 0 },
        Sighting { node: ALICE, local: true, secs: 30, nanos: 0 },
    ];
    assert_eq!(scan_targets(&sightings), vec![ALICE, BOB, ALICE]);
    assert!(scan_targets(&Vec::new()).is_empty());
}
