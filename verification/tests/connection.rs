use ghostline::connection::{Connection, ConnectionEvent, ReceiveAction, Unsupported};
use ghostline::models::MessageSender;
use ghostline::packet::event::EventPacket;
use ghostline::packet::handshake::PeerIdentity;
use ghostline::packet::request::RequestPacket;
use ghostline::packet::response::ResponsePacket;
use ghostline::packet::Packet;

fn identity() -> PeerIdentity {
    PeerIdentity {
        public_key_bytes: [3u8; 32],
        display_name: "bob".into(),
        client_version: "0.1.0".into(),
        capabilities: vec![],
        timestamp: 9,
    }
}

#[test]
fn opening_packets_announce_capabilities_then_identity() {
    let c = Connection::new();
    let packets = c.opening_packets(&identity());
    assert_eq!(
        packets,
        vec![
            Packet::Response {
                request_id: 0,
                payload: ResponsePacket::Capabilities {
                    caps: vec!["CLEAR_TEXT".into(), "NO_AUTH".into(), "SIMPLE_TEXT_CHAT".into()],
                },
            },
            Packet::HandShake(identity()),
        ]
    );
}

#[test]
fn request_ids_count_up_and_responses_are_delivered() {
    let mut c = Connection::new();
    let p1 = c.begin_request(RequestPacket::GetCapabilities);
    let p2 = c.begin_request(RequestPacket::GetCapabilities);
    assert_eq!(p1, Packet::Request { request_id: 1, payload: RequestPacket::GetCapabilities });
    assert_eq!(p2, Packet::Request { request_id: 2, payload: RequestPacket::GetCapabilities });
    let reply = Packet::Response { request_id: 2, payload: ResponsePacket::Success };
    match c.on_packet(reply.clone(), "m".into(), 0) {
        ReceiveAction::Deliver { request_id, payload } => {
            assert_eq!(request_id, 2);
            assert_eq!(payload, ResponsePacket::Success);
        }
        _ => panic!("response was not delivered"),
    }
    // nobody waits for id 2 any more
    assert!(matches!(c.on_packet(reply, "m".into(), 0), ReceiveAction::Ignore));
    assert_eq!(c.next_request_id(), 3);
}

#[test]
fn capabilities_are_recorded_and_gate_text() {
    let mut c = Connection::new();
    assert_eq!(c.simple_text_packet("hi".into()), Err(Unsupported));
    let caps = Packet::Response {
        request_id: 0,
        payload: ResponsePacket::Capabilities { caps: vec!["SIMPLE_TEXT_CHAT".into()] },
    };
    match c.on_packet(caps, "m".into(), 0) {
        ReceiveAction::Emit(ConnectionEvent::CapabilitiesUpdated { caps }) => {
            assert_eq!(caps, vec!["SIMPLE_TEXT_CHAT".to_string()])
        }
        _ => panic!("capabilities were not reported"),
    }
    assert_eq!(c.capabilities(), vec!["SIMPLE_TEXT_CHAT".to_string()]);
    assert_eq!(
        c.simple_text_packet("hi".into()),
        Ok(Packet::Event(EventPacket::ChatMessage("hi".into())))
    );
}

#[test]
fn incoming_chat_handshake_and_request() {
    let mut c = Connection::new();
    let chat = Packet::Event(EventPacket::ChatMessage("yo".into())).encode();
    match c.on_bytes(&chat, "uuid-7".into(), 1234) {
        ReceiveAction::Emit(ConnectionEvent::MessageReceived(m)) => {
            assert_eq!(m.uuid, "uuid-7");
            assert_eq!(m.content, "yo");
            assert_eq!(m.timestamp, 1234);
            assert_eq!(m.sender, MessageSender::Remote);
        }
        _ => panic!("chat was not reported"),
    }
    match c.on_packet(Packet::HandShake(identity()), "m".into(), 0) {
        ReceiveAction::Emit(ConnectionEvent::PeerIdentified { peer }) => assert_eq!(peer, identity()),
        _ => panic!("handshake was not reported"),
    }
    let req = Packet::Request { request_id: 77, payload: RequestPacket::GetCapabilities };
    match c.on_packet(req, "m".into(), 0) {
        ReceiveAction::Reply(p) => assert_eq!(
            p,
            Packet::Response { request_id: 77, payload: ResponsePacket::Success }
        ),
        _ => panic!("request was not answered"),
    }
    assert!(matches!(c.on_bytes(&[1, 9], "m".into(), 0), ReceiveAction::Ignore));
    assert!(matches!(
        c.on_packet(Packet::Response { request_id: 0, payload: ResponsePacket::Success }, "m".into(), 0),
        ReceiveAction::Ignore
    ));
}

#[test]
fn history_pages() {
    let mut c = Connection::new();
    for i in 0..5 {
        c.message_history.push((format!("s{}", i), format!("t{}", i)));
    }
    assert_eq!(
        c.get_messages(1, 2),
        vec![("s1".to_string(), "t1".to_string()), ("s2".to_string(), "t2".to_string())]
    );
    assert_eq!(c.get_messages(4, 10).len(), 1);
    assert!(c.get_messages(9, 3).is_empty());
}

#[test]
fn fresh_connection_hands_out_ids_one_to_k() {
    let mut c = Connection::new();
    for expected in 1u64..=5 {
        match c.begin_request(RequestPacket::GetCapabilities) {
            Packet::Request { request_id, .. } => assert_eq!(request_id, expected),
            other => panic!("unexpected {:?}", other),
        }
    }
}
