use ghostline::packet::chat_message::ChatMessagePacket;
use ghostline::connection::ConnectionEvent;
use ghostline::crypto::error::CryptoError;
use ghostline::crypto::local_identity::LocalIdentity;
use ghostline::endpoint::{greet, server_address_text, Client, Server};
use ghostline::models::{ChatMessage, Message, MessageSender};
use ghostline::peer::{local_peer_identity, PeerStatus};
use ghostline::registry::{FrontendEvent, PeerRegistry};

fn identity_of(l: &LocalIdentity, name: &str) -> ghostline::packet::handshake::PeerIdentity {
    local_peer_identity(l, name.into(), 0, 1, "0.1.0".into())
}

#[test]
fn handshake_registers_and_messages_are_recorded() {
    let alice = LocalIdentity::generate();
    let mut reg: PeerRegistry<u32> = PeerRegistry::new();
    let (key, events) = reg
        .handle_event(
            "127.0.0.1:9".into(),
            ConnectionEvent::PeerIdentified { peer: identity_of(&alice, "alice") },
            1,
        )
        .unwrap();
    assert_eq!(key, alice.peer_id());
    assert_eq!(events.len(), 2);
    assert!(matches!(
        &events[1],
        FrontendEvent::ConnectionCreated { connection_id } if *connection_id == key
    ));
    assert_eq!(reg.peer_ids(), vec![key.clone()]);

    let msg = ChatMessage {
        uuid: "u1".into(),
        content: "hello".into(),
        timestamp: 5,
        sender: MessageSender::Remote,
    };
    let (key2, events) = reg
        .handle_event(key.clone(), ConnectionEvent::MessageReceived(msg), 1)
        .unwrap();
    assert_eq!(key2, key);
    assert_eq!(events.len(), 1);
    let page = reg.messages_page(&key, 0, 10);
    assert_eq!(page.len(), 2);
    assert!(matches!(page[0], Message::PeerStatusUpdated(PeerStatus::Connected)));
    match &page[1] {
        Message::SimpleTextMessage(m) => assert_eq!(m.content, "hello"),
        _ => panic!("message missing"),
    }
    assert_eq!(reg.messages_page(&key, 1, 1).len(), 1);
    assert!(reg.messages_page(&"nobody".to_string(), 0, 10).is_empty());

    // disconnection
    let (_, events) = reg.handle_event(key.clone(), ConnectionEvent::Disconnected, 1).unwrap();
    assert_eq!(events.len(), 1);
    assert_eq!(reg.peer(&key).unwrap().status(), PeerStatus::Disconnected);
    assert_eq!(
        reg.prepare_text(&key, "u2".into(), "x".into(), 6).unwrap_err(),
        "Peer is disconnected"
    );

    // the same peer identifies itself again on another connection
    let (key3, _) = reg
        .handle_event(
            "elsewhere".into(),
            ConnectionEvent::PeerIdentified { peer: identity_of(&alice, "alice") },
            2,
        )
        .unwrap();
    assert_eq!(key3, key);
    assert_eq!(reg.peer_ids().len(), 1);
    let peer = reg.peer(&key).unwrap();
    assert_eq!(peer.status(), PeerStatus::Connected);
    assert_eq!(*peer.connection(), 2);
    assert_eq!(peer.get_messages(0, 100).len(), 4);
    let m = reg.prepare_text(&key, "u2".into(), "x".into(), 6).unwrap();
    assert_eq!(m.sender, MessageSender::Me);
    assert_eq!(m.uuid, "u2");
}

#[test]
fn unknown_peer_and_bad_key() {
    let mut reg: PeerRegistry<u32> = PeerRegistry::new();
    assert_eq!(
        reg.prepare_text(&"x".to_string(), "u".into(), "c".into(), 1).unwrap_err(),
        "Connection not found"
    );
    let (k, events) = reg
        .handle_event("x".into(), ConnectionEvent::CapabilitiesUpdated { caps: vec![] }, 0)
        .unwrap();
    assert_eq!(k, "x");
    assert!(events.is_empty());
    let (_, events) = reg.handle_event("x".into(), ConnectionEvent::Disconnected, 0).unwrap();
    assert!(events.is_empty());
    let mut bad = identity_of(&LocalIdentity::generate(), "z");
    bad.public_key_bytes = [0u8; 32];
    bad.public_key_bytes[0] = 2;
    assert!(matches!(
        reg.handle_event("x".into(), ConnectionEvent::PeerIdentified { peer: bad }, 0),
        Err(CryptoError::InvalidKey(_))
    ));
    assert!(reg.peer_ids().is_empty());
}

#[test]
fn display_name_falls_back_for_blank_user_names() {
    let l = LocalIdentity::generate();
    let id = local_peer_identity(&l, " \t".into(), 12_345_678, 42, "1.2.3".into());
    assert_eq!(id.display_name, "ghost_user_345678");
    assert_eq!(id.capabilities, vec!["CLEAR_TEXT".to_string(), "SIMPLE_TEXT_CHAT".to_string()]);
    assert_eq!(id.timestamp, 42);
    assert_eq!(id.client_version, "1.2.3");
    assert_eq!(id.public_key_bytes, l.public_key_bytes());
    let id = local_peer_identity(&l, "carol".into(), 7, 42, "1.2.3".into());
    assert_eq!(id.display_name, "carol");
    let id = local_peer_identity(&l, "".into(), 5, 42, "1.2.3".into());
    assert_eq!(id.display_name, "ghost_user_5");
}

#[test]
fn endpoints_and_texts() {
    let l = LocalIdentity::generate();
    let s = Server::new("0.0.0.0:8000".into(), identity_of(&l, "me"));
    assert_eq!(s.get_address(), "0.0.0.0:8000");
    assert_eq!(server_address_text(Some(&s)), "0.0.0.0:8000");
    assert_eq!(server_address_text(None), "Server not running");
    let c = Client::new("10.0.0.1:8000".into(), identity_of(&l, "me"));
    assert_eq!(c.get_address(), "10.0.0.1:8000");
    assert_eq!(c.local_peer(), identity_of(&l, "me"));
    assert_eq!(greet("Ann"), "Hello, Ann! You've been greeted from Rust!");
}

#[test]
fn chat_message_from_packet() {
    let pkt = ChatMessagePacket { uuid: "a".into(), content: "b".into(), timestamp: 3 };
    let m = ChatMessage::from_packet(pkt.clone(), MessageSender::Remote);
    assert_eq!(m.uuid, "a");
    assert_eq!(m.content, "b");
    assert_eq!(m.timestamp, 3);
    assert_eq!(m.sender, MessageSender::Remote);
    let back: ChatMessagePacket = m.into();
    assert_eq!(back, pkt);
}
