use ghostline::packet::chat_message::EventPacket as ChatEvent;
use ghostline::bytehandler::error::PacketError;
use ghostline::bytehandler::{ByteReader, ByteWriter, Decode, Encode};
use ghostline::packet::chat_message::ChatMessagePacket;
use ghostline::packet::event::EventPacket;
use ghostline::packet::handshake::PeerIdentity;
use ghostline::packet::request::RequestPacket;
use ghostline::packet::response::ResponsePacket;
use ghostline::packet::{decode, Packet};

#[test]
fn mod_event_roundtrip() {
    let p = Packet::Event(EventPacket::ChatMessage("hello world".to_string()));
    let enc = p.encode();
    let dec = decode(&enc).expect("should decode");
    assert_eq!(p, dec);
}

#[test]
fn mod_request_roundtrip() {
    let p = Packet::Request {
        request_id: 0x1122334455667788,
        payload: RequestPacket::GetCapabilities,
    };
    let enc = p.encode();
    let dec = decode(&enc).expect("should decode");
    assert_eq!(p, dec);
}

#[test]
fn mod_response_capabilities_roundtrip() {
    let p = Packet::Response {
        request_id: 42,
        payload: ResponsePacket::Capabilities {
            caps: vec!["a".into(), "b".into(), "rust".into()],
        },
    };
    let enc = p.encode();
    let dec = decode(&enc).expect("should decode");
    assert_eq!(p, dec);
}

#[test]
fn mod_response_ok_roundtrip() {
    let p = Packet::Response {
        request_id: 99,
        payload: ResponsePacket::Success,
    };
    let enc = p.encode();
    let dec = decode(&enc).expect("should decode");
    assert_eq!(p, dec);
}

#[test]
fn mod_response_error_roundtrip() {
    let p = Packet::Response {
        request_id: 7,
        payload: ResponsePacket::Error {
            message: "oops".into(),
        },
    };
    let enc = p.encode();
    let dec = decode(&enc).expect("should decode");
    assert_eq!(p, dec);
}

fn sample_identity() -> PeerIdentity {
    let mut key = [0u8; 32];
    for (i, b) in key.iter_mut().enumerate() {
        *b = i as u8;
    }
    PeerIdentity {
        public_key_bytes: key,
        display_name: "alice".into(),
        client_version: "0.1.0".into(),
        capabilities: vec!["CLEAR_TEXT".into(), "SIMPLE_TEXT_CHAT".into()],
        timestamp: 1_700_000_000,
    }
}

#[test]
fn handshake_roundtrip() {
    let p = Packet::HandShake(sample_identity());
    let enc = p.encode();
    assert_eq!(&enc[..4], &[1, 4, 1, 0]);
    let dec = Packet::try_decode(&enc).expect("should decode");
    assert_eq!(p, dec);
}

#[test]
fn handshake_key_of_wrong_length_is_reported() {
    let mut w = ByteWriter::new();
    w.write_u8(1);
    w.write_u8_array(&[7u8; 31]);
    let bytes = w.finish();
    let mut r = ByteReader::new(&bytes);
    match PeerIdentity::decode(&mut r) {
        Err(PacketError::UnexpectedEof { reading, needed, remaining }) => {
            assert_eq!(reading, "public_key_bytes");
            assert_eq!(needed, 32);
            assert_eq!(remaining, 31);
        }
        other => panic!("unexpected {:?}", other),
    }
}

#[test]
fn handshake_wrong_subtype_is_an_unknown_event_type() {
    let mut r = ByteReader::new(&[2]);
    assert!(matches!(
        PeerIdentity::decode(&mut r),
        Err(PacketError::UnknownEventType(2))
    ));
}

#[test]
fn try_decode_reports_each_error() {
    assert!(matches!(
        Packet::try_decode(&[]),
        Err(PacketError::UnexpectedEof { needed: 1, remaining: 0, .. })
    ));
    assert!(matches!(
        Packet::try_decode(&[2, 1]),
        Err(PacketError::InvalidVersion { expected: 1, got: 2 })
    ));
    assert!(matches!(
        Packet::try_decode(&[1, 9]),
        Err(PacketError::UnknownPacketType(9))
    ));
    assert!(matches!(
        Packet::try_decode(&[1, 1, 5]),
        Err(PacketError::UnknownEventType(5))
    ));
    assert!(matches!(
        Packet::try_decode(&[1, 2, 0, 0, 0, 0, 0, 0, 0, 1, 6]),
        Err(PacketError::UnknownRequestType(6))
    ));
    assert!(matches!(
        Packet::try_decode(&[1, 3, 0, 0, 0, 0, 0, 0, 0, 1, 8]),
        Err(PacketError::UnknownResponseType(8))
    ));
    assert!(matches!(
        Packet::try_decode(&[1, 1, 1, 0, 0, 0, 1, 0xc3]),
        Err(PacketError::InvalidUtf8 { field: "string", .. })
    ));
    match Packet::try_decode(&[1, 1, 1, 0, 0, 0, 9, b'x']) {
        Err(PacketError::UnexpectedEof { reading, needed, remaining }) => {
            assert_eq!(reading, "string bytes");
            assert_eq!(needed, 9);
            assert_eq!(remaining, 1);
        }
        other => panic!("unexpected {:?}", other),
    }
    assert_eq!(decode(&[1, 9]), None);
}

#[test]
fn error_descriptions() {
    assert_eq!(
        PacketError::UnknownPacketType(0x0a).describe(),
        "unknown packet type byte: 0x0a"
    );
    assert_eq!(
        PacketError::UnknownResponseType(0xff).describe(),
        "unknown response subtype byte: 0xff"
    );
    assert_eq!(
        PacketError::InvalidVersion { expected: 1, got: 12 }.describe(),
        "protocol version mismatch: expected 1, got 12"
    );
    assert_eq!(
        PacketError::UnexpectedEof { reading: "u32", needed: 4, remaining: 2 }.describe(),
        "unexpected EOF while reading `u32`: needed 4 bytes, had 2"
    );
    match Packet::try_decode(&[1, 1, 1, 0, 0, 0, 1, 0xc3]) {
        Err(e) => assert!(e.describe().starts_with("invalid UTF-8 in field `string`: ")),
        Ok(p) => panic!("unexpected {:?}", p),
    }
}

#[test]
fn writer_and_reader_agree() {
    let mut w = ByteWriter::new();
    w.write_u8(0xab);
    w.write_u32(0x01020304);
    w.write_u64(0x0102030405060708);
    w.write_string("héllo");
    w.write_bytes(&[9, 8]);
    let bytes = w.finish();
    assert_eq!(&bytes[1..5], &[1, 2, 3, 4]);
    let mut r = ByteReader::new(&bytes);
    assert_eq!(r.read_u8().unwrap(), 0xab);
    assert_eq!(r.read_u32().unwrap(), 0x01020304);
    assert_eq!(r.read_u64().unwrap(), 0x0102030405060708);
    assert_eq!(r.read_string().unwrap(), "héllo");
    assert_eq!(r.remaining(), &[9, 8]);
    assert_eq!(r.read_u8().unwrap(), 9);
    assert_eq!(r.read_u8().unwrap(), 8);
    assert!(matches!(r.read_u8(), Err(PacketError::UnexpectedEof { .. })));
}

#[test]
fn string_field_uses_utf8_byte_length() {
    let mut w = ByteWriter::new();
    w.write_string("é");
    assert_eq!(w.finish(), vec![0, 0, 0, 2, 0xc3, 0xa9]);
}

#[test]
fn chat_message_packet_roundtrip() {
    let pkt = ChatMessagePacket {
        uuid: "id-1".into(),
        content: "hi there".into(),
        timestamp: 1234,
    };
    let mut w = ByteWriter::new();
    pkt.encode(&mut w);
    let bytes = w.finish();
    let mut r = ByteReader::new(&bytes);
    assert_eq!(ChatMessagePacket::decode(&mut r).unwrap(), pkt);
    assert!(r.remaining().is_empty());
}

#[test]
fn chat_event_packet_roundtrip() {

    let e = ChatEvent::ChatMessage(ChatMessagePacket {
        uuid: "u".into(),
        content: "c".into(),
        timestamp: 77,
    });
    let mut w = ByteWriter::new();
    e.encode(&mut w);
    let bytes = w.finish();
    assert_eq!(bytes[0], 1);
    let mut r = ByteReader::new(&bytes);
    assert_eq!(ChatEvent::decode(&mut r).unwrap(), e);
    let mut r = ByteReader::new(&[3]);
    assert!(matches!(ChatEvent::decode(&mut r), Err(PacketError::UnknownEventType(3))));
}

#[test]
fn failed_fixed_reads_leave_the_reader_in_place() {
    let bytes = [1u8, 2, 3];
    let mut r = ByteReader::new(&bytes);
    assert!(matches!(r.read_u32(), Err(PacketError::UnexpectedEof { needed: 4, remaining: 3, .. })));
    assert_eq!(r.remaining(), &[1, 2, 3]);
    assert!(matches!(r.read_u64(), Err(PacketError::UnexpectedEof { needed: 8, remaining: 3, .. })));
    assert_eq!(r.remaining(), &[1, 2, 3]);
    assert_eq!(r.read_u8().unwrap(), 1);
    assert_eq!(r.remaining(), &[2, 3]);
}

#[test]
fn short_string_body_keeps_its_length_prefix_consumed() {
    let bytes = [0u8, 0, 0, 3, 0x41];
    let mut r = ByteReader::new(&bytes);
    match r.read_string() {
        Err(PacketError::UnexpectedEof { reading, needed, remaining }) => {
            assert_eq!(reading, "string bytes");
            assert_eq!(needed, 3);
            assert_eq!(remaining, 1);
        }
        other => panic!("unexpected {:?}", other),
    }
    assert_eq!(r.remaining(), &[0x41]);
}

#[test]
fn invalid_utf8_string_is_consumed() {
    let bytes = [0u8, 0, 0, 1, 0xff, 7];
    let mut r = ByteReader::new(&bytes);
    assert!(matches!(
        r.read_string(),
        Err(PacketError::InvalidUtf8 { field: "string", .. })
    ));
    assert_eq!(r.remaining(), &[7]);
}

#[test]
fn short_u8_array_keeps_its_length_prefix_consumed() {
    let bytes = [0u8, 0, 0, 5, 1, 2];
    let mut r = ByteReader::new(&bytes);
    assert!(matches!(
        r.read_u8_array(),
        Err(PacketError::UnexpectedEof { needed: 5, remaining: 2, .. })
    ));
    assert_eq!(r.remaining(), &[1, 2]);
}

#[test]
fn wrong_handshake_subtype_consumes_only_the_subtype_byte() {
    let bytes = [2u8, 9, 9];
    let mut r = ByteReader::new(&bytes);
    assert!(matches!(
        PeerIdentity::decode(&mut r),
        Err(PacketError::UnknownEventType(2))
    ));
    assert_eq!(r.remaining(), &[9, 9]);
}

#[test]
fn every_truncated_packet_runs_out() {
    let packets = vec![
        Packet::HandShake(sample_identity()),
        Packet::Event(EventPacket::ChatMessage("hi".into())),
        Packet::Request { request_id: 7, payload: RequestPacket::GetCapabilities },
        Packet::Response {
            request_id: 7,
            payload: ResponsePacket::Capabilities { caps: vec!["A".into(), "BC".into()] },
        },
        Packet::Response { request_id: 8, payload: ResponsePacket::Success },
        Packet::Response { request_id: 9, payload: ResponsePacket::Error { message: "no".into() } },
    ];
    for p in packets {
        let enc = p.encode();
        for k in 0..enc.len() {
            assert!(
                matches!(Packet::try_decode(&enc[..k]), Err(PacketError::UnexpectedEof { .. })),
                "prefix of length {} of {:?}",
                k,
                p
            );
        }
        assert_eq!(Packet::try_decode(&enc).unwrap(), p);
    }
}

#[test]
fn a_run_of_writes_concatenates() {
    let mut w = ByteWriter::new();
    w.write_u8(5);
    w.write_u32(0x0a0b0c0d);
    w.write_string("ok");
    w.write_u8_array(&[1, 2]);
    w.write_u64(1);
    w.write_bytes(&[0xee]);
    assert_eq!(
        w.finish(),
        vec![5, 0x0a, 0x0b, 0x0c, 0x0d, 0, 0, 0, 2, b'o', b'k', 0, 0, 0, 2, 1, 2, 0, 0, 0, 0, 0, 0, 0, 1, 0xee]
    );
}
