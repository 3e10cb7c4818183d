use ghostline::packet::event::EventPacket;
use ghostline::packet::request::RequestPacket;
use ghostline::packet::response::ResponsePacket;
use ghostline::wire::{decode, Packet};

#[test]
fn packet_event_roundtrip() {
    let p = Packet::Event(EventPacket::ChatMessage("hello world".to_string()));
    let enc = p.encode();
    let dec = decode(&enc).expect("should decode");
    assert_eq!(p, dec);
}

#[test]
fn packet_request_roundtrip() {
    let p = Packet::Request {
        request_id: 0x1122334455667788,
        payload: RequestPacket::GetCapabilities,
    };
    let enc = p.encode();
    let dec = decode(&enc).expect("should decode");
    assert_eq!(p, dec);
}

#[test]
fn packet_response_capabilities_roundtrip() {
    let p = Packet::Response {
        request_id: 42,
        payload: ResponsePacket::Capabilities {
            caps: vec!["a".into(), "b".into(), "rust".into()],
        },
    };
    let enc = p.encode();
    let dec = decode(&enc).expect("should decode");
    assert_eq!(p, dec);
}

#[test]
fn packet_response_ok_roundtrip() {
    let p = Packet::Response {
        request_id: 99,
        payload: ResponsePacket::Success,
    };
    let enc = p.encode();
    let dec = decode(&enc).expect("should decode");
    assert_eq!(p, dec);
}

#[test]
fn packet_response_error_roundtrip() {
    let p = Packet::Response {
        request_id: 7,
        payload: ResponsePacket::Error {
            message: "oops".into(),
        },
    };
    let enc = p.encode();
    let dec = decode(&enc).expect("should decode");
    assert_eq!(p, dec);
}

#[test]
fn wire_hello_example_bytes() {
    let p = Packet::Event(EventPacket::ChatMessage("hello".to_string()));
    assert_eq!(
        p.encode(),
        vec![0x01, 0x01, 0x01, 0x00, 0x00, 0x00, 0x05, 0x68, 0x65, 0x6c, 0x6c, 0x6f]
    );
}

#[test]
fn wire_request_bytes_are_big_endian() {
    let p = Packet::Request {
        request_id: 0x1122334455667788,
        payload: RequestPacket::GetCapabilities,
    };
    assert_eq!(
        p.encode(),
        vec![1, 2, 0x11, 0x22, 0x33, 0x44, 0x55, 0x66, 0x77, 0x88, 1]
    );
}

#[test]
fn wire_rejects_unknown_and_short_input() {
    assert_eq!(decode(&[]), None);
    assert_eq!(decode(&[1]), None);
    assert_eq!(decode(&[1, 9]), None);
    assert_eq!(decode(&[1, 1, 2]), None);
    assert_eq!(decode(&[1, 2, 0, 0, 0, 0, 0, 0, 0, 1, 7]), None);
    assert_eq!(decode(&[1, 3, 0, 0, 0, 0, 0, 0, 0, 1, 9]), None);
    // a handshake is not part of this layout
    assert_eq!(decode(&[1, 4, 1]), None);
    // the message claims five bytes but carries two
    assert_eq!(decode(&[1, 1, 1, 0, 0, 0, 5, b'h', b'i']), None);
    // not UTF-8
    assert_eq!(decode(&[1, 1, 1, 0, 0, 0, 1, 0xff]), None);
}

#[test]
fn wire_ignores_trailing_bytes() {
    let p = Packet::Response { request_id: 5, payload: ResponsePacket::Success };
    let mut enc = p.encode();
    enc.extend_from_slice(&[9, 9, 9]);
    assert_eq!(decode(&enc), Some(p));
}
