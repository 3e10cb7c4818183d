//! The packet layout without the handshake packet, written straight into a
//! byte vector and read back with `Option` results: events, requests and
//! responses. Its bytes are those of the same packets in `crate::packet`.

use vstd::prelude::*;

use crate::bytehandler::error::PacketErrorView;
use crate::bytehandler::spec::{read_string_spec, read_u32_spec, read_u64_spec, read_u8_spec, take_spec, ReadFailure};
use crate::bytehandler::{ByteReader, ByteWriter};
use crate::encoding::string_from_utf8;
use crate::packet::event::{EventPacket, EVENT_CHAT_MESSAGE};
use crate::packet::request::{RequestPacket, REQ_GET_CAPABILITIES};
use crate::packet::response::{ResponsePacket, RES_CAPABILITIES, RES_ERROR, RES_OK};
use crate::packet::strings::{after_strings, parse_strings, strings_field, strings_view};
use crate::packet::{
    encode_packet, lemma_packet_roundtrip, packet_fits, parse_packet, PacketView, PACKET_EVENT, PACKET_REQUEST, PACKET_RESPONSE,
    PROTOCOL_VERSION,
};
use vstd::slice::slice_to_vec;

verus! {

#[derive(Debug, PartialEq, Eq, Clone)]
pub enum Packet {
    Event(EventPacket),
    Request { request_id: u64, payload: RequestPacket },
    Response { request_id: u64, payload: ResponsePacket },
}

impl View for Packet {
    type V = PacketView;

    open spec fn view(&self) -> PacketView {
        match self {
            Packet::Event(e) => PacketView::Event(e@),
            Packet::Request { request_id, payload } => PacketView::Request {
                request_id: *request_id,
                payload: *payload,
            },
            Packet::Response { request_id, payload } => PacketView::Response {
                request_id: *request_id,
                payload: payload@,
            },
        }
    }
}

/// What `decode` yields: the packet that `crate::packet` reads from the
/// front of the buffer, unless that is a handshake, which this layout does
/// not know, or reading fails.
pub open spec fn wire_decoded(buf: Seq<u8>) -> Option<PacketView> {
    match parse_packet(buf) {
        Ok((p, _)) => match p {
            PacketView::HandShake(_) => None,
            _ => Some(p),
        },
        Err(_) => None,
    }
}

/// The inputs `decode` is defined on: empty, or starting with the version
/// byte 1. A caller checks the version byte first.
pub open spec fn wire_decodable(buf: Seq<u8>) -> bool {
    buf.len() > 0 ==> buf[0] == PROTOCOL_VERSION
}

/// The bytes `encode` writes for a packet whose counts and string lengths
/// fit their `u32` prefixes are accepted by `decode`, which gives that
/// packet back.
pub proof fn lemma_wire_roundtrip(p: PacketView)
    requires
        packet_fits(p),
        !(p is HandShake),
    ensures
        wire_decodable(encode_packet(p)),
        wire_decoded(encode_packet(p)) == Some(p),
{
    lemma_packet_roundtrip(p, Seq::empty());
    assert(encode_packet(p) + Seq::<u8>::empty() =~= encode_packet(p));
}

impl Packet {
    pub fn encode(&self) -> (bytes: Vec<u8>)
        ensures
            bytes@ == encode_packet(self@),
    {
        let mut buf = ByteWriter::new();
        buf.write_u8(PROTOCOL_VERSION);
        match self {
            Packet::Event(EventPacket::ChatMessage(msg)) => {
                buf.write_u8(PACKET_EVENT);
                buf.write_u8(EVENT_CHAT_MESSAGE);
                let bytes = msg.as_str().as_bytes();
                buf.write_u32(bytes.len() as u32);
                buf.write_bytes(bytes);
            },
            Packet::Request { request_id, payload } => {
                buf.write_u8(PACKET_REQUEST);
                buf.write_u64(*request_id);
                match payload {
                    RequestPacket::GetCapabilities => {
                        buf.write_u8(REQ_GET_CAPABILITIES);
                    },
                }
            },
            Packet::Response { request_id, payload } => {
                buf.write_u8(PACKET_RESPONSE);
                buf.write_u64(*request_id);
                match payload {
                    ResponsePacket::Capabilities { caps } => {
                        buf.write_u8(RES_CAPABILITIES);
                        buf.write_u32(caps.len() as u32);
                        let ghost all = strings_view(caps@);
                        let ghost before = buf@;
                        let mut i: usize = 0;
                        assert(all.skip(0) =~= all);
                        while i < caps.len()
                            invariant
                                i <= caps@.len(),
                                all == strings_view(caps@),
                                buf@ + strings_field(all.skip(i as int))
                                    == before + strings_field(all),
                            decreases caps@.len() - i,
                        {
                            proof {
                                let s = all.skip(i as int);
                                assert(s[0] == caps@[i as int]@);
                                assert(s.drop_first() =~= all.skip(i + 1));
                            }
                            let cb = caps[i].as_str().as_bytes();
                            buf.write_u32(cb.len() as u32);
                            buf.write_bytes(cb);
                            i = i + 1;
                            proof {
                                assert(buf@ + strings_field(
                                    all.skip(i as int),
                                ) =~= before + strings_field(all));
                            }
                        }
                    },
                    ResponsePacket::Success => {
                        buf.write_u8(RES_OK);
                    },
                    ResponsePacket::Error { message } => {
                        buf.write_u8(RES_ERROR);
                        let mb = message.as_str().as_bytes();
                        buf.write_u32(mb.len() as u32);
                        buf.write_bytes(mb);
                    },
                }
            },
        }
        assert(buf@ =~= encode_packet(self@));
        buf.finish()
    }
}

fn read_u8(cursor: &mut ByteReader) -> (res: Option<u8>)
    ensures
        res matches Some(v) ==> read_u8_spec(old(cursor).rest()) == Ok::<
            (u8, Seq<u8>),
            ReadFailure,
        >((v, final(cursor).rest())),
        res is None ==> read_u8_spec(old(cursor).rest()) is Err,
{
    cursor.read_u8().ok()
}

fn read_u32(cursor: &mut ByteReader) -> (res: Option<u32>)
    ensures
        res matches Some(v) ==> read_u32_spec(old(cursor).rest()) == Ok::<
            (u32, Seq<u8>),
            ReadFailure,
        >((v, final(cursor).rest())),
        res is None ==> read_u32_spec(old(cursor).rest()) is Err,
{
    cursor.read_u32().ok()
}

fn read_u64(cursor: &mut ByteReader) -> (res: Option<u64>)
    ensures
        res matches Some(v) ==> read_u64_spec(old(cursor).rest()) == Ok::<
            (u64, Seq<u8>),
            ReadFailure,
        >((v, final(cursor).rest())),
        res is None ==> read_u64_spec(old(cursor).rest()) is Err,
{
    cursor.read_u64().ok()
}

/// `len` bytes of the input as a string, or `None` when fewer are left or
/// they are not UTF-8.
fn read_text(cursor: &mut ByteReader, len: usize, reading: &'static str) -> (res: Option<String>)
    ensures
        res matches Some(s) ==> take_spec(old(cursor).rest(), len as nat, reading@) matches Ok(
            (b, rest),
        ) && rest == final(cursor).rest() && vstd::utf8::valid_utf8(b) && s@
            == vstd::utf8::decode_utf8(b),
        res is None ==> (take_spec(old(cursor).rest(), len as nat, reading@) is Err || (take_spec(
            old(cursor).rest(),
            len as nat,
            reading@,
        ) matches Ok((b, _)) && !vstd::utf8::valid_utf8(b))),
{
    match cursor.take(len, reading) {
        Ok(b) => string_from_utf8(slice_to_vec(b)).ok(),
        Err(_) => None,
    }
}

/// Decodes one packet from the front of `buf`, or `None` when it is cut
/// short, holds a type or subtype this layout does not know, or a string
/// that is not UTF-8.
pub fn decode(buf: &[u8]) -> (res: Option<Packet>)
    requires
        wire_decodable(buf@),
    ensures
        res matches Some(p) ==> wire_decoded(buf@) == Some(p@),
        res is None ==> wire_decoded(buf@) is None,
{
    let mut cursor = ByteReader::new(buf);
    let version = read_u8(&mut cursor)?;
    assert(version == PROTOCOL_VERSION);
    let packet_type = read_u8(&mut cursor)?;
    if packet_type == PACKET_EVENT {
        let subtype = read_u8(&mut cursor)?;
        if subtype == EVENT_CHAT_MESSAGE {
            let len = read_u32(&mut cursor)? as usize;
            if len > buf.len() {
                return None;
            }
            let s = read_text(&mut cursor, len, "string bytes")?;
            Some(Packet::Event(EventPacket::ChatMessage(s)))
        } else {
            None
        }
    } else if packet_type == PACKET_REQUEST {
        let request_id = read_u64(&mut cursor)?;
        let payload_type = read_u8(&mut cursor)?;
        if payload_type == REQ_GET_CAPABILITIES {
            Some(Packet::Request { request_id, payload: RequestPacket::GetCapabilities })
        } else {
            None
        }
    } else if packet_type == PACKET_RESPONSE {
        let request_id = read_u64(&mut cursor)?;
        let payload_type = read_u8(&mut cursor)?;
        if payload_type == RES_CAPABILITIES {
            let count = read_u32(&mut cursor)?;
            let mut caps: Vec<String> = Vec::new();
            let ghost start = cursor.rest();
            let mut i: u32 = 0;
            assert(strings_view(caps@) =~= Seq::<Seq<char>>::empty());
            while i < count
                invariant
                    i <= count,
                    cursor.rest().len() <= buf@.len(),
                    parse_strings(start, count as nat) is Err ==> wire_decoded(buf@) is None,
                    parse_strings(start, count as nat) == after_strings(
                        strings_view(caps@),
                        parse_strings(cursor.rest(), (count - i) as nat),
                    ),
                decreases count - i,
            {
                let ghost before = cursor.rest();
                let ghost done = strings_view(caps@);
                let ghost n = (count - i) as nat;
                let l_opt = read_u32(&mut cursor);
                if l_opt.is_none() {
                    proof {
                        assert(read_string_spec(before) is Err);
                        assert(parse_strings(before, n) is Err);
                    }
                    return None;
                }
                let l = l_opt.unwrap() as usize;
                if l > buf.len() {
                    proof {
                        assert(read_string_spec(before) is Err);
                        assert(parse_strings(before, n) is Err);
                    }
                    return None;
                }
                let s_opt = read_text(&mut cursor, l, "string bytes");
                if s_opt.is_none() {
                    proof {
                        assert(read_string_spec(before) is Err);
                        assert(parse_strings(before, n) is Err);
                    }
                    return None;
                }
                let s = s_opt.unwrap();
                proof {
                    let k = (count - i - 1) as nat;
                    assert(read_string_spec(before) == Ok::<(Seq<char>, Seq<u8>), ReadFailure>(
                        (s@, cursor.rest()),
                    ));
                    assert(strings_view(caps@.push(s)) =~= done.push(s@));
                    match parse_strings(cursor.rest(), k) {
                        Ok((ss, rest2)) => {
                            assert(done + (seq![s@] + ss) =~= done.push(s@) + ss);
                        },
                        Err(e) => {},
                    }
                }
                caps.push(s);
                i = i + 1;
            }
            proof {
                assert(strings_view(caps@) + Seq::<Seq<char>>::empty() =~= strings_view(caps@));
            }
            Some(Packet::Response { request_id, payload: ResponsePacket::Capabilities { caps } })
        } else if payload_type == RES_OK {
            Some(Packet::Response { request_id, payload: ResponsePacket::Success })
        } else if payload_type == RES_ERROR {
            let len = read_u32(&mut cursor)? as usize;
            if len > buf.len() {
                return None;
            }
            let message = read_text(&mut cursor, len, "string bytes")?;
            Some(Packet::Response { request_id, payload: ResponsePacket::Error { message } })
        } else {
            None
        }
    } else {
        None
    }
}

} // verus!
