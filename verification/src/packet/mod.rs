//! The typed packets of the protocol and their binary codec.
//!
//! Every packet starts with the protocol version byte (1) and a packet type
//! byte; all integers are big-endian and every string is a `u32`
//! length-prefixed UTF-8 field.

pub mod event;
pub mod handshake;
pub mod request;
pub mod response;
pub mod chat_message;
pub mod strings;

use vstd::prelude::*;

use crate::bytehandler::error::{PacketError, PacketErrorView};
use crate::bytehandler::spec::{
    lemma_read_u64_written, lemma_read_u8_written, lemma_short_fixed_reads, lemma_take_concat,
    ran_out, read_u64_spec, read_u8_spec, ReadFailure, SpecRead,
};
use crate::bytehandler::{ByteReader, ByteWriter, Decode, Encode};
use crate::encoding::{be_u32_bytes, be_u64_bytes, string_field};
use crate::packet::strings::strings_field;
use crate::packet::event::{
    encode_event, event_fits, lemma_event_cut, lemma_event_roundtrip, parse_event, EventPacket, EventPacketView,
};
use crate::packet::handshake::{
    encode_identity, identity_fits, lemma_identity_cut, lemma_identity_roundtrip, parse_identity, PeerIdentity,
    PeerIdentityView,
};
use crate::packet::event::EVENT_CHAT_MESSAGE;
use crate::packet::request::REQ_GET_CAPABILITIES;
use crate::packet::response::{RES_CAPABILITIES, RES_ERROR, RES_OK};
use crate::packet::request::{encode_request, lemma_request_cut, lemma_request_roundtrip, parse_request, RequestPacket};
use crate::packet::response::{
    encode_response, lemma_response_cut, lemma_response_layout, lemma_response_roundtrip, parse_response, response_fits, ResponsePacket,
    ResponsePacketView,
};

verus! {

/// The protocol version every packet starts with.
pub const PROTOCOL_VERSION: u8 = 1;

pub const PACKET_EVENT: u8 = 1;

pub const PACKET_REQUEST: u8 = 2;

pub const PACKET_RESPONSE: u8 = 3;

pub const PACKET_HANDSHAKE: u8 = 4;

#[derive(Debug, PartialEq, Eq, Clone)]
pub enum Packet {
    Event(EventPacket),
    Request { request_id: u64, payload: RequestPacket },
    Response { request_id: u64, payload: ResponsePacket },
    HandShake(PeerIdentity),
}

pub enum PacketView {
    Event(EventPacketView),
    Request { request_id: u64, payload: RequestPacket },
    Response { request_id: u64, payload: ResponsePacketView },
    HandShake(PeerIdentityView),
}

impl View for Packet {
    type V = PacketView;

    open spec fn view(&self) -> PacketView {
        match self {
            Packet::Event(e) => PacketView::Event(e@),
            Packet::Request { request_id, payload } => PacketView::Request {
                request_id: *request_id,
                payload: *payload,
            },
            Packet::Response { request_id, payload } => PacketView::Response {
                request_id: *request_id,
                payload: payload@,
            },
            Packet::HandShake(p) => PacketView::HandShake(p@),
        }
    }
}

/// The packet type byte of a packet.
pub open spec fn packet_type(p: PacketView) -> u8 {
    match p {
        PacketView::Event(_) => PACKET_EVENT,
        PacketView::Request { .. } => PACKET_REQUEST,
        PacketView::Response { .. } => PACKET_RESPONSE,
        PacketView::HandShake(_) => PACKET_HANDSHAKE,
    }
}

/// What follows the packet type byte: the request id of requests and
/// responses, then the payload.
pub open spec fn packet_body(p: PacketView) -> Seq<u8> {
    match p {
        PacketView::Event(e) => encode_event(e),
        PacketView::Request { request_id, payload } => be_u64_bytes(request_id) + encode_request(
            payload,
        ),
        PacketView::Response { request_id, payload } => be_u64_bytes(request_id)
            + encode_response(payload),
        PacketView::HandShake(h) => encode_identity(h),
    }
}

/// Version byte, packet type byte, then the body of the packet.
pub open spec fn encode_packet(p: PacketView) -> Seq<u8> {
    seq![PROTOCOL_VERSION, packet_type(p)] + packet_body(p)
}

/// A packet can be written so that it reads back: every count and string
/// length fits its `u32` prefix.
pub open spec fn packet_fits(p: PacketView) -> bool {
    match p {
        PacketView::Event(e) => event_fits(e),
        PacketView::Request { .. } => true,
        PacketView::Response { payload, .. } => response_fits(payload),
        PacketView::HandShake(h) => identity_fits(h),
    }
}

/// The packet body after the type byte `t`.
pub open spec fn parse_packet_body(t: u8, input: Seq<u8>) -> SpecRead<PacketView> {
    if t == PACKET_EVENT {
        match parse_event(input) {
            Ok((e, rest)) => Ok((PacketView::Event(e), rest)),
            Err(e) => Err(e),
        }
    } else if t == PACKET_REQUEST {
        match read_u64_spec(input) {
            Ok((request_id, r1)) => match parse_request(r1) {
                Ok((payload, r2)) => Ok((PacketView::Request { request_id, payload }, r2)),
                Err(e) => Err(e),
            },
            Err(e) => Err(e),
        }
    } else if t == PACKET_RESPONSE {
        match read_u64_spec(input) {
            Ok((request_id, r1)) => match parse_response(r1) {
                Ok((payload, r2)) => Ok((PacketView::Response { request_id, payload }, r2)),
                Err(e) => Err(e),
            },
            Err(e) => Err(e),
        }
    } else if t == PACKET_HANDSHAKE {
        match parse_identity(input) {
            Ok((h, rest)) => Ok((PacketView::HandShake(h), rest)),
            Err(e) => Err(e),
        }
    } else {
        Err((PacketErrorView::UnknownPacketType(t), input))
    }
}

/// A version byte other than 1 is refused before the type byte is read.
pub open spec fn parse_packet(input: Seq<u8>) -> SpecRead<PacketView> {
    match read_u8_spec(input) {
        Ok((version, r1)) => if version != PROTOCOL_VERSION {
            Err((PacketErrorView::InvalidVersion { expected: PROTOCOL_VERSION, got: version }, r1))
        } else {
            match read_u8_spec(r1) {
                Ok((t, r2)) => parse_packet_body(t, r2),
                Err(e) => Err(e),
            }
        },
        Err(e) => Err(e),
    }
}

proof fn lemma_body_roundtrip(p: PacketView, rest: Seq<u8>)
    requires
        packet_fits(p),
    ensures
        parse_packet_body(packet_type(p), packet_body(p) + rest) == Ok::<
            (PacketView, Seq<u8>),
            ReadFailure,
        >((p, rest)),
{
    match p {
        PacketView::Event(e) => {
            lemma_event_roundtrip(e, rest);
        },
        PacketView::Request { request_id, payload } => {
            assert(packet_body(p) + rest =~= be_u64_bytes(request_id) + (encode_request(payload)
                + rest));
            lemma_read_u64_written(request_id, encode_request(payload) + rest);
            lemma_request_roundtrip(payload, rest);
        },
        PacketView::Response { request_id, payload } => {
            assert(packet_body(p) + rest =~= be_u64_bytes(request_id) + (encode_response(payload)
                + rest));
            lemma_read_u64_written(request_id, encode_response(payload) + rest);
            lemma_response_roundtrip(payload, rest);
        },
        PacketView::HandShake(h) => {
            lemma_identity_roundtrip(h, rest);
        },
    }
}

/// Decoding the encoding of a fitting packet gives the packet back and
/// leaves whatever followed it unread.
pub proof fn lemma_packet_roundtrip(p: PacketView, rest: Seq<u8>)
    requires
        packet_fits(p),
    ensures
        parse_packet(encode_packet(p) + rest) == Ok::<(PacketView, Seq<u8>), ReadFailure>(
            (p, rest),
        ),
{
    let t = packet_type(p);
    let tail = packet_body(p) + rest;
    assert(encode_packet(p) + rest =~= seq![PROTOCOL_VERSION] + (seq![t] + tail));
    lemma_read_u8_written(PROTOCOL_VERSION, seq![t] + tail);
    lemma_read_u8_written(t, tail);
    lemma_body_roundtrip(p, rest);
}

/// The body of a fitting packet cut short runs out.
proof fn lemma_body_cut(p: PacketView, k: int)
    requires
        packet_fits(p),
        0 <= k < packet_body(p).len(),
    ensures
        ran_out(parse_packet_body(packet_type(p), packet_body(p).take(k))),
{
    match p {
        PacketView::Event(e) => {
            lemma_event_cut(e, k);
        },
        PacketView::Request { request_id, payload } => {
            let id = be_u64_bytes(request_id);
            let q = encode_request(payload);
            lemma_take_concat(id, q, k);
            if k < 8 {
                lemma_short_fixed_reads(packet_body(p).take(k));
            } else {
                lemma_read_u64_written(request_id, q.take(k - 8));
                lemma_request_cut(payload, k - 8);
            }
        },
        PacketView::Response { request_id, payload } => {
            let id = be_u64_bytes(request_id);
            let q = encode_response(payload);
            lemma_take_concat(id, q, k);
            if k < 8 {
                lemma_short_fixed_reads(packet_body(p).take(k));
            } else {
                lemma_read_u64_written(request_id, q.take(k - 8));
                lemma_response_cut(payload, k - 8);
            }
        },
        PacketView::HandShake(h) => {
            lemma_identity_cut(h, k);
        },
    }
}

/// Every strict prefix of the encoding of a fitting packet is refused with
/// an end-of-input error: a packet cut short is never decoded as some other
/// packet.
pub proof fn lemma_truncated_packet_refused(p: PacketView, k: int)
    requires
        packet_fits(p),
        0 <= k < encode_packet(p).len(),
    ensures
        ran_out(parse_packet(encode_packet(p).take(k))),
{
    let t = packet_type(p);
    let body = packet_body(p);
    let x = encode_packet(p).take(k);
    assert(encode_packet(p) =~= seq![PROTOCOL_VERSION] + (seq![t] + body));
    lemma_take_concat(seq![PROTOCOL_VERSION], seq![t] + body, k);
    if k == 0 {
        lemma_short_fixed_reads(x);
    } else {
        lemma_read_u8_written(PROTOCOL_VERSION, (seq![t] + body).take(k - 1));
        lemma_take_concat(seq![t], body, k - 1);
        if k == 1 {
            lemma_short_fixed_reads((seq![t] + body).take(k - 1));
        } else {
            lemma_read_u8_written(t, body.take(k - 2));
            lemma_body_cut(p, k - 2);
        }
    }
}

/// A response packet is the version byte 1, the packet type byte 3, the
/// request id in eight big-endian bytes, then the response: type byte 2
/// alone for a plain success, type byte 3 and a string field for an error
/// message, type byte 1, a count and the strings for a capability list.
pub proof fn lemma_response_packet_layout(request_id: u64, payload: ResponsePacketView)
    ensures
        ({
            let bytes = encode_packet(PacketView::Response { request_id, payload });
            &&& payload is Success ==> bytes == seq![1u8, 3u8] + be_u64_bytes(request_id) + seq![
                2u8,
            ]
            &&& payload matches ResponsePacketView::Error { message } ==> bytes == seq![1u8, 3u8]
                + be_u64_bytes(request_id) + seq![3u8] + string_field(message)
            &&& payload matches ResponsePacketView::Capabilities { caps } ==> bytes == seq![
                1u8,
                3u8,
            ] + be_u64_bytes(request_id) + seq![1u8] + be_u32_bytes(caps.len() as u32)
                + strings_field(caps)
        }),
{
    lemma_response_layout(payload);
    let bytes = encode_packet(PacketView::Response { request_id, payload });
    match payload {
        ResponsePacketView::Capabilities { caps } => {
            assert(bytes =~= seq![1u8, 3u8] + be_u64_bytes(request_id) + seq![1u8] + be_u32_bytes(
                caps.len() as u32,
            ) + strings_field(caps));
        },
        ResponsePacketView::Success => {
            assert(bytes =~= seq![1u8, 3u8] + be_u64_bytes(request_id) + seq![2u8]);
        },
        ResponsePacketView::Error { message } => {
            assert(bytes =~= seq![1u8, 3u8] + be_u64_bytes(request_id) + seq![3u8] + string_field(
                message,
            ));
        },
    }
}

/// A packet of a type this protocol does not know is refused, whatever
/// follows its type byte.
pub proof fn lemma_unknown_packet_type_refused(t: u8, rest: Seq<u8>)
    requires
        t != PACKET_EVENT && t != PACKET_REQUEST && t != PACKET_RESPONSE && t != PACKET_HANDSHAKE,
    ensures
        parse_packet(seq![PROTOCOL_VERSION, t] + rest) == Err::<
            (PacketView, Seq<u8>),
            ReadFailure,
        >((PacketErrorView::UnknownPacketType(t), rest)),
{
    assert(seq![PROTOCOL_VERSION, t] + rest =~= seq![PROTOCOL_VERSION] + (seq![t] + rest));
    lemma_read_u8_written(PROTOCOL_VERSION, seq![t] + rest);
    lemma_read_u8_written(t, rest);
}

/// An event, request or response whose subtype byte this protocol does not
/// know is refused, whatever follows it.
pub proof fn lemma_unknown_subtypes_refused(t: u8, request_id: u64, rest: Seq<u8>)
    ensures
        t != EVENT_CHAT_MESSAGE ==> parse_packet(seq![PROTOCOL_VERSION, PACKET_EVENT, t] + rest)
            == Err::<(PacketView, Seq<u8>), ReadFailure>(
            (PacketErrorView::UnknownEventType(t), rest),
        ),
        t != REQ_GET_CAPABILITIES ==> parse_packet(
            seq![PROTOCOL_VERSION, PACKET_REQUEST] + be_u64_bytes(request_id) + seq![t] + rest,
        ) == Err::<(PacketView, Seq<u8>), ReadFailure>(
            (PacketErrorView::UnknownRequestType(t), rest),
        ),
        t != RES_CAPABILITIES && t != RES_OK && t != RES_ERROR ==> parse_packet(
            seq![PROTOCOL_VERSION, PACKET_RESPONSE] + be_u64_bytes(request_id) + seq![t] + rest,
        ) == Err::<(PacketView, Seq<u8>), ReadFailure>(
            (PacketErrorView::UnknownResponseType(t), rest),
        ),
{
    let e = seq![PROTOCOL_VERSION, PACKET_EVENT, t] + rest;
    assert(e =~= seq![PROTOCOL_VERSION] + (seq![PACKET_EVENT] + (seq![t] + rest)));
    lemma_read_u8_written(PROTOCOL_VERSION, seq![PACKET_EVENT] + (seq![t] + rest));
    lemma_read_u8_written(PACKET_EVENT, seq![t] + rest);
    lemma_read_u8_written(t, rest);
    let tail = be_u64_bytes(request_id) + (seq![t] + rest);
    let q = seq![PROTOCOL_VERSION, PACKET_REQUEST] + be_u64_bytes(request_id) + seq![t] + rest;
    assert(q =~= seq![PROTOCOL_VERSION] + (seq![PACKET_REQUEST] + tail));
    lemma_read_u8_written(PACKET_REQUEST, tail);
    lemma_read_u8_written(PROTOCOL_VERSION, seq![PACKET_REQUEST] + tail);
    lemma_read_u64_written(request_id, seq![t] + rest);
    let r = seq![PROTOCOL_VERSION, PACKET_RESPONSE] + be_u64_bytes(request_id) + seq![t] + rest;
    assert(r =~= seq![PROTOCOL_VERSION] + (seq![PACKET_RESPONSE] + tail));
    lemma_read_u8_written(PACKET_RESPONSE, tail);
    lemma_read_u8_written(PROTOCOL_VERSION, seq![PACKET_RESPONSE] + tail);
}

impl Encode for Packet {
    open spec fn encoding(&self) -> Seq<u8> {
        encode_packet(self@)
    }

    fn encode(&self, w: &mut ByteWriter) {
        w.write_u8(PROTOCOL_VERSION);
        match self {
            Packet::Event(event) => {
                w.write_u8(PACKET_EVENT);
                event.encode(w);
            },
            Packet::Request { request_id, payload } => {
                w.write_u8(PACKET_REQUEST);
                w.write_u64(*request_id);
                payload.encode(w);
            },
            Packet::Response { request_id, payload } => {
                w.write_u8(PACKET_RESPONSE);
                w.write_u64(*request_id);
                payload.encode(w);
            },
            Packet::HandShake(peer_identity) => {
                w.write_u8(PACKET_HANDSHAKE);
                peer_identity.encode(w);
            },
        }
        assert(final(w)@ =~= old(w)@ + encode_packet(self@));
    }
}

impl Decode for Packet {
    open spec fn parse(input: Seq<u8>) -> SpecRead<PacketView> {
        parse_packet(input)
    }

    fn decode(r: &mut ByteReader) -> (res: Result<Self, PacketError>) {
        let version = r.read_u8()?;
        if version != PROTOCOL_VERSION {
            return Err(PacketError::InvalidVersion { expected: PROTOCOL_VERSION, got: version });
        }
        let t = r.read_u8()?;
        decode_body(t, r)
    }
}

/// Decodes the part of a packet after its type byte `t`.
fn decode_body(t: u8, r: &mut ByteReader) -> (res: Result<Packet, PacketError>)
    ensures
        final(r).source() == old(r).source(),
        final(r).rest().len() <= old(r).rest().len(),
        res matches Ok(v) ==> parse_packet_body(t, old(r).rest()) == Ok::<
            (PacketView, Seq<u8>),
            ReadFailure,
        >((v@, final(r).rest())),
        res matches Err(e) ==> parse_packet_body(t, old(r).rest()) == Err::<
            (PacketView, Seq<u8>),
            ReadFailure,
        >((e@, final(r).rest())),
{
    if t == PACKET_EVENT {
        Ok(Packet::Event(EventPacket::decode(r)?))
    } else if t == PACKET_REQUEST {
        let request_id = r.read_u64()?;
        let payload = RequestPacket::decode(r)?;
        Ok(Packet::Request { request_id, payload })
    } else if t == PACKET_RESPONSE {
        let request_id = r.read_u64()?;
        let payload = ResponsePacket::decode(r)?;
        Ok(Packet::Response { request_id, payload })
    } else if t == PACKET_HANDSHAKE {
        Ok(Packet::HandShake(PeerIdentity::decode(r)?))
    } else {
        Err(PacketError::UnknownPacketType(t))
    }
}

impl Packet {
    /// The bytes of this packet.
    pub fn encode(&self) -> (bytes: Vec<u8>)
        ensures
            bytes@ == encode_packet(self@),
    {
        let mut writer = ByteWriter::new();
        Encode::encode(self, &mut writer);
        assert(writer@ =~= encode_packet(self@));
        writer.finish()
    }

    /// Decodes one packet from the front of `buf`; bytes after it are
    /// ignored.
    pub fn try_decode(buf: &[u8]) -> (res: Result<Self, PacketError>)
        ensures
            res matches Ok(p) ==> exists|rest: Seq<u8>|
                parse_packet(buf@) == Ok::<(PacketView, Seq<u8>), ReadFailure>((p@, rest)),
            res matches Err(e) ==> exists|rest: Seq<u8>|
                parse_packet(buf@) == Err::<(PacketView, Seq<u8>), ReadFailure>((e@, rest)),
    {
        let mut reader = ByteReader::new(buf);
        <Packet as Decode>::decode(&mut reader)
    }
}

/// Decodes one packet from the front of `buf`, or `None` where
/// `Packet::try_decode` reports an error.
pub fn decode(buf: &[u8]) -> (res: Option<Packet>)
    ensures
        res matches Some(p) ==> exists|rest: Seq<u8>|
            parse_packet(buf@) == Ok::<(PacketView, Seq<u8>), ReadFailure>((p@, rest)),
        res is None ==> parse_packet(buf@) is Err,
{
    match Packet::try_decode(buf) {
        Ok(p) => Some(p),
        Err(_) => None,
    }
}

} // verus!
