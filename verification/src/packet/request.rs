//! Request packets: messages that expect a response with the same id.

use vstd::prelude::*;

use crate::bytehandler::error::{PacketError, PacketErrorView};
use crate::bytehandler::spec::{
    lemma_read_u8_written, lemma_short_fixed_reads, ran_out, read_u8_spec, ReadFailure, SpecRead,
};
use crate::bytehandler::{ByteReader, ByteWriter, Decode, Encode};

verus! {

/// Request type asking the peer for its capabilities.
pub const REQ_GET_CAPABILITIES: u8 = 1;

#[derive(Debug, PartialEq, Eq, Clone, Copy)]
pub enum RequestPacket {
    GetCapabilities,
}

impl View for RequestPacket {
    type V = RequestPacket;

    open spec fn view(&self) -> RequestPacket {
        *self
    }
}

pub open spec fn encode_request(p: RequestPacket) -> Seq<u8> {
    match p {
        RequestPacket::GetCapabilities => seq![REQ_GET_CAPABILITIES],
    }
}

pub open spec fn parse_request(input: Seq<u8>) -> SpecRead<RequestPacket> {
    match read_u8_spec(input) {
        Ok((t, rest)) => if t == REQ_GET_CAPABILITIES {
            Ok((RequestPacket::GetCapabilities, rest))
        } else {
            Err((PacketErrorView::UnknownRequestType(t), rest))
        },
        Err(e) => Err(e),
    }
}

/// Decoding the encoding of a request gives the request back.
pub proof fn lemma_request_roundtrip(p: RequestPacket, rest: Seq<u8>)
    ensures
        parse_request(encode_request(p) + rest) == Ok::<(RequestPacket, Seq<u8>), ReadFailure>(
            (p, rest),
        ),
{
    lemma_read_u8_written(REQ_GET_CAPABILITIES, rest);
}

/// A request cut short runs out.
pub proof fn lemma_request_cut(p: RequestPacket, k: int)
    requires
        0 <= k < encode_request(p).len(),
    ensures
        ran_out(parse_request(encode_request(p).take(k))),
{
    lemma_short_fixed_reads(encode_request(p).take(k));
}

impl Encode for RequestPacket {
    open spec fn encoding(&self) -> Seq<u8> {
        encode_request(*self)
    }

    fn encode(&self, w: &mut ByteWriter) {
        match self {
            RequestPacket::GetCapabilities => w.write_u8(REQ_GET_CAPABILITIES),
        }
        assert(final(w)@ =~= old(w)@ + encode_request(*self));
    }
}

impl Decode for RequestPacket {
    open spec fn parse(input: Seq<u8>) -> SpecRead<RequestPacket> {
        parse_request(input)
    }

    fn decode(r: &mut ByteReader) -> (res: Result<Self, PacketError>) {
        let t = r.read_u8()?;
        if t == REQ_GET_CAPABILITIES {
            Ok(RequestPacket::GetCapabilities)
        } else {
            Err(PacketError::UnknownRequestType(t))
        }
    }
}

} // verus!
