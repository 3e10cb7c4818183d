//! Response packets: the answer to a request, tagged with its id.

use vstd::prelude::*;

use crate::bytehandler::error::{PacketError, PacketErrorView};
use crate::bytehandler::spec::{
    lemma_read_string_written, lemma_read_u32_written, lemma_read_u8_written,
    lemma_short_fixed_reads, lemma_string_field_cut, lemma_take_concat, ran_out, read_string_spec,
    read_u32_spec, read_u8_spec, ReadFailure, SpecRead,
};
use crate::bytehandler::{ByteReader, ByteWriter, Decode, Encode};
use crate::encoding::{be_u32_bytes, fits_field, string_field};
use crate::packet::strings::{
    all_fit, lemma_strings_field_cut, lemma_strings_roundtrip, parse_strings, read_strings, strings_field, strings_view,
    write_strings,
};

verus! {

/// Response type carrying a capability list.
pub const RES_CAPABILITIES: u8 = 1;

/// Response type of a plain success.
pub const RES_OK: u8 = 2;

/// Response type carrying an error message.
pub const RES_ERROR: u8 = 3;

#[derive(Debug, PartialEq, Eq, Clone)]
pub enum ResponsePacket {
    /// The capabilities the sender supports.
    Capabilities { caps: Vec<String> },
    /// A plain success, with nothing more to say.
    Success,
    Error { message: String },
}

pub enum ResponsePacketView {
    Capabilities { caps: Seq<Seq<char>> },
    Success,
    Error { message: Seq<char> },
}

impl View for ResponsePacket {
    type V = ResponsePacketView;

    open spec fn view(&self) -> ResponsePacketView {
        match self {
            ResponsePacket::Capabilities { caps } => ResponsePacketView::Capabilities {
                caps: strings_view(caps@),
            },
            ResponsePacket::Success => ResponsePacketView::Success,
            ResponsePacket::Error { message } => ResponsePacketView::Error { message: message@ },
        }
    }
}

/// The response type byte, then its fields; the capability count is cast
/// to `u32`.
pub open spec fn encode_response(p: ResponsePacketView) -> Seq<u8> {
    match p {
        ResponsePacketView::Capabilities { caps } => seq![RES_CAPABILITIES] + be_u32_bytes(
            caps.len() as u32,
        ) + strings_field(caps),
        ResponsePacketView::Success => seq![RES_OK],
        ResponsePacketView::Error { message } => seq![RES_ERROR] + string_field(message),
    }
}

/// A response can be written so that it reads back: its count and every
/// string fit their `u32` length prefixes.
pub open spec fn response_fits(p: ResponsePacketView) -> bool {
    match p {
        ResponsePacketView::Capabilities { caps } => caps.len() <= u32::MAX && all_fit(caps),
        ResponsePacketView::Success => true,
        ResponsePacketView::Error { message } => fits_field(message),
    }
}

pub open spec fn parse_response(input: Seq<u8>) -> SpecRead<ResponsePacketView> {
    match read_u8_spec(input) {
        Ok((t, rest)) => if t == RES_CAPABILITIES {
            match read_u32_spec(rest) {
                Ok((count, rest2)) => match parse_strings(rest2, count as nat) {
                    Ok((caps, rest3)) => Ok((ResponsePacketView::Capabilities { caps }, rest3)),
                    Err(e) => Err(e),
                },
                Err(e) => Err(e),
            }
        } else if t == RES_OK {
            Ok((ResponsePacketView::Success, rest))
        } else if t == RES_ERROR {
            match read_string_spec(rest) {
                Ok((message, rest2)) => Ok((ResponsePacketView::Error { message }, rest2)),
                Err(e) => Err(e),
            }
        } else {
            Err((PacketErrorView::UnknownResponseType(t), rest))
        },
        Err(e) => Err(e),
    }
}

/// Decoding the encoding of a fitting response gives the response back.
pub proof fn lemma_response_roundtrip(p: ResponsePacketView, rest: Seq<u8>)
    requires
        response_fits(p),
    ensures
        parse_response(encode_response(p) + rest) == Ok::<
            (ResponsePacketView, Seq<u8>),
            ReadFailure,
        >((p, rest)),
{
    match p {
        ResponsePacketView::Capabilities { caps } => {
            let tail = strings_field(caps) + rest;
            assert(encode_response(p) + rest =~= seq![RES_CAPABILITIES] + (be_u32_bytes(
                caps.len() as u32,
            ) + tail));
            lemma_read_u8_written(RES_CAPABILITIES, be_u32_bytes(caps.len() as u32) + tail);
            lemma_read_u32_written(caps.len() as u32, tail);
            lemma_strings_roundtrip(caps, rest);
        },
        ResponsePacketView::Success => {
            lemma_read_u8_written(RES_OK, rest);
        },
        ResponsePacketView::Error { message } => {
            assert(encode_response(p) + rest =~= seq![RES_ERROR] + (string_field(message) + rest));
            lemma_read_u8_written(RES_ERROR, string_field(message) + rest);
            lemma_read_string_written(message, rest);
        },
    }
}

/// The response layout: type byte 1 then a `u32` count and the strings for
/// a capability list, the type byte 2 alone for a plain success, and type
/// byte 3 then a string field for an error message.
pub proof fn lemma_response_layout(p: ResponsePacketView)
    ensures
        p matches ResponsePacketView::Capabilities { caps } ==> encode_response(p) == seq![1u8]
            + be_u32_bytes(caps.len() as u32) + strings_field(caps),
        p is Success ==> encode_response(p) == seq![2u8],
        p matches ResponsePacketView::Error { message } ==> encode_response(p) == seq![3u8]
            + string_field(message),
{
}

/// Reading a response goes by the same type bytes: 1 reads a capability
/// list, 2 a plain success, 3 an error message; any other byte is refused
/// as an unknown response type.
pub proof fn lemma_response_type_bytes_read(
    caps: Seq<Seq<char>>,
    message: Seq<char>,
    t: u8,
    rest: Seq<u8>,
)
    ensures
        caps.len() <= u32::MAX && all_fit(caps) ==> parse_response(
            seq![1u8] + be_u32_bytes(caps.len() as u32) + strings_field(caps) + rest,
        ) == Ok::<(ResponsePacketView, Seq<u8>), ReadFailure>(
            (ResponsePacketView::Capabilities { caps }, rest),
        ),
        parse_response(seq![2u8] + rest) == Ok::<(ResponsePacketView, Seq<u8>), ReadFailure>(
            (ResponsePacketView::Success, rest),
        ),
        fits_field(message) ==> parse_response(seq![3u8] + string_field(message) + rest) == Ok::<
            (ResponsePacketView, Seq<u8>),
            ReadFailure,
        >((ResponsePacketView::Error { message }, rest)),
        t != 1 && t != 2 && t != 3 ==> parse_response(seq![t] + rest) == Err::<
            (ResponsePacketView, Seq<u8>),
            ReadFailure,
        >((PacketErrorView::UnknownResponseType(t), rest)),
{
    if caps.len() <= u32::MAX && all_fit(caps) {
        let p = ResponsePacketView::Capabilities { caps };
        lemma_response_roundtrip(p, rest);
        assert(encode_response(p) + rest =~= seq![1u8] + be_u32_bytes(caps.len() as u32)
            + strings_field(caps) + rest);
    }
    lemma_response_roundtrip(ResponsePacketView::Success, rest);
    if fits_field(message) {
        let p = ResponsePacketView::Error { message };
        lemma_response_roundtrip(p, rest);
        assert(encode_response(p) + rest =~= seq![3u8] + string_field(message) + rest);
    }
    lemma_read_u8_written(t, rest);
}

/// A fitting response cut short runs out.
pub proof fn lemma_response_cut(p: ResponsePacketView, k: int)
    requires
        response_fits(p),
        0 <= k < encode_response(p).len(),
    ensures
        ran_out(parse_response(encode_response(p).take(k))),
{
    if k == 0 {
        lemma_short_fixed_reads(encode_response(p).take(k));
    } else {
        match p {
            ResponsePacketView::Capabilities { caps } => {
                let c = be_u32_bytes(caps.len() as u32);
                let t = strings_field(caps);
                let j = k - 1;
                assert(encode_response(p) =~= seq![RES_CAPABILITIES] + (c + t));
                lemma_take_concat(seq![RES_CAPABILITIES], c + t, k);
                lemma_read_u8_written(RES_CAPABILITIES, (c + t).take(j));
                lemma_take_concat(c, t, j);
                if j < 4 {
                    lemma_short_fixed_reads((c + t).take(j));
                } else {
                    lemma_read_u32_written(caps.len() as u32, t.take(j - 4));
                    lemma_strings_field_cut(caps, j - 4);
                }
            },
            ResponsePacketView::Success => {},
            ResponsePacketView::Error { message } => {
                let f = string_field(message);
                lemma_take_concat(seq![RES_ERROR], f, k);
                lemma_read_u8_written(RES_ERROR, f.take(k - 1));
                lemma_string_field_cut(message, k - 1);
            },
        }
    }
}

impl Encode for ResponsePacket {
    open spec fn encoding(&self) -> Seq<u8> {
        encode_response(self@)
    }

    fn encode(&self, w: &mut ByteWriter) {
        match self {
            ResponsePacket::Capabilities { caps } => {
                w.write_u8(RES_CAPABILITIES);
                w.write_u32(caps.len() as u32);
                write_strings(w, caps);
                assert(final(w)@ =~= old(w)@ + encode_response(self@));
            },
            ResponsePacket::Success => {
                w.write_u8(RES_OK);
                assert(final(w)@ =~= old(w)@ + encode_response(self@));
            },
            ResponsePacket::Error { message } => {
                w.write_u8(RES_ERROR);
                w.write_string(message.as_str());
                assert(final(w)@ =~= old(w)@ + encode_response(self@));
            },
        }
    }
}

impl Decode for ResponsePacket {
    open spec fn parse(input: Seq<u8>) -> SpecRead<ResponsePacketView> {
        parse_response(input)
    }

    fn decode(r: &mut ByteReader) -> (res: Result<Self, PacketError>) {
        let t = r.read_u8()?;
        if t == RES_CAPABILITIES {
            let count = r.read_u32()?;
            let caps = read_strings(r, count)?;
            Ok(ResponsePacket::Capabilities { caps })
        } else if t == RES_OK {
            Ok(ResponsePacket::Success)
        } else if t == RES_ERROR {
            Ok(ResponsePacket::Error { message: r.read_string()? })
        } else {
            Err(PacketError::UnknownResponseType(t))
        }
    }
}

} // verus!
