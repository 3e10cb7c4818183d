//! The chat message packet: a message's id, text and time stamp on the
//! wire; who sent it is not sent.

use vstd::prelude::*;

use crate::bytehandler::error::{PacketError, PacketErrorView};
use crate::bytehandler::spec::{
    lemma_read_string_written, lemma_read_u64_written, read_string_spec, read_u64_spec, ReadFailure, SpecRead,
};
use crate::bytehandler::{ByteReader, ByteWriter, Decode, Encode};
use crate::encoding::{be_u64_bytes, fits_field, string_field};
use crate::models::ChatMessage;
use crate::packet::event::EVENT_CHAT_MESSAGE;
use crate::bytehandler::spec::{lemma_read_u8_written, read_u8_spec};

verus! {

#[derive(Debug, Clone, PartialEq, Eq)]
pub struct ChatMessagePacket {
    pub uuid: String,
    pub content: String,
    pub timestamp: u64,
}

pub struct ChatMessagePacketView {
    pub uuid: Seq<char>,
    pub content: Seq<char>,
    pub timestamp: u64,
}

impl View for ChatMessagePacket {
    type V = ChatMessagePacketView;

    open spec fn view(&self) -> ChatMessagePacketView {
        ChatMessagePacketView {
            uuid: self.uuid@,
            content: self.content@,
            timestamp: self.timestamp,
        }
    }
}

/// The id, the text, then the time stamp.
pub open spec fn encode_chat_message(p: ChatMessagePacketView) -> Seq<u8> {
    string_field(p.uuid) + string_field(p.content) + be_u64_bytes(p.timestamp)
}

pub open spec fn chat_message_fits(p: ChatMessagePacketView) -> bool {
    fits_field(p.uuid) && fits_field(p.content)
}

pub open spec fn parse_chat_message(input: Seq<u8>) -> SpecRead<ChatMessagePacketView> {
    match read_string_spec(input) {
        Ok((uuid, r1)) => match read_string_spec(r1) {
            Ok((content, r2)) => match read_u64_spec(r2) {
                Ok((timestamp, r3)) => Ok((ChatMessagePacketView { uuid, content, timestamp }, r3)),
                Err(e) => Err(e),
            },
            Err(e) => Err(e),
        },
        Err(e) => Err(e),
    }
}

/// Decoding the encoding of a fitting chat message gives it back.
pub proof fn lemma_chat_message_roundtrip(p: ChatMessagePacketView, rest: Seq<u8>)
    requires
        chat_message_fits(p),
    ensures
        parse_chat_message(encode_chat_message(p) + rest) == Ok::<
            (ChatMessagePacketView, Seq<u8>),
            ReadFailure,
        >((p, rest)),
{
    let r2 = be_u64_bytes(p.timestamp) + rest;
    let r1 = string_field(p.content) + r2;
    assert(encode_chat_message(p) + rest =~= string_field(p.uuid) + r1);
    lemma_read_string_written(p.uuid, r1);
    lemma_read_string_written(p.content, r2);
    lemma_read_u64_written(p.timestamp, rest);
}

impl Encode for ChatMessagePacket {
    open spec fn encoding(&self) -> Seq<u8> {
        encode_chat_message(self@)
    }

    fn encode(&self, w: &mut ByteWriter) {
        w.write_string(self.uuid.as_str());
        w.write_string(self.content.as_str());
        w.write_u64(self.timestamp);
        assert(final(w)@ =~= old(w)@ + encode_chat_message(self@));
    }
}

impl Decode for ChatMessagePacket {
    open spec fn parse(input: Seq<u8>) -> SpecRead<ChatMessagePacketView> {
        parse_chat_message(input)
    }

    fn decode(r: &mut ByteReader) -> (res: Result<Self, PacketError>) {
        let uuid = r.read_string()?;
        let content = r.read_string()?;
        let timestamp = r.read_u64()?;
        Ok(ChatMessagePacket { uuid, content, timestamp })
    }
}

impl From<ChatMessage> for ChatMessagePacket {
    /// The wire form of a message; the sender is not sent.
    fn from(msg: ChatMessage) -> (pkt: ChatMessagePacket) {
        ChatMessagePacket { uuid: msg.uuid, content: msg.content, timestamp: msg.timestamp }
    }
}

impl vstd::std_specs::convert::FromSpecImpl<ChatMessage> for ChatMessagePacket {
    open spec fn obeys_from_spec() -> bool {
        true
    }

    open spec fn from_spec(msg: ChatMessage) -> ChatMessagePacket {
        ChatMessagePacket { uuid: msg.uuid, content: msg.content, timestamp: msg.timestamp }
    }
}

/// Event packets whose chat message carries its id and time stamp.
#[derive(Debug, PartialEq, Eq, Clone)]
pub enum EventPacket {
    ChatMessage(ChatMessagePacket),
}

pub enum EventPacketView {
    ChatMessage(ChatMessagePacketView),
}

impl View for EventPacket {
    type V = EventPacketView;

    open spec fn view(&self) -> EventPacketView {
        match self {
            EventPacket::ChatMessage(m) => EventPacketView::ChatMessage(m@),
        }
    }
}

/// The chat subtype byte, then the chat message.
pub open spec fn encode_chat_event(e: EventPacketView) -> Seq<u8> {
    match e {
        EventPacketView::ChatMessage(m) => seq![EVENT_CHAT_MESSAGE] + encode_chat_message(m),
    }
}

pub open spec fn parse_chat_event(input: Seq<u8>) -> SpecRead<EventPacketView> {
    match read_u8_spec(input) {
        Ok((t, rest)) => if t == EVENT_CHAT_MESSAGE {
            match parse_chat_message(rest) {
                Ok((m, rest2)) => Ok((EventPacketView::ChatMessage(m), rest2)),
                Err(e) => Err(e),
            }
        } else {
            Err((PacketErrorView::UnknownEventType(t), rest))
        },
        Err(e) => Err(e),
    }
}

/// Decoding the encoding of a chat event whose strings fit gives it back.
pub proof fn lemma_chat_event_roundtrip(e: EventPacketView, rest: Seq<u8>)
    requires
        e matches EventPacketView::ChatMessage(m) && chat_message_fits(m),
    ensures
        parse_chat_event(encode_chat_event(e) + rest) == Ok::<
            (EventPacketView, Seq<u8>),
            ReadFailure,
        >((e, rest)),
{
    match e {
        EventPacketView::ChatMessage(m) => {
            assert(encode_chat_event(e) + rest =~= seq![EVENT_CHAT_MESSAGE] + (encode_chat_message(
                m,
            ) + rest));
            lemma_read_u8_written(EVENT_CHAT_MESSAGE, encode_chat_message(m) + rest);
            lemma_chat_message_roundtrip(m, rest);
        },
    }
}

impl Encode for EventPacket {
    open spec fn encoding(&self) -> Seq<u8> {
        encode_chat_event(self@)
    }

    fn encode(&self, w: &mut ByteWriter) {
        match self {
            EventPacket::ChatMessage(msg) => {
                w.write_u8(EVENT_CHAT_MESSAGE);
                msg.encode(w);
                assert(final(w)@ =~= old(w)@ + encode_chat_event(self@));
            },
        }
    }
}

impl Decode for EventPacket {
    open spec fn parse(input: Seq<u8>) -> SpecRead<EventPacketView> {
        parse_chat_event(input)
    }

    fn decode(r: &mut ByteReader) -> (res: Result<Self, PacketError>) {
        let t = r.read_u8()?;
        if t == EVENT_CHAT_MESSAGE {
            Ok(EventPacket::ChatMessage(ChatMessagePacket::decode(r)?))
        } else {
            Err(PacketError::UnknownEventType(t))
        }
    }
}

} // verus!
