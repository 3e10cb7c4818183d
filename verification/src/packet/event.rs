//! Event packets: messages pushed to the peer without expecting a reply.

use vstd::prelude::*;

use crate::bytehandler::error::{PacketError, PacketErrorView};
use crate::bytehandler::spec::{
    lemma_read_string_written, lemma_read_u8_written, lemma_short_fixed_reads,
    lemma_string_field_cut, lemma_take_concat, ran_out, read_string_spec, read_u8_spec,
    ReadFailure, SpecRead,
};
use crate::bytehandler::{ByteReader, ByteWriter, Decode, Encode};
use crate::encoding::{fits_field, string_field};

verus! {

/// Event subtype of a chat message.
pub const EVENT_CHAT_MESSAGE: u8 = 1;

#[derive(Debug, PartialEq, Eq, Clone)]
pub enum EventPacket {
    ChatMessage(String),
}

pub enum EventPacketView {
    ChatMessage(Seq<char>),
}

impl View for EventPacket {
    type V = EventPacketView;

    open spec fn view(&self) -> EventPacketView {
        match self {
            EventPacket::ChatMessage(m) => EventPacketView::ChatMessage(m@),
        }
    }
}

/// The subtype byte, then the event's fields.
pub open spec fn encode_event(e: EventPacketView) -> Seq<u8> {
    match e {
        EventPacketView::ChatMessage(m) => seq![EVENT_CHAT_MESSAGE] + string_field(m),
    }
}

/// An event can be written so that it reads back.
pub open spec fn event_fits(e: EventPacketView) -> bool {
    match e {
        EventPacketView::ChatMessage(m) => fits_field(m),
    }
}

pub open spec fn parse_event(input: Seq<u8>) -> SpecRead<EventPacketView> {
    match read_u8_spec(input) {
        Ok((t, rest)) => if t == EVENT_CHAT_MESSAGE {
            match read_string_spec(rest) {
                Ok((m, rest2)) => Ok((EventPacketView::ChatMessage(m), rest2)),
                Err(e) => Err(e),
            }
        } else {
            Err((PacketErrorView::UnknownEventType(t), rest))
        },
        Err(e) => Err(e),
    }
}

/// Decoding the encoding of an event gives the event back and leaves what
/// followed it unread.
pub proof fn lemma_event_roundtrip(e: EventPacketView, rest: Seq<u8>)
    requires
        event_fits(e),
    ensures
        parse_event(encode_event(e) + rest) == Ok::<(EventPacketView, Seq<u8>), ReadFailure>(
            (e, rest),
        ),
{
    match e {
        EventPacketView::ChatMessage(m) => {
            assert(encode_event(e) + rest =~= seq![EVENT_CHAT_MESSAGE] + (string_field(m) + rest));
            lemma_read_u8_written(EVENT_CHAT_MESSAGE, string_field(m) + rest);
            lemma_read_string_written(m, rest);
        },
    }
}

/// A fitting event cut short runs out.
pub proof fn lemma_event_cut(e: EventPacketView, k: int)
    requires
        event_fits(e),
        0 <= k < encode_event(e).len(),
    ensures
        ran_out(parse_event(encode_event(e).take(k))),
{
    match e {
        EventPacketView::ChatMessage(m) => {
            let f = string_field(m);
            lemma_take_concat(seq![EVENT_CHAT_MESSAGE], f, k);
            if k == 0 {
                lemma_short_fixed_reads(encode_event(e).take(k));
            } else {
                lemma_read_u8_written(EVENT_CHAT_MESSAGE, f.take(k - 1));
                lemma_string_field_cut(m, k - 1);
            }
        },
    }
}

impl Encode for EventPacket {
    open spec fn encoding(&self) -> Seq<u8> {
        encode_event(self@)
    }

    fn encode(&self, w: &mut ByteWriter) {
        match self {
            EventPacket::ChatMessage(msg) => {
                w.write_u8(EVENT_CHAT_MESSAGE);
                w.write_string(msg.as_str());
                assert(final(w)@ =~= old(w)@ + encode_event(self@));
            },
        }
    }
}

impl Decode for EventPacket {
    open spec fn parse(input: Seq<u8>) -> SpecRead<EventPacketView> {
        parse_event(input)
    }

    fn decode(r: &mut ByteReader) -> (res: Result<Self, PacketError>) {
        let t = r.read_u8()?;
        if t == EVENT_CHAT_MESSAGE {
            Ok(EventPacket::ChatMessage(r.read_string()?))
        } else {
            Err(PacketError::UnknownEventType(t))
        }
    }
}

} // verus!
