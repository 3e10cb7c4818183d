//! The messages of a conversation as the front end shows them.

use vstd::prelude::*;

use crate::packet::chat_message::ChatMessagePacket;
use crate::peer::PeerStatus;

verus! {

/// Who wrote a message.
#[derive(Debug, Clone, Copy, PartialEq, Eq, Structural)]
pub enum MessageSender {
    Me,
    Remote,
}

/// A chat message with its id, text, time stamp (milliseconds since the
/// Unix epoch) and author.
#[derive(Debug, Clone)]
pub struct ChatMessage {
    pub uuid: String,
    pub content: String,
    pub timestamp: u64,
    pub sender: MessageSender,
}

pub struct ChatMessageView {
    pub uuid: Seq<char>,
    pub content: Seq<char>,
    pub timestamp: u64,
    pub sender: MessageSender,
}

impl View for ChatMessage {
    type V = ChatMessageView;

    open spec fn view(&self) -> ChatMessageView {
        ChatMessageView {
            uuid: self.uuid@,
            content: self.content@,
            timestamp: self.timestamp,
            sender: self.sender,
        }
    }
}

impl ChatMessage {
    /// The message a chat packet carries, attributed to `sender`.
    pub fn from_packet(pkt: ChatMessagePacket, sender: MessageSender) -> (msg: ChatMessage)
        ensures
            msg@ == (ChatMessageView {
                uuid: pkt.uuid@,
                content: pkt.content@,
                timestamp: pkt.timestamp,
                sender,
            }),
    {
        ChatMessage { uuid: pkt.uuid, content: pkt.content, timestamp: pkt.timestamp, sender }
    }

    /// A copy of this message.
    pub fn duplicate(&self) -> (copy: ChatMessage)
        ensures
            copy@ == self@,
    {
        ChatMessage {
            uuid: self.uuid.clone(),
            content: self.content.clone(),
            timestamp: self.timestamp,
            sender: self.sender,
        }
    }
}

/// An entry of a peer's timeline: a chat message or a change of the peer's
/// connection status.
#[derive(Debug, Clone)]
pub enum Message {
    SimpleTextMessage(ChatMessage),
    PeerStatusUpdated(PeerStatus),
}

pub enum MessageView {
    SimpleTextMessage(ChatMessageView),
    PeerStatusUpdated(PeerStatus),
}

impl View for Message {
    type V = MessageView;

    open spec fn view(&self) -> MessageView {
        match self {
            Message::SimpleTextMessage(m) => MessageView::SimpleTextMessage(m@),
            Message::PeerStatusUpdated(s) => MessageView::PeerStatusUpdated(*s),
        }
    }
}

impl Message {
    /// A copy of this timeline entry.
    pub fn duplicate(&self) -> (copy: Message)
        ensures
            copy@ == self@,
    {
        match self {
            Message::SimpleTextMessage(m) => Message::SimpleTextMessage(m.duplicate()),
            Message::PeerStatusUpdated(s) => Message::PeerStatusUpdated(*s),
        }
    }
}

/// The views of the entries of a timeline.
pub open spec fn messages_view(v: Seq<Message>) -> Seq<MessageView> {
    v.map_values(|m: Message| m@)
}

} // verus!
