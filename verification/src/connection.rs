//! The decisions of a connection to a peer: what it announces when it
//! opens, which request ids it hands out and waits on, what it does with
//! each packet it receives, and when it may send a chat message. The
//! socket, the channels and the tasks that carry these decisions out live
//! outside the library.

use vstd::prelude::*;

use crate::models::{ChatMessage, ChatMessageView, MessageSender};
use crate::packet::event::{EventPacket, EventPacketView};
use crate::packet::handshake::{copy_strings, PeerIdentity, PeerIdentityView};
use crate::packet::request::RequestPacket;
use crate::packet::response::{ResponsePacket, ResponsePacketView};
use crate::packet::strings::strings_view;
use crate::packet::{decode, parse_packet, Packet, PacketView};
use crate::peer::page;

verus! {

/// The capability that allows plain text chat messages.
pub const SIMPLE_TEXT_CHAT: &'static str = "SIMPLE_TEXT_CHAT";

/// What a connection reports to the code that owns it.
#[derive(Debug, Clone)]
pub enum ConnectionEvent {
    /// The peer announced its identity in a handshake.
    PeerIdentified { peer: PeerIdentity },
    /// A chat message arrived (or was sent, when its sender is `Me`).
    MessageReceived(ChatMessage),
    /// The connection went down.
    Disconnected,
    /// The peer announced its capabilities.
    CapabilitiesUpdated { caps: Vec<String> },
}

pub enum ConnectionEventView {
    PeerIdentified { peer: PeerIdentityView },
    MessageReceived(ChatMessageView),
    Disconnected,
    CapabilitiesUpdated { caps: Seq<Seq<char>> },
}

impl View for ConnectionEvent {
    type V = ConnectionEventView;

    open spec fn view(&self) -> ConnectionEventView {
        match self {
            ConnectionEvent::PeerIdentified { peer } => ConnectionEventView::PeerIdentified {
                peer: peer@,
            },
            ConnectionEvent::MessageReceived(m) => ConnectionEventView::MessageReceived(m@),
            ConnectionEvent::Disconnected => ConnectionEventView::Disconnected,
            ConnectionEvent::CapabilitiesUpdated { caps } => ConnectionEventView::CapabilitiesUpdated {
                caps: strings_view(caps@),
            },
        }
    }
}

/// What to do with a received packet.
pub enum ReceiveAction {
    /// Nothing: the bytes did not decode, or a response no one waits for
    /// carried no capabilities.
    Ignore,
    /// Hand the response to the request that waits for it; the reader
    /// stops after that.
    Deliver { request_id: u64, payload: ResponsePacket },
    /// Report an event to the owner of the connection.
    Emit(ConnectionEvent),
    /// Send this packet back to the peer.
    Reply(Packet),
}

pub enum ReceiveActionView {
    Ignore,
    Deliver { request_id: u64, payload: ResponsePacketView },
    Emit(ConnectionEventView),
    Reply(PacketView),
}

impl View for ReceiveAction {
    type V = ReceiveActionView;

    open spec fn view(&self) -> ReceiveActionView {
        match self {
            ReceiveAction::Ignore => ReceiveActionView::Ignore,
            ReceiveAction::Deliver { request_id, payload } => ReceiveActionView::Deliver {
                request_id: *request_id,
                payload: payload@,
            },
            ReceiveAction::Emit(e) => ReceiveActionView::Emit(e@),
            ReceiveAction::Reply(p) => ReceiveActionView::Reply(p@),
        }
    }
}

/// The chat text could not be sent: the peer did not announce
/// `SIMPLE_TEXT_CHAT`.
#[derive(Debug, Clone, Copy, PartialEq, Eq)]
pub struct Unsupported;

/// The state of a connection: the next request id, the ids of the requests
/// that wait for a response, the capabilities the peer announced, and a
/// history of `(sender, text)` pairs.
pub struct Connection {
    next_request_id: u64,
    pending_requests: Vec<u64>,
    connection_capabilities: Vec<String>,
    pub message_history: Vec<(String, String)>,
}

pub struct ConnectionView {
    pub next_request_id: u64,
    pub pending: Seq<u64>,
    pub capabilities: Seq<Seq<char>>,
    pub history: Seq<(Seq<char>, Seq<char>)>,
}

/// A connection once a request is started: the next id is taken and its
/// response awaited.
pub open spec fn request_started(c: ConnectionView) -> ConnectionView {
    ConnectionView {
        next_request_id: c.next_request_id.wrapping_add(1),
        pending: c.pending.push(c.next_request_id),
        ..c
    }
}

/// A connection once `n` requests are started one after the other.
pub open spec fn after_requests(c: ConnectionView, n: nat) -> ConnectionView
    decreases n,
{
    if n == 0 {
        c
    } else {
        request_started(after_requests(c, (n - 1) as nat))
    }
}

/// The characters of each `(sender, text)` pair.
pub open spec fn history_view(h: Seq<(String, String)>) -> Seq<(Seq<char>, Seq<char>)> {
    h.map_values(|e: (String, String)| (e.0@, e.1@))
}

impl View for Connection {
    type V = ConnectionView;

    closed spec fn view(&self) -> ConnectionView {
        ConnectionView {
            next_request_id: self.next_request_id,
            pending: self.pending_requests@,
            capabilities: strings_view(self.connection_capabilities@),
            history: history_view(self.message_history@),
        }
    }
}

/// The capabilities a connection announces when it opens.
pub open spec fn announced_capabilities() -> Seq<Seq<char>> {
    seq!["CLEAR_TEXT"@, "NO_AUTH"@, "SIMPLE_TEXT_CHAT"@]
}

/// The reply to every request: a plain success with the request's id.
pub open spec fn request_reply(request_id: u64) -> PacketView {
    PacketView::Response { request_id, payload: ResponsePacketView::Success }
}

/// What a connection does with a received packet while `pending` requests
/// wait: a response with a nonzero id that a request waits for is
/// delivered to it; any other response that carries capabilities is
/// reported; a chat event is reported as a message from the peer, with the
/// given id and receive time; a request is answered with a plain success;
/// a handshake is reported as the peer's identity.
pub open spec fn receive_action(
    pending: Seq<u64>,
    packet: PacketView,
    message_id: Seq<char>,
    received_at: u64,
) -> ReceiveActionView {
    match packet {
        PacketView::Response { request_id, payload } => if request_id != 0 && pending.contains(
            request_id,
        ) {
            ReceiveActionView::Deliver { request_id, payload }
        } else {
            match payload {
                ResponsePacketView::Capabilities { caps } => ReceiveActionView::Emit(
                    ConnectionEventView::CapabilitiesUpdated { caps },
                ),
                _ => ReceiveActionView::Ignore,
            }
        },
        PacketView::Event(EventPacketView::ChatMessage(text)) => ReceiveActionView::Emit(
            ConnectionEventView::MessageReceived(
                ChatMessageView {
                    uuid: message_id,
                    content: text,
                    timestamp: received_at,
                    sender: MessageSender::Remote,
                },
            ),
        ),
        PacketView::Request { request_id, .. } => ReceiveActionView::Reply(
            request_reply(request_id),
        ),
        PacketView::HandShake(peer) => ReceiveActionView::Emit(
            ConnectionEventView::PeerIdentified { peer },
        ),
    }
}

/// Whether an id differs from `id`.
pub open spec fn other_than(id: u64) -> spec_fn(u64) -> bool {
    |x: u64| x != id
}

/// The connection's state after it acted on a received packet: a
/// delivered request no longer waits, and announced capabilities replace
/// the known ones.
pub open spec fn after_receive(c: ConnectionView, action: ReceiveActionView) -> ConnectionView {
    match action {
        ReceiveActionView::Deliver { request_id, .. } => ConnectionView {
            pending: c.pending.filter(other_than(request_id)),
            ..c
        },
        ReceiveActionView::Emit(ConnectionEventView::CapabilitiesUpdated { caps }) => ConnectionView {
            capabilities: caps,
            ..c
        },
        _ => c,
    }
}

impl Connection {
    /// A fresh connection: request ids start at 1, nothing waits, no
    /// capabilities are known.
    pub fn new() -> (c: Connection)
        ensures
            c@.next_request_id == 1,
            c@.pending.len() == 0,
            c@.capabilities.len() == 0,
            c@.history.len() == 0,
    {
        let c = Connection {
            next_request_id: 1,
            pending_requests: Vec::new(),
            connection_capabilities: Vec::new(),
            message_history: Vec::new(),
        };
        assert(history_view(c.message_history@) =~= Seq::<(Seq<char>, Seq<char>)>::empty());
        assert(strings_view(c.connection_capabilities@) =~= Seq::<Seq<char>>::empty());
        c
    }

    /// The packets a connection sends first: a capabilities response with
    /// request id 0, then the handshake with the local identity.
    pub fn opening_packets(&self, local_peer: &PeerIdentity) -> (packets: Vec<Packet>)
        ensures
            packets@.len() == 2,
            packets@[0]@ == (PacketView::Response {
                request_id: 0,
                payload: ResponsePacketView::Capabilities { caps: announced_capabilities() },
            }),
            packets@[1]@ == PacketView::HandShake(local_peer@),
    {
        let mut caps: Vec<String> = Vec::new();
        caps.push("CLEAR_TEXT".to_owned());
        caps.push("NO_AUTH".to_owned());
        caps.push(SIMPLE_TEXT_CHAT.to_owned());
        assert(strings_view(caps@) =~= announced_capabilities());
        let mut packets: Vec<Packet> = Vec::new();
        packets.push(
            Packet::Response { request_id: 0, payload: ResponsePacket::Capabilities { caps } },
        );
        packets.push(Packet::HandShake(local_peer.duplicate()));
        packets
    }

    /// The capabilities the peer announced last.
    pub fn capabilities(&self) -> (caps: Vec<String>)
        ensures
            strings_view(caps@) == self@.capabilities,
    {
        copy_strings(&self.connection_capabilities)
    }

    /// Hands out the next request id; ids count up by one and wrap around.
    pub fn next_request_id(&mut self) -> (id: u64)
        ensures
            id == old(self)@.next_request_id,
            final(self)@ == (ConnectionView {
                next_request_id: old(self)@.next_request_id.wrapping_add(1),
                ..old(self)@
            }),
    {
        let id = self.next_request_id;
        self.next_request_id = self.next_request_id.wrapping_add(1);
        id
    }

    /// Starts a request: takes the next id, records that a response with
    /// that id is awaited, and gives the packet to send.
    pub fn begin_request(&mut self, req: RequestPacket) -> (packet: Packet)
        ensures
            packet@ == (PacketView::Request {
                request_id: old(self)@.next_request_id,
                payload: req,
            }),
            final(self)@ == request_started(old(self)@),
    {
        let id = self.next_request_id();
        self.pending_requests.push(id);
        Packet::Request { request_id: id, payload: req }
    }

    fn is_pending(&self, id: u64) -> (b: bool)
        ensures
            b == self@.pending.contains(id),
    {
        let mut i: usize = 0;
        while i < self.pending_requests.len()
            invariant
                i <= self.pending_requests@.len(),
                forall|j: int| 0 <= j < i ==> self.pending_requests@[j] != id,
            decreases self.pending_requests@.len() - i,
        {
            if self.pending_requests[i] == id {
                return true;
            }
            i = i + 1;
        }
        false
    }

    fn stop_waiting(&mut self, id: u64)
        ensures
            final(self)@ == (ConnectionView {
                pending: old(self)@.pending.filter(other_than(id)),
                ..old(self)@
            }),
    {
        let ghost pred = other_than(id);
        let mut kept: Vec<u64> = Vec::new();
        let mut i: usize = 0;
        while i < self.pending_requests.len()
            invariant
                i <= self.pending_requests@.len(),
                pred == other_than(id),
                kept@ == self.pending_requests@.take(i as int).filter(pred),
            decreases self.pending_requests@.len() - i,
        {
            let x = self.pending_requests[i];
            proof {
                let s = self.pending_requests@.take(i as int);
                assert(self.pending_requests@.take(i + 1) =~= s.push(x));
                s.lemma_filter_push(x, pred);
            }
            if x != id {
                kept.push(x);
            }
            i = i + 1;
        }
        assert(self.pending_requests@.take(self.pending_requests@.len() as int)
            =~= self.pending_requests@);
        self.pending_requests = kept;
    }

    /// Acts on a received packet; see `receive_action` and `after_receive`.
    pub fn on_packet(&mut self, packet: Packet, message_id: String, received_at: u64) -> (action:
        ReceiveAction)
        ensures
            action@ == receive_action(old(self)@.pending, packet@, message_id@, received_at),
            final(self)@ == after_receive(old(self)@, action@),
    {
        match packet {
            Packet::Response { request_id, payload } => {
                if request_id != 0 && self.is_pending(request_id) {
                    self.stop_waiting(request_id);
                    return ReceiveAction::Deliver { request_id, payload };
                }
                match payload {
                    ResponsePacket::Capabilities { caps } => {
                        self.connection_capabilities = copy_strings(&caps);
                        ReceiveAction::Emit(ConnectionEvent::CapabilitiesUpdated { caps })
                    },
                    _ => ReceiveAction::Ignore,
                }
            },
            Packet::Event(EventPacket::ChatMessage(text)) => {
                ReceiveAction::Emit(
                    ConnectionEvent::MessageReceived(
                        ChatMessage {
                            uuid: message_id,
                            content: text,
                            timestamp: received_at,
                            sender: MessageSender::Remote,
                        },
                    ),
                )
            },
            Packet::Request { request_id, .. } => {
                ReceiveAction::Reply(
                    Packet::Response { request_id, payload: ResponsePacket::Success },
                )
            },
            Packet::HandShake(peer) => {
                ReceiveAction::Emit(ConnectionEvent::PeerIdentified { peer })
            },
        }
    }

    /// Acts on the bytes of one received packet: bytes that do not decode
    /// are ignored.
    pub fn on_bytes(&mut self, bytes: &[u8], message_id: String, received_at: u64) -> (action:
        ReceiveAction)
        ensures
            parse_packet(bytes@) is Err ==> action is Ignore && final(self)@ == old(self)@,
            parse_packet(bytes@) matches Ok((p, _)) ==> action@ == receive_action(
                old(self)@.pending,
                p,
                message_id@,
                received_at,
            ) && final(self)@ == after_receive(old(self)@, action@),
    {
        match decode(bytes) {
            Some(packet) => self.on_packet(packet, message_id, received_at),
            None => ReceiveAction::Ignore,
        }
    }

    /// The chat event packet carrying `msg`, when the peer announced
    /// `SIMPLE_TEXT_CHAT`; `Unsupported` otherwise.
    pub fn simple_text_packet(&self, msg: String) -> (res: Result<Packet, Unsupported>)
        ensures
            res is Ok <==> self@.capabilities.contains("SIMPLE_TEXT_CHAT"@),
            res matches Ok(p) ==> p@ == PacketView::Event(EventPacketView::ChatMessage(msg@)),
    {
        let wanted = SIMPLE_TEXT_CHAT.to_owned();
        let mut i: usize = 0;
        while i < self.connection_capabilities.len()
            invariant
                i <= self.connection_capabilities@.len(),
                wanted@ == "SIMPLE_TEXT_CHAT"@,
                forall|j: int|
                    0 <= j < i ==> strings_view(self.connection_capabilities@)[j] != wanted@,
            decreases self.connection_capabilities@.len() - i,
        {
            if self.connection_capabilities[i] == wanted {
                proof {
                    assert(strings_view(self.connection_capabilities@)[i as int] == wanted@);
                }
                return Ok(Packet::Event(EventPacket::ChatMessage(msg)));
            }
            i = i + 1;
        }
        Err(Unsupported)
    }

    /// The pairs `skip..skip + limit` of the history.
    pub fn get_messages(&self, skip: u32, limit: u32) -> (out: Vec<(String, String)>)
        ensures
            history_view(out@) == page(self@.history, skip as nat, limit as nat),
    {
        let h = &self.message_history;
        let len = h.len();
        let start: usize = if (skip as usize) <= len {
            skip as usize
        } else {
            len
        };
        let end: usize = if (limit as usize) <= len - start {
            start + limit as usize
        } else {
            len
        };
        let mut out: Vec<(String, String)> = Vec::new();
        let mut i = start;
        while i < end
            invariant
                start <= i <= end <= h@.len(),
                h == &self.message_history,
                history_view(out@) == history_view(h@).subrange(start as int, i as int),
            decreases end - i,
        {
            let e = (h[i].0.clone(), h[i].1.clone());
            proof {
                assert(history_view(h@)[i as int] == (h@[i as int].0@, h@[i as int].1@));
                assert(history_view(out@.push(e)) =~= history_view(out@).push((e.0@, e.1@)));
            }
            out.push(e);
            i = i + 1;
            assert(history_view(out@) =~= history_view(h@).subrange(start as int, i as int));
        }
        out
    }
}

/// A response that carries the id a request was started with is delivered
/// to that request, which then no longer waits; its payload is handed over
/// unchanged.
pub proof fn lemma_started_request_answered(
    c: ConnectionView,
    req: RequestPacket,
    payload: ResponsePacketView,
    message_id: Seq<char>,
    received_at: u64,
)
    requires
        c.next_request_id != 0,
    ensures
        ({
            let id = c.next_request_id;
            let started = ConnectionView {
                next_request_id: id.wrapping_add(1),
                pending: c.pending.push(id),
                ..c
            };
            let action = receive_action(
                started.pending,
                PacketView::Response { request_id: id, payload },
                message_id,
                received_at,
            );
            &&& action == ReceiveActionView::Deliver { request_id: id, payload }
            &&& !after_receive(started, action).pending.contains(id)
        }),
{
    let id = c.next_request_id;
    let pending = c.pending.push(id);
    assert(pending[pending.len() - 1] == id);
    assert(pending.contains(id));
    let kept = pending.filter(other_than(id));
    if kept.contains(id) {
        let k = choose|k: int| 0 <= k < kept.len() && kept[k] == id;
        pending.lemma_filter_pred(other_than(id), k);
    }
}

/// Capabilities that a peer announces outside any request (request id 0)
/// are reported and become the connection's known capabilities, so a peer
/// that announced `SIMPLE_TEXT_CHAT` may be sent chat text.
pub proof fn lemma_announced_capabilities_recorded(
    c: ConnectionView,
    caps: Seq<Seq<char>>,
    message_id: Seq<char>,
    received_at: u64,
)
    ensures
        ({
            let action = receive_action(
                c.pending,
                PacketView::Response {
                    request_id: 0,
                    payload: ResponsePacketView::Capabilities { caps },
                },
                message_id,
                received_at,
            );
            &&& action == ReceiveActionView::Emit(
                ConnectionEventView::CapabilitiesUpdated { caps },
            )
            &&& after_receive(c, action).capabilities == caps
            &&& after_receive(c, action).pending == c.pending
        }),
{
}

/// Requests started one after the other take the ids that follow the
/// connection's next id, in order, as long as the ids do not wrap around.
pub proof fn lemma_request_ids_count_up(c: ConnectionView, n: nat)
    requires
        c.next_request_id + n <= u64::MAX,
    ensures
        after_requests(c, n).next_request_id == c.next_request_id + n,
        after_requests(c, n).pending == c.pending + Seq::new(
            n,
            |i: int| (c.next_request_id + i) as u64,
        ),
    decreases n,
{
    if n > 0 {
        let m = (n - 1) as nat;
        lemma_request_ids_count_up(c, m);
        let prev = after_requests(c, m);
        assert(prev.next_request_id.wrapping_add(1) == c.next_request_id + n);
        assert(prev.pending.push(prev.next_request_id) =~= c.pending + Seq::new(
            n,
            |i: int| (c.next_request_id + i) as u64,
        ));
    }
}

/// On a fresh connection (as `Connection::new` makes it) the requests
/// started one after the other get the ids 1, 2, ..., `n`: never 0, which
/// marks the capabilities announced outside any request, and no two alike.
pub proof fn lemma_fresh_request_ids(c: ConnectionView, n: nat)
    requires
        c.next_request_id == 1,
        c.pending.len() == 0,
        n < u64::MAX,
    ensures
        ({
            let ids = after_requests(c, n).pending;
            &&& ids.len() == n
            &&& forall|i: int| 0 <= i < n ==> #[trigger] ids[i] == i + 1
            &&& forall|i: int, j: int| 0 <= i < n && 0 <= j < n && i != j ==> ids[i] != ids[j]
            &&& !ids.contains(0)
        }),
{
    lemma_request_ids_count_up(c, n);
    let ids = after_requests(c, n).pending;
    assert(ids =~= Seq::new(n, |i: int| (1 + i) as u64));
    if ids.contains(0) {
        let k = choose|k: int| 0 <= k < ids.len() && ids[k] == 0;
        assert(ids[k] == k + 1);
    }
}

/// Successive request ids differ: each is the previous one plus one,
/// wrapping around.
pub proof fn lemma_request_ids_advance(c: ConnectionView)
    ensures
        c.next_request_id.wrapping_add(1) != c.next_request_id,
{
}

} // verus!
