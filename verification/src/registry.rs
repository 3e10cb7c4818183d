//! The peers this instance knows, keyed by peer id, and what happens to
//! them as connection events come in and as the front end asks for
//! timelines or sends messages.

use vstd::prelude::*;

use crate::connection::{ConnectionEvent, ConnectionEventView};
use crate::crypto::ed25519::{ed25519_key_decompresses, point_decompression_error};
use crate::crypto::error::CryptoError;
use crate::crypto::{peer_id_from_bytes, peer_id_text};
use crate::models::{ChatMessage, ChatMessageView, Message, MessageSender, MessageView, messages_view};
use crate::packet::handshake::{PeerIdentity, PeerIdentityView};
use crate::peer::{page, Peer, PeerStatus, PeerView};

verus! {

/// What the front end is told.
#[derive(Debug, Clone)]
pub enum FrontendEvent {
    /// An entry was added to a peer's timeline.
    MessageReceived { peer_id: String, message: Message },
    /// A peer identified itself on a connection.
    ConnectionCreated { connection_id: String },
}

pub enum FrontendEventView {
    MessageReceived { peer_id: Seq<char>, message: MessageView },
    ConnectionCreated { connection_id: Seq<char> },
}

impl View for FrontendEvent {
    type V = FrontendEventView;

    open spec fn view(&self) -> FrontendEventView {
        match self {
            FrontendEvent::MessageReceived { peer_id, message } => FrontendEventView::MessageReceived {
                peer_id: peer_id@,
                message: message@,
            },
            FrontendEvent::ConnectionCreated { connection_id } => FrontendEventView::ConnectionCreated {
                connection_id: connection_id@,
            },
        }
    }
}

/// The views of a list of front-end events.
pub open spec fn frontend_view(v: Seq<FrontendEvent>) -> Seq<FrontendEventView> {
    v.map_values(|e: FrontendEvent| e@)
}

/// Every peer's id is the one derived from its public key, and no two
/// peers share an id.
pub open spec fn registry_wf<C>(peers: Seq<PeerView<C>>) -> bool {
    &&& forall|i: int|
        0 <= i < peers.len() ==> #[trigger] peers[i].peer_id == peer_id_text(
            peers[i].identity.public_key,
        )
    &&& forall|i: int, j: int|
        0 <= i < peers.len() && 0 <= j < peers.len() && i != j ==> #[trigger] peers[i].peer_id
            != #[trigger] peers[j].peer_id
}

/// Where the peer with id `id` stands, if any.
pub open spec fn find_peer<C>(peers: Seq<PeerView<C>>, id: Seq<char>) -> Option<int> {
    if exists|i: int| 0 <= i < peers.len() && #[trigger] peers[i].peer_id == id {
        Some(choose|i: int| 0 <= i < peers.len() && #[trigger] peers[i].peer_id == id)
    } else {
        None
    }
}

/// The peers after a peer identified itself with `identity` on
/// `connection`: a known peer takes the new identity and connection and is
/// connected again; an unknown one is added, connected, with an empty
/// timeline.
pub open spec fn registered<C>(peers: Seq<PeerView<C>>, identity: PeerIdentityView, connection: C) -> Seq<
    PeerView<C>,
> {
    let id = peer_id_text(identity.public_key);
    match find_peer(peers, id) {
        Some(i) => peers.update(
            i,
            PeerView { identity, connection, status: PeerStatus::Connected, ..peers[i] },
        ),
        None => peers.push(
            PeerView {
                peer_id: id,
                identity,
                connection,
                messages: Seq::empty(),
                status: PeerStatus::Connected,
            },
        ),
    }
}

/// The peers and front-end events after `m` is added to the timeline of
/// the peer `id`; nothing happens where there is no such peer.
pub open spec fn recorded<C>(peers: Seq<PeerView<C>>, id: Seq<char>, m: MessageView) -> (Seq<
    PeerView<C>,
>, Seq<FrontendEventView>) {
    match find_peer(peers, id) {
        Some(i) => (
            peers.update(i, PeerView { messages: peers[i].messages.push(m), ..peers[i] }),
            seq![FrontendEventView::MessageReceived { peer_id: id, message: m }],
        ),
        None => (peers, Seq::empty()),
    }
}

/// What an event does while the connection belongs to the peer `current`
/// (the peers, the peer the connection belongs to afterwards, the front-end
/// events):
/// - a handshake registers the peer, who becomes the connection's peer,
///   adds "connected" to its timeline and reports the new connection;
/// - a chat message is added to the current peer's timeline;
/// - a disconnection marks the current peer disconnected and adds that to
///   its timeline;
/// - announced capabilities change nothing here.
pub open spec fn event_outcome<C>(
    peers: Seq<PeerView<C>>,
    current: Seq<char>,
    event: ConnectionEventView,
    connection: C,
) -> (Seq<PeerView<C>>, Seq<char>, Seq<FrontendEventView>) {
    match event {
        ConnectionEventView::PeerIdentified { peer } => {
            let id = peer_id_text(peer.public_key);
            let (p, ev) = recorded(
                registered(peers, peer, connection),
                id,
                MessageView::PeerStatusUpdated(PeerStatus::Connected),
            );
            (p, id, ev.push(FrontendEventView::ConnectionCreated { connection_id: id }))
        },
        ConnectionEventView::MessageReceived(m) => {
            let (p, ev) = recorded(peers, current, MessageView::SimpleTextMessage(m));
            (p, current, ev)
        },
        ConnectionEventView::Disconnected => match find_peer(peers, current) {
            Some(i) => {
                let (p, ev) = recorded(
                    peers.update(i, PeerView { status: PeerStatus::Disconnected, ..peers[i] }),
                    current,
                    MessageView::PeerStatusUpdated(PeerStatus::Disconnected),
                );
                (p, current, ev)
            },
            None => (peers, current, Seq::empty()),
        },
        ConnectionEventView::CapabilitiesUpdated { .. } => (peers, current, Seq::empty()),
    }
}

/// In a well-formed registry, a peer is found where its id stands, also
/// after that entry is replaced by one with the same id.
pub proof fn lemma_find_after_update<C>(peers: Seq<PeerView<C>>, i: int, p: PeerView<C>)
    requires
        registry_wf(peers),
        0 <= i < peers.len(),
        p.peer_id == peers[i].peer_id,
        p.peer_id == peer_id_text(p.identity.public_key),
    ensures
        find_peer(peers, peers[i].peer_id) == Some(i),
        registry_wf(peers.update(i, p)),
        find_peer(peers.update(i, p), p.peer_id) == Some(i),
{
    let id = peers[i].peer_id;
    assert(peers[i].peer_id == id);
    let k = choose|k: int| 0 <= k < peers.len() && #[trigger] peers[k].peer_id == id;
    assert(k == i);
    let q = peers.update(i, p);
    assert forall|a: int, b: int|
        0 <= a < q.len() && 0 <= b < q.len() && a != b implies #[trigger] q[a].peer_id
        != #[trigger] q[b].peer_id by {
        assert(q[a].peer_id == peers[a].peer_id);
        assert(q[b].peer_id == peers[b].peer_id);
    }
    assert(q[i].peer_id == id);
    let k2 = choose|k: int| 0 <= k < q.len() && #[trigger] q[k].peer_id == id;
    assert(k2 == i);
}

/// In a well-formed registry where no peer has the id of `p`, `p` added
/// at the end is found there and the registry stays well formed.
proof fn lemma_find_after_push<C>(peers: Seq<PeerView<C>>, p: PeerView<C>)
    requires
        registry_wf(peers),
        find_peer(peers, p.peer_id) is None,
        p.peer_id == peer_id_text(p.identity.public_key),
    ensures
        registry_wf(peers.push(p)),
        find_peer(peers.push(p), p.peer_id) == Some(peers.len() as int),
{
    let q = peers.push(p);
    let n = peers.len() as int;
    assert forall|a: int| 0 <= a < peers.len() implies #[trigger] peers[a].peer_id != p.peer_id by {
        if peers[a].peer_id == p.peer_id {
            assert(exists|i: int| 0 <= i < peers.len() && #[trigger] peers[i].peer_id == p.peer_id);
        }
    }
    assert forall|a: int, b: int|
        0 <= a < q.len() && 0 <= b < q.len() && a != b implies #[trigger] q[a].peer_id
        != #[trigger] q[b].peer_id by {
        if a < n {
            assert(q[a] == peers[a]);
        }
        if b < n {
            assert(q[b] == peers[b]);
        }
    }
    assert forall|a: int| 0 <= a < q.len() implies #[trigger] q[a].peer_id == peer_id_text(
        q[a].identity.public_key,
    ) by {
        if a < n {
            assert(q[a] == peers[a]);
        }
    }
    assert(q[n].peer_id == p.peer_id);
    let k = choose|k: int| 0 <= k < q.len() && #[trigger] q[k].peer_id == p.peer_id;
    if k < n {
        assert(q[k] == peers[k]);
    }
}

/// A peer not yet known that identifies itself is added after the known
/// ones, which stay as they were: it has the id derived from its public
/// key, the identity and connection it came with, is connected, and its
/// timeline is empty.
pub proof fn lemma_register_new_peer<C>(
    peers: Seq<PeerView<C>>,
    identity: PeerIdentityView,
    connection: C,
)
    requires
        registry_wf(peers),
        find_peer(peers, peer_id_text(identity.public_key)) is None,
    ensures
        ({
            let r = registered(peers, identity, connection);
            let n = peers.len() as int;
            &&& r.len() == n + 1
            &&& forall|j: int| 0 <= j < n ==> #[trigger] r[j] == peers[j]
            &&& r[n].peer_id == peer_id_text(identity.public_key)
            &&& r[n].identity == identity
            &&& r[n].connection == connection
            &&& r[n].status == PeerStatus::Connected
            &&& r[n].messages.len() == 0
        }),
{
}

/// A handshake from a peer not yet known adds it after the known ones,
/// which stay as they were: it has the id derived from its public key, the
/// identity and connection it came with, is connected, and its timeline
/// holds just the "connected" entry. The connection now belongs to it, and
/// the front end is told of that entry and then of the new connection.
pub proof fn lemma_handshake_from_new_peer<C>(
    peers: Seq<PeerView<C>>,
    current: Seq<char>,
    peer: PeerIdentityView,
    connection: C,
)
    requires
        registry_wf(peers),
        find_peer(peers, peer_id_text(peer.public_key)) is None,
    ensures
        ({
            let id = peer_id_text(peer.public_key);
            let (p, key, events) = event_outcome(
                peers,
                current,
                ConnectionEventView::PeerIdentified { peer },
                connection,
            );
            let n = peers.len() as int;
            &&& key == id
            &&& p.len() == n + 1
            &&& forall|j: int| 0 <= j < n ==> #[trigger] p[j] == peers[j]
            &&& p[n].peer_id == id
            &&& p[n].identity == peer
            &&& p[n].connection == connection
            &&& p[n].status == PeerStatus::Connected
            &&& p[n].messages == seq![MessageView::PeerStatusUpdated(PeerStatus::Connected)]
            &&& events == seq![
                FrontendEventView::MessageReceived {
                    peer_id: id,
                    message: MessageView::PeerStatusUpdated(PeerStatus::Connected),
                },
                FrontendEventView::ConnectionCreated { connection_id: id },
            ]
        }),
{
    let id = peer_id_text(peer.public_key);
    let fresh = PeerView {
        peer_id: id,
        identity: peer,
        connection,
        messages: Seq::<MessageView>::empty(),
        status: PeerStatus::Connected,
    };
    lemma_find_after_push(peers, fresh);
    let r = peers.push(fresh);
    assert(registered(peers, peer, connection) == r);
    assert(find_peer(r, id) == Some(peers.len() as int));
    assert(seq![MessageView::PeerStatusUpdated(PeerStatus::Connected)] =~= Seq::<
        MessageView,
    >::empty().push(MessageView::PeerStatusUpdated(PeerStatus::Connected)));
    let ev = seq![
        FrontendEventView::MessageReceived {
            peer_id: id,
            message: MessageView::PeerStatusUpdated(PeerStatus::Connected),
        },
    ];
    assert(ev.push(FrontendEventView::ConnectionCreated { connection_id: id }) =~= seq![
        FrontendEventView::MessageReceived {
            peer_id: id,
            message: MessageView::PeerStatusUpdated(PeerStatus::Connected),
        },
        FrontendEventView::ConnectionCreated { connection_id: id },
    ]);
}

/// A handshake from a known peer keeps it in its place with its id and
/// timeline: it takes the identity and connection it came with, is
/// connected, and "connected" is appended to its timeline. The other peers
/// stay as they were, the connection now belongs to it, and the front end
/// is told of that entry and then of the new connection.
pub proof fn lemma_handshake_from_known_peer<C>(
    peers: Seq<PeerView<C>>,
    i: int,
    current: Seq<char>,
    peer: PeerIdentityView,
    connection: C,
)
    requires
        registry_wf(peers),
        0 <= i < peers.len(),
        peers[i].peer_id == peer_id_text(peer.public_key),
    ensures
        ({
            let id = peers[i].peer_id;
            let entry = MessageView::PeerStatusUpdated(PeerStatus::Connected);
            let (p, key, events) = event_outcome(
                peers,
                current,
                ConnectionEventView::PeerIdentified { peer },
                connection,
            );
            &&& key == id
            &&& p.len() == peers.len()
            &&& forall|j: int| 0 <= j < peers.len() && j != i ==> #[trigger] p[j] == peers[j]
            &&& p[i].peer_id == id
            &&& p[i].identity == peer
            &&& p[i].connection == connection
            &&& p[i].status == PeerStatus::Connected
            &&& p[i].messages == peers[i].messages.push(entry)
            &&& events == seq![
                FrontendEventView::MessageReceived { peer_id: id, message: entry },
                FrontendEventView::ConnectionCreated { connection_id: id },
            ]
        }),
{
    let id = peers[i].peer_id;
    let a = PeerView { identity: peer, connection, status: PeerStatus::Connected, ..peers[i] };
    lemma_find_after_update(peers, i, a);
    let pa = peers.update(i, a);
    let b = PeerView {
        messages: a.messages.push(MessageView::PeerStatusUpdated(PeerStatus::Connected)),
        ..a
    };
    lemma_find_after_update(pa, i, b);
    let ev = seq![
        FrontendEventView::MessageReceived {
            peer_id: id,
            message: MessageView::PeerStatusUpdated(PeerStatus::Connected),
        },
    ];
    assert(ev.push(FrontendEventView::ConnectionCreated { connection_id: id }) =~= seq![
        FrontendEventView::MessageReceived {
            peer_id: id,
            message: MessageView::PeerStatusUpdated(PeerStatus::Connected),
        },
        FrontendEventView::ConnectionCreated { connection_id: id },
    ]);
}

/// A chat message on the connection of a known peer is appended, whole and
/// unchanged (its sender included), to the end of that peer's timeline;
/// nothing else changes, the connection stays with that peer, and the
/// front end is told of exactly that entry.
pub proof fn lemma_message_appended<C>(
    peers: Seq<PeerView<C>>,
    i: int,
    m: ChatMessageView,
    connection: C,
)
    requires
        registry_wf(peers),
        0 <= i < peers.len(),
    ensures
        ({
            let current = peers[i].peer_id;
            let (p, key, events) = event_outcome(
                peers,
                current,
                ConnectionEventView::MessageReceived(m),
                connection,
            );
            &&& key == current
            &&& p.len() == peers.len()
            &&& forall|j: int| 0 <= j < peers.len() && j != i ==> #[trigger] p[j] == peers[j]
            &&& p[i].peer_id == peers[i].peer_id
            &&& p[i].identity == peers[i].identity
            &&& p[i].connection == peers[i].connection
            &&& p[i].status == peers[i].status
            &&& p[i].messages == peers[i].messages.push(MessageView::SimpleTextMessage(m))
            &&& events == seq![
                FrontendEventView::MessageReceived {
                    peer_id: current,
                    message: MessageView::SimpleTextMessage(m),
                },
            ]
        }),
{
    let p = PeerView {
        messages: peers[i].messages.push(MessageView::SimpleTextMessage(m)),
        ..peers[i]
    };
    lemma_find_after_update(peers, i, p);
}

/// When the connection of a known peer closes, that peer is marked
/// disconnected and "disconnected" is appended to its timeline; nothing
/// else changes, and the front end is told of exactly that entry.
pub proof fn lemma_disconnect_marked<C>(peers: Seq<PeerView<C>>, i: int, connection: C)
    requires
        registry_wf(peers),
        0 <= i < peers.len(),
    ensures
        ({
            let current = peers[i].peer_id;
            let entry = MessageView::PeerStatusUpdated(PeerStatus::Disconnected);
            let (p, key, events) = event_outcome(
                peers,
                current,
                ConnectionEventView::Disconnected,
                connection,
            );
            &&& key == current
            &&& p.len() == peers.len()
            &&& forall|j: int| 0 <= j < peers.len() && j != i ==> #[trigger] p[j] == peers[j]
            &&& p[i].peer_id == peers[i].peer_id
            &&& p[i].identity == peers[i].identity
            &&& p[i].connection == peers[i].connection
            &&& p[i].status == PeerStatus::Disconnected
            &&& p[i].messages == peers[i].messages.push(entry)
            &&& events == seq![FrontendEventView::MessageReceived { peer_id: current, message: entry }]
        }),
{
    let a = PeerView { status: PeerStatus::Disconnected, ..peers[i] };
    lemma_find_after_update(peers, i, a);
    let pa = peers.update(i, a);
    let b = PeerView {
        messages: a.messages.push(MessageView::PeerStatusUpdated(PeerStatus::Disconnected)),
        ..a
    };
    lemma_find_after_update(pa, i, b);
}

/// A known peer that disconnects and then identifies itself again keeps
/// its place and its timeline: it is connected, and its timeline has gained
/// "disconnected" then "connected"; the connection belongs to it again.
pub proof fn lemma_reconnect_keeps_timeline<C>(
    peers: Seq<PeerView<C>>,
    id: Seq<char>,
    peer: PeerIdentityView,
    old_connection: C,
    new_connection: C,
)
    requires
        registry_wf(peers),
        find_peer(peers, id) is Some,
        peer_id_text(peer.public_key) == id,
    ensures
        ({
            let i = find_peer(peers, id)->0;
            let (p1, k1, _) = event_outcome(
                peers,
                id,
                ConnectionEventView::Disconnected,
                old_connection,
            );
            let (p2, k2, _) = event_outcome(
                p1,
                k1,
                ConnectionEventView::PeerIdentified { peer },
                new_connection,
            );
            &&& k2 == id
            &&& p2.len() == peers.len()
            &&& p2[i].status == PeerStatus::Connected
            &&& p2[i].connection == new_connection
            &&& p2[i].identity == peer
            &&& p2[i].messages == peers[i].messages.push(
                MessageView::PeerStatusUpdated(PeerStatus::Disconnected),
            ).push(MessageView::PeerStatusUpdated(PeerStatus::Connected))
        }),
{
    let i = find_peer(peers, id)->0;
    let k = choose|k: int| 0 <= k < peers.len() && #[trigger] peers[k].peer_id == id;
    assert(peers[i].peer_id == id);
    let a = PeerView { status: PeerStatus::Disconnected, ..peers[i] };
    lemma_find_after_update(peers, i, a);
    let pa = peers.update(i, a);
    let b = PeerView {
        messages: a.messages.push(MessageView::PeerStatusUpdated(PeerStatus::Disconnected)),
        ..a
    };
    lemma_find_after_update(pa, i, b);
    let p1 = pa.update(i, b);
    let c = PeerView {
        identity: peer,
        connection: new_connection,
        status: PeerStatus::Connected,
        ..b
    };
    lemma_find_after_update(p1, i, c);
    let p2a = p1.update(i, c);
    let d = PeerView {
        messages: c.messages.push(MessageView::PeerStatusUpdated(PeerStatus::Connected)),
        ..c
    };
    lemma_find_after_update(p2a, i, d);
}

/// The known peers.
pub struct PeerRegistry<C> {
    peers: Vec<Peer<C>>,
}

impl<C> View for PeerRegistry<C> {
    type V = Seq<PeerView<C>>;

    closed spec fn view(&self) -> Seq<PeerView<C>> {
        self.peers@.map_values(|p: Peer<C>| p@)
    }
}

/// The views of a list of peers.
pub open spec fn peers_view<C>(v: Seq<Peer<C>>) -> Seq<PeerView<C>> {
    v.map_values(|p: Peer<C>| p@)
}

fn find<C>(peers: &Vec<Peer<C>>, id: &String) -> (r: Option<usize>)
    requires
        registry_wf(peers_view(peers@)),
    ensures
        r matches Some(i) ==> find_peer(peers_view(peers@), id@) == Some(i as int),
        r is None ==> find_peer(peers_view(peers@), id@) is None,
{
    let ghost v = peers_view(peers@);
    let mut i: usize = 0;
    while i < peers.len()
        invariant
            i <= peers@.len(),
            v == peers_view(peers@),
            registry_wf(v),
            forall|j: int| 0 <= j < i ==> v[j].peer_id != id@,
        decreases peers@.len() - i,
    {
        proof {
            assert(v[i as int] == peers@[i as int]@);
        }
        if peers[i].peer_id == *id {
            proof {
                assert(v[i as int].peer_id == id@);
                let k = choose|k: int| 0 <= k < v.len() && #[trigger] v[k].peer_id == id@;
                assert(v[k].peer_id == v[i as int].peer_id);
                assert(k == i);
            }
            return Some(i);
        }
        i = i + 1;
    }
    proof {
        assert forall|j: int| 0 <= j < v.len() implies #[trigger] v[j].peer_id != id@ by {}
    }
    None
}

/// Adds `m` to the timeline of the peer `id` in `peers`.
fn record_in<C>(peers: &mut Vec<Peer<C>>, id: &String, m: Message) -> (events: Vec<FrontendEvent>)
    requires
        registry_wf(peers_view(old(peers)@)),
    ensures
        registry_wf(peers_view(final(peers)@)),
        (peers_view(final(peers)@), frontend_view(events@)) == recorded(
            peers_view(old(peers)@),
            id@,
            m@,
        ),
{
    let ghost v = peers_view(peers@);
    match find(peers, id) {
        Some(i) => {
            let mut p = peers.remove(i);
            let ghost before = p@;
            let copy = m.duplicate();
            p.messages.push(m);
            proof {
                assert(messages_view(p.messages@) =~= before.messages.push(copy@));
            }
            peers.insert(i, p);
            let mut events: Vec<FrontendEvent> = Vec::new();
            events.push(FrontendEvent::MessageReceived { peer_id: id.clone(), message: copy });
            proof {
                assert(v[i as int] == before);
                assert(peers_view(peers@) =~= v.update(
                    i as int,
                    PeerView { messages: v[i as int].messages.push(m@), ..v[i as int] },
                ));
                assert(frontend_view(events@) =~= seq![
                    FrontendEventView::MessageReceived { peer_id: id@, message: m@ },
                ]);
                let w = peers_view(peers@);
                assert forall|a: int, b: int|
                    0 <= a < w.len() && 0 <= b < w.len() && a != b implies #[trigger] w[a].peer_id
                    != #[trigger] w[b].peer_id by {
                    assert(w[a].peer_id == v[a].peer_id);
                    assert(w[b].peer_id == v[b].peer_id);
                }
                assert forall|a: int| 0 <= a < w.len() implies #[trigger] w[a].peer_id
                    == peer_id_text(w[a].identity.public_key) by {
                    assert(w[a].peer_id == v[a].peer_id);
                    assert(w[a].identity == v[a].identity);
                }
            }
            events
        },
        None => {
            let events: Vec<FrontendEvent> = Vec::new();
            assert(frontend_view(events@) =~= Seq::<FrontendEventView>::empty());
            events
        },
    }
}

impl<C> PeerRegistry<C> {
    #[verifier::type_invariant]
    spec fn wf(self) -> bool {
        registry_wf(peers_view(self.peers@))
    }

    /// A registry that knows no peer.
    pub fn new() -> (r: Self)
        ensures
            r@ == Seq::<PeerView<C>>::empty(),
            registry_wf(r@),
    {
        let r = PeerRegistry { peers: Vec::new() };
        assert(peers_view(r.peers@) =~= Seq::<PeerView<C>>::empty());
        r
    }

    /// The peer with id `id`, if known.
    pub fn peer(&self, id: &String) -> (r: Option<&Peer<C>>)
        ensures
            find_peer(self@, id@) matches Some(i) ==> (r matches Some(p) && p@ == self@[i]),
            find_peer(self@, id@) is None ==> r is None,
    {
        proof {
            use_type_invariant(self);
        }
        match find(&self.peers, id) {
            Some(i) => Some(&self.peers[i]),
            None => None,
        }
    }

    /// The ids of the known peers, in the order they became known.
    pub fn peer_ids(&self) -> (ids: Vec<String>)
        ensures
            ids@.len() == self@.len(),
            forall|i: int| 0 <= i < ids@.len() ==> #[trigger] ids@[i]@ == self@[i].peer_id,
    {
        let mut ids: Vec<String> = Vec::new();
        let mut i: usize = 0;
        while i < self.peers.len()
            invariant
                i <= self.peers@.len(),
                ids@.len() == i,
                forall|j: int| 0 <= j < i ==> #[trigger] ids@[j]@ == self@[j].peer_id,
            decreases self.peers@.len() - i,
        {
            ids.push(self.peers[i].peer_id.clone());
            i = i + 1;
        }
        ids
    }

    /// The entries `skip..skip + limit` of the timeline of the peer `id`;
    /// none for an unknown peer.
    pub fn messages_page(&self, id: &String, skip: u32, limit: u32) -> (out: Vec<Message>)
        ensures
            find_peer(self@, id@) matches Some(i) ==> messages_view(out@) == page(
                self@[i].messages,
                skip as nat,
                limit as nat,
            ),
            find_peer(self@, id@) is None ==> out@.len() == 0,
    {
        proof {
            use_type_invariant(self);
        }
        match find(&self.peers, id) {
            Some(i) => self.peers[i].get_messages(skip, limit),
            None => Vec::new(),
        }
    }

    /// Registers a peer that identified itself on `connection`, and gives
    /// its id; see `registered`. The public key must be usable.
    pub fn register_connection(&mut self, connection: C, identity: &PeerIdentity) -> (id: String)
        requires
            ed25519_key_decompresses(identity.public_key_bytes@),
        ensures
            id@ == peer_id_text(identity.public_key_bytes@),
            final(self)@ == registered(old(self)@, identity@, connection),
            registry_wf(final(self)@),
    {
        proof {
            use_type_invariant(&*self);
        }
        let mut peers: Vec<Peer<C>> = Vec::new();
        std::mem::swap(&mut peers, &mut self.peers);
        let ghost v = peers_view(peers@);
        let id = crate::crypto::derive_peer_id(&identity.public_key_bytes);
        match find(&peers, &id) {
            Some(i) => {
                let mut p = peers.remove(i);
                let ghost before = p@;
                p.replace_connection(identity.duplicate(), connection);
                peers.insert(i, p);
                proof {
                    assert(v[i as int] == before);
                    assert(peers_view(peers@) =~= v.update(
                        i as int,
                        PeerView {
                            identity: identity@,
                            connection,
                            status: PeerStatus::Connected,
                            ..v[i as int]
                        },
                    ));
                    let w = peers_view(peers@);
                    assert forall|a: int, b: int|
                        0 <= a < w.len() && 0 <= b < w.len() && a != b implies #[trigger] w[a].peer_id
                        != #[trigger] w[b].peer_id by {
                        assert(w[a].peer_id == v[a].peer_id);
                        assert(w[b].peer_id == v[b].peer_id);
                    }
                }
            },
            None => {
                let p = Peer::new(identity.duplicate(), connection, PeerStatus::Connected);
                proof {
                    assert(messages_view(p.messages@) =~= Seq::<MessageView>::empty());
                }
                peers.push(p);
                proof {
                    assert(peers_view(peers@) =~= v.push(p@));
                    let w = peers_view(peers@);
                    assert forall|a: int, b: int|
                        0 <= a < w.len() && 0 <= b < w.len() && a != b implies #[trigger] w[a].peer_id
                        != #[trigger] w[b].peer_id by {
                        if a < v.len() && b < v.len() {
                            assert(w[a].peer_id == v[a].peer_id);
                            assert(w[b].peer_id == v[b].peer_id);
                        } else if a < v.len() {
                            assert(w[a].peer_id == v[a].peer_id);
                        } else {
                            assert(w[b].peer_id == v[b].peer_id);
                        }
                    }
                }
            },
        }
        self.peers = peers;
        id
    }

    /// Sets the status of the peer `id`, if known.
    pub fn set_peer_status(&mut self, id: &String, status: PeerStatus)
        ensures
            find_peer(old(self)@, id@) matches Some(i) ==> final(self)@ == old(self)@.update(
                i,
                PeerView { status, ..old(self)@[i] },
            ),
            find_peer(old(self)@, id@) is None ==> final(self)@ == old(self)@,
            registry_wf(final(self)@),
    {
        proof {
            use_type_invariant(&*self);
        }
        let mut peers: Vec<Peer<C>> = Vec::new();
        std::mem::swap(&mut peers, &mut self.peers);
        let ghost v = peers_view(peers@);
        if let Some(i) = find(&peers, id) {
            let mut p = peers.remove(i);
            let ghost before = p@;
            p.set_status(status);
            peers.insert(i, p);
            proof {
                assert(v[i as int] == before);
                assert(peers_view(peers@) =~= v.update(i as int, PeerView { status, ..v[i as int] }));
                let w = peers_view(peers@);
                assert forall|a: int, b: int|
                    0 <= a < w.len() && 0 <= b < w.len() && a != b implies #[trigger] w[a].peer_id
                    != #[trigger] w[b].peer_id by {
                    assert(w[a].peer_id == v[a].peer_id);
                    assert(w[b].peer_id == v[b].peer_id);
                }
            }
        }
        self.peers = peers;
    }

    /// Acts on an event of the connection that belongs to the peer
    /// `current`; see `event_outcome`. A handshake whose public key is not
    /// usable is refused with `InvalidKey` and changes nothing.
    pub fn handle_event(&mut self, current: String, event: ConnectionEvent, connection: C) -> (res:
        Result<(String, Vec<FrontendEvent>), CryptoError>)
        ensures
            res is Err <==> (event@ matches ConnectionEventView::PeerIdentified { peer }
                && !ed25519_key_decompresses(peer.public_key)),
            res matches Err(e) ==> (e matches CryptoError::InvalidKey(text) && text@
                == point_decompression_error()),
            res is Err ==> final(self)@ == old(self)@,
            registry_wf(final(self)@),
            res matches Ok((key, events)) ==> event_outcome(
                old(self)@,
                current@,
                event@,
                connection,
            ) == (final(self)@, key@, frontend_view(events@)),
    {
        proof {
            use_type_invariant(&*self);
        }
        match event {
            ConnectionEvent::PeerIdentified { peer } => {
                if let Err(e) = peer_id_from_bytes(&peer.public_key_bytes) {
                    return Err(e);
                }
                let id = self.register_connection(connection, &peer);
                let mut peers: Vec<Peer<C>> = Vec::new();
                proof {
                    use_type_invariant(&*self);
                }
                std::mem::swap(&mut peers, &mut self.peers);
                let mut events = record_in(
                    &mut peers,
                    &id,
                    Message::PeerStatusUpdated(PeerStatus::Connected),
                );
                self.peers = peers;
                events.push(FrontendEvent::ConnectionCreated { connection_id: id.clone() });
                proof {
                    assert(frontend_view(events@) =~= frontend_view(events@.drop_last()).push(
                        FrontendEventView::ConnectionCreated { connection_id: id@ },
                    ));
                }
                Ok((id, events))
            },
            ConnectionEvent::MessageReceived(m) => {
                let mut peers: Vec<Peer<C>> = Vec::new();
                std::mem::swap(&mut peers, &mut self.peers);
                let events = record_in(&mut peers, &current, Message::SimpleTextMessage(m));
                self.peers = peers;
                Ok((current, events))
            },
            ConnectionEvent::Disconnected => {
                let found = find(&self.peers, &current);
                match found {
                    Some(i) => {
                        self.set_peer_status(&current, PeerStatus::Disconnected);
                        let mut peers: Vec<Peer<C>> = Vec::new();
                        proof {
                            use_type_invariant(&*self);
                        }
                        std::mem::swap(&mut peers, &mut self.peers);
                        let events = record_in(
                            &mut peers,
                            &current,
                            Message::PeerStatusUpdated(PeerStatus::Disconnected),
                        );
                        self.peers = peers;
                        Ok((current, events))
                    },
                    None => {
                        let events: Vec<FrontendEvent> = Vec::new();
                        assert(frontend_view(events@) =~= Seq::<FrontendEventView>::empty());
                        Ok((current, events))
                    },
                }
            },
            ConnectionEvent::CapabilitiesUpdated { .. } => {
                let events: Vec<FrontendEvent> = Vec::new();
                assert(frontend_view(events@) =~= Seq::<FrontendEventView>::empty());
                Ok((current, events))
            },
        }
    }

    /// The chat message the front end sends to the peer `conn_id`, written
    /// by this instance; `Connection not found` for an unknown peer and
    /// `Peer is disconnected` for a disconnected one.
    pub fn prepare_text(
        &self,
        conn_id: &String,
        uuid: String,
        content: String,
        timestamp: u64,
    ) -> (res: Result<ChatMessage, String>)
        ensures
            find_peer(self@, conn_id@) is None ==> (res matches Err(t) && t@
                == "Connection not found"@),
            find_peer(self@, conn_id@) matches Some(i) ==> if self@[i].status
                == PeerStatus::Disconnected {
                res matches Err(t) && t@ == "Peer is disconnected"@
            } else {
                res matches Ok(m) && m@ == (ChatMessageView {
                    uuid: uuid@,
                    content: content@,
                    timestamp,
                    sender: MessageSender::Me,
                })
            },
    {
        proof {
            use_type_invariant(self);
        }
        match find(&self.peers, conn_id) {
            None => Err("Connection not found".to_owned()),
            Some(i) => {
                if self.peers[i].status() == PeerStatus::Disconnected {
                    Err("Peer is disconnected".to_owned())
                } else {
                    Ok(ChatMessage { uuid, content, timestamp, sender: MessageSender::Me })
                }
            },
        }
    }
}

} // verus!
