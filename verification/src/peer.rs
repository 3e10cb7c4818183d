//! Peers: what this instance knows of each remote peer, and the identity
//! it announces itself.

use vstd::prelude::*;
use vstd::string::{StrSliceExecFns, StringExecFns};

use crate::crypto::ed25519::{ed25519_key_decompresses, ed25519_public_key};
use crate::crypto::local_identity::LocalIdentity;
use crate::crypto::{derive_peer_id, peer_id_text};
use crate::models::{messages_view, Message, MessageView};
use crate::packet::handshake::{PeerIdentity, PeerIdentityView};
use crate::packet::strings::strings_view;
use crate::text::{decimal_string, decimal_text};

verus! {

/// Whether a peer's connection is up.
#[derive(Debug, Clone, Copy, PartialEq, Eq, Structural)]
pub enum PeerStatus {
    Connected,
    Disconnected,
}

/// The entries `skip..skip + limit` of a sequence, cut at its end (what
/// `iter().skip(skip).take(limit)` yields).
pub open spec fn page<A>(s: Seq<A>, skip: nat, limit: nat) -> Seq<A> {
    let start = if skip <= s.len() { skip } else { s.len() };
    let end = if start + limit <= s.len() { start + limit } else { s.len() };
    s.subrange(start as int, end as int)
}

/// A page skips the first `skip` entries and holds the next ones, in
/// order, up to `limit` of them: none when `skip` is past the end, `limit`
/// when that many follow, else all that follow; entry `i` of the page is
/// entry `skip + i` of the whole.
pub proof fn lemma_page_entries<A>(s: Seq<A>, skip: nat, limit: nat)
    ensures
        page(s, skip, limit).len() == if skip >= s.len() {
            0
        } else if skip + limit <= s.len() {
            limit as int
        } else {
            s.len() - skip
        },
        forall|i: int|
            0 <= i < page(s, skip, limit).len() ==> #[trigger] page(s, skip, limit)[i] == s[skip
                + i],
{
}

/// The entries `skip..skip + limit` of a timeline, copied.
pub fn page_of_messages(messages: &Vec<Message>, skip: u32, limit: u32) -> (out: Vec<Message>)
    ensures
        messages_view(out@) == page(messages_view(messages@), skip as nat, limit as nat),
{
    let len = messages.len();
    let start: usize = if (skip as usize) <= len {
        skip as usize
    } else {
        len
    };
    let end: usize = if (limit as usize) <= len - start {
        start + limit as usize
    } else {
        len
    };
    let mut out: Vec<Message> = Vec::new();
    let mut i = start;
    while i < end
        invariant
            start <= i <= end <= messages@.len(),
            messages_view(out@) == messages_view(messages@).subrange(start as int, i as int),
        decreases end - i,
    {
        let m = messages[i].duplicate();
        proof {
            assert(messages_view(messages@)[i as int] == messages@[i as int]@);
            assert(messages_view(out@.push(m)) =~= messages_view(out@).push(m@));
        }
        out.push(m);
        i = i + 1;
        assert(messages_view(out@) =~= messages_view(messages@).subrange(start as int, i as int));
    }
    out
}

/// A remote peer: its id (derived from its public key), the identity it
/// announced, the connection to it, its timeline and its status.
pub struct Peer<C> {
    pub peer_id: String,
    pub identity: PeerIdentity,
    pub connection: C,
    pub messages: Vec<Message>,
    pub status: PeerStatus,
}

/// A peer as a mathematical value.
pub struct PeerView<C> {
    pub peer_id: Seq<char>,
    pub identity: PeerIdentityView,
    pub connection: C,
    pub messages: Seq<MessageView>,
    pub status: PeerStatus,
}

impl<C> View for Peer<C> {
    type V = PeerView<C>;

    open spec fn view(&self) -> PeerView<C> {
        PeerView {
            peer_id: self.peer_id@,
            identity: self.identity@,
            connection: self.connection,
            messages: messages_view(self.messages@),
            status: self.status,
        }
    }
}

impl<C> Peer<C> {
    /// A peer with an empty timeline; its id is derived from the announced
    /// public key, which must be a usable Ed25519 key.
    pub fn new(identity: PeerIdentity, connection: C, status: PeerStatus) -> (peer: Self)
        requires
            ed25519_key_decompresses(identity.public_key_bytes@),
        ensures
            peer.peer_id@ == peer_id_text(identity.public_key_bytes@),
            peer.identity == identity,
            peer.connection == connection,
            peer.messages@.len() == 0,
            peer.status == status,
    {
        let peer_id = derive_peer_id(&identity.public_key_bytes);
        Peer { peer_id, identity, connection, messages: Vec::new(), status }
    }

    pub fn connection(&self) -> (c: &C)
        ensures
            *c == self.connection,
    {
        &self.connection
    }

    /// Takes a new identity and connection of the same peer; the peer is
    /// connected again.
    pub fn replace_connection(&mut self, identity: PeerIdentity, connection: C)
        ensures
            final(self).identity == identity,
            final(self).connection == connection,
            final(self).status == PeerStatus::Connected,
            final(self).peer_id == old(self).peer_id,
            final(self).messages == old(self).messages,
    {
        self.identity = identity;
        self.connection = connection;
        self.status = PeerStatus::Connected;
    }

    pub fn set_status(&mut self, status: PeerStatus)
        ensures
            final(self).status == status,
            final(self).peer_id == old(self).peer_id,
            final(self).identity == old(self).identity,
            final(self).connection == old(self).connection,
            final(self).messages == old(self).messages,
    {
        self.status = status;
    }

    pub fn status(&self) -> (s: PeerStatus)
        ensures
            s == self.status,
    {
        self.status
    }

    /// The entries `skip..skip + limit` of the timeline.
    pub fn get_messages(&self, skip: u32, limit: u32) -> (out: Vec<Message>)
        ensures
            messages_view(out@) == page(messages_view(self.messages@), skip as nat, limit as nat),
    {
        page_of_messages(&self.messages, skip, limit)
    }
}

/// Whether a character has the Unicode `White_Space` property.
pub open spec fn unicode_white_space(c: char) -> bool {
    let u = c as u32;
    ||| 0x9 <= u <= 0xD
    ||| u == 0x20
    ||| u == 0x85
    ||| u == 0xA0
    ||| u == 0x1680
    ||| 0x2000 <= u <= 0x200A
    ||| u == 0x2028
    ||| u == 0x2029
    ||| u == 0x202F
    ||| u == 0x205F
    ||| u == 0x3000
}

/// Whether `c` has the `White_Space` property, as `char::is_whitespace`
/// decides it.
pub(crate) fn char_is_whitespace(c: char) -> (b: bool)
    ensures
        b == unicode_white_space(c),
{
    let u = c as u32;
    (0x9 <= u && u <= 0xD) || u == 0x20 || u == 0x85 || u == 0xA0 || u == 0x1680 || (0x2000 <= u
        && u <= 0x200A) || u == 0x2028 || u == 0x2029 || u == 0x202F || u == 0x205F || u == 0x3000
}

/// A string with nothing but white space in it: what trims to the empty
/// string.
pub open spec fn is_blank(s: Seq<char>) -> bool {
    forall|i: int| 0 <= i < s.len() ==> unicode_white_space(#[trigger] s[i])
}

pub fn blank(s: &str) -> (b: bool)
    ensures
        b == is_blank(s@),
{
    let n = s.unicode_len();
    let mut i: usize = 0;
    while i < n
        invariant
            i <= n,
            n == s@.len(),
            forall|j: int| 0 <= j < i ==> unicode_white_space(#[trigger] s@[j]),
        decreases n - i,
    {
        if !char_is_whitespace(s.get_char(i)) {
            return false;
        }
        i = i + 1;
    }
    true
}

/// The name shown for this instance: the user name, or `ghost_user_`
/// followed by the random suffix modulo one million when the user name is
/// blank.
pub open spec fn display_name_for(username: Seq<char>, random_suffix: u128) -> Seq<char> {
    if is_blank(username) {
        "ghost_user_"@ + decimal_text((random_suffix % 1_000_000) as nat)
    } else {
        username
    }
}

/// A user name that holds any character other than white space is
/// announced as it is; only an empty or all-white-space user name is
/// replaced, by `ghost_user_` and the random suffix modulo one million in
/// decimal.
pub proof fn lemma_display_name(username: Seq<char>, random_suffix: u128)
    ensures
        (exists|i: int| 0 <= i < username.len() && !unicode_white_space(#[trigger] username[i]))
            ==> display_name_for(username, random_suffix) == username,
        (forall|i: int| 0 <= i < username.len() ==> unicode_white_space(#[trigger] username[i]))
            ==> display_name_for(username, random_suffix) == "ghost_user_"@ + decimal_text(
            (random_suffix % 1_000_000) as nat,
        ),
{
}

/// The capabilities this instance announces.
pub open spec fn local_capabilities() -> Seq<Seq<char>> {
    seq!["CLEAR_TEXT"@, "SIMPLE_TEXT_CHAT"@]
}

/// The identity this instance announces in its handshake, from the user
/// name, a random number, the time in seconds and the client version.
pub fn local_peer_identity(
    l_id: &LocalIdentity,
    username: String,
    random_suffix: u128,
    timestamp: u64,
    client_version: String,
) -> (id: PeerIdentity)
    ensures
        id.public_key_bytes@ == ed25519_public_key(l_id.secret()),
        id.display_name@ == display_name_for(username@, random_suffix),
        id.client_version@ == client_version@,
        strings_view(id.capabilities@) == local_capabilities(),
        id.timestamp == timestamp,
{
    let display_name = if blank(username.as_str()) {
        let mut name = "ghost_user_".to_owned();
        let suffix = (random_suffix % 1_000_000) as usize;
        name.append(decimal_string(suffix).as_str());
        name
    } else {
        username
    };
    let mut capabilities: Vec<String> = Vec::new();
    capabilities.push("CLEAR_TEXT".to_owned());
    capabilities.push("SIMPLE_TEXT_CHAT".to_owned());
    assert(strings_view(capabilities@) =~= local_capabilities());
    PeerIdentity {
        public_key_bytes: l_id.public_key_bytes(),
        display_name,
        client_version,
        capabilities,
        timestamp,
    }
}

} // verus!
