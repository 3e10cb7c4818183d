//! The two ends that open connections: a client that dials a peer and a
//! server that accepts peers, each with the identity it announces.

use vstd::prelude::*;
use vstd::string::StringExecFns;

use crate::packet::handshake::{PeerIdentity, PeerIdentityView};

verus! {

/// Dials `address` and announces `local_peer`.
pub struct Client {
    address: String,
    local_peer: PeerIdentity,
}

impl Client {
    pub closed spec fn address(&self) -> Seq<char> {
        self.address@
    }

    pub closed spec fn announced(&self) -> PeerIdentityView {
        self.local_peer@
    }

    pub fn new(addr: String, local_peer: PeerIdentity) -> (c: Client)
        ensures
            c.address() == addr@,
            c.announced() == local_peer@,
    {
        Client { address: addr, local_peer }
    }

    /// The `host:port` to dial.
    pub fn get_address(&self) -> (a: String)
        ensures
            a@ == self.address(),
    {
        self.address.clone()
    }

    /// The identity to announce.
    pub fn local_peer(&self) -> (p: PeerIdentity)
        ensures
            p@ == self.announced(),
    {
        self.local_peer.duplicate()
    }
}

/// Listens on `address` and announces `local_peer` to every peer that
/// connects.
pub struct Server {
    address: String,
    local_peer: PeerIdentity,
}

impl Server {
    pub closed spec fn address(&self) -> Seq<char> {
        self.address@
    }

    pub closed spec fn announced(&self) -> PeerIdentityView {
        self.local_peer@
    }

    pub fn new(addr: String, local_peer: PeerIdentity) -> (s: Server)
        ensures
            s.address() == addr@,
            s.announced() == local_peer@,
    {
        Server { address: addr, local_peer }
    }

    pub fn get_address(&self) -> (a: String)
        ensures
            a@ == self.address(),
    {
        self.address.clone()
    }

    /// The identity to announce.
    pub fn local_peer(&self) -> (p: PeerIdentity)
        ensures
            p@ == self.announced(),
    {
        self.local_peer.duplicate()
    }
}

/// The address the front end shows: the server's, or `Server not running`.
pub fn server_address_text(server: Option<&Server>) -> (text: String)
    ensures
        server matches Some(s) ==> text@ == s.address(),
        server is None ==> text@ == "Server not running"@,
{
    match server {
        Some(s) => s.get_address(),
        None => "Server not running".to_owned(),
    }
}

/// The greeting the front end's test command shows.
pub fn greet(name: &str) -> (text: String)
    ensures
        text@ == "Hello, "@ + name@ + "! You've been greeted from Rust!"@,
{
    let mut text = "Hello, ".to_owned();
    text.append(name);
    text.append("! You've been greeted from Rust!");
    text
}

} // verus!
