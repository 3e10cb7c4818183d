//! Ghostline: the verified core of a peer-to-peer chat client.
//!
//! The crate holds the binary packet formats and their codecs, the
//! length-prefixed framing of the TCP transport, the peer identity
//! derivation, and the bookkeeping of peers, connections and messages.

pub mod bytehandler;
pub mod encoding;
pub mod packet;
pub mod wire;
pub mod crypto;
pub mod text;
pub mod models;
pub mod peer;
pub mod connection;
pub mod registry;
pub mod framing;
pub mod endpoint;
