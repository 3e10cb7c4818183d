# Ghostline core

The verified core of Ghostline, a peer-to-peer desktop chat. `src/` is a
Verus library; `app/` is the ordinary Rust around it (files, sockets, tokio
tasks, clocks, randomness and the front-end commands).

## Layout of `src/`

- `encoding`: big-endian integer layouts and length-prefixed UTF-8 string
  fields, with their read-back lemmas.
- `bytehandler`: `ByteWriter`, `ByteReader`, the `Encode` / `Decode` traits,
  `PacketError`, and (in `bytehandler::spec`) what every read yields.
- `packet`: the packet types (event, request, response, handshake, chat
  message) with their codecs; `lemma_packet_roundtrip` states that decoding
  an encoded packet gives it back, and `lemma_truncated_packet_refused`
  that every strict prefix of an encoding is refused as cut short.
- `wire`: the same layout without the handshake packet, written straight
  into a vector and decoded with `Option` results.
- `framing`: the `[u32 length][packet]` frames of the TCP transport.
- `crypto`: Ed25519 identity (through `ed25519-dalek`), Base58 peer ids
  (through `bs58`) and signature checks.
- `connection`: what a connection announces, which request ids it waits
  on, and what it does with each received packet (a request is answered
  with a plain success carrying its id).
- `peer`, `registry`, `models`: peers, their timelines and status, and the
  handling of connection events.
- `endpoint`, `text`: client and server ends, and the texts shown to users.

Every packet is `version (1) | type | body`; integers are big-endian and
strings are `u32`-length-prefixed UTF-8. See `packet::encode_packet`.
