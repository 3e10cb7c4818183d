//! Length-prefixed framing of the TCP transport: every packet travels as
//! `[u32 packet_len][packet bytes]`, so a read that holds part of a packet,
//! or several packets, is put back together.

use vstd::prelude::*;
use vstd::slice::{slice_subrange, slice_to_vec};

use crate::bytehandler::spec::bytes_field;
use crate::encoding::{be_u32_bytes, be_u32_value, lemma_be_u32_roundtrip};

verus! {

/// The frame of a packet: its length as a big-endian `u32`, then its bytes.
pub fn frame(packet: &[u8]) -> (out: Vec<u8>)
    ensures
        out@ == bytes_field(packet@),
{
    let len = packet.len() as u32;
    let mut out: Vec<u8> = Vec::new();
    out.push((len >> 24u32) as u8);
    out.push((len >> 16u32) as u8);
    out.push((len >> 8u32) as u8);
    out.push(len as u8);
    let mut i: usize = 0;
    while i < packet.len()
        invariant
            i <= packet@.len(),
            out@ == be_u32_bytes(len) + packet@.take(i as int),
        decreases packet@.len() - i,
    {
        out.push(packet[i]);
        i = i + 1;
        assert(out@ =~= be_u32_bytes(len) + packet@.take(i as int));
    }
    assert(packet@.take(packet@.len() as int) =~= packet@);
    out
}

/// The first complete frame of a stream, as its packet and the bytes after
/// it; `None` while the length or the packet is not complete yet.
pub open spec fn split_frame(stream: Seq<u8>) -> Option<(Seq<u8>, Seq<u8>)> {
    if stream.len() >= 4 && stream.len() - 4 >= be_u32_value(stream) {
        let end = 4 + be_u32_value(stream);
        Some((stream.subrange(4, end as int), stream.skip(end as int)))
    } else {
        None
    }
}

/// Bytes received and not yet split into frames.
pub struct FrameBuffer {
    buf: Vec<u8>,
}

impl View for FrameBuffer {
    type V = Seq<u8>;

    closed spec fn view(&self) -> Seq<u8> {
        self.buf@
    }
}

impl FrameBuffer {
    pub fn new() -> (b: FrameBuffer)
        ensures
            b@ == Seq::<u8>::empty(),
    {
        FrameBuffer { buf: Vec::new() }
    }

    /// Appends bytes read from the transport.
    pub fn push(&mut self, bytes: &[u8])
        ensures
            final(self)@ == old(self)@ + bytes@,
    {
        let mut i: usize = 0;
        while i < bytes.len()
            invariant
                i <= bytes@.len(),
                self.buf@ == old(self).buf@ + bytes@.take(i as int),
            decreases bytes@.len() - i,
        {
            self.buf.push(bytes[i]);
            i = i + 1;
            assert(self.buf@ =~= old(self).buf@ + bytes@.take(i as int));
        }
        assert(bytes@.take(bytes@.len() as int) =~= bytes@);
    }

    /// Takes the first complete frame's packet, if the buffer holds one.
    pub fn next_frame(&mut self) -> (packet: Option<Vec<u8>>)
        ensures
            split_frame(old(self)@) matches Some((p, rest)) ==> (packet matches Some(v) && v@ == p
                && final(self)@ == rest),
            split_frame(old(self)@) is None ==> packet is None && final(self)@ == old(self)@,
    {
        let n = self.buf.len();
        if n < 4 {
            return None;
        }
        let len = ((self.buf[0] as u32) << 24u32) | ((self.buf[1] as u32) << 16u32) | ((
        self.buf[2] as u32) << 8u32) | (self.buf[3] as u32);
        if (len as usize) > n - 4 {
            return None;
        }
        let end = 4 + len as usize;
        let whole = self.buf.as_slice();
        let packet = slice_to_vec(slice_subrange(whole, 4, end));
        let rest = slice_to_vec(slice_subrange(whole, end, n));
        assert(rest@ =~= old(self)@.skip(end as int));
        self.buf = rest;
        Some(packet)
    }
}

/// The frame of a packet that fits a `u32` length splits off as that packet,
/// leaving whatever followed it.
pub proof fn lemma_frame_roundtrip(packet: Seq<u8>, rest: Seq<u8>)
    requires
        packet.len() <= u32::MAX,
    ensures
        split_frame(bytes_field(packet) + rest) == Some((packet, rest)),
{
    let s = bytes_field(packet) + rest;
    lemma_be_u32_roundtrip(packet.len() as u32);
    assert(s.take(4) =~= be_u32_bytes(packet.len() as u32));
    assert(be_u32_value(s) == be_u32_value(s.take(4)));
    assert(s.subrange(4, 4 + packet.len() as int) =~= packet);
    assert(s.skip(4 + packet.len() as int) =~= rest);
}

} // verus!
