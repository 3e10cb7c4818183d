//! A growable big-endian byte writer, a bounds-checked byte reader, and the
//! `Encode` / `Decode` traits that the packet types implement with them.

pub mod error;
pub mod spec;

use vstd::prelude::*;
use vstd::slice::{slice_subrange, slice_to_vec};

use crate::bytehandler::error::{PacketError, PacketErrorView};
use crate::bytehandler::spec::{
    bytes_field, read_string_spec, read_u32_spec, read_u64_spec, read_u8_array_spec,
    read_u8_spec, take_spec, ReadFailure, SpecRead,
};
use crate::encoding::{be_u32_bytes, be_u64_bytes, string_field, string_from_utf8};

verus! {

/// An append-only byte buffer.
pub struct ByteWriter {
    buf: Vec<u8>,
}

impl View for ByteWriter {
    type V = Seq<u8>;

    closed spec fn view(&self) -> Seq<u8> {
        self.buf@
    }
}

/// A value that writes itself onto a `ByteWriter`.
pub trait Encode {
    /// The bytes this value writes.
    spec fn encoding(&self) -> Seq<u8>;

    fn encode(&self, w: &mut ByteWriter)
        ensures
            final(w)@ == old(w)@ + self.encoding(),
    ;
}

/// A value that reads itself from a `ByteReader`.
pub trait Decode: Sized + View {
    /// What decoding yields on an input, and the input it leaves unread,
    /// whether it succeeds or fails.
    spec fn parse(input: Seq<u8>) -> SpecRead<Self::V>;

    fn decode(r: &mut ByteReader) -> (res: Result<Self, PacketError>)
        ensures
            final(r).source() == old(r).source(),
            final(r).rest().len() <= old(r).rest().len(),
            res matches Ok(v) ==> Self::parse(old(r).rest()) == Ok::<
                (Self::V, Seq<u8>),
                ReadFailure,
            >((v@, final(r).rest())),
            res matches Err(e) ==> Self::parse(old(r).rest()) == Err::<
                (Self::V, Seq<u8>),
                ReadFailure,
            >((e@, final(r).rest())),
    ;
}

impl ByteWriter {
    pub fn new() -> (w: Self)
        ensures
            w@ == Seq::<u8>::empty(),
    {
        ByteWriter { buf: Vec::new() }
    }

    pub fn write_u8(&mut self, v: u8)
        ensures
            final(self)@ == old(self)@.push(v),
    {
        self.buf.push(v);
    }

    pub fn write_u32(&mut self, v: u32)
        ensures
            final(self)@ == old(self)@ + be_u32_bytes(v),
    {
        self.buf.push((v >> 24u32) as u8);
        self.buf.push((v >> 16u32) as u8);
        self.buf.push((v >> 8u32) as u8);
        self.buf.push(v as u8);
        assert(self.buf@ =~= old(self).buf@ + be_u32_bytes(v));
    }

    pub fn write_u64(&mut self, v: u64)
        ensures
            final(self)@ == old(self)@ + be_u64_bytes(v),
    {
        self.buf.push((v >> 56u64) as u8);
        self.buf.push((v >> 48u64) as u8);
        self.buf.push((v >> 40u64) as u8);
        self.buf.push((v >> 32u64) as u8);
        self.buf.push((v >> 24u64) as u8);
        self.buf.push((v >> 16u64) as u8);
        self.buf.push((v >> 8u64) as u8);
        self.buf.push(v as u8);
        assert(self.buf@ =~= old(self).buf@ + be_u64_bytes(v));
    }

    pub fn write_bytes(&mut self, v: &[u8])
        ensures
            final(self)@ == old(self)@ + v@,
    {
        let mut i: usize = 0;
        while i < v.len()
            invariant
                i <= v@.len(),
                self.buf@ == old(self).buf@ + v@.take(i as int),
            decreases v@.len() - i,
        {
            self.buf.push(v[i]);
            i = i + 1;
            assert(self.buf@ =~= old(self).buf@ + v@.take(i as int));
        }
        assert(v@.take(v@.len() as int) =~= v@);
    }

    /// A length-prefixed UTF-8 string; the length is cast to `u32`.
    pub fn write_string(&mut self, s: &str)
        ensures
            final(self)@ == old(self)@ + string_field(s@),
    {
        let bytes = s.as_bytes();
        self.write_u32(bytes.len() as u32);
        self.write_bytes(bytes);
        assert(final(self)@ =~= old(self)@ + string_field(s@));
    }

    /// A length-prefixed run of raw bytes; the length is cast to `u32`.
    pub fn write_u8_array(&mut self, v: &[u8])
        ensures
            final(self)@ == old(self)@ + bytes_field(v@),
    {
        self.write_u32(v.len() as u32);
        self.write_bytes(v);
        assert(final(self)@ =~= old(self)@ + bytes_field(v@));
    }

    pub fn finish(self) -> (bytes: Vec<u8>)
        ensures
            bytes@ == self@,
    {
        self.buf
    }
}

/// One call on a `ByteWriter`, with its argument.
pub enum WriteCall {
    U8(u8),
    U32(u32),
    U64(u64),
    Bytes(Seq<u8>),
    Str(Seq<char>),
    U8Array(Seq<u8>),
}

/// The bytes a call appends, as its contract states them.
pub open spec fn call_bytes(c: WriteCall) -> Seq<u8> {
    match c {
        WriteCall::U8(v) => seq![v],
        WriteCall::U32(v) => be_u32_bytes(v),
        WriteCall::U64(v) => be_u64_bytes(v),
        WriteCall::Bytes(b) => b,
        WriteCall::Str(s) => string_field(s),
        WriteCall::U8Array(b) => bytes_field(b),
    }
}

/// The writer's bytes once `calls` are made one after the other on a
/// writer that held `start`, each appending what its contract states.
pub open spec fn after_calls(start: Seq<u8>, calls: Seq<WriteCall>) -> Seq<u8>
    decreases calls.len(),
{
    if calls.len() == 0 {
        start
    } else {
        after_calls(start, calls.drop_last()) + call_bytes(calls.last())
    }
}

/// Two runs of writes, one after the other, are one run: the calls of the
/// first followed by those of the second.
pub proof fn lemma_after_calls_append(
    start: Seq<u8>,
    first: Seq<WriteCall>,
    second: Seq<WriteCall>,
)
    ensures
        after_calls(after_calls(start, first), second) == after_calls(start, first + second),
    decreases second.len(),
{
    if second.len() == 0 {
        assert(first + second =~= first);
    } else {
        lemma_after_calls_append(start, first, second.drop_last());
        assert((first + second).drop_last() =~= first + second.drop_last());
        assert((first + second).last() == second.last());
    }
}

/// A run of writes leaves what the writer held followed by the bytes of
/// each call, in the order of the calls: nothing is added, dropped or
/// reordered. A writer fresh from `new` thus finishes with the
/// concatenation of the calls' bytes.
pub proof fn lemma_writes_concatenate(start: Seq<u8>, calls: Seq<WriteCall>)
    ensures
        after_calls(start, calls) == start + calls.map_values(|c: WriteCall| call_bytes(c))
            .flatten(),
    decreases calls.len(),
{
    let parts = calls.map_values(|c: WriteCall| call_bytes(c));
    if calls.len() == 0 {
        assert(parts.flatten() =~= Seq::<u8>::empty());
        assert(start + parts.flatten() =~= start);
    } else {
        let init = calls.drop_last();
        let init_parts = init.map_values(|c: WriteCall| call_bytes(c));
        lemma_writes_concatenate(start, init);
        assert(parts =~= init_parts.push(call_bytes(calls.last())));
        init_parts.lemma_flatten_push(call_bytes(calls.last()));
        assert(after_calls(start, calls) =~= start + parts.flatten());
    }
}

/// A cursor over a byte slice that never reads past its end.
pub struct ByteReader<'a> {
    buf: &'a [u8],
    pos: usize,
}

impl<'a> ByteReader<'a> {
    #[verifier::type_invariant]
    spec fn inv(self) -> bool {
        self.pos <= self.buf@.len()
    }

    /// The bytes not yet read.
    pub closed spec fn rest(&self) -> Seq<u8> {
        if self.pos <= self.buf@.len() {
            self.buf@.skip(self.pos as int)
        } else {
            Seq::empty()
        }
    }

    /// The whole buffer the reader was made over.
    pub closed spec fn source(&self) -> Seq<u8> {
        self.buf@
    }

    /// What is left to read is always the tail of the buffer.
    pub proof fn lemma_rest_is_suffix(&self)
        ensures
            self.rest().len() <= self.source().len(),
            self.rest() == self.source().skip(self.source().len() - self.rest().len()),
    {
        if self.pos > self.buf@.len() {
            assert(self.buf@.skip(self.buf@.len() as int) =~= Seq::<u8>::empty());
        }
    }

    pub fn new(buf: &'a [u8]) -> (r: Self)
        ensures
            r.source() == buf@,
            r.rest() == buf@,
    {
        let r = ByteReader { buf, pos: 0 };
        assert(buf@.skip(0) =~= buf@);
        r
    }

    pub(crate) fn take(&mut self, len: usize, reading: &'static str) -> (res: Result<&'a [u8], PacketError>)
        ensures
            final(self).source() == old(self).source(),
            final(self).rest().len() <= old(self).rest().len(),
            res matches Ok(b) ==> take_spec(old(self).rest(), len as nat, reading@) == Ok::<
                (Seq<u8>, Seq<u8>),
                ReadFailure,
            >((b@, final(self).rest())),
            res matches Err(e) ==> take_spec(old(self).rest(), len as nat, reading@) == Err::<
                (Seq<u8>, Seq<u8>),
                ReadFailure,
            >((e@, final(self).rest())),
    {
        proof {
            use_type_invariant(&*self);
        }
        let remaining = self.buf.len().saturating_sub(self.pos);
        if remaining < len {
            return Err(PacketError::UnexpectedEof { reading, needed: len, remaining });
        }
        let start = self.pos;
        let end = start + len;
        self.pos = end;
        let out = slice_subrange(self.buf, start, end);
        proof {
            let r = old(self).rest();
            assert(out@ =~= r.take(len as int));
            assert(self.buf@.skip(end as int) =~= r.skip(len as int));
        }
        Ok(out)
    }

    pub fn read_u8(&mut self) -> (res: Result<u8, PacketError>)
        ensures
            final(self).source() == old(self).source(),
            final(self).rest().len() <= old(self).rest().len(),
            res matches Ok(v) ==> read_u8_spec(old(self).rest()) == Ok::<
                (u8, Seq<u8>),
                ReadFailure,
            >((v, final(self).rest())),
            res matches Err(e) ==> read_u8_spec(old(self).rest()) == Err::<
                (u8, Seq<u8>),
                ReadFailure,
            >((e@, final(self).rest())),
    {
        let bytes = self.take(1, "u8")?;
        Ok(bytes[0])
    }

    pub fn read_u32(&mut self) -> (res: Result<u32, PacketError>)
        ensures
            final(self).source() == old(self).source(),
            final(self).rest().len() <= old(self).rest().len(),
            res matches Ok(v) ==> read_u32_spec(old(self).rest()) == Ok::<
                (u32, Seq<u8>),
                ReadFailure,
            >((v, final(self).rest())),
            res matches Err(e) ==> read_u32_spec(old(self).rest()) == Err::<
                (u32, Seq<u8>),
                ReadFailure,
            >((e@, final(self).rest())),
    {
        let bytes = self.take(4, "u32")?;
        Ok(((bytes[0] as u32) << 24u32) | ((bytes[1] as u32) << 16u32) | ((bytes[2] as u32)
            << 8u32) | (bytes[3] as u32))
    }

    pub fn read_u64(&mut self) -> (res: Result<u64, PacketError>)
        ensures
            final(self).source() == old(self).source(),
            final(self).rest().len() <= old(self).rest().len(),
            res matches Ok(v) ==> read_u64_spec(old(self).rest()) == Ok::<
                (u64, Seq<u8>),
                ReadFailure,
            >((v, final(self).rest())),
            res matches Err(e) ==> read_u64_spec(old(self).rest()) == Err::<
                (u64, Seq<u8>),
                ReadFailure,
            >((e@, final(self).rest())),
    {
        let bytes = self.take(8, "u64")?;
        Ok(((bytes[0] as u64) << 56u64) | ((bytes[1] as u64) << 48u64) | ((bytes[2] as u64)
            << 40u64) | ((bytes[3] as u64) << 32u64) | ((bytes[4] as u64) << 24u64) | ((
        bytes[5] as u64) << 16u64) | ((bytes[6] as u64) << 8u64) | (bytes[7] as u64))
    }

    /// A length-prefixed UTF-8 string.
    pub fn read_string(&mut self) -> (res: Result<String, PacketError>)
        ensures
            final(self).source() == old(self).source(),
            final(self).rest().len() <= old(self).rest().len(),
            res matches Ok(s) ==> read_string_spec(old(self).rest()) == Ok::<
                (Seq<char>, Seq<u8>),
                ReadFailure,
            >((s@, final(self).rest())),
            res matches Err(e) ==> read_string_spec(old(self).rest()) == Err::<
                (Seq<char>, Seq<u8>),
                ReadFailure,
            >((e@, final(self).rest())),
    {
        let len = self.read_u32()? as usize;
        let bytes = self.take(len, "string bytes")?;
        match string_from_utf8(slice_to_vec(bytes)) {
            Ok(s) => Ok(s),
            Err(source) => Err(PacketError::InvalidUtf8 { field: "string", source }),
        }
    }

    /// A length-prefixed run of raw bytes.
    pub fn read_u8_array(&mut self) -> (res: Result<Vec<u8>, PacketError>)
        ensures
            final(self).source() == old(self).source(),
            final(self).rest().len() <= old(self).rest().len(),
            res matches Ok(b) ==> read_u8_array_spec(old(self).rest()) == Ok::<
                (Seq<u8>, Seq<u8>),
                ReadFailure,
            >((b@, final(self).rest())),
            res matches Err(e) ==> read_u8_array_spec(old(self).rest()) == Err::<
                (Seq<u8>, Seq<u8>),
                ReadFailure,
            >((e@, final(self).rest())),
    {
        let len = self.read_u32()? as usize;
        let bytes = self.take(len, "u8 array")?;
        Ok(slice_to_vec(bytes))
    }

    /// The bytes not yet read.
    pub fn remaining(&self) -> (r: &[u8])
        ensures
            r@ == self.rest(),
    {
        proof {
            use_type_invariant(self);
        }
        slice_subrange(self.buf, self.pos, self.buf.len())
    }
}

} // verus!
