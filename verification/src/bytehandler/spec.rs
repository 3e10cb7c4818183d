//! What each read of the byte reader yields on a given input, as spec
//! functions that pass the unread rest of the input along, and the lemmas
//! that a read gives back what the matching write wrote.

use vstd::prelude::*;
use vstd::utf8::{decode_utf8, valid_utf8};

use crate::bytehandler::error::PacketErrorView;
use crate::encoding::{
    be_u32_bytes, be_u32_value, be_u64_bytes, be_u64_value, fits_field, lemma_be_u32_roundtrip,
    lemma_be_u64_roundtrip, lemma_utf8_roundtrip, string_field, utf8,
};

verus! {

/// Why a read failed, with the input it left unread.
pub type ReadFailure = (PacketErrorView, Seq<u8>);

/// A value read from the front of an input, with the input left unread; or
/// the failure, with the input left unread where it was detected.
pub type SpecRead<T> = Result<(T, Seq<u8>), ReadFailure>;

/// Taking `n` bytes: fails with `UnexpectedEof` when fewer are left, and
/// then consumes nothing.
pub open spec fn take_spec(input: Seq<u8>, n: nat, reading: Seq<char>) -> SpecRead<Seq<u8>> {
    if input.len() < n {
        Err((PacketErrorView::UnexpectedEof { reading, needed: n, remaining: input.len() }, input))
    } else {
        Ok((input.take(n as int), input.skip(n as int)))
    }
}

pub open spec fn read_u8_spec(input: Seq<u8>) -> SpecRead<u8> {
    match take_spec(input, 1, "u8"@) {
        Ok((b, rest)) => Ok((b[0], rest)),
        Err(e) => Err(e),
    }
}

pub open spec fn read_u32_spec(input: Seq<u8>) -> SpecRead<u32> {
    match take_spec(input, 4, "u32"@) {
        Ok((b, rest)) => Ok((be_u32_value(b), rest)),
        Err(e) => Err(e),
    }
}

pub open spec fn read_u64_spec(input: Seq<u8>) -> SpecRead<u64> {
    match take_spec(input, 8, "u64"@) {
        Ok((b, rest)) => Ok((be_u64_value(b), rest)),
        Err(e) => Err(e),
    }
}

/// A length-prefixed UTF-8 string. Once the length prefix is read it stays
/// consumed, and bytes that are not UTF-8 stay consumed too.
pub open spec fn read_string_spec(input: Seq<u8>) -> SpecRead<Seq<char>> {
    match read_u32_spec(input) {
        Ok((len, rest)) => match take_spec(rest, len as nat, "string bytes"@) {
            Ok((bytes, rest2)) => if valid_utf8(bytes) {
                Ok((decode_utf8(bytes), rest2))
            } else {
                Err((PacketErrorView::InvalidUtf8 { field: "string"@ }, rest2))
            },
            Err(e) => Err(e),
        },
        Err(e) => Err(e),
    }
}

/// A length-prefixed run of raw bytes; once read, the length prefix stays
/// consumed.
pub open spec fn read_u8_array_spec(input: Seq<u8>) -> SpecRead<Seq<u8>> {
    match read_u32_spec(input) {
        Ok((len, rest)) => take_spec(rest, len as nat, "u8 array"@),
        Err(e) => Err(e),
    }
}

/// A read that stopped because the input ended too soon.
pub open spec fn ran_out<T>(res: SpecRead<T>) -> bool {
    res matches Err((PacketErrorView::UnexpectedEof { .. }, _))
}

/// The first `k` bytes of `a + b`: part of `a`, or all of `a` and part of `b`.
pub proof fn lemma_take_concat(a: Seq<u8>, b: Seq<u8>, k: int)
    requires
        0 <= k <= a.len() + b.len(),
    ensures
        k <= a.len() ==> (a + b).take(k) == a.take(k),
        k >= a.len() ==> (a + b).take(k) == a + b.take(k - a.len()),
{
    if k <= a.len() {
        assert((a + b).take(k) =~= a.take(k));
    } else {
        assert((a + b).take(k) =~= a + b.take(k - a.len()));
    }
}

/// Fixed-width reads run out on an input shorter than their width.
pub proof fn lemma_short_fixed_reads(input: Seq<u8>)
    ensures
        input.len() < 1 ==> ran_out(read_u8_spec(input)),
        input.len() < 4 ==> ran_out(read_u32_spec(input)),
        input.len() < 8 ==> ran_out(read_u64_spec(input)),
{
}

/// A string field cut short runs out.
pub proof fn lemma_string_field_cut(s: Seq<char>, k: int)
    requires
        fits_field(s),
        0 <= k < string_field(s).len(),
    ensures
        ran_out(read_string_spec(string_field(s).take(k))),
{
    let b = utf8(s);
    lemma_take_concat(be_u32_bytes(b.len() as u32), b, k);
    if k >= 4 {
        lemma_read_u32_written(b.len() as u32, b.take(k - 4));
    }
}

/// A length-prefixed byte run cut short runs out.
pub proof fn lemma_bytes_field_cut(b: Seq<u8>, k: int)
    requires
        b.len() <= u32::MAX,
        0 <= k < bytes_field(b).len(),
    ensures
        ran_out(read_u8_array_spec(bytes_field(b).take(k))),
{
    lemma_take_concat(be_u32_bytes(b.len() as u32), b, k);
    if k >= 4 {
        lemma_read_u32_written(b.len() as u32, b.take(k - 4));
    }
}

/// A length-prefixed run of raw bytes, as the writer lays it out.
pub open spec fn bytes_field(b: Seq<u8>) -> Seq<u8> {
    be_u32_bytes(b.len() as u32) + b
}

pub proof fn lemma_read_u8_written(b: u8, rest: Seq<u8>)
    ensures
        read_u8_spec(seq![b] + rest) == Ok::<(u8, Seq<u8>), ReadFailure>((b, rest)),
{
    assert((seq![b] + rest).skip(1) =~= rest);
}

pub proof fn lemma_read_u32_written(v: u32, rest: Seq<u8>)
    ensures
        read_u32_spec(be_u32_bytes(v) + rest) == Ok::<(u32, Seq<u8>), ReadFailure>((v, rest)),
{
    let s = be_u32_bytes(v) + rest;
    assert(s.take(4) =~= be_u32_bytes(v));
    assert(s.skip(4) =~= rest);
    lemma_be_u32_roundtrip(v);
}

pub proof fn lemma_read_u64_written(v: u64, rest: Seq<u8>)
    ensures
        read_u64_spec(be_u64_bytes(v) + rest) == Ok::<(u64, Seq<u8>), ReadFailure>((v, rest)),
{
    let s = be_u64_bytes(v) + rest;
    assert(s.take(8) =~= be_u64_bytes(v));
    assert(s.skip(8) =~= rest);
    lemma_be_u64_roundtrip(v);
}

pub proof fn lemma_read_string_written(s: Seq<char>, rest: Seq<u8>)
    requires
        fits_field(s),
    ensures
        read_string_spec(string_field(s) + rest) == Ok::<(Seq<char>, Seq<u8>), ReadFailure>(
            (s, rest),
        ),
{
    let b = utf8(s);
    let input = string_field(s) + rest;
    assert(input =~= be_u32_bytes(b.len() as u32) + (b + rest));
    lemma_read_u32_written(b.len() as u32, b + rest);
    assert((b + rest).take(b.len() as int) =~= b);
    assert((b + rest).skip(b.len() as int) =~= rest);
    lemma_utf8_roundtrip(s);
}

pub proof fn lemma_read_u8_array_written(b: Seq<u8>, rest: Seq<u8>)
    requires
        b.len() <= u32::MAX,
    ensures
        read_u8_array_spec(bytes_field(b) + rest) == Ok::<(Seq<u8>, Seq<u8>), ReadFailure>(
            (b, rest),
        ),
{
    let input = bytes_field(b) + rest;
    assert(input =~= be_u32_bytes(b.len() as u32) + (b + rest));
    lemma_read_u32_written(b.len() as u32, b + rest);
    assert((b + rest).take(b.len() as int) =~= b);
    assert((b + rest).skip(b.len() as int) =~= rest);
}

} // verus!
