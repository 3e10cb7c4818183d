//! The handshake packet: the identity a peer announces when it connects.

use vstd::prelude::*;

use crate::bytehandler::error::{PacketError, PacketErrorView};
use crate::bytehandler::spec::{
    bytes_field, lemma_bytes_field_cut, lemma_read_string_written, lemma_read_u32_written,
    lemma_read_u64_written, lemma_read_u8_array_written, lemma_read_u8_written,
    lemma_short_fixed_reads, lemma_string_field_cut, lemma_take_concat, ran_out,
    read_string_spec, read_u32_spec, read_u64_spec, read_u8_array_spec, read_u8_spec,
    ReadFailure, SpecRead,
};
use crate::bytehandler::{ByteReader, ByteWriter, Decode, Encode};
use crate::encoding::{be_u32_bytes, be_u64_bytes, fits_field, string_field};
use crate::packet::strings::{
    all_fit, lemma_strings_field_cut, lemma_strings_roundtrip, parse_strings, read_strings, strings_field, strings_view,
    write_strings,
};

verus! {

/// Handshake subtype of an identity announcement.
pub const HANDSHAKE_IDENTITY: u8 = 1;

/// Who a peer says it is.
#[derive(Debug, PartialEq, Eq, Clone)]
pub struct PeerIdentity {
    /// The peer's Ed25519 public key.
    pub public_key_bytes: [u8; 32],
    pub display_name: String,
    pub client_version: String,
    pub capabilities: Vec<String>,
    pub timestamp: u64,
}

pub struct PeerIdentityView {
    pub public_key: Seq<u8>,
    pub display_name: Seq<char>,
    pub client_version: Seq<char>,
    pub capabilities: Seq<Seq<char>>,
    pub timestamp: u64,
}

impl View for PeerIdentity {
    type V = PeerIdentityView;

    open spec fn view(&self) -> PeerIdentityView {
        PeerIdentityView {
            public_key: self.public_key_bytes@,
            display_name: self.display_name@,
            client_version: self.client_version@,
            capabilities: strings_view(self.capabilities@),
            timestamp: self.timestamp,
        }
    }
}

/// The subtype byte, the public key as a length-prefixed byte run, the two
/// names, the counted capability list and the timestamp.
pub open spec fn encode_identity(p: PeerIdentityView) -> Seq<u8> {
    seq![HANDSHAKE_IDENTITY] + bytes_field(p.public_key) + string_field(p.display_name)
        + string_field(p.client_version) + be_u32_bytes(p.capabilities.len() as u32)
        + strings_field(p.capabilities) + be_u64_bytes(p.timestamp)
}

/// An identity can be written so that it reads back.
pub open spec fn identity_fits(p: PeerIdentityView) -> bool {
    &&& p.public_key.len() == 32
    &&& fits_field(p.display_name)
    &&& fits_field(p.client_version)
    &&& p.capabilities.len() <= u32::MAX
    &&& all_fit(p.capabilities)
}

/// The capability count, the capability list and the time stamp, after
/// the two names.
pub open spec fn parse_identity_caps(
    public_key: Seq<u8>,
    display_name: Seq<char>,
    client_version: Seq<char>,
    input: Seq<u8>,
) -> SpecRead<PeerIdentityView> {
    match read_u32_spec(input) {
        Ok((count, r3)) => match parse_strings(r3, count as nat) {
            Ok((capabilities, r4)) => match read_u64_spec(r4) {
                Ok((timestamp, r5)) => Ok(
                    (
                        PeerIdentityView {
                            public_key,
                            display_name,
                            client_version,
                            capabilities,
                            timestamp,
                        },
                        r5,
                    ),
                ),
                Err(e) => Err(e),
            },
            Err(e) => Err(e),
        },
        Err(e) => Err(e),
    }
}

/// The fields after the public key.
pub open spec fn parse_identity_tail(public_key: Seq<u8>, input: Seq<u8>) -> SpecRead<
    PeerIdentityView,
> {
    match read_string_spec(input) {
        Ok((display_name, r1)) => match read_string_spec(r1) {
            Ok((client_version, r2)) => parse_identity_caps(
                public_key,
                display_name,
                client_version,
                r2,
            ),
            Err(e) => Err(e),
        },
        Err(e) => Err(e),
    }
}

/// A subtype other than the identity one is reported as an unknown event
/// type; a public key that is not 32 bytes long as an end of input while
/// reading it.
pub open spec fn parse_identity(input: Seq<u8>) -> SpecRead<PeerIdentityView> {
    match read_u8_spec(input) {
        Ok((t, rest)) => if t != HANDSHAKE_IDENTITY {
            Err((PacketErrorView::UnknownEventType(t), rest))
        } else {
            match read_u8_array_spec(rest) {
                Ok((key, rest2)) => if key.len() != 32 {
                    Err(
                        (
                            PacketErrorView::UnexpectedEof {
                                reading: "public_key_bytes"@,
                                needed: 32,
                                remaining: key.len(),
                            },
                            rest2,
                        ),
                    )
                } else {
                    parse_identity_tail(key, rest2)
                },
                Err(e) => Err(e),
            }
        },
        Err(e) => Err(e),
    }
}

/// Decoding the encoding of a fitting identity gives the identity back.
pub proof fn lemma_identity_roundtrip(p: PeerIdentityView, rest: Seq<u8>)
    requires
        identity_fits(p),
    ensures
        parse_identity(encode_identity(p) + rest) == Ok::<
            (PeerIdentityView, Seq<u8>),
            ReadFailure,
        >((p, rest)),
{
    let r5 = rest;
    let r4 = be_u64_bytes(p.timestamp) + r5;
    let r3 = strings_field(p.capabilities) + r4;
    let r2 = be_u32_bytes(p.capabilities.len() as u32) + r3;
    let r1 = string_field(p.client_version) + r2;
    let r0 = string_field(p.display_name) + r1;
    let rk = bytes_field(p.public_key) + r0;
    assert(encode_identity(p) + rest =~= seq![HANDSHAKE_IDENTITY] + rk);
    lemma_read_u8_written(HANDSHAKE_IDENTITY, rk);
    lemma_read_u8_array_written(p.public_key, r0);
    lemma_read_string_written(p.display_name, r1);
    lemma_read_string_written(p.client_version, r2);
    lemma_read_u32_written(p.capabilities.len() as u32, r3);
    lemma_strings_roundtrip(p.capabilities, r4);
    lemma_read_u64_written(p.timestamp, r5);
}

/// The capability count, list and time stamp, as the writer lays them out.
pub open spec fn encode_identity_caps(p: PeerIdentityView) -> Seq<u8> {
    be_u32_bytes(p.capabilities.len() as u32) + (strings_field(p.capabilities) + be_u64_bytes(
        p.timestamp,
    ))
}

/// The fields after the public key, as the writer lays them out.
pub open spec fn encode_identity_tail(p: PeerIdentityView) -> Seq<u8> {
    string_field(p.display_name) + (string_field(p.client_version) + encode_identity_caps(p))
}

/// The capability count, list and time stamp of a fitting identity, cut
/// short, run out.
proof fn lemma_identity_caps_cut(p: PeerIdentityView, k: int)
    requires
        identity_fits(p),
        0 <= k < encode_identity_caps(p).len(),
    ensures
        ran_out(
            parse_identity_caps(
                p.public_key,
                p.display_name,
                p.client_version,
                encode_identity_caps(p).take(k),
            ),
        ),
{
    let f3 = be_u32_bytes(p.capabilities.len() as u32);
    let f4 = strings_field(p.capabilities);
    let f5 = be_u64_bytes(p.timestamp);
    let t4 = f4 + f5;
    lemma_take_concat(f3, t4, k);
    if k < 4 {
        lemma_short_fixed_reads(encode_identity_caps(p).take(k));
    } else {
        let k4 = k - 4;
        lemma_read_u32_written(p.capabilities.len() as u32, t4.take(k4));
        lemma_take_concat(f4, f5, k4);
        if k4 < f4.len() {
            lemma_strings_field_cut(p.capabilities, k4);
        } else {
            let k5 = k4 - f4.len();
            lemma_strings_roundtrip(p.capabilities, f5.take(k5));
            lemma_short_fixed_reads(f5.take(k5));
        }
    }
}

/// The fields after the public key of a fitting identity, cut short, run out.
proof fn lemma_identity_tail_cut(p: PeerIdentityView, k: int)
    requires
        identity_fits(p),
        0 <= k < encode_identity_tail(p).len(),
    ensures
        ran_out(parse_identity_tail(p.public_key, encode_identity_tail(p).take(k))),
{
    let f1 = string_field(p.display_name);
    let f2 = string_field(p.client_version);
    let t3 = encode_identity_caps(p);
    let t2 = f2 + t3;
    lemma_take_concat(f1, t2, k);
    if k < f1.len() {
        lemma_string_field_cut(p.display_name, k);
    } else {
        let k2 = k - f1.len();
        lemma_read_string_written(p.display_name, t2.take(k2));
        lemma_take_concat(f2, t3, k2);
        if k2 < f2.len() {
            lemma_string_field_cut(p.client_version, k2);
        } else {
            let k3 = k2 - f2.len();
            lemma_read_string_written(p.client_version, t3.take(k3));
            lemma_identity_caps_cut(p, k3);
        }
    }
}

/// A fitting identity cut short runs out.
pub proof fn lemma_identity_cut(p: PeerIdentityView, k: int)
    requires
        identity_fits(p),
        0 <= k < encode_identity(p).len(),
    ensures
        ran_out(parse_identity(encode_identity(p).take(k))),
{
    let kf = bytes_field(p.public_key);
    let tail = encode_identity_tail(p);
    let body = kf + tail;
    assert(encode_identity(p) =~= seq![HANDSHAKE_IDENTITY] + body);
    lemma_take_concat(seq![HANDSHAKE_IDENTITY], body, k);
    if k == 0 {
        lemma_short_fixed_reads(encode_identity(p).take(k));
        return;
    }
    let k1 = k - 1;
    lemma_read_u8_written(HANDSHAKE_IDENTITY, body.take(k1));
    lemma_take_concat(kf, tail, k1);
    if k1 < kf.len() {
        lemma_bytes_field_cut(p.public_key, k1);
        return;
    }
    lemma_read_u8_array_written(p.public_key, tail.take(k1 - kf.len()));
    lemma_identity_tail_cut(p, k1 - kf.len());
}

impl Encode for PeerIdentity {
    open spec fn encoding(&self) -> Seq<u8> {
        encode_identity(self@)
    }

    fn encode(&self, w: &mut ByteWriter) {
        w.write_u8(HANDSHAKE_IDENTITY);
        w.write_u8_array(self.public_key_bytes.as_slice());
        w.write_string(self.display_name.as_str());
        w.write_string(self.client_version.as_str());
        w.write_u32(self.capabilities.len() as u32);
        write_strings(w, &self.capabilities);
        w.write_u64(self.timestamp);
        assert(final(w)@ =~= old(w)@ + encode_identity(self@));
    }
}

/// A copy of a list of strings.
pub fn copy_strings(v: &Vec<String>) -> (out: Vec<String>)
    ensures
        strings_view(out@) == strings_view(v@),
{
    let mut out: Vec<String> = Vec::new();
    let mut i: usize = 0;
    while i < v.len()
        invariant
            i <= v@.len(),
            strings_view(out@) == strings_view(v@).take(i as int),
        decreases v@.len() - i,
    {
        let s = v[i].clone();
        proof {
            assert(s@ == v@[i as int]@);
            assert(strings_view(v@)[i as int] == v@[i as int]@);
            assert(strings_view(out@.push(s)) =~= strings_view(out@).push(s@));
            assert(strings_view(out@).push(s@) =~= strings_view(v@).take(i + 1));
        }
        out.push(s);
        i = i + 1;
    }
    assert(strings_view(v@).take(v@.len() as int) =~= strings_view(v@));
    out
}

impl PeerIdentity {
    /// A copy of this identity.
    pub fn duplicate(&self) -> (copy: PeerIdentity)
        ensures
            copy@ == self@,
    {
        PeerIdentity {
            public_key_bytes: self.public_key_bytes,
            display_name: self.display_name.clone(),
            client_version: self.client_version.clone(),
            capabilities: copy_strings(&self.capabilities),
            timestamp: self.timestamp,
        }
    }
}

/// The 32 bytes of a run known to be 32 bytes long.
fn key_array(v: &Vec<u8>) -> (a: [u8; 32])
    requires
        v@.len() == 32,
    ensures
        a@ == v@,
{
    let mut a = [0u8; 32];
    let mut i: usize = 0;
    while i < 32
        invariant
            i <= 32,
            v@.len() == 32,
            forall|j: int| 0 <= j < i ==> a@[j] == v@[j],
        decreases 32 - i,
    {
        a[i] = v[i];
        i = i + 1;
    }
    assert(a@ =~= v@);
    a
}

impl Decode for PeerIdentity {
    open spec fn parse(input: Seq<u8>) -> SpecRead<PeerIdentityView> {
        parse_identity(input)
    }

    fn decode(r: &mut ByteReader) -> (res: Result<Self, PacketError>) {
        let subtype = r.read_u8()?;
        if subtype != HANDSHAKE_IDENTITY {
            return Err(PacketError::UnknownEventType(subtype));
        }
        let key = r.read_u8_array()?;
        if key.len() != 32 {
            return Err(
                PacketError::UnexpectedEof {
                    reading: "public_key_bytes",
                    needed: 32,
                    remaining: key.len(),
                },
            );
        }
        let public_key_bytes = key_array(&key);
        let display_name = r.read_string()?;
        let client_version = r.read_string()?;
        let cap_count = r.read_u32()?;
        let capabilities = read_strings(r, cap_count)?;
        let timestamp = r.read_u64()?;
        Ok(PeerIdentity { public_key_bytes, display_name, client_version, capabilities, timestamp })
    }
}

} // verus!
