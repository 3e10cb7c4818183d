//! Counted lists of length-prefixed strings, as the capability lists of
//! the response and handshake packets carry them.

use vstd::prelude::*;

use crate::bytehandler::error::{PacketError, PacketErrorView};
use crate::bytehandler::spec::{
    lemma_read_string_written, lemma_string_field_cut, lemma_take_concat, ran_out, read_string_spec,
    ReadFailure, SpecRead,
};
use crate::bytehandler::{ByteReader, ByteWriter};
use crate::encoding::{fits_field, string_field};

verus! {

/// The characters of each string of a list.
pub open spec fn strings_view(v: Seq<String>) -> Seq<Seq<char>> {
    v.map_values(|s: String| s@)
}

/// The string fields of a list, one after the other.
pub open spec fn strings_field(ss: Seq<Seq<char>>) -> Seq<u8>
    decreases ss.len(),
{
    if ss.len() == 0 {
        Seq::empty()
    } else {
        string_field(ss[0]) + strings_field(ss.drop_first())
    }
}

/// Every string of the list fits a length-prefixed field.
pub open spec fn all_fit(ss: Seq<Seq<char>>) -> bool {
    forall|i: int| 0 <= i < ss.len() ==> fits_field(#[trigger] ss[i])
}

/// Reading `n` length-prefixed strings one after the other.
pub open spec fn parse_strings(input: Seq<u8>, n: nat) -> SpecRead<Seq<Seq<char>>>
    decreases n,
{
    if n == 0 {
        Ok((Seq::empty(), input))
    } else {
        match read_string_spec(input) {
            Ok((s, rest)) => match parse_strings(rest, (n - 1) as nat) {
                Ok((ss, rest2)) => Ok((seq![s] + ss, rest2)),
                Err(e) => Err(e),
            },
            Err(e) => Err(e),
        }
    }
}

/// `res` with `done` put in front of the strings it read.
pub open spec fn after_strings(done: Seq<Seq<char>>, res: SpecRead<Seq<Seq<char>>>) -> SpecRead<
    Seq<Seq<char>>,
> {
    match res {
        Ok((ss, rest)) => Ok((done + ss, rest)),
        Err(e) => Err(e),
    }
}

/// Reading back the fields of a list of fitting strings gives the list.
pub proof fn lemma_strings_roundtrip(ss: Seq<Seq<char>>, rest: Seq<u8>)
    requires
        all_fit(ss),
    ensures
        parse_strings(strings_field(ss) + rest, ss.len()) == Ok::<
            (Seq<Seq<char>>, Seq<u8>),
            ReadFailure,
        >((ss, rest)),
    decreases ss.len(),
{
    if ss.len() > 0 {
        let tail = ss.drop_first();
        lemma_tail_fits(ss);
        lemma_strings_roundtrip(tail, rest);
        assert(strings_field(ss) + rest =~= string_field(ss[0]) + (strings_field(tail) + rest));
        lemma_read_string_written(ss[0], strings_field(tail) + rest);
        assert(seq![ss[0]] + tail =~= ss);
        assert(((ss.len() - 1) as nat) == tail.len());
        assert(parse_strings(strings_field(ss) + rest, ss.len()) == Ok::<
            (Seq<Seq<char>>, Seq<u8>),
            ReadFailure,
        >((seq![ss[0]] + tail, rest)));
    } else {
        assert(strings_field(ss) + rest =~= rest);
        assert(ss =~= Seq::<Seq<char>>::empty());
    }
}

/// The tail of a list of fitting strings fits too.
proof fn lemma_tail_fits(ss: Seq<Seq<char>>)
    requires
        all_fit(ss),
        ss.len() > 0,
    ensures
        fits_field(ss[0]),
        all_fit(ss.drop_first()),
{
    let tail = ss.drop_first();
    assert forall|i: int| 0 <= i < tail.len() implies fits_field(#[trigger] tail[i]) by {
        assert(tail[i] == ss[i + 1]);
    }
}

/// The fields of a list of fitting strings, cut short, run out.
pub proof fn lemma_strings_field_cut(ss: Seq<Seq<char>>, k: int)
    requires
        all_fit(ss),
        0 <= k < strings_field(ss).len(),
    ensures
        ran_out(parse_strings(strings_field(ss).take(k), ss.len())),
    decreases ss.len(),
{
    if ss.len() == 0 {
        assert(strings_field(ss).len() == 0);
    } else {
        let tail = ss.drop_first();
        let f = string_field(ss[0]);
        let t = strings_field(tail);
        lemma_tail_fits(ss);
        lemma_take_concat(f, t, k);
        if k < f.len() {
            lemma_string_field_cut(ss[0], k);
        } else {
            let j = k - f.len();
            lemma_read_string_written(ss[0], t.take(j));
            lemma_strings_field_cut(tail, j);
            assert(((ss.len() - 1) as nat) == tail.len());
        }
    }
}

/// Writes each string of `v` as a length-prefixed field.
pub fn write_strings(w: &mut ByteWriter, v: &Vec<String>)
    ensures
        final(w)@ == old(w)@ + strings_field(strings_view(v@)),
{
    let ghost all = strings_view(v@);
    let mut i: usize = 0;
    assert(all.skip(0) =~= all);
    while i < v.len()
        invariant
            i <= v@.len(),
            all == strings_view(v@),
            w@ + strings_field(all.skip(i as int)) == old(w)@ + strings_field(all),
        decreases v@.len() - i,
    {
        proof {
            let s = all.skip(i as int);
            assert(s[0] == v@[i as int]@);
            assert(s.drop_first() =~= all.skip(i + 1));
        }
        w.write_string(v[i].as_str());
        i = i + 1;
        proof {
            let prev = all.skip(i - 1);
            assert(strings_field(prev) == string_field(prev[0]) + strings_field(prev.drop_first()));
            assert(w@ + strings_field(all.skip(i as int)) =~= old(w)@ + strings_field(all));
        }
    }
}

/// Reads `count` length-prefixed strings, stopping at the first error.
pub fn read_strings(r: &mut ByteReader, count: u32) -> (res: Result<Vec<String>, PacketError>)
    ensures
        final(r).source() == old(r).source(),
        final(r).rest().len() <= old(r).rest().len(),
        res matches Ok(v) ==> parse_strings(old(r).rest(), count as nat) == Ok::<
            (Seq<Seq<char>>, Seq<u8>),
            ReadFailure,
        >((strings_view(v@), final(r).rest())),
        res matches Err(e) ==> parse_strings(old(r).rest(), count as nat) == Err::<
            (Seq<Seq<char>>, Seq<u8>),
            ReadFailure,
        >((e@, final(r).rest())),
{
    let mut out: Vec<String> = Vec::new();
    let mut i: u32 = 0;
    assert(strings_view(out@) =~= Seq::<Seq<char>>::empty());
    while i < count
        invariant
            i <= count,
            r.source() == old(r).source(),
            r.rest().len() <= old(r).rest().len(),
            parse_strings(old(r).rest(), count as nat) == after_strings(
                strings_view(out@),
                parse_strings(r.rest(), (count - i) as nat),
            ),
        decreases count - i,
    {
        let ghost done = strings_view(out@);
        let s = r.read_string()?;
        proof {
            let k = (count - i - 1) as nat;
            assert(strings_view(out@.push(s)) =~= done.push(s@));
            match parse_strings(r.rest(), k) {
                Ok((ss, rest2)) => {
                    assert(done + (seq![s@] + ss) =~= done.push(s@) + ss);
                },
                Err(e) => {},
            }
        }
        out.push(s);
        i = i + 1;
    }
    proof {
        assert(strings_view(out@) + Seq::<Seq<char>>::empty() =~= strings_view(out@));
    }
    Ok(out)
}

} // verus!
