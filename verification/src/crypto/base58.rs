//! Base58 text of byte strings, in the Bitcoin alphabet.

use vstd::prelude::*;

verus! {

/// The Bitcoin Base58 alphabet: digits and letters without `0`, `O`, `I`
/// and `l`.
pub open spec fn base58_alphabet() -> Seq<char> {
    seq![
        '1', '2', '3', '4', '5', '6', '7', '8', '9', 'A', 'B', 'C', 'D', 'E', 'F', 'G', 'H', 'J',
        'K', 'L', 'M', 'N', 'P', 'Q', 'R', 'S', 'T', 'U', 'V', 'W', 'X', 'Y', 'Z', 'a', 'b', 'c',
        'd', 'e', 'f', 'g', 'h', 'i', 'j', 'k', 'm', 'n', 'o', 'p', 'q', 'r', 's', 't', 'u', 'v',
        'w', 'x', 'y', 'z',
    ]
}

/// The number whose big-endian base-256 digits are `b`.
pub open spec fn be_nat(b: Seq<u8>) -> nat
    decreases b.len(),
{
    if b.len() == 0 {
        0
    } else {
        be_nat(b.drop_last()) * 256 + (b.last() as nat)
    }
}

/// The base-58 digits of `n`, most significant first, with no leading
/// zero digit (none at all for 0).
pub open spec fn base58_digits(n: nat) -> Seq<char>
    decreases n,
{
    if n == 0 {
        Seq::empty()
    } else {
        base58_digits(n / 58).push(base58_alphabet()[(n % 58) as int])
    }
}

/// How many zero bytes `b` starts with.
pub open spec fn leading_zero_bytes(b: Seq<u8>) -> nat
    decreases b.len(),
{
    if b.len() > 0 && b[0] == 0 {
        1 + leading_zero_bytes(b.drop_first())
    } else {
        0
    }
}

/// Base58 text: one `1` per leading zero byte, then the base-58 digits of
/// the big-endian value of the bytes.
pub open spec fn base58_text(b: Seq<u8>) -> Seq<char> {
    Seq::new(leading_zero_bytes(b), |i: int| '1') + base58_digits(be_nat(b))
}

/// `bs58::encode(..).into_string()` with the default (Bitcoin) alphabet:
/// its text is `base58_text` of the input.
#[verifier::external_body]
pub(crate) fn base58_encode(bytes: &[u8]) -> (text: String)
    ensures
        text@ == base58_text(bytes@),
{
    bs58::encode(bytes).into_string()
}

proof fn lemma_be_nat_positive(b: Seq<u8>)
    requires
        b.len() > 0,
        b[0] != 0,
    ensures
        be_nat(b) > 0,
    decreases b.len(),
{
    if b.len() > 1 {
        lemma_be_nat_positive(b.drop_last());
        assert(be_nat(b) == be_nat(b.drop_last()) * 256 + b.last());
    }
}

/// The Base58 text of a non-empty byte string is not empty.
pub proof fn lemma_base58_nonempty(b: Seq<u8>)
    requires
        b.len() > 0,
    ensures
        base58_text(b).len() > 0,
{
    if b[0] != 0 {
        lemma_be_nat_positive(b);
        let n = be_nat(b);
        assert(base58_digits(n) == base58_digits(n / 58).push(base58_alphabet()[(n % 58) as int]));
    }
}

} // verus!
