//! SHA-256 fingerprints (sha2 crate) of texts, written in lowercase hex.

use sha2::Digest;
use vstd::prelude::*;

verus! {

/// The SHA-256 digest of `bytes`, as `sha2::Sha256::digest` computes it.
pub uninterp spec fn sha256_digest(bytes: Seq<u8>) -> Seq<u8>;

/// `sha2::Sha256::digest`: the 32 bytes of the SHA-256 digest of `bytes`.
#[verifier::external_body]
pub(crate) fn sha256(bytes: &[u8]) -> (d: Vec<u8>)
    ensures
        d@ == sha256_digest(bytes@),
        d@.len() == 32,
{
    sha2::Sha256::digest(bytes).to_vec()
}

/// The lowercase hex digit for `d` (0..=15).
pub open spec fn hex_digit(d: nat) -> char {
    if d < 10 {
        crate::text::digit_char(d)
    } else if d == 10 {
        'a'
    } else if d == 11 {
        'b'
    } else if d == 12 {
        'c'
    } else if d == 13 {
        'd'
    } else if d == 14 {
        'e'
    } else {
        'f'
    }
}

/// Bytes in lowercase hex, two digits each, high digit first.
pub open spec fn hex_spec(bytes: Seq<u8>) -> Seq<char>
    decreases bytes.len(),
{
    if bytes.len() == 0 {
        Seq::empty()
    } else {
        hex_spec(bytes.drop_last()) + seq![hex_digit(bytes.last() as nat / 16), hex_digit(bytes.last() as nat % 16)]
    }
}

fn hex_digit_exec(d: u8) -> (c: char)
    requires
        d < 16,
    ensures
        c == hex_digit(d as nat),
{
    if d == 0 { '0' } else if d == 1 { '1' } else if d == 2 { '2' } else if d == 3 { '3' }
    else if d == 4 { '4' } else if d == 5 { '5' } else if d == 6 { '6' } else if d == 7 { '7' }
    else if d == 8 { '8' } else if d == 9 { '9' } else if d == 10 { 'a' } else if d == 11 { 'b' }
    else if d == 12 { 'c' } else if d == 13 { 'd' } else if d == 14 { 'e' } else { 'f' }
}

/// `bytes` in lowercase hex (see `hex_spec`).
pub fn hex_of(bytes: &[u8]) -> (s: String)
    ensures
        s@ == hex_spec(bytes@),
{
    let mut out: Vec<char> = Vec::new();
    let mut i: usize = 0;
    proof {
        assert(bytes@.take(0) =~= Seq::<u8>::empty());
    }
    while i < bytes.len()
        invariant
            i <= bytes@.len(),
            out@ == hex_spec(bytes@.take(i as int)),
        decreases bytes@.len() - i,
    {
        proof {
            assert(bytes@.take(i + 1).drop_last() =~= bytes@.take(i as int));
        }
        let b = bytes[i];
        out.push(hex_digit_exec(b / 16));
        out.push(hex_digit_exec(b % 16));
        i = i + 1;
        assert(out@ =~= hex_spec(bytes@.take(i as int)));
    }
    proof {
        assert(bytes@.take(bytes@.len() as int) =~= bytes@);
    }
    crate::text::string_of(out.as_slice())
}

/// The fingerprint of a text: the lowercase hex of the SHA-256 digest of its
/// UTF-8 bytes.
pub open spec fn fingerprint_spec(text: Seq<char>) -> Seq<char> {
    hex_spec(sha256_digest(vstd::utf8::encode_utf8(text)))
}

/// The fingerprint of `text` (see `fingerprint_spec`).
pub fn sha256_hex(text: &str) -> (s: String)
    ensures
        s@ == fingerprint_spec(text@),
{
    let d = sha256(text.as_bytes());
    hex_of(d.as_slice())
}

/// The lowercase hex of the SHA-256 digest of `bytes`.
pub fn sha256_hex_bytes(bytes: &[u8]) -> (s: String)
    ensures
        s@ == hex_spec(sha256_digest(bytes@)),
{
    let d = sha256(bytes);
    hex_of(d.as_slice())
}

} // verus!
