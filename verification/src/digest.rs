//! SHA-1 and SHA-256 fingerprints of file contents, in lowercase hex.
use vstd::prelude::*;
use crate::text::push_char;
use sha2::Digest;

verus! {

/// The SHA-256 digest of `data`, as computed by the `sha2` crate.
pub uninterp spec fn sha256_of(data: Seq<u8>) -> Seq<u8>;

/// The SHA-1 digest of `data`, as computed by the `sha1` crate.
pub uninterp spec fn sha1_of(data: Seq<u8>) -> Seq<u8>;

/// Trusted: `sha2::Sha256::digest` returns the 32-byte SHA-256 digest of
/// `data`; the digest depends on `data` alone.
#[verifier::external_body]
fn sha256_bytes(data: &[u8]) -> (r: Vec<u8>)
    ensures
        r@ == sha256_of(data@),
        r@.len() == 32,
{
    sha2::Sha256::digest(data).to_vec()
}

/// Trusted: `sha1::Sha1::digest` returns the 20-byte SHA-1 digest of
/// `data`; the digest depends on `data` alone.
#[verifier::external_body]
fn sha1_bytes(data: &[u8]) -> (r: Vec<u8>)
    ensures
        r@ == sha1_of(data@),
        r@.len() == 20,
{
    sha1::Sha1::digest(data).to_vec()
}

/// Lowercase hex digit of a nibble.
pub open spec fn hex_digit(n: nat) -> char {
    if n < 10 {
        crate::text::digit_char(n)
    } else if n == 10 { 'a' }
    else if n == 11 { 'b' }
    else if n == 12 { 'c' }
    else if n == 13 { 'd' }
    else if n == 14 { 'e' }
    else { 'f' }
}

/// Lowercase hex of bytes, two digits per byte, as `{:x}` prints a digest.
pub open spec fn hex_lower(bs: Seq<u8>) -> Seq<char>
    decreases bs.len(),
{
    if bs.len() == 0 {
        Seq::empty()
    } else {
        let b = bs.last();
        hex_lower(bs.drop_last()) + seq![hex_digit((b / 16) as nat), hex_digit((b % 16) as nat)]
    }
}

fn hex_char(n: u8) -> (c: char)
    requires
        n < 16,
    ensures
        c == hex_digit(n as nat),
{
    if n == 0 { '0' }
    else if n == 1 { '1' }
    else if n == 2 { '2' }
    else if n == 3 { '3' }
    else if n == 4 { '4' }
    else if n == 5 { '5' }
    else if n == 6 { '6' }
    else if n == 7 { '7' }
    else if n == 8 { '8' }
    else if n == 9 { '9' }
    else if n == 10 { 'a' }
    else if n == 11 { 'b' }
    else if n == 12 { 'c' }
    else if n == 13 { 'd' }
    else if n == 14 { 'e' }
    else { 'f' }
}

/// Bytes in lowercase hex.
pub fn to_hex_lower(bs: &[u8]) -> (r: String)
    ensures
        r@ == hex_lower(bs@),
{
    let mut r = String::new();
    let mut i: usize = 0;
    while i < bs.len()
        invariant
            i <= bs@.len(),
            r@ == hex_lower(bs@.subrange(0, i as int)),
        decreases bs@.len() - i,
    {
        let b = bs[i];
        push_char(&mut r, hex_char(b / 16));
        push_char(&mut r, hex_char(b % 16));
        assert(bs@.subrange(0, i + 1).drop_last() =~= bs@.subrange(0, i as int));
        i = i + 1;
    }
    assert(bs@.subrange(0, bs@.len() as int) =~= bs@);
    r
}

/// SHA-256 of a file's contents in lowercase hex, used to tell identical
/// downloads apart.
pub fn sha256_hex(content: &[u8]) -> (r: String)
    ensures
        r@ == hex_lower(sha256_of(content@)),
        r@.len() == 64,
{
    let d = sha256_bytes(content);
    let r = to_hex_lower(d.as_slice());
    proof { lemma_hex_len(d@); }
    r
}

/// SHA-1 of a file's contents in lowercase hex, as anadius.cfg records it.
pub fn sha1_hex(content: &[u8]) -> (r: String)
    ensures
        r@ == hex_lower(sha1_of(content@)),
        r@.len() == 40,
{
    let d = sha1_bytes(content);
    let r = to_hex_lower(d.as_slice());
    proof { lemma_hex_len(d@); }
    r
}

/// Hex text is twice as long as the bytes it shows.
pub proof fn lemma_hex_len(bs: Seq<u8>)
    ensures
        hex_lower(bs).len() == 2 * bs.len(),
    decreases bs.len(),
{
    if bs.len() > 0 {
        lemma_hex_len(bs.drop_last());
    }
}

} // verus!
