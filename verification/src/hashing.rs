//! Content hashing: lowercase hex SHA-256 of a byte payload, the key under
//! which artifacts are cached and stored.

use vstd::prelude::*;

verus! {

/// Lowercase hex digit, as an ASCII byte, of a value below sixteen.
pub open spec fn hex_digit(v: u8) -> u8
    recommends
        v < 16,
{
    if v < 10 {
        (48 + v) as u8
    } else {
        (87 + v) as u8
    }
}

/// Lowercase hex encoding of a byte sequence, two digits per byte.
pub open spec fn hex_bytes(s: Seq<u8>) -> Seq<u8>
    decreases s.len(),
{
    if s.len() == 0 {
        Seq::empty()
    } else {
        hex_bytes(s.drop_last()) + seq![
            hex_digit((s.last() / 16) as u8),
            hex_digit((s.last() % 16) as u8),
        ]
    }
}

/// The hex encoding has two digits per input byte.
pub proof fn lemma_hex_bytes_len(s: Seq<u8>)
    ensures
        hex_bytes(s).len() == 2 * s.len(),
    decreases s.len(),
{
    if s.len() > 0 {
        lemma_hex_bytes_len(s.drop_last());
    }
}

/// Every byte of the hex encoding is printable ASCII.
pub proof fn lemma_hex_bytes_ascii(s: Seq<u8>)
    ensures
        forall|i: int| 0 <= i < hex_bytes(s).len() ==> hex_bytes(s)[i] < 128,
    decreases s.len(),
{
    if s.len() > 0 {
        lemma_hex_bytes_ascii(s.drop_last());
        let tail = seq![
            hex_digit((s.last() / 16) as u8),
            hex_digit((s.last() % 16) as u8),
        ];
        assert(hex_bytes(s) == hex_bytes(s.drop_last()) + tail);
        assert(tail[0] < 128 && tail[1] < 128);
        assert(forall|i: int| 0 <= i < hex_bytes(s).len() ==> hex_bytes(s)[i] < 128) by {
            lemma_hex_bytes_len(s);
            lemma_hex_bytes_len(s.drop_last());
        }
    }
}

/// The characters of the lowercase hex encoding.
pub open spec fn hex_chars(s: Seq<u8>) -> Seq<char> {
    hex_bytes(s).map_values(|b: u8| b as char)
}

/// SHA-256 digest of a byte sequence: a fixed function of the input alone,
/// the same in every process and on every machine.
pub uninterp spec fn sha256_of(data: Seq<u8>) -> Seq<u8>;

/// Relies on sha2::Sha256 (through digest::Digest::digest): the 32-byte
/// SHA-256 digest of the input, depending on the input bytes alone.
#[verifier::external_body]
fn sha256_digest(data: &[u8]) -> (r: Vec<u8>)
    ensures
        r@ == sha256_of(data@),
        r@.len() == 32,
{
    let d = <sha2::Sha256 as sha2::Digest>::digest(data);
    d.to_vec()
}

/// Relies on String::from_utf8: bytes that are valid UTF-8 (here: ASCII)
/// become a string of exactly those characters.
#[verifier::external_body]
fn ascii_bytes_to_string(bytes: Vec<u8>) -> (r: String)
    requires
        forall|i: int| 0 <= i < bytes@.len() ==> bytes@[i] < 128,
    ensures
        r@ == bytes@.map_values(|b: u8| b as char),
{
    String::from_utf8(bytes).unwrap_or_default()
}

/// Lowercase hex digits of one byte sequence.
fn to_hex(bytes: &[u8]) -> (r: Vec<u8>)
    ensures
        r@ == hex_bytes(bytes@),
{
    let mut out: Vec<u8> = Vec::new();
    let mut i: usize = 0;
    while i < bytes.len()
        invariant
            i <= bytes@.len(),
            out@ == hex_bytes(bytes@.take(i as int)),
        decreases bytes@.len() - i,
    {
        let b = bytes[i];
        let hi = b / 16;
        let lo = b % 16;
        out.push(if hi < 10 { 48 + hi } else { 87 + hi });
        out.push(if lo < 10 { 48 + lo } else { 87 + lo });
        proof {
            let pre = bytes@.take(i as int + 1);
            assert(pre.drop_last() =~= bytes@.take(i as int));
            assert(pre.last() == b);
            assert(out@ =~= hex_bytes(bytes@.take(i as int + 1)));
        }
        i += 1;
    }
    proof {
        assert(bytes@.take(bytes@.len() as int) =~= bytes@);
    }
    out
}

/// Lowercase hex SHA-256 digest of the given bytes: the service's content
/// key, 64 hex characters.
pub fn content_hash(data: &[u8]) -> (r: String)
    ensures
        r@ == hex_chars(sha256_of(data@)),
        r@.len() == 64,
{
    let digest = sha256_digest(data);
    let hex = to_hex(digest.as_slice());
    proof {
        lemma_hex_bytes_len(sha256_of(data@));
        lemma_hex_bytes_ascii(sha256_of(data@));
    }
    ascii_bytes_to_string(hex)
}

} // verus!
