//! The binary scene container: a 12-byte header (magic, version, total
//! length), a JSON chunk and a binary chunk, each length-prefixed, tagged
//! and padded to four bytes.  The byte layout is pinned down exactly, so a
//! consumer can check the magic and version of any produced document.

use vstd::prelude::*;

use crate::canon::{lit, push_lit};
use crate::errors::ShapeError;

verus! {

use vstd::string::StrSliceExecFns;
use vstd::string::StringExecFns;
use vstd::utf8::is_ascii_chars;
use vstd::utf8::is_ascii_chars_encode_utf8;

/// The four little-endian bytes of a 32-bit value.
pub open spec fn le32(n: u32) -> Seq<u8> {
    seq![
        (n % 256) as u8,
        ((n / 256) % 256) as u8,
        ((n / 65536) % 256) as u8,
        ((n / 16777216) % 256) as u8,
    ]
}

/// The two little-endian bytes of a 16-bit value.
pub open spec fn le16(n: u16) -> Seq<u8> {
    seq![(n % 256) as u8, ((n / 256) % 256) as u8]
}

/// Appends the four little-endian bytes of `n`.
fn push_le32(out: &mut Vec<u8>, n: u32)
    ensures
        final(out)@ == old(out)@ + le32(n),
{
    out.push((n % 256) as u8);
    out.push(((n / 256) % 256) as u8);
    out.push(((n / 65536) % 256) as u8);
    out.push(((n / 16777216) % 256) as u8);
    proof {
        assert(final(out)@ =~= old(out)@ + le32(n));
    }
}

/// Appends the two little-endian bytes of `n`.
fn push_le16(out: &mut Vec<u8>, n: u16)
    ensures
        final(out)@ == old(out)@ + le16(n),
{
    out.push((n % 256) as u8);
    out.push(((n / 256) % 256) as u8);
    proof {
        assert(final(out)@ =~= old(out)@ + le16(n));
    }
}

/// How many fill bytes bring a length to the next multiple of four.
pub open spec fn pad4_count(n: int) -> int {
    (4 - n % 4) % 4
}

/// A byte sequence padded with `fill` to a multiple of four.
pub open spec fn padded4(s: Seq<u8>, fill: u8) -> Seq<u8> {
    s + Seq::new(pad4_count(s.len() as int) as nat, |i: int| fill)
}

/// Pads `out` with `fill` bytes to a multiple of four; the JSON chunk is
/// padded with spaces, the binary chunk with zeros.
pub fn pad4(out: &mut Vec<u8>, fill: u8)
    ensures
        final(out)@ == padded4(old(out)@, fill),
        final(out)@.len() % 4 == 0,
        final(out)@.len() == old(out)@.len() + pad4_count(old(out)@.len() as int),
{
    while out.len() % 4 != 0
        invariant
            old(out)@.len() <= out@.len() <= old(out)@.len() + pad4_count(
                old(out)@.len() as int,
            ),
            out@.subrange(0, old(out)@.len() as int) == old(out)@,
            forall|i: int| old(out)@.len() <= i < out@.len() ==> out@[i] == fill,
        decreases (4 - out@.len() % 4) % 4,
    {
        out.push(fill);
    }
    proof {
        assert(out@ =~= padded4(old(out)@, fill));
    }
}

/// The full byte layout of a scene container holding the given padded JSON
/// and binary chunks.
pub open spec fn glb_bytes(json: Seq<u8>, bin: Seq<u8>) -> Seq<u8>
    recommends
        28 + json.len() + bin.len() <= u32::MAX,
{
    lit("glTF") + le32(2) + le32((28 + json.len() + bin.len()) as u32) + le32(json.len() as u32)
        + lit("JSON") + json + le32(bin.len() as u32) + lit("BIN\u{0}") + bin
}

/// Frames a padded JSON chunk and a padded binary chunk into one scene
/// document: the 4-byte magic, version 2, the total length, then the two
/// tagged chunks.  Fails only when the document would overflow the 32-bit
/// length field.
#[verifier::rlimit(80)]
pub fn glb_container(json: &Vec<u8>, bin: &Vec<u8>) -> (r: Result<Vec<u8>, ShapeError>)
    requires
        json@.len() % 4 == 0,
        bin@.len() % 4 == 0,
    ensures
        match r {
            Ok(v) => {
                &&& 28 + json@.len() + bin@.len() <= u32::MAX
                &&& v@ == glb_bytes(json@, bin@)
                &&& v@.len() == 28 + json@.len() + bin@.len()
                &&& v@.subrange(0, 4) == lit("glTF")
                &&& v@.subrange(4, 8) == le32(2)
            },
            Err(e) => {
                &&& 28 + json@.len() + bin@.len() > u32::MAX
                &&& e matches ShapeError::SerializationFailure(_)
            },
        },
{
    let jl = json.len() as u64;
    let bl = bin.len() as u64;
    let limit: u64 = (u32::MAX as u64) - 28;
    if jl > limit || bl > limit - jl {
        let mut d = String::new();
        d.append("scene document exceeds the 32-bit length field");
        return Err(ShapeError::SerializationFailure(d));
    }
    let total: u32 = 28 + (jl as u32) + (bl as u32);
    let mut out: Vec<u8> = Vec::new();
    push_lit(&mut out, "glTF");
    push_le32(&mut out, 2);
    push_le32(&mut out, total);
    push_le32(&mut out, jl as u32);
    push_lit(&mut out, "JSON");
    proof {
        assert(out@ =~= lit("glTF") + le32(2) + le32(total) + le32(jl as u32) + lit("JSON"));
    }
    out.extend_from_slice(json.as_slice());
    push_le32(&mut out, bl as u32);
    push_lit(&mut out, "BIN\u{0}");
    out.extend_from_slice(bin.as_slice());
    proof {
        assert(out@ =~= glb_bytes(json@, bin@));
        lemma_glb_bytes_shape(json@, bin@);
    }
    Ok(out)
}

/// Every framed scene document begins with the four magic bytes and
/// declares version two, and its length is the header plus both tagged
/// chunks — the observables a consumer checks on any produced document.
pub proof fn lemma_glb_bytes_shape(json: Seq<u8>, bin: Seq<u8>)
    requires
        28 + json.len() + bin.len() <= u32::MAX,
    ensures
        glb_bytes(json, bin).len() == 28 + json.len() + bin.len(),
        glb_bytes(json, bin).subrange(0, 4) == lit("glTF"),
        glb_bytes(json, bin).subrange(4, 8) == le32(2),
{
    reveal_strlit("glTF");
    reveal_strlit("JSON");
    reveal_strlit("BIN\u{0}");
    assert(is_ascii_chars("glTF"@));
    assert(is_ascii_chars("JSON"@));
    assert(is_ascii_chars("BIN\u{0}"@));
    is_ascii_chars_encode_utf8("glTF"@);
    is_ascii_chars_encode_utf8("JSON"@);
    is_ascii_chars_encode_utf8("BIN\u{0}"@);
    assert(lit("glTF").len() == 4);
    assert(lit("JSON").len() == 4);
    assert(lit("BIN\u{0}").len() == 4);
    assert(glb_bytes(json, bin).subrange(0, 4) =~= lit("glTF"));
    assert(glb_bytes(json, bin).subrange(4, 8) =~= le32(2));
}

/// Little-endian encoding, two bytes per index.
pub open spec fn le16_all(s: Seq<u32>) -> Seq<u8>
    decreases s.len(),
{
    if s.len() == 0 {
        Seq::empty()
    } else {
        le16_all(s.drop_last()) + le16(s.last() as u16)
    }
}

/// Little-endian encoding, four bytes per index.
pub open spec fn le32_all(s: Seq<u32>) -> Seq<u8>
    decreases s.len(),
{
    if s.len() == 0 {
        Seq::empty()
    } else {
        le32_all(s.drop_last()) + le32(s.last())
    }
}

/// Encodes triangle indices for the scene buffer: two bytes per index while
/// every vertex index fits sixteen bits, four bytes per index beyond that.
/// The second result says which width was chosen (true for the wide form).
pub fn encode_indices(indices: &Vec<u32>, vertex_count: usize) -> (r: (Vec<u8>, bool))
    requires
        forall|i: int| 0 <= i < indices@.len() ==> indices@[i] < vertex_count,
    ensures
        r.1 == (vertex_count > 65535),
        r.1 ==> r.0@ == le32_all(indices@),
        !r.1 ==> r.0@ == le16_all(indices@),
{
    let mut out: Vec<u8> = Vec::new();
    if vertex_count > 65535 {
        let mut i: usize = 0;
        while i < indices.len()
            invariant
                i <= indices@.len(),
                out@ == le32_all(indices@.take(i as int)),
            decreases indices@.len() - i,
        {
            push_le32(&mut out, indices[i]);
            proof {
                let pre = indices@.take(i as int + 1);
                assert(pre.drop_last() =~= indices@.take(i as int));
                assert(pre.last() == indices@[i as int]);
            }
            i += 1;
        }
        proof {
            assert(indices@.take(indices@.len() as int) =~= indices@);
        }
        (out, true)
    } else {
        let mut i: usize = 0;
        while i < indices.len()
            invariant
                vertex_count <= 65535,
                forall|j: int| 0 <= j < indices@.len() ==> indices@[j] < vertex_count,
                i <= indices@.len(),
                out@ == le16_all(indices@.take(i as int)),
            decreases indices@.len() - i,
        {
            push_le16(&mut out, indices[i] as u16);
            proof {
                let pre = indices@.take(i as int + 1);
                assert(pre.drop_last() =~= indices@.take(i as int));
                assert(pre.last() == indices@[i as int]);
            }
            i += 1;
        }
        proof {
            assert(indices@.take(indices@.len() as int) =~= indices@);
        }
        (out, false)
    }
}

/// The offsets at which the scene buffer holds its three sections.
pub struct BufferLayout {
    pub data: Vec<u8>,
    pub idx_len: usize,
    pub pos_offset: usize,
    pub pos_len: usize,
    pub edge_offset: usize,
    pub edge_len: usize,
}

/// Lays the index bytes, the position bytes and the edge polyline bytes out
/// in one binary buffer: indices first, zero-padded to a four-byte boundary,
/// then positions, then edges, each section recoverable at its offset.
pub fn mesh_buffer(idx: &Vec<u8>, pos: &Vec<u8>, edge: &Vec<u8>) -> (r: BufferLayout)
    requires
        pos@.len() % 4 == 0,
        idx@.len() + 3 + pos@.len() + edge@.len() <= usize::MAX,
    ensures
        r.data@ == padded4(idx@, 0) + pos@ + edge@,
        r.idx_len == idx@.len(),
        r.pos_offset == idx@.len() + pad4_count(idx@.len() as int),
        r.pos_offset % 4 == 0,
        r.pos_len == pos@.len(),
        r.edge_offset == r.pos_offset + pos@.len(),
        r.edge_offset % 4 == 0,
        r.edge_len == edge@.len(),
        r.data@.subrange(0, idx@.len() as int) == idx@,
        r.data@.subrange(r.pos_offset as int, r.pos_offset + pos@.len()) == pos@,
        r.data@.subrange(r.edge_offset as int, r.edge_offset + edge@.len()) == edge@,
{
    let mut data: Vec<u8> = Vec::new();
    data.extend_from_slice(idx.as_slice());
    let idx_len = data.len();
    pad4(&mut data, 0);
    let pos_offset = data.len();
    data.extend_from_slice(pos.as_slice());
    let edge_offset = data.len();
    data.extend_from_slice(edge.as_slice());
    proof {
        assert(data@ =~= padded4(idx@, 0) + pos@ + edge@);
        assert(data@.subrange(0, idx@.len() as int) =~= idx@);
        assert(data@.subrange(pos_offset as int, pos_offset + pos@.len() as int) =~= pos@);
        assert(data@.subrange(edge_offset as int, edge_offset + edge@.len() as int) =~= edge@);
    }
    BufferLayout {
        data,
        idx_len,
        pos_offset,
        pos_len: pos.len(),
        edge_offset,
        edge_len: edge.len(),
    }
}

} // verus!
