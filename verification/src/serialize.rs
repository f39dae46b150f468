//! Checked serialization of the records this crate uploads to GPU buffers:
//! 32-bit words become little-endian bytes, vertex and instance records
//! become their fixed 32- and 64-byte layouts, matrices their 64 bytes.

use vstd::prelude::*;

use crate::definitions::{InstanceData, VertexData};

verus! {

/// The four little-endian bytes of a 32-bit word.
pub open spec fn u32_le(x: u32) -> Seq<u8> {
    seq![
        (x & 0xff) as u8,
        ((x >> 8) & 0xff) as u8,
        ((x >> 16) & 0xff) as u8,
        ((x >> 24) & 0xff) as u8,
    ]
}

/// A word sequence serialized word by word, little-endian.
pub open spec fn words_le(ws: Seq<u32>) -> Seq<u8>
    decreases ws.len(),
{
    if ws.len() == 0 {
        Seq::empty()
    } else {
        words_le(ws.drop_last()) + u32_le(ws.last())
    }
}

/// Serialization turns each word into exactly four bytes.
pub proof fn lemma_words_le_len(ws: Seq<u32>)
    ensures
        words_le(ws).len() == 4 * ws.len(),
    decreases ws.len(),
{
    if ws.len() > 0 {
        lemma_words_le_len(ws.drop_last());
    }
}

/// The eight words of one vertex record, in upload order.
pub open spec fn vertex_words(v: VertexData) -> Seq<u32> {
    v.position@ + v.tex_coord@ + v.normal@
}

/// The words of a whole vertex list, record after record.
pub open spec fn vertices_words(vs: Seq<VertexData>) -> Seq<u32>
    decreases vs.len(),
{
    if vs.len() == 0 {
        Seq::empty()
    } else {
        vertices_words(vs.drop_last()) + vertex_words(vs.last())
    }
}

/// The words of a whole instance list, one 16-word matrix per instance.
pub open spec fn instances_words(s: Seq<InstanceData>) -> Seq<u32>
    decreases s.len(),
{
    if s.len() == 0 {
        Seq::empty()
    } else {
        instances_words(s.drop_last()) + s.last().model@
    }
}

/// Each instance record contributes exactly sixteen words.
pub proof fn lemma_instances_words_len(s: Seq<InstanceData>)
    ensures
        instances_words(s).len() == 16 * s.len(),
    decreases s.len(),
{
    if s.len() > 0 {
        lemma_instances_words_len(s.drop_last());
    }
}

/// Appends the four little-endian bytes of `x`.
pub fn push_u32_le(out: &mut Vec<u8>, x: u32)
    requires
        old(out)@.len() + 4 <= usize::MAX,
    ensures
        final(out)@ == old(out)@ + u32_le(x),
{
    proof {
        assert((x & 0xff) < 256 && ((x >> 8) & 0xff) < 256 && ((x >> 16) & 0xff) < 256 && ((x
            >> 24) & 0xff) < 256) by (bit_vector);
    }
    out.push((x & 0xff) as u8);
    out.push(((x >> 8) & 0xff) as u8);
    out.push(((x >> 16) & 0xff) as u8);
    out.push(((x >> 24) & 0xff) as u8);
    proof {
        assert(out@ =~= old(out)@ + u32_le(x));
    }
}

/// Serializes a word list to little-endian bytes.
pub fn words_as_bytes(ws: &Vec<u32>) -> (r: Vec<u8>)
    requires
        4 * ws@.len() <= usize::MAX,
    ensures
        r@ == words_le(ws@),
        r@.len() == 4 * ws@.len(),
{
    proof {
        lemma_words_le_len(ws@);
    }
    let mut r: Vec<u8> = Vec::new();
    let mut i: usize = 0;
    while i < ws.len()
        invariant
            i <= ws@.len(),
            4 * ws@.len() <= usize::MAX,
            r@ == words_le(ws@.take(i as int)),
            r@.len() == 4 * i,
        decreases ws@.len() - i,
    {
        proof {
            lemma_words_le_len(ws@.take(i as int));
        }
        push_u32_le(&mut r, ws[i]);
        proof {
            assert(ws@.take(i + 1).drop_last() =~= ws@.take(i as int));
            assert(ws@.take(i + 1).last() == ws@[i as int]);
        }
        i = i + 1;
    }
    proof {
        assert(ws@.take(ws@.len() as int) =~= ws@);
    }
    r
}

/// The words of a matrix held as 16 single-precision bit patterns, as the
/// 64 bytes a shader's push constant expects.
pub fn mat4_as_bytes(m: &[u32; 16]) -> (r: Vec<u8>)
    ensures
        r@ == words_le(m@),
        r@.len() == 64,
{
    let mut ws: Vec<u32> = Vec::new();
    let mut i: usize = 0;
    while i < 16
        invariant
            i <= 16,
            ws@ =~= m@.take(i as int),
        decreases 16 - i,
    {
        ws.push(m[i]);
        i = i + 1;
    }
    proof {
        assert(ws@ =~= m@);
        lemma_words_le_len(m@);
    }
    words_as_bytes(&ws)
}

/// Flattens a vertex list into its upload words.
fn gather_vertex_words(vs: &Vec<VertexData>) -> (ws: Vec<u32>)
    requires
        8 * vs@.len() <= usize::MAX,
    ensures
        ws@ == vertices_words(vs@),
        ws@.len() == 8 * vs@.len(),
{
    let mut ws: Vec<u32> = Vec::new();
    let mut i: usize = 0;
    while i < vs.len()
        invariant
            i <= vs@.len(),
            8 * vs@.len() <= usize::MAX,
            ws@ == vertices_words(vs@.take(i as int)),
            ws@.len() == 8 * i,
        decreases vs@.len() - i,
    {
        let v = vs[i];
        ws.push(v.position[0]);
        ws.push(v.position[1]);
        ws.push(v.position[2]);
        ws.push(v.tex_coord[0]);
        ws.push(v.tex_coord[1]);
        ws.push(v.normal[0]);
        ws.push(v.normal[1]);
        ws.push(v.normal[2]);
        proof {
            assert(vs@.take(i + 1).drop_last() =~= vs@.take(i as int));
            assert(ws@ =~= vertices_words(vs@.take(i as int)) + vertex_words(vs@[i as int]));
        }
        i = i + 1;
    }
    proof {
        assert(vs@.take(vs@.len() as int) =~= vs@);
    }
    ws
}

/// Serializes a vertex list into its packed 32-byte-per-vertex layout.
pub fn vertices_as_bytes(vs: &Vec<VertexData>) -> (r: Vec<u8>)
    requires
        32 * vs@.len() <= usize::MAX,
    ensures
        r@ == words_le(vertices_words(vs@)),
        r@.len() == 32 * vs@.len(),
{
    let ws = gather_vertex_words(vs);
    words_as_bytes(&ws)
}

/// Serializes an index list into 32-bit little-endian index bytes.
pub fn indices_as_bytes(idx: &Vec<u32>) -> (r: Vec<u8>)
    requires
        4 * idx@.len() <= usize::MAX,
    ensures
        r@ == words_le(idx@),
        r@.len() == 4 * idx@.len(),
{
    words_as_bytes(idx)
}

/// Serializes an instance list into its packed 64-byte-per-instance layout,
/// the contents of a model's GPU instance buffer.
pub fn instances_as_bytes(s: &Vec<InstanceData>) -> (r: Vec<u8>)
    requires
        64 * s@.len() <= usize::MAX,
    ensures
        r@ == words_le(instances_words(s@)),
        r@.len() == 64 * s@.len(),
{
    let mut ws: Vec<u32> = Vec::new();
    let mut i: usize = 0;
    while i < s.len()
        invariant
            i <= s@.len(),
            64 * s@.len() <= usize::MAX,
            ws@ == instances_words(s@.take(i as int)),
            ws@.len() == 16 * i,
        decreases s@.len() - i,
    {
        let inst = s[i];
        let mut j: usize = 0;
        while j < 16
            invariant
                j <= 16,
                inst == s@[i as int],
                i < s@.len(),
                ws@ =~= instances_words(s@.take(i as int)) + inst.model@.take(j as int),
            decreases 16 - j,
        {
            ws.push(inst.model[j]);
            j = j + 1;
        }
        proof {
            assert(s@.take(i + 1).drop_last() =~= s@.take(i as int));
            assert(inst.model@.take(16) =~= inst.model@);
            assert(ws@ =~= instances_words(s@.take(i + 1)));
        }
        i = i + 1;
    }
    proof {
        assert(s@.take(s@.len() as int) =~= s@);
        lemma_instances_words_len(s@);
    }
    words_as_bytes(&ws)
}

} // verus!
