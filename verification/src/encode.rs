//! The block stream encoder: the canonical signature followed by every
//! block, its length field recomputed from the actual payload.

use crate::bytes::append_bytes;
use crate::bytes::be32_bytes;
use crate::bytes::write_be32;
use crate::chunk::views;
use crate::chunk::Chunk;
use crate::chunk::ChunkModel;
use crate::chunk::wf_chunk;
use vstd::prelude::*;

verus! {

/// The fixed 8-byte signature, written verbatim on output whatever the
/// input began with.
pub open spec fn spec_signature() -> Seq<u8> {
    seq![0x89u8, 0x50u8, 0x4Eu8, 0x47u8, 0x0Du8, 0x0Au8, 0x1Au8, 0x0Au8]
}

/// The encoding of one block: big-endian payload length, kind tag, payload,
/// stored checksum.
pub open spec fn encode_chunk(c: ChunkModel) -> Seq<u8> {
    be32_bytes(c.data.len() as u32) + c.kind + c.data + c.crc
}

/// The encoding of a sequence of blocks, in order.
pub open spec fn encode_blocks(cs: Seq<ChunkModel>) -> Seq<u8>
    decreases cs.len(),
{
    if cs.len() == 0 {
        Seq::empty()
    } else {
        encode_chunk(cs[0]) + encode_blocks(cs.skip(1))
    }
}

/// The encoding of a whole container: signature, then every block.
pub open spec fn encode_container(cs: Seq<ChunkModel>) -> Seq<u8> {
    spec_signature() + encode_blocks(cs)
}

/// Appending a block to a sequence appends its encoding to the stream.
pub proof fn lemma_encode_blocks_snoc(cs: Seq<ChunkModel>, c: ChunkModel)
    ensures
        encode_blocks(cs.push(c)) == encode_blocks(cs) + encode_chunk(c),
    decreases cs.len(),
{
    if cs.len() == 0 {
        let p = cs.push(c);
        assert(p.skip(1) =~= Seq::<ChunkModel>::empty());
        assert(encode_blocks(p.skip(1)) == Seq::<u8>::empty());
        assert(p[0] == c);
        assert(encode_blocks(p) == encode_chunk(c) + Seq::<u8>::empty());
        assert(encode_chunk(c) + Seq::<u8>::empty() =~= Seq::<u8>::empty() + encode_chunk(c));
        assert(encode_blocks(cs) == Seq::<u8>::empty());
    } else {
        assert(cs.push(c).skip(1) =~= cs.skip(1).push(c));
        lemma_encode_blocks_snoc(cs.skip(1), c);
        assert(cs.push(c)[0] == cs[0]);
        assert(encode_chunk(cs[0]) + (encode_blocks(cs.skip(1)) + encode_chunk(c)) =~= (
        encode_chunk(cs[0]) + encode_blocks(cs.skip(1))) + encode_chunk(c));
    }
}

/// Writes the canonical signature, then every block in original order, each
/// with its length field recomputed from the actual payload.
pub fn encode(chunks: &Vec<Chunk>) -> (out: Vec<u8>)
    requires
        forall|i: int| 0 <= i < chunks@.len() ==> (#[trigger] chunks@[i]).wf(),
    ensures
        out@ == encode_container(views(chunks@)),
{
    let mut out: Vec<u8> = Vec::new();
    out.push(0x89);
    out.push(0x50);
    out.push(0x4E);
    out.push(0x47);
    out.push(0x0D);
    out.push(0x0A);
    out.push(0x1A);
    out.push(0x0A);
    proof {
        assert(out@ =~= spec_signature());
        assert(views(chunks@).take(0) =~= Seq::<ChunkModel>::empty());
        assert(out@ =~= spec_signature() + encode_blocks(views(chunks@).take(0)));
    }
    let n = chunks.len();
    let mut i: usize = 0;
    while i < n
        invariant
            i <= n == chunks@.len(),
            forall|k: int| 0 <= k < chunks@.len() ==> (#[trigger] chunks@[k]).wf(),
            out@ == spec_signature() + encode_blocks(views(chunks@).take(i as int)),
        decreases n - i,
    {
        let c = &chunks[i];
        assert(c.wf());
        let lenbytes = write_be32(c.data.len() as u32);
        append_bytes(&mut out, &lenbytes);
        append_bytes(&mut out, &c.kind);
        append_bytes(&mut out, &c.data);
        append_bytes(&mut out, &c.crc);
        proof {
            let m = views(chunks@);
            assert(m[i as int] == chunks@[i as int]@);
            assert(m[i as int].data.len() == c.data@.len());
            lemma_encode_blocks_snoc(m.take(i as int), m[i as int]);
            assert(m.take(i as int).push(m[i as int]) =~= m.take(i + 1));
            assert(out@ =~= spec_signature() + encode_blocks(m.take(i + 1)));
        }
        i = i + 1;
    }
    proof {
        assert(views(chunks@).take(n as int) =~= views(chunks@));
    }
    out
}

} // verus!
