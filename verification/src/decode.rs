//! The block stream decoder: purely mechanical framing of the byte stream
//! after the signature into blocks, with no checksum validation.

use crate::bytes::be32;
use crate::bytes::read_be32;
use crate::bytes::subvec;
use crate::chunk::views;
use crate::chunk::Chunk;
use crate::chunk::ChunkModel;
use crate::chunk::wf_chunk;
use crate::RepairError;
use vstd::prelude::*;

verus! {

/// What the byte stream after the signature parses to: `Some` of the block
/// models where every block is complete and the stream ends exactly at a
/// block boundary, `None` where a length field, kind tag, payload or
/// checksum is cut short.
pub open spec fn parse_blocks(s: Seq<u8>) -> Option<Seq<ChunkModel>>
    decreases s.len(),
{
    if s.len() == 0 {
        Some(Seq::empty())
    } else if s.len() < 12 {
        None
    } else {
        let l = be32(s.subrange(0, 4));
        if s.len() < 12 + l {
            None
        } else {
            let c = ChunkModel {
                kind: s.subrange(4, 8),
                data: s.subrange(8, 8 + l),
                crc: s.subrange(8 + l, 12 + l),
            };
            match parse_blocks(s.skip(12 + l)) {
                Some(rest) => Some(seq![c] + rest),
                None => None,
            }
        }
    }
}

/// Every block a parse produces is well formed: 4-byte kind tag and
/// checksum, and a payload no longer than the 32-bit length field allows.
pub proof fn lemma_parse_blocks_wf(s: Seq<u8>)
    requires
        parse_blocks(s) is Some,
    ensures
        forall|i: int|
            0 <= i < parse_blocks(s).unwrap().len() ==> wf_chunk(
                #[trigger] parse_blocks(s).unwrap()[i],
            ),
    decreases s.len(),
{
    if s.len() == 0 {
    } else {
        let l = be32(s.subrange(0, 4));
        assert(l <= u32::MAX);
        lemma_parse_blocks_wf(s.skip(12 + l));
    }
}

/// The fixed 8-byte signature plus a parsable block stream.
pub open spec fn container_parses(input: Seq<u8>) -> bool {
    input.len() >= 8 && parse_blocks(input.skip(8)) is Some
}

/// The blocks of a parsable container.
pub open spec fn container_chunks(input: Seq<u8>) -> Seq<ChunkModel>
    recommends
        container_parses(input),
{
    parse_blocks(input.skip(8)).unwrap()
}

/// Reads the signature and then every block of the container.  Fails with
/// `TruncatedBlock` exactly where a length field promises bytes that are
/// not present, or a field of a block is cut short.
pub fn decode(input: &Vec<u8>) -> (r: Result<Vec<Chunk>, RepairError>)
    ensures
        r is Ok <==> container_parses(input@),
        r matches Ok(cs) ==> views(cs@) == container_chunks(input@) && forall|i: int|
            0 <= i < cs@.len() ==> (#[trigger] cs@[i]).wf(),
        r is Err ==> r == Err::<Vec<Chunk>, RepairError>(RepairError::TruncatedBlock),
{
    let n = input.len();
    if n < 8 {
        return Err(RepairError::TruncatedBlock);
    }
    let mut chunks: Vec<Chunk> = Vec::new();
    let mut pos: usize = 8;
    while pos < n
        invariant
            8 <= pos <= n == input@.len(),
            forall|i: int| 0 <= i < chunks@.len() ==> (#[trigger] chunks@[i]).wf(),
            parse_blocks(input@.skip(8)) == match parse_blocks(input@.skip(pos as int)) {
                Some(rest) => Some(views(chunks@) + rest),
                None => None::<Seq<ChunkModel>>,
            },
        decreases n - pos,
    {
        let ghost tail = input@.skip(pos as int);
        assert(tail.len() == n - pos);
        if n - pos < 12 {
            proof {
                assert(parse_blocks(tail) is None);
            }
            return Err(RepairError::TruncatedBlock);
        }
        let len32 = read_be32(input[pos], input[pos + 1], input[pos + 2], input[pos + 3]);
        proof {
            assert(tail.subrange(0, 4) =~= seq![
                input@[pos as int],
                input@[pos + 1],
                input@[pos + 2],
                input@[pos + 3],
            ]);
        }
        let l = len32 as usize;
        if l > n - pos - 12 {
            proof {
                assert(parse_blocks(tail) is None);
            }
            return Err(RepairError::TruncatedBlock);
        }
        let kind = subvec(input, pos + 4, pos + 8);
        let data = subvec(input, pos + 8, pos + 8 + l);
        let crc = subvec(input, pos + 8 + l, pos + 12 + l);
        let c = Chunk { kind, data, crc };
        proof {
            assert(kind@ =~= tail.subrange(4, 8));
            assert(data@ =~= tail.subrange(8, 8 + l));
            assert(crc@ =~= tail.subrange(8 + l, 12 + l));
            assert(input@.skip(pos + 12 + l) =~= tail.skip(12 + l));
        }
        let ghost pre = chunks@;
        chunks.push(c);
        pos = pos + 12 + l;
        proof {
            assert(views(chunks@) =~= views(pre) + seq![c@]);
            match parse_blocks(input@.skip(pos as int)) {
                Some(rest) => {
                    assert(parse_blocks(tail) == Some(seq![c@] + rest));
                    assert(views(pre) + (seq![c@] + rest) =~= views(chunks@) + rest);
                }
                None => {
                    assert(parse_blocks(tail) is None);
                }
            }
        }
    }
    proof {
        assert(input@.skip(pos as int).len() == 0);
        assert(parse_blocks(input@.skip(pos as int)) == Some(Seq::<ChunkModel>::empty()));
        assert(views(chunks@) + Seq::<ChunkModel>::empty() =~= views(chunks@));
    }
    Ok(chunks)
}

} // verus!
