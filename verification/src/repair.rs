//! The two repair stages and the whole pipeline: decode, regenerate the
//! rolling checksum inside compressed image-data payloads, regenerate
//! every whole-block checksum, encode.

use crate::bytes::append_bytes;
use crate::bytes::be32;
use crate::bytes::be32_bytes;
use crate::bytes::read_be32;
use crate::bytes::write_be32;
use crate::checksums::adler32;
use crate::checksums::adler32_of;
use crate::checksums::crc32;
use crate::checksums::crc32_of;
use crate::chunk::is_idat_kind;
use crate::chunk::views;
use crate::chunk::Chunk;
use crate::chunk::ChunkModel;
use crate::chunk::wf_chunk;
use crate::decode::container_chunks;
use crate::decode::container_parses;
use crate::decode::decode;
use crate::encode::encode;
use crate::encode::encode_container;
use crate::inflate::inflate_zlib;
use crate::inflate::zlib_body;
use crate::inflate::zlib_inflate;
use crate::RepairError;
use vstd::prelude::*;

verus! {

/// Whether a compressed image-data payload can be repaired: it has room
/// for the 4-byte trailer, its stream inflates, and the inflated bytes fit
/// the address space.
pub open spec fn idat_repairable(data: Seq<u8>) -> bool {
    &&& data.len() >= 4
    &&& zlib_inflate(zlib_body(data)) is Some
    &&& zlib_inflate(zlib_body(data)).unwrap().len() <= usize::MAX
}

/// A compressed image-data payload with its trailer rewritten to the
/// rolling checksum of its own decompressed bytes.
pub open spec fn repaired_idat_data(data: Seq<u8>) -> Seq<u8>
    recommends
        idat_repairable(data),
{
    zlib_body(data) + be32_bytes(adler32_of(zlib_inflate(zlib_body(data)).unwrap()))
}

/// Whether a block passes the compressed-payload stage: compressed
/// image-data blocks must be repairable, every other kind passes as is.
pub open spec fn chunk_repairable(c: ChunkModel) -> bool {
    is_idat_kind(c.kind) ==> idat_repairable(c.data)
}

/// One block after both repair stages: payload repaired where the kind
/// marks compressed image data, and the whole-block checksum recomputed
/// over the kind tag and the (possibly repaired) payload.
pub open spec fn repaired_chunk(c: ChunkModel) -> ChunkModel
    recommends
        chunk_repairable(c),
{
    let d = if is_idat_kind(c.kind) {
        repaired_idat_data(c.data)
    } else {
        c.data
    };
    ChunkModel { kind: c.kind, data: d, crc: be32_bytes(crc32_of(c.kind + d)) }
}

/// Every block of a sequence after both repair stages.
pub open spec fn repaired_chunks(cs: Seq<ChunkModel>) -> Seq<ChunkModel> {
    cs.map_values(|c: ChunkModel| repaired_chunk(c))
}

/// Whether every block of a sequence passes the compressed-payload stage.
pub open spec fn all_repairable(cs: Seq<ChunkModel>) -> bool {
    forall|i: int| 0 <= i < cs.len() ==> chunk_repairable(#[trigger] cs[i])
}

/// A container whose blocks all parse and whose compressed image-data
/// payloads all inflate.
pub open spec fn container_repairable(input: Seq<u8>) -> bool {
    container_parses(input) && all_repairable(container_chunks(input))
}

/// The corrected container: canonical signature, every block repaired, in
/// original order.
pub open spec fn repaired_container(input: Seq<u8>) -> Seq<u8>
    recommends
        container_repairable(input),
{
    encode_container(repaired_chunks(container_chunks(input)))
}

/// Repair preserves well-formedness; in particular the payload keeps its
/// length, so the length field of the block never changes.
pub proof fn lemma_repaired_chunk_wf(c: ChunkModel)
    requires
        wf_chunk(c),
        chunk_repairable(c),
    ensures
        wf_chunk(repaired_chunk(c)),
        repaired_chunk(c).data.len() == c.data.len(),
{
    if is_idat_kind(c.kind) {
        assert(repaired_idat_data(c.data).len() == c.data.len());
    }
}

/// Stage two: where the block carries compressed image data, inflate the
/// payload (ignoring its stale embedded checksum) and overwrite the
/// payload's last 4 bytes with the rolling checksum of the decompressed
/// bytes.  A no-op pass-through for every other kind.
pub fn repair_chunk_data(c: &mut Chunk) -> (r: Result<(), RepairError>)
    ensures
        final(c)@.kind == old(c)@.kind,
        final(c)@.crc == old(c)@.crc,
        r is Ok <==> chunk_repairable(old(c)@),
        r is Ok ==> final(c)@.data == if is_idat_kind(old(c)@.kind) {
            repaired_idat_data(old(c)@.data)
        } else {
            old(c)@.data
        },
        r is Err ==> r == Err::<(), RepairError>(RepairError::Decompression) && final(c)@
            == old(c)@,
{
    if !c.is_idat() {
        return Ok(());
    }
    let decompressed = match inflate_zlib(&c.data) {
        Ok(d) => d,
        Err(e) => {
            return Err(e);
        },
    };
    let csum = adler32(&decompressed);
    let csum_bytes = write_be32(csum);
    let keep = c.data.len() - 4;
    c.data.truncate(keep);
    append_bytes(&mut c.data, &csum_bytes);
    proof {
        assert(c@.data =~= repaired_idat_data(old(c)@.data));
    }
    Ok(())
}

/// Stage three: recompute the whole-block checksum over the kind tag and
/// the payload and store it big-endian.  Never fails.
pub fn repair_chunk_crc(c: &mut Chunk)
    ensures
        final(c)@.kind == old(c)@.kind,
        final(c)@.data == old(c)@.data,
        final(c)@.crc == be32_bytes(crc32_of(old(c)@.kind + old(c)@.data)),
{
    let mut buf: Vec<u8> = Vec::new();
    append_bytes(&mut buf, &c.kind);
    append_bytes(&mut buf, &c.data);
    let sum = crc32(&buf);
    c.crc = write_be32(sum);
}

/// Whether a block's stored checksum already equals the checksum of its
/// kind tag and payload; after a repair run this always holds.
pub fn crc_is_correct(c: &Chunk) -> (r: bool)
    requires
        c.wf(),
    ensures
        r == (be32(c@.crc) == crc32_of(c@.kind + c@.data)),
{
    let mut buf: Vec<u8> = Vec::new();
    append_bytes(&mut buf, &c.kind);
    append_bytes(&mut buf, &c.data);
    let sum = crc32(&buf);
    let stored = read_be32(c.crc[0], c.crc[1], c.crc[2], c.crc[3]);
    proof {
        assert(c@.crc =~= seq![c@.crc[0], c@.crc[1], c@.crc[2], c@.crc[3]]);
    }
    stored == sum
}

/// Runs both repair stages over every block, in original order.
pub fn repair_chunks_vec(chunks: Vec<Chunk>) -> (r: Result<Vec<Chunk>, RepairError>)
    requires
        forall|i: int| 0 <= i < chunks@.len() ==> (#[trigger] chunks@[i]).wf(),
    ensures
        r is Ok <==> all_repairable(views(chunks@)),
        r matches Ok(cs) ==> views(cs@) == repaired_chunks(views(chunks@)) && forall|i: int|
            0 <= i < cs@.len() ==> (#[trigger] cs@[i]).wf(),
        r is Err ==> r == Err::<Vec<Chunk>, RepairError>(RepairError::Decompression),
{
    let ghost orig = views(chunks@);
    let mut rest = chunks;
    let mut out: Vec<Chunk> = Vec::new();
    let ghost total = orig.len();
    while rest.len() > 0
        invariant
            orig == views(chunks@),
            out@.len() + rest@.len() == total == orig.len(),
            views(rest@) == orig.skip(out@.len() as int),
            views(out@) == repaired_chunks(orig.subrange(0, out@.len() as int)),
            forall|i: int| 0 <= i < rest@.len() ==> (#[trigger] rest@[i]).wf(),
            forall|i: int| 0 <= i < out@.len() ==> (#[trigger] out@[i]).wf(),
            forall|i: int| 0 <= i < out@.len() ==> chunk_repairable(#[trigger] orig[i]),
        decreases rest@.len(),
    {
        let ghost done = out@.len() as int;
        let ghost rest_pre = rest@;
        let mut c = rest.remove(0);
        proof {
            assert(views(rest_pre)[0] == rest_pre[0]@);
            assert(c@ == orig[done]);
            assert(rest@ =~= rest_pre.skip(1));
            assert forall|i: int| 0 <= i < rest@.len() implies #[trigger] views(rest@)[i]
                == orig.skip(done + 1)[i] by {
                assert(views(rest@)[i] == rest@[i]@);
                assert(views(rest_pre)[i + 1] == rest_pre[i + 1]@);
            }
            assert(views(rest@) =~= orig.skip(done + 1));
        }
        match repair_chunk_data(&mut c) {
            Ok(()) => {},
            Err(e) => {
                proof {
                    assert(!chunk_repairable(orig[done]));
                    assert(!all_repairable(orig));
                }
                return Err(e);
            },
        }
        repair_chunk_crc(&mut c);
        proof {
            assert(c@ == repaired_chunk(orig[done]));
            lemma_repaired_chunk_wf(orig[done]);
        }
        let ghost out_pre = out@;
        out.push(c);
        proof {
            let pre = orig.subrange(0, done);
            let now = orig.subrange(0, done + 1);
            assert forall|i: int| 0 <= i < now.len() implies #[trigger] views(out@)[i]
                == repaired_chunks(now)[i] by {
                assert(views(out@)[i] == out@[i]@);
                assert(repaired_chunks(now)[i] == repaired_chunk(now[i]));
                if i < done {
                    assert(views(out_pre)[i] == out_pre[i]@);
                    assert(repaired_chunks(pre)[i] == repaired_chunk(pre[i]));
                    assert(pre[i] == now[i]);
                }
            }
            assert(views(out@) =~= repaired_chunks(orig.subrange(0, done + 1)));
        }
    }
    proof {
        assert(orig.subrange(0, orig.len() as int) =~= orig);
    }
    Ok(out)
}

/// Decodes a container, repairs the embedded rolling checksum of every
/// compressed image-data block and the whole-block checksum of every
/// block, and encodes the corrected container.  Writes nothing on failure.
pub fn repair_container(input: &Vec<u8>) -> (r: Result<Vec<u8>, RepairError>)
    ensures
        r is Ok <==> container_repairable(input@),
        r matches Ok(out) ==> out@ == repaired_container(input@),
        !container_parses(input@) ==> r == Err::<Vec<u8>, RepairError>(
            RepairError::TruncatedBlock,
        ),
        container_parses(input@) && !container_repairable(input@) ==> r == Err::<
            Vec<u8>,
            RepairError,
        >(RepairError::Decompression),
{
    let chunks = match decode(input) {
        Ok(cs) => cs,
        Err(e) => {
            return Err(e);
        },
    };
    let repaired = match repair_chunks_vec(chunks) {
        Ok(cs) => cs,
        Err(e) => {
            return Err(e);
        },
    };
    Ok(encode(&repaired))
}

} // verus!
