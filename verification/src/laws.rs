//! The properties the repair pipeline is answerable for, proved over the
//! specification functions of the other modules.

use crate::bytes::be32;
use crate::bytes::be32_bytes;
use crate::bytes::lemma_be32_roundtrip;
use crate::checksums::adler32_of;
use crate::checksums::crc32_of;
use crate::chunk::is_idat_kind;
use crate::chunk::ChunkModel;
use crate::chunk::wf_chunk;
use crate::decode::container_chunks;
use crate::decode::container_parses;
use crate::decode::lemma_parse_blocks_wf;
use crate::decode::parse_blocks;
use crate::encode::encode_blocks;
use crate::encode::encode_chunk;
use crate::encode::encode_container;
use crate::encode::spec_signature;
use crate::inflate::zlib_body;
use crate::inflate::zlib_inflate;
use crate::repair::all_repairable;
use crate::repair::chunk_repairable;
use crate::repair::container_repairable;
use crate::repair::idat_repairable;
use crate::repair::lemma_repaired_chunk_wf;
use crate::repair::repaired_chunk;
use crate::repair::repaired_chunks;
use crate::repair::repaired_container;
use crate::repair::repaired_idat_data;
use vstd::prelude::*;

verus! {

/// Decoding the encoder's output reproduces exactly the blocks that were
/// encoded: framing loses nothing and invents nothing.
pub proof fn lemma_parse_encode_roundtrip(cs: Seq<ChunkModel>)
    requires
        forall|i: int| 0 <= i < cs.len() ==> wf_chunk(#[trigger] cs[i]),
    ensures
        parse_blocks(encode_blocks(cs)) == Some(cs),
    decreases cs.len(),
{
    if cs.len() == 0 {
        assert(encode_blocks(cs) == Seq::<u8>::empty());
        assert(parse_blocks(encode_blocks(cs)) == Some(Seq::<ChunkModel>::empty()));
        assert(Seq::<ChunkModel>::empty() =~= cs);
    } else {
        let c = cs[0];
        let l = c.data.len() as int;
        let e = encode_blocks(cs);
        let head = encode_chunk(c);
        assert(head.len() == 12 + l);
        assert(e == head + encode_blocks(cs.skip(1)));
        assert(e.len() >= 12 + l);
        lemma_be32_roundtrip(c.data.len() as u32);
        assert(e.subrange(0, 4) =~= be32_bytes(c.data.len() as u32));
        assert(be32(e.subrange(0, 4)) == l);
        assert(e.subrange(4, 8) =~= c.kind);
        assert(e.subrange(8, 8 + l) =~= c.data);
        assert(e.subrange(8 + l, 12 + l) =~= c.crc);
        assert(e.skip(12 + l) =~= encode_blocks(cs.skip(1)));
        assert(forall|i: int| 0 <= i < cs.skip(1).len() ==> wf_chunk(#[trigger] cs.skip(1)[i]));
        lemma_parse_encode_roundtrip(cs.skip(1));
        assert(parse_blocks(e) == Some(
            seq![
                ChunkModel {
                    kind: e.subrange(4, 8),
                    data: e.subrange(8, 8 + l),
                    crc: e.subrange(8 + l, 12 + l),
                },
            ] + cs.skip(1),
        ));
        assert(seq![c] + cs.skip(1) =~= cs);
    }
}

/// The container-level round trip: the encoder's output parses, and it
/// parses back to exactly the blocks that were encoded.
pub proof fn lemma_container_roundtrip(cs: Seq<ChunkModel>)
    requires
        forall|i: int| 0 <= i < cs.len() ==> wf_chunk(#[trigger] cs[i]),
    ensures
        container_parses(encode_container(cs)),
        container_chunks(encode_container(cs)) == cs,
{
    assert(encode_container(cs).len() >= 8) by {
        assert(spec_signature().len() == 8);
    }
    assert(encode_container(cs).skip(8) =~= encode_blocks(cs));
    lemma_parse_encode_roundtrip(cs);
}

/// Repairing a block that both repair stages have already corrected
/// changes nothing: the rewritten trailer is outside what the payload's
/// stream inflates from, and the whole-block checksum is recomputed over
/// the same bytes.
pub proof fn lemma_repaired_chunk_stable(c: ChunkModel)
    requires
        wf_chunk(c),
        chunk_repairable(c),
    ensures
        chunk_repairable(repaired_chunk(c)),
        repaired_chunk(repaired_chunk(c)) == repaired_chunk(c),
{
    let r = repaired_chunk(c);
    if is_idat_kind(c.kind) {
        let d = c.data;
        let rd = repaired_idat_data(d);
        assert(rd.len() == d.len());
        assert(zlib_body(rd) =~= zlib_body(d));
        assert(idat_repairable(rd));
        assert(repaired_idat_data(rd) =~= rd);
    }
    assert(repaired_chunk(r).data == r.data);
    assert(repaired_chunk(r) == r);
}

/// Idempotence: the corrected container is itself repairable, and
/// repairing it again reproduces it byte for byte — a second run finds
/// nothing left to correct.
pub proof fn lemma_repair_idempotent(input: Seq<u8>)
    requires
        container_repairable(input),
    ensures
        container_repairable(repaired_container(input)),
        repaired_container(repaired_container(input)) == repaired_container(input),
{
    let cs = container_chunks(input);
    lemma_parse_blocks_wf(input.skip(8));
    let rcs = repaired_chunks(cs);
    assert(rcs.len() == cs.len());
    assert forall|i: int| 0 <= i < rcs.len() implies wf_chunk(#[trigger] rcs[i]) by {
        assert(rcs[i] == repaired_chunk(cs[i]));
        lemma_repaired_chunk_wf(cs[i]);
    }
    lemma_container_roundtrip(rcs);
    let out = repaired_container(input);
    assert(container_chunks(out) == rcs);
    assert forall|i: int| 0 <= i < rcs.len() implies chunk_repairable(#[trigger] rcs[i]) by {
        assert(rcs[i] == repaired_chunk(cs[i]));
        lemma_repaired_chunk_stable(cs[i]);
    }
    assert(container_repairable(out));
    assert forall|i: int| 0 <= i < rcs.len() implies #[trigger] repaired_chunks(rcs)[i]
        == rcs[i] by {
        assert(repaired_chunks(rcs)[i] == repaired_chunk(rcs[i]));
        assert(rcs[i] == repaired_chunk(cs[i]));
        lemma_repaired_chunk_stable(cs[i]);
    }
    assert(repaired_chunks(rcs) =~= rcs);
    assert(repaired_container(out) == encode_container(rcs));
}

/// Round-trip framing through the whole pipeline: the corrected container
/// parses back to blocks with the same kinds and payload lengths as the
/// input's, payloads of other kinds untouched, and compressed image-data
/// payloads changed at most in their 4-byte rolling-checksum trailer.
pub proof fn lemma_output_preserves_frames(input: Seq<u8>, i: int)
    requires
        container_repairable(input),
        0 <= i < container_chunks(input).len(),
    ensures
        container_parses(repaired_container(input)),
        container_chunks(repaired_container(input)).len() == container_chunks(input).len(),
        container_chunks(repaired_container(input))[i].kind == container_chunks(input)[i].kind,
        container_chunks(repaired_container(input))[i].data.len() == container_chunks(
            input,
        )[i].data.len(),
        !is_idat_kind(container_chunks(input)[i].kind) ==> container_chunks(
            repaired_container(input),
        )[i].data == container_chunks(input)[i].data,
        is_idat_kind(container_chunks(input)[i].kind) ==> zlib_body(
            container_chunks(repaired_container(input))[i].data,
        ) == zlib_body(container_chunks(input)[i].data),
{
    let cs = container_chunks(input);
    lemma_parse_blocks_wf(input.skip(8));
    let rcs = repaired_chunks(cs);
    assert forall|k: int| 0 <= k < rcs.len() implies wf_chunk(#[trigger] rcs[k]) by {
        assert(rcs[k] == repaired_chunk(cs[k]));
        lemma_repaired_chunk_wf(cs[k]);
    }
    lemma_container_roundtrip(rcs);
    assert(rcs[i] == repaired_chunk(cs[i]));
    lemma_repaired_chunk_wf(cs[i]);
    if is_idat_kind(cs[i].kind) {
        assert(zlib_body(repaired_idat_data(cs[i].data)) =~= zlib_body(cs[i].data));
    }
}

/// Checksum correctness: every block of the corrected container stores
/// exactly the 32-bit cyclic redundancy check of its kind tag and payload.
pub proof fn lemma_output_crc_correct(input: Seq<u8>, i: int)
    requires
        container_repairable(input),
        0 <= i < container_chunks(input).len(),
    ensures
        container_parses(repaired_container(input)),
        be32(container_chunks(repaired_container(input))[i].crc) == crc32_of(
            container_chunks(repaired_container(input))[i].kind + container_chunks(
                repaired_container(input),
            )[i].data,
        ),
{
    let cs = container_chunks(input);
    lemma_parse_blocks_wf(input.skip(8));
    let rcs = repaired_chunks(cs);
    assert forall|k: int| 0 <= k < rcs.len() implies wf_chunk(#[trigger] rcs[k]) by {
        assert(rcs[k] == repaired_chunk(cs[k]));
        lemma_repaired_chunk_wf(cs[k]);
    }
    lemma_container_roundtrip(rcs);
    assert(rcs[i] == repaired_chunk(cs[i]));
    lemma_be32_roundtrip(crc32_of(rcs[i].kind + rcs[i].data));
}

/// Compressed-payload correctness: every compressed image-data block of
/// the corrected container carries, in its payload's trailing field, the
/// rolling checksum of its own decompressed bytes.
pub proof fn lemma_output_adler_correct(input: Seq<u8>, i: int)
    requires
        container_repairable(input),
        0 <= i < container_chunks(input).len(),
        is_idat_kind(container_chunks(input)[i].kind),
    ensures
        container_parses(repaired_container(input)),
        container_chunks(repaired_container(input))[i].data.len() >= 4,
        zlib_inflate(zlib_body(container_chunks(repaired_container(input))[i].data)) is Some,
        be32(
            container_chunks(repaired_container(input))[i].data.skip(
                container_chunks(repaired_container(input))[i].data.len() - 4,
            ),
        ) == adler32_of(
            zlib_inflate(
                zlib_body(container_chunks(repaired_container(input))[i].data),
            ).unwrap(),
        ),
{
    let cs = container_chunks(input);
    lemma_parse_blocks_wf(input.skip(8));
    let rcs = repaired_chunks(cs);
    assert forall|k: int| 0 <= k < rcs.len() implies wf_chunk(#[trigger] rcs[k]) by {
        assert(rcs[k] == repaired_chunk(cs[k]));
        lemma_repaired_chunk_wf(cs[k]);
    }
    lemma_container_roundtrip(rcs);
    assert(rcs[i] == repaired_chunk(cs[i]));
    lemma_repaired_chunk_wf(cs[i]);
    let d = rcs[i].data;
    assert(d == repaired_idat_data(cs[i].data));
    assert(zlib_body(d) =~= zlib_body(cs[i].data));
    let sum = adler32_of(zlib_inflate(zlib_body(cs[i].data)).unwrap());
    assert(d.skip(d.len() - 4) =~= be32_bytes(sum));
    lemma_be32_roundtrip(sum);
}

/// Length consistency: the length field of every encoded block declares
/// exactly the byte length of its payload.
pub proof fn lemma_declared_length_consistent(c: ChunkModel)
    requires
        wf_chunk(c),
    ensures
        encode_chunk(c).subrange(0, 4) == be32_bytes(c.data.len() as u32),
        be32(encode_chunk(c).subrange(0, 4)) == c.data.len(),
{
    assert(encode_chunk(c).subrange(0, 4) =~= be32_bytes(c.data.len() as u32));
    lemma_be32_roundtrip(c.data.len() as u32);
}

} // verus!
