//! The one entity of the container format: a typed, length-prefixed,
//! checksum-trailing block.

use vstd::prelude::*;

verus! {

/// Mathematical model of one block: the byte sequences of its kind tag,
/// its payload and its stored whole-block checksum.
pub ghost struct ChunkModel {
    pub kind: Seq<u8>,
    pub data: Seq<u8>,
    pub crc: Seq<u8>,
}

/// A well-formed block: a 4-byte kind tag, a 4-byte stored checksum, and a
/// payload whose length fits the 32-bit length field of the format.
pub open spec fn wf_chunk(c: ChunkModel) -> bool {
    &&& c.kind.len() == 4
    &&& c.crc.len() == 4
    &&& c.data.len() <= u32::MAX
}

/// One block of the container, as held in memory between decode and encode.
#[derive(Debug)]
pub struct Chunk {
    pub kind: Vec<u8>,
    pub data: Vec<u8>,
    pub crc: Vec<u8>,
}

impl View for Chunk {
    type V = ChunkModel;

    open spec fn view(&self) -> ChunkModel {
        ChunkModel { kind: self.kind@, data: self.data@, crc: self.crc@ }
    }
}

/// The kind tag that marks a compressed image-data block.
pub open spec fn spec_idat_kind() -> Seq<u8> {
    seq![0x49u8, 0x44u8, 0x41u8, 0x54u8]
}

/// Whether a kind tag names a compressed image-data block.
pub open spec fn is_idat_kind(kind: Seq<u8>) -> bool {
    kind == spec_idat_kind()
}

/// What `String::from_utf8_lossy` returns for a byte sequence: a function
/// of the bytes alone.
pub uninterp spec fn utf8_lossy_of(b: Seq<u8>) -> Seq<char>;

/// Relies on std's `String::from_utf8_lossy`: decodes the bytes as UTF-8,
/// replacing invalid sequences; the result depends on the bytes alone.
#[verifier::external_body]
fn utf8_lossy(b: &Vec<u8>) -> (r: String)
    ensures
        r@ == utf8_lossy_of(b@),
{
    String::from_utf8_lossy(b).into_owned()
}

impl Chunk {
    /// A well-formed in-memory block.
    pub open spec fn wf(self) -> bool {
        wf_chunk(self@)
    }

    /// The kind tag decoded as text, for diagnostics.
    pub fn kind_to_string(&self) -> (r: String)
        ensures
            r@ == utf8_lossy_of(self@.kind),
    {
        utf8_lossy(&self.kind)
    }

    /// Whether this block carries compressed image data.
    pub fn is_idat(&self) -> (r: bool)
        ensures
            r == is_idat_kind(self@.kind),
    {
        let r = self.kind.len() == 4 && self.kind[0] == 0x49 && self.kind[1] == 0x44
            && self.kind[2] == 0x41 && self.kind[3] == 0x54;
        proof {
            if r {
                assert(self@.kind =~= spec_idat_kind());
            }
            if is_idat_kind(self@.kind) {
                assert(self@.kind.len() == 4);
                assert(self@.kind[0] == 0x49u8 && self@.kind[1] == 0x44u8
                    && self@.kind[2] == 0x41u8 && self@.kind[3] == 0x54u8);
            }
        }
        r
    }
}

/// The models of a sequence of in-memory blocks.
pub open spec fn views(cs: Seq<Chunk>) -> Seq<ChunkModel> {
    cs.map_values(|c: Chunk| c@)
}

} // verus!
