//! The two checksums the container carries: the whole-block cyclic
//! redundancy check and the rolling checksum embedded in compressed
//! payloads.  Both are outside algorithms; their results are named, not
//! restated.

use vstd::prelude::*;

verus! {

/// What the standard 32-bit cyclic redundancy check of a byte sequence is:
/// a function of the bytes alone.
pub uninterp spec fn crc32_of(b: Seq<u8>) -> u32;

/// Relies on `crc32fast::hash`: the CRC-32 checksum of the bytes, a
/// function of the bytes alone.
#[verifier::external_body]
pub(crate) fn crc32(b: &Vec<u8>) -> (r: u32)
    ensures
        r == crc32_of(b@),
{
    crc32fast::hash(b.as_slice())
}

/// What the rolling (Adler-32) checksum of a byte sequence is: a function
/// of the bytes alone.
pub uninterp spec fn adler32_of(b: Seq<u8>) -> u32;

/// Relies on `adler::adler32_slice`: the Adler-32 checksum of the bytes, a
/// function of the bytes alone.
#[verifier::external_body]
pub(crate) fn adler32(b: &Vec<u8>) -> (r: u32)
    ensures
        r == adler32_of(b@),
{
    adler::adler32_slice(b.as_slice())
}

} // verus!
