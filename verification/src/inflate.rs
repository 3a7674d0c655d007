//! Inflating a zlib-wrapped DEFLATE payload, with the embedded rolling
//! checksum ignored: the stale checksum is exactly what the repair is for.
//!
//! A payload is a 2-byte zlib header, DEFLATE blocks, and a 4-byte trailer
//! reserved for the rolling checksum.  The decompressor never acts on the
//! trailer's value (it only requires the 4 bytes to be present), so the
//! inflated bytes are a function of the payload with its last 4 bytes
//! stripped.  The result is named over that stripped form, which is what
//! lets the library show that rewriting the trailer does not disturb what
//! the payload inflates to.

use crate::RepairError;
use vstd::prelude::*;

verus! {

/// A zlib payload with its 4-byte rolling-checksum trailer stripped: the
/// part the decompressor acts on.
pub open spec fn zlib_body(s: Seq<u8>) -> Seq<u8> {
    s.take(s.len() - 4)
}

/// What inflating a zlib stream whose trailer-stripped bytes are `body`
/// yields: `Some` of the decompressed bytes where the header and the
/// DEFLATE blocks are well formed, `None` otherwise.  A function of those
/// bytes alone.
pub uninterp spec fn zlib_inflate(body: Seq<u8>) -> Option<Seq<u8>>;

/// Relies on miniz_oxide's `inflate::core::decompress`, called with a fresh
/// decompressor, the whole input, and the flags that parse the zlib header,
/// ignore the embedded rolling checksum, and treat the output buffer as
/// non-wrapping.  Returns (done, needs more room, bytes written).  With the
/// checksum ignored, success requires at least the 2-byte header, one
/// DEFLATE block and the 4 trailer bytes to be present, and both the
/// outcome and the bytes written depend only on the input with its last 4
/// bytes stripped; a failure other than running out of room means no
/// amount of room would have inflated the stream.
#[verifier::external_body]
fn inflate_once(input: &Vec<u8>, out: &mut Vec<u8>) -> (r: (bool, bool, usize))
    ensures
        final(out)@.len() == old(out)@.len(),
        r.0 ==> input@.len() >= 6 && zlib_inflate(zlib_body(input@)) is Some
            && r.2 == zlib_inflate(zlib_body(input@)).unwrap().len()
            && r.2 <= final(out)@.len()
            && final(out)@.take(r.2 as int) == zlib_inflate(zlib_body(input@)).unwrap(),
        !r.0 && !r.1 ==> input@.len() < 4 || zlib_inflate(zlib_body(input@)) is None,
        r.1 ==> ((input@.len() >= 4 && zlib_inflate(zlib_body(input@)) is Some)
            ==> zlib_inflate(zlib_body(input@)).unwrap().len() > old(out)@.len()),
{
    let mut d = miniz_oxide::inflate::core::DecompressorOxide::new();
    let flags = miniz_oxide::inflate::core::inflate_flags::TINFL_FLAG_PARSE_ZLIB_HEADER
        | miniz_oxide::inflate::core::inflate_flags::TINFL_FLAG_IGNORE_ADLER32
        | miniz_oxide::inflate::core::inflate_flags::TINFL_FLAG_USING_NON_WRAPPING_OUTPUT_BUF;
    let (status, _read, written) =
        miniz_oxide::inflate::core::decompress(&mut d, input.as_slice(), out.as_mut_slice(), 0, flags);
    (
        matches!(status, miniz_oxide::inflate::TINFLStatus::Done),
        matches!(status, miniz_oxide::inflate::TINFLStatus::HasMoreOutput),
        written,
    )
}

/// Inflates a zlib-wrapped DEFLATE payload into a growable buffer, ignoring
/// the embedded rolling checksum.  Succeeds exactly where the stream is
/// well formed and its decompressed size fits the address space.
pub fn inflate_zlib(input: &Vec<u8>) -> (r: Result<Vec<u8>, RepairError>)
    ensures
        r matches Ok(d) ==> input@.len() >= 6 && zlib_inflate(zlib_body(input@)) == Some(d@)
            && d@.len() <= usize::MAX,
        r is Err ==> r == Err::<Vec<u8>, RepairError>(RepairError::Decompression)
            && !(input@.len() >= 4 && zlib_inflate(zlib_body(input@)) is Some
                && zlib_inflate(zlib_body(input@)).unwrap().len() <= usize::MAX),
{
    let mut cap: usize = if input.len() < 32 {
        64
    } else if input.len() <= usize::MAX / 2 {
        input.len() * 2
    } else {
        usize::MAX
    };
    loop
        invariant
            cap >= 1,
        decreases usize::MAX - cap,
    {
        let mut buf: Vec<u8> = vec![0u8; cap];
        let (done, more, written) = inflate_once(input, &mut buf);
        if done {
            buf.truncate(written);
            proof {
                assert(buf@ =~= zlib_inflate(zlib_body(input@)).unwrap());
            }
            return Ok(buf);
        } else if more {
            if cap == usize::MAX {
                return Err(RepairError::Decompression);
            }
            cap = if cap > usize::MAX / 2 {
                usize::MAX
            } else {
                cap * 2
            };
        } else {
            return Err(RepairError::Decompression);
        }
    }
}

} // verus!
