//! Repair of a block-structured binary image container.
//!
//! The container is a fixed 8-byte signature followed by length-prefixed
//! blocks, each carrying a 4-byte kind tag, a payload and a trailing 32-bit
//! checksum.  The library decodes such a container from bytes, regenerates
//! the rolling checksum embedded in compressed image-data payloads and the
//! whole-block checksum of every block, and encodes the corrected container
//! back to bytes.

pub mod bytes;
pub mod checksums;
pub mod chunk;
pub mod decode;
pub mod encode;
pub mod inflate;
pub mod laws;
pub mod repair;

use vstd::prelude::*;

verus! {

/// Why a repair run failed: the container was cut short in the middle of a
/// block, or a compressed image-data payload could not be inflated.
#[derive(Clone, Copy, Debug, PartialEq, Eq, Structural)]
pub enum RepairError {
    TruncatedBlock,
    Decompression,
}

} // verus!
