//! Big-endian 32-bit fields, as the container stores lengths and checksums.

use vstd::prelude::*;

verus! {

/// The value of four bytes read as a big-endian 32-bit unsigned integer.
pub open spec fn be32(b: Seq<u8>) -> int
    recommends
        b.len() == 4,
{
    b[0] * 0x100_0000 + b[1] * 0x1_0000 + b[2] * 0x100 + b[3]
}

/// The four big-endian bytes of a 32-bit unsigned integer.
pub open spec fn be32_bytes(v: u32) -> Seq<u8> {
    seq![
        (v / 0x100_0000) as u8,
        ((v / 0x1_0000) % 0x100) as u8,
        ((v / 0x100) % 0x100) as u8,
        (v % 0x100) as u8,
    ]
}

/// Writing a value and reading it back is the identity.
pub proof fn lemma_be32_roundtrip(v: u32)
    ensures
        be32(be32_bytes(v)) == v,
        be32_bytes(v).len() == 4,
{
    assert(be32(be32_bytes(v)) == v) by (nonlinear_arith);
}

/// Reads the big-endian 32-bit value stored in four bytes.
pub fn read_be32(b0: u8, b1: u8, b2: u8, b3: u8) -> (v: u32)
    ensures
        v == be32(seq![b0, b1, b2, b3]),
{
    proof {
        assert(be32(seq![b0, b1, b2, b3]) <= 0xFFFF_FFFF) by (nonlinear_arith);
    }
    (b0 as u32) * 0x100_0000 + (b1 as u32) * 0x1_0000 + (b2 as u32) * 0x100 + (b3 as u32)
}

/// Writes a 32-bit value as its four big-endian bytes.
pub fn write_be32(v: u32) -> (b: Vec<u8>)
    ensures
        b@ == be32_bytes(v),
{
    let mut b: Vec<u8> = Vec::new();
    b.push((v / 0x100_0000) as u8);
    b.push(((v / 0x1_0000) % 0x100) as u8);
    b.push(((v / 0x100) % 0x100) as u8);
    b.push((v % 0x100) as u8);
    proof {
        assert(b@ =~= be32_bytes(v));
    }
    b
}

/// Appends a copy of the bytes of `src` to `out`.
pub fn append_bytes(out: &mut Vec<u8>, src: &Vec<u8>)
    ensures
        final(out)@ == old(out)@ + src@,
{
    let mut k: usize = 0;
    while k < src.len()
        invariant
            k <= src@.len(),
            out@ == old(out)@ + src@.subrange(0, k as int),
        decreases src@.len() - k,
    {
        out.push(src[k]);
        k = k + 1;
        proof {
            assert(out@ =~= old(out)@ + src@.subrange(0, k as int));
        }
    }
    proof {
        assert(out@ =~= old(out)@ + src@);
    }
}

/// Copies the bytes of `v` from index `i` (inclusive) to `j` (exclusive).
pub fn subvec(v: &Vec<u8>, i: usize, j: usize) -> (r: Vec<u8>)
    requires
        i <= j <= v@.len(),
    ensures
        r@ == v@.subrange(i as int, j as int),
{
    let mut r: Vec<u8> = Vec::new();
    let mut k: usize = i;
    while k < j
        invariant
            i <= k <= j <= v@.len(),
            r@ == v@.subrange(i as int, k as int),
        decreases j - k,
    {
        r.push(v[k]);
        k = k + 1;
        proof {
            assert(r@ =~= v@.subrange(i as int, k as int));
        }
    }
    r
}

} // verus!
