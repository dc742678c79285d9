//! Little-endian readers for the firmware byte buffers.
//!
//! Firmware tables store multi-byte fields least-significant byte first;
//! the spec functions give each field's value as a mathematical integer,
//! and the executable readers are proved to return exactly that value.

use vstd::prelude::*;

verus! {

/// The 16-bit little-endian value stored at offset `i`.
pub open spec fn le16(s: Seq<u8>, i: int) -> int {
    s[i] + 0x100 * s[i + 1]
}

/// The 32-bit little-endian value stored at offset `i`.
pub open spec fn le32(s: Seq<u8>, i: int) -> int {
    s[i] + 0x100 * s[i + 1] + 0x1_0000 * s[i + 2] + 0x100_0000 * s[i + 3]
}

/// The 64-bit little-endian value stored at offset `i`.
pub open spec fn le64(s: Seq<u8>, i: int) -> int {
    le32(s, i) + 0x1_0000_0000 * le32(s, i + 4)
}

/// Reads the little-endian `u16` at offset `i`.
pub fn read_le_u16(data: &Vec<u8>, i: usize) -> (r: u16)
    requires
        i + 2 <= data@.len(),
    ensures
        r == le16(data@, i as int),
{
    let n = data.len();
    assert(i + 2 <= n);
    let b0 = data[i] as u16;
    let b1 = data[i + 1] as u16;
    b0 + b1 * 0x100
}

/// Reads the little-endian `u32` at offset `i`.
pub fn read_le_u32(data: &Vec<u8>, i: usize) -> (r: u32)
    requires
        i + 4 <= data@.len(),
    ensures
        r == le32(data@, i as int),
{
    let n = data.len();
    assert(i + 4 <= n);
    let b0 = data[i] as u32;
    let b1 = data[i + 1] as u32;
    let b2 = data[i + 2] as u32;
    let b3 = data[i + 3] as u32;
    b0 + b1 * 0x100 + b2 * 0x1_0000 + b3 * 0x100_0000
}

/// Reads the little-endian `u64` at offset `i`.
pub fn read_le_u64(data: &Vec<u8>, i: usize) -> (r: u64)
    requires
        i + 8 <= data@.len(),
    ensures
        r == le64(data@, i as int),
{
    let n = data.len();
    assert(i + 8 <= n);
    let lo = read_le_u32(data, i) as u64;
    let hi = read_le_u32(data, i + 4) as u64;
    lo + hi * 0x1_0000_0000
}

/// Copies a byte buffer.
pub fn copy_bytes(src: &Vec<u8>) -> (r: Vec<u8>)
    ensures
        r@ == src@,
{
    let mut out: Vec<u8> = Vec::new();
    let mut k: usize = 0;
    while k < src.len()
        invariant
            k <= src@.len(),
            out@ == src@.subrange(0, k as int),
        decreases src@.len() - k,
    {
        out.push(src[k]);
        proof {
            assert(out@ =~= src@.subrange(0, k + 1));
        }
        k = k + 1;
    }
    proof {
        assert(out@ =~= src@);
    }
    out
}

} // verus!
