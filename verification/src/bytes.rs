//! Big-endian integer fields read from a byte buffer at a given offset.

use vstd::prelude::*;

verus! {

/// The 16-bit value whose big-endian encoding is the two bytes `hi`, `lo`.
pub open spec fn be16(hi: u8, lo: u8) -> int {
    hi as int * 256 + lo as int
}

/// The 32-bit value whose big-endian encoding is the four bytes `b0..b3`.
pub open spec fn be32(b0: u8, b1: u8, b2: u8, b3: u8) -> int {
    b0 as int * 16777216 + b1 as int * 65536 + b2 as int * 256 + b3 as int
}

/// The big-endian 16-bit field at offset `off` of `b`, where the buffer
/// holds both of its bytes.
pub open spec fn spec_be_u16(b: Seq<u8>, off: int) -> Option<u16> {
    if 0 <= off && off + 2 <= b.len() {
        Some(be16(b[off], b[off + 1]) as u16)
    } else {
        None
    }
}

/// The big-endian 32-bit field at offset `off` of `b`, where the buffer
/// holds all four of its bytes.
pub open spec fn spec_be_u32(b: Seq<u8>, off: int) -> Option<u32> {
    if 0 <= off && off + 4 <= b.len() {
        Some(be32(b[off], b[off + 1], b[off + 2], b[off + 3]) as u32)
    } else {
        None
    }
}

/// Reads a big-endian `u16` at `off`; `None` when the field does not lie
/// wholly inside `b`.
pub fn be_u16(b: &[u8], off: usize) -> (r: Option<u16>)
    ensures
        r == spec_be_u16(b@, off as int),
{
    let n: usize = b.len();
    if n < 2 || off > n - 2 {
        return None;
    }
    let hi: u16 = b[off] as u16;
    let lo: u16 = b[off + 1] as u16;
    Some(hi * 256 + lo)
}

/// Reads a big-endian `u32` at `off`; `None` when the field does not lie
/// wholly inside `b`.
pub fn be_u32(b: &[u8], off: usize) -> (r: Option<u32>)
    ensures
        r == spec_be_u32(b@, off as int),
{
    let n: usize = b.len();
    if n < 4 || off > n - 4 {
        return None;
    }
    let b0: u32 = b[off] as u32;
    let b1: u32 = b[off + 1] as u32;
    let b2: u32 = b[off + 2] as u32;
    let b3: u32 = b[off + 3] as u32;
    Some(b0 * 16777216 + b1 * 65536 + b2 * 256 + b3)
}

} // verus!
