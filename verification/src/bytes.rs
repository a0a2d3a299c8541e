//! Little-endian integer fields read out of byte payloads.
//!
//! Every multi-byte integer in the container format is stored least
//! significant byte first. The spec functions here are the mathematical
//! meaning of such a field; the exec functions read one and are proved to
//! return exactly that value.

use vstd::prelude::*;

verus! {

/// The 16-bit little-endian value stored at offset `off` of `p`.
pub open spec fn le_u16_at(p: Seq<u8>, off: int) -> u16
    recommends
        0 <= off,
        off + 2 <= p.len(),
{
    (p[off] + p[off + 1] * 0x100) as u16
}

/// The 64-bit little-endian value stored at offset `off` of `p`.
pub open spec fn le_u64_at(p: Seq<u8>, off: int) -> u64
    recommends
        0 <= off,
        off + 8 <= p.len(),
{
    (p[off] + p[off + 1] * 0x100 + p[off + 2] * 0x1_0000 + p[off + 3] * 0x100_0000 + p[off + 4]
        * 0x1_0000_0000 + p[off + 5] * 0x100_0000_0000 + p[off + 6] * 0x1_0000_0000_0000 + p[off
        + 7] * 0x100_0000_0000_0000) as u64
}

/// Reads the 16-bit little-endian field at offset `off` of `p`.
pub fn read_u16_at(p: &[u8], off: usize) -> (r: u16)
    requires
        off + 2 <= p@.len(),
    ensures
        r == le_u16_at(p@, off as int),
{
    (p[off] as u16) + (p[off + 1] as u16) * 0x100
}

/// Reads the 64-bit little-endian field at offset `off` of `p`.
pub fn read_u64_at(p: &[u8], off: usize) -> (r: u64)
    requires
        off + 8 <= p@.len(),
    ensures
        r == le_u64_at(p@, off as int),
{
    (p[off] as u64) + (p[off + 1] as u64) * 0x100 + (p[off + 2] as u64) * 0x1_0000 + (p[off
        + 3] as u64) * 0x100_0000 + (p[off + 4] as u64) * 0x1_0000_0000 + (p[off + 5] as u64)
        * 0x100_0000_0000 + (p[off + 6] as u64) * 0x1_0000_0000_0000 + (p[off + 7] as u64)
        * 0x100_0000_0000_0000
}

} // verus!
