//! Fixed-width integers decoded from kernel byte buffers.
//!
//! Kernel records are read on the host that wrote them and are in its byte
//! order; the supported hosts (FreeBSD and macOS on amd64 and arm64) are
//! little-endian, so multi-byte fields are decoded little-endian. Port
//! numbers in `inpcb` records are in network (big-endian) order.

use vstd::prelude::*;

verus! {

/// The little-endian `u16` at `off`.
pub open spec fn le_u16(b: Seq<u8>, off: int) -> u16 {
    (b[off] as int + 256 * b[off + 1]) as u16
}

/// The big-endian `u16` at `off`.
pub open spec fn be_u16(b: Seq<u8>, off: int) -> u16 {
    (256 * b[off] + b[off + 1] as int) as u16
}

/// The little-endian `u32` at `off`.
pub open spec fn le_u32(b: Seq<u8>, off: int) -> u32 {
    (b[off] as int + 0x100 * b[off + 1] + 0x1_0000 * b[off + 2] + 0x100_0000 * b[off + 3]) as u32
}

/// The little-endian two's complement `i32` at `off`.
pub open spec fn le_i32(b: Seq<u8>, off: int) -> i32 {
    le_u32(b, off) as i32
}

/// The little-endian `u64` at `off`.
pub open spec fn le_u64(b: Seq<u8>, off: int) -> u64 {
    (le_u32(b, off) as int + 0x1_0000_0000 * le_u32(b, off + 4)) as u64
}

/// Reads the little-endian `u16` at `off`.
pub fn read_le_u16(b: &[u8], off: usize) -> (r: u16)
    requires
        off + 2 <= b@.len(),
    ensures
        r == le_u16(b@, off as int),
{
    b[off] as u16 + (b[off + 1] as u16) * 256
}

/// Reads the big-endian `u16` at `off`.
pub fn read_be_u16(b: &[u8], off: usize) -> (r: u16)
    requires
        off + 2 <= b@.len(),
    ensures
        r == be_u16(b@, off as int),
{
    (b[off] as u16) * 256 + b[off + 1] as u16
}

/// Reads the little-endian `u32` at `off`.
pub fn read_le_u32(b: &[u8], off: usize) -> (r: u32)
    requires
        off + 4 <= b@.len(),
    ensures
        r == le_u32(b@, off as int),
{
    b[off] as u32 + (b[off + 1] as u32) * 0x100 + (b[off + 2] as u32) * 0x1_0000 + (b[off + 3]
        as u32) * 0x100_0000
}

/// Reads the little-endian `i32` at `off`.
pub fn read_le_i32(b: &[u8], off: usize) -> (r: i32)
    requires
        off + 4 <= b@.len(),
    ensures
        r == le_i32(b@, off as int),
{
    read_le_u32(b, off) as i32
}

/// Reads the little-endian `u64` at `off`.
pub fn read_le_u64(b: &[u8], off: usize) -> (r: u64)
    requires
        off + 8 <= b@.len(),
    ensures
        r == le_u64(b@, off as int),
{
    proof {
        // A slice's length fits in `usize`, so `off + 4` does not overflow.
        assert(b.len() == b@.len());
    }
    let lo = read_le_u32(b, off) as u64;
    let hi = read_le_u32(b, off + 4) as u64;
    lo + hi * 0x1_0000_0000
}

} // verus!
