use vstd::prelude::*;

verus! {

/// The big-endian 16-bit value stored at position `i` of `b`.
pub open spec fn be_u16_at(b: Seq<u8>, i: int) -> u16
    recommends
        0 <= i,
        i + 2 <= b.len(),
{
    ((b[i] as u16) << 8) | (b[i + 1] as u16)
}

/// The big-endian 32-bit value stored at position `i` of `b`.
pub open spec fn be_u32_at(b: Seq<u8>, i: int) -> u32
    recommends
        0 <= i,
        i + 4 <= b.len(),
{
    ((b[i] as u32) << 24) | ((b[i + 1] as u32) << 16) | ((b[i + 2] as u32) << 8) | (b[i
        + 3] as u32)
}

/// The big-endian 64-bit value stored at position `i` of `b`.
pub open spec fn be_u64_at(b: Seq<u8>, i: int) -> u64
    recommends
        0 <= i,
        i + 8 <= b.len(),
{
    ((b[i] as u64) << 56) | ((b[i + 1] as u64) << 48) | ((b[i + 2] as u64) << 40) | ((b[i
        + 3] as u64) << 32) | ((b[i + 4] as u64) << 24) | ((b[i + 5] as u64) << 16) | ((b[i
        + 6] as u64) << 8) | (b[i + 7] as u64)
}

/// The little-endian 16-bit value stored at position `i` of `b`.
pub open spec fn le_u16_at(b: Seq<u8>, i: int) -> u16
    recommends
        0 <= i,
        i + 2 <= b.len(),
{
    (b[i] as u16) | ((b[i + 1] as u16) << 8)
}

/// The little-endian 32-bit value stored at position `i` of `b`.
pub open spec fn le_u32_at(b: Seq<u8>, i: int) -> u32
    recommends
        0 <= i,
        i + 4 <= b.len(),
{
    (b[i] as u32) | ((b[i + 1] as u32) << 8) | ((b[i + 2] as u32) << 16) | ((b[i
        + 3] as u32) << 24)
}

/// Read the big-endian 32-bit value at `pos`.
pub fn read_be_u32(data: &[u8], pos: usize) -> (r: u32)
    requires
        pos + 4 <= data@.len(),
    ensures
        r == be_u32_at(data@, pos as int),
{
    ((data[pos] as u32) << 24) | ((data[pos + 1] as u32) << 16) | ((data[pos + 2] as u32) << 8) | (
    data[pos + 3] as u32)
}

/// Read the big-endian 64-bit value at `pos`.
pub fn read_be_u64(data: &[u8], pos: usize) -> (r: u64)
    requires
        pos + 8 <= data@.len(),
    ensures
        r == be_u64_at(data@, pos as int),
{
    ((data[pos] as u64) << 56) | ((data[pos + 1] as u64) << 48) | ((data[pos + 2] as u64) << 40) | (
    (data[pos + 3] as u64) << 32) | ((data[pos + 4] as u64) << 24) | ((data[pos + 5] as u64) << 16)
        | ((data[pos + 6] as u64) << 8) | (data[pos + 7] as u64)
}

/// Read the little-endian 16-bit value at `pos`.
pub fn read_le_u16(data: &[u8], pos: usize) -> (r: u16)
    requires
        pos + 2 <= data@.len(),
    ensures
        r == le_u16_at(data@, pos as int),
{
    (data[pos] as u16) | ((data[pos + 1] as u16) << 8)
}

/// Read the little-endian 32-bit value at `pos`.
pub fn read_le_u32(data: &[u8], pos: usize) -> (r: u32)
    requires
        pos + 4 <= data@.len(),
    ensures
        r == le_u32_at(data@, pos as int),
{
    (data[pos] as u32) | ((data[pos + 1] as u32) << 8) | ((data[pos + 2] as u32) << 16) | ((data[pos
        + 3] as u32) << 24)
}

} // verus!
