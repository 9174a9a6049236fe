//! Big-endian integer readers over a byte window.
//!
//! All GPMF payload values are stored big-endian.

use vstd::prelude::*;

verus! {

/// The big-endian value of the two bytes at `pos`.
pub open spec fn be16(data: Seq<u8>, pos: int) -> int
    recommends
        0 <= pos,
        pos + 2 <= data.len(),
{
    data[pos] * 0x100 + data[pos + 1]
}

/// The big-endian value of the four bytes at `pos`.
pub open spec fn be32(data: Seq<u8>, pos: int) -> int
    recommends
        0 <= pos,
        pos + 4 <= data.len(),
{
    data[pos] * 0x100_0000 + data[pos + 1] * 0x1_0000 + data[pos + 2] * 0x100 + data[pos + 3]
}

/// The big-endian value of the eight bytes at `pos`.
pub open spec fn be64(data: Seq<u8>, pos: int) -> int
    recommends
        0 <= pos,
        pos + 8 <= data.len(),
{
    be32(data, pos) * 0x1_0000_0000 + be32(data, pos + 4)
}

/// The value of an unsigned word reinterpreted as two's-complement signed,
/// for a word of `2^bits` values.
pub open spec fn signed(u: int, half: int) -> int {
    if u < half {
        u
    } else {
        u - 2 * half
    }
}

pub fn be_u16(data: &[u8], pos: usize) -> (r: u16)
    requires
        pos + 2 <= data@.len(),
    ensures
        r as int == be16(data@, pos as int),
{
    data[pos] as u16 * 0x100 + data[pos + 1] as u16
}

pub fn be_u32(data: &[u8], pos: usize) -> (r: u32)
    requires
        pos + 4 <= data@.len(),
    ensures
        r as int == be32(data@, pos as int),
{
    data[pos] as u32 * 0x100_0000 + data[pos + 1] as u32 * 0x1_0000 + data[pos + 2] as u32 * 0x100
        + data[pos + 3] as u32
}

pub fn be_u64(data: &[u8], pos: usize) -> (r: u64)
    requires
        pos + 8 <= data@.len(),
    ensures
        r as int == be64(data@, pos as int),
{
    let n = data.len();
    proof {
        assert(pos + 4 <= n);
    }
    let hi = be_u32(data, pos);
    let lo = be_u32(data, pos + 4);
    hi as u64 * 0x1_0000_0000 + lo as u64
}

pub fn be_i8(data: &[u8], pos: usize) -> (r: i8)
    requires
        pos + 1 <= data@.len(),
    ensures
        r as int == signed(data@[pos as int] as int, 0x80),
{
    let u = data[pos];
    if u >= 0x80 {
        -((0xffu8 - u) as i8) - 1
    } else {
        u as i8
    }
}

pub fn be_i16(data: &[u8], pos: usize) -> (r: i16)
    requires
        pos + 2 <= data@.len(),
    ensures
        r as int == signed(be16(data@, pos as int), 0x8000),
{
    let u = be_u16(data, pos);
    if u >= 0x8000 {
        -((0xffffu16 - u) as i16) - 1
    } else {
        u as i16
    }
}

pub fn be_i32(data: &[u8], pos: usize) -> (r: i32)
    requires
        pos + 4 <= data@.len(),
    ensures
        r as int == signed(be32(data@, pos as int), 0x8000_0000),
{
    let u = be_u32(data, pos);
    if u >= 0x8000_0000 {
        -((0xffff_ffffu32 - u) as i32) - 1
    } else {
        u as i32
    }
}

pub fn be_i64(data: &[u8], pos: usize) -> (r: i64)
    requires
        pos + 8 <= data@.len(),
    ensures
        r as int == signed(be64(data@, pos as int), 0x8000_0000_0000_0000),
{
    let u = be_u64(data, pos);
    if u >= 0x8000_0000_0000_0000 {
        -((0xffff_ffff_ffff_ffffu64 - u) as i64) - 1
    } else {
        u as i64
    }
}

/// The little-endian value of the four bytes at `pos`; identifier records
/// beside the telemetry store their words this way round.
pub open spec fn le32(data: Seq<u8>, pos: int) -> int
    recommends
        0 <= pos,
        pos + 4 <= data.len(),
{
    data[pos + 3] * 0x100_0000 + data[pos + 2] * 0x1_0000 + data[pos + 1] * 0x100 + data[pos]
}

pub fn le_u32(data: &[u8], pos: usize) -> (r: u32)
    requires
        pos + 4 <= data@.len(),
    ensures
        r as int == le32(data@, pos as int),
{
    let n = data.len();
    proof {
        assert(pos + 3 < n);
    }
    data[pos + 3] as u32 * 0x100_0000 + data[pos + 2] as u32 * 0x1_0000 + data[pos + 1] as u32
        * 0x100 + data[pos] as u32
}

} // verus!
