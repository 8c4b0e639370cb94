//! Little-endian integers in a byte region.
//!
//! Reads and writes are panic-free: one that runs past the region reads back
//! `0`, or writes nothing.

use vstd::prelude::*;

use crate::buffer::mmap::MmapRegion;

verus! {

/// Whether `width` bytes at `at` lie within `bytes`.
pub open spec fn fits(bytes: Seq<u8>, at: int, width: int) -> bool {
    0 <= at && at + width <= bytes.len()
}

/// The little-endian 16-bit value at `at`.
pub open spec fn le16(bytes: Seq<u8>, at: int) -> int {
    bytes[at] + 0x100 * bytes[at + 1]
}

/// The little-endian 32-bit value at `at`.
pub open spec fn le32(bytes: Seq<u8>, at: int) -> int {
    le16(bytes, at) + 0x1_0000 * le16(bytes, at + 2)
}

/// The little-endian 64-bit value at `at`.
pub open spec fn le64(bytes: Seq<u8>, at: int) -> int {
    le32(bytes, at) + 0x1_0000_0000 * le32(bytes, at + 4)
}

/// The little-endian two's-complement 32-bit value at `at`.
pub open spec fn le_i32(bytes: Seq<u8>, at: int) -> int {
    if le32(bytes, at) < 0x8000_0000 {
        le32(bytes, at)
    } else {
        le32(bytes, at) - 0x1_0000_0000
    }
}

/// Whether `after` differs from `before` at most in the `width` bytes at `at`.
pub open spec fn only_changed(before: Seq<u8>, after: Seq<u8>, at: int, width: int) -> bool {
    &&& after.len() == before.len()
    &&& forall|index: int|
        0 <= index < before.len() && !(at <= index < at + width) ==> #[trigger] after[index]
            == before[index]
}

/// Reads a little-endian `u16` at `offset` in `region`.
pub fn read_u16(region: &MmapRegion, offset: usize) -> (value: u16)
    ensures
        fits(region@, offset as int, 2) ==> value == le16(region@, offset as int),
        !fits(region@, offset as int, 2) ==> value == 0,
{
    if offset > region.len() || region.len() - offset < 2 {
        return 0;
    }
    region.get(offset) as u16 + 0x100 * (region.get(offset + 1) as u16)
}

/// Writes a little-endian `u16` at `offset` in `region`.
pub fn write_u16(region: &mut MmapRegion, offset: usize, value: u16)
    ensures
        fits(old(region)@, offset as int, 2) ==> {
            &&& le16(final(region)@, offset as int) == value
            &&& only_changed(old(region)@, final(region)@, offset as int, 2)
        },
        !fits(old(region)@, offset as int, 2) ==> final(region)@ == old(region)@,
{
    if offset > region.len() || region.len() - offset < 2 {
        return;
    }
    region.set(offset, (value % 0x100) as u8);
    region.set(offset + 1, (value / 0x100) as u8);
}

/// Reads a little-endian `u32` at `offset` in `region`.
pub fn read_u32(region: &MmapRegion, offset: usize) -> (value: u32)
    ensures
        fits(region@, offset as int, 4) ==> value == le32(region@, offset as int),
        !fits(region@, offset as int, 4) ==> value == 0,
{
    if offset > region.len() || region.len() - offset < 4 {
        return 0;
    }
    let low: u32 = read_u16(region, offset) as u32;
    let high: u32 = read_u16(region, offset + 2) as u32;
    low + 0x1_0000 * high
}

/// Writes a little-endian `u32` at `offset` in `region`.
pub fn write_u32(region: &mut MmapRegion, offset: usize, value: u32)
    ensures
        fits(old(region)@, offset as int, 4) ==> {
            &&& le32(final(region)@, offset as int) == value
            &&& only_changed(old(region)@, final(region)@, offset as int, 4)
        },
        !fits(old(region)@, offset as int, 4) ==> final(region)@ == old(region)@,
{
    if offset > region.len() || region.len() - offset < 4 {
        return;
    }
    write_u16(region, offset, (value % 0x1_0000) as u16);
    write_u16(region, offset + 2, (value / 0x1_0000) as u16);
}

/// Reads a little-endian `u64` at `offset` in `region`.
pub fn read_u64(region: &MmapRegion, offset: usize) -> (value: u64)
    ensures
        fits(region@, offset as int, 8) ==> value == le64(region@, offset as int),
        !fits(region@, offset as int, 8) ==> value == 0,
{
    if offset > region.len() || region.len() - offset < 8 {
        return 0;
    }
    let low: u64 = read_u32(region, offset) as u64;
    let high: u64 = read_u32(region, offset + 4) as u64;
    low + 0x1_0000_0000 * high
}

/// Writes a little-endian `u64` at `offset` in `region`.
pub fn write_u64(region: &mut MmapRegion, offset: usize, value: u64)
    ensures
        fits(old(region)@, offset as int, 8) ==> {
            &&& le64(final(region)@, offset as int) == value
            &&& only_changed(old(region)@, final(region)@, offset as int, 8)
        },
        !fits(old(region)@, offset as int, 8) ==> final(region)@ == old(region)@,
{
    if offset > region.len() || region.len() - offset < 8 {
        return;
    }
    write_u32(region, offset, (value % 0x1_0000_0000) as u32);
    write_u32(region, offset + 4, (value / 0x1_0000_0000) as u32);
}

/// Reads a little-endian `i32` at `offset` in `region`.
pub fn read_i32(region: &MmapRegion, offset: usize) -> (value: i32)
    ensures
        fits(region@, offset as int, 4) ==> value == le_i32(region@, offset as int),
        !fits(region@, offset as int, 4) ==> value == 0,
{
    let raw: u32 = read_u32(region, offset);
    if raw < 0x8000_0000 {
        raw as i32
    } else {
        (raw as i64 - 0x1_0000_0000) as i32
    }
}

/// Writes a little-endian `i32` at `offset` in `region`.
pub fn write_i32(region: &mut MmapRegion, offset: usize, value: i32)
    ensures
        fits(old(region)@, offset as int, 4) ==> {
            &&& le_i32(final(region)@, offset as int) == value
            &&& only_changed(old(region)@, final(region)@, offset as int, 4)
        },
        !fits(old(region)@, offset as int, 4) ==> final(region)@ == old(region)@,
{
    let raw: u32 = if value >= 0 {
        value as u32
    } else {
        (value as i64 + 0x1_0000_0000) as u32
    };
    write_u32(region, offset, raw);
}

} // verus!
