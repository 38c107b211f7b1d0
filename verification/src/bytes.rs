//! Little-endian integer reads from byte buffers, with range checks.
use vstd::prelude::*;

use crate::errors::LayoutError;

verus! {

/// `size` bytes starting at `offset` lie inside `data`.
pub open spec fn in_range(data: Seq<u8>, offset: int, size: int) -> bool {
    0 <= offset && 0 <= size && offset + size <= data.len()
}

/// The little-endian `u16` stored at `offset`.
pub open spec fn le_u16(data: Seq<u8>, offset: int) -> u16 {
    (data[offset] as u16) | ((data[offset + 1] as u16) << 8u16)
}

/// The little-endian `u32` stored at `offset`.
pub open spec fn le_u32(data: Seq<u8>, offset: int) -> u32 {
    (data[offset] as u32) | ((data[offset + 1] as u32) << 8u32) | ((data[offset + 2] as u32)
        << 16u32) | ((data[offset + 3] as u32) << 24u32)
}

/// The little-endian `i32` stored at `offset` (two's complement).
pub open spec fn le_i32(data: Seq<u8>, offset: int) -> i32 {
    le_u32(data, offset) as i32
}

/// The little-endian `u64` stored at `offset`.
pub open spec fn le_u64(data: Seq<u8>, offset: int) -> u64 {
    (le_u32(data, offset) as u64) | ((le_u32(data, offset + 4) as u64) << 32u64)
}

/// What a checked read of `size` bytes at `offset` gives: the value, or `OutOfRange`.
pub open spec fn checked_read<T>(data: Seq<u8>, offset: int, size: int, value: T) -> Result<
    T,
    LayoutError,
> {
    if in_range(data, offset, size) {
        Ok(value)
    } else {
        Err(LayoutError::OutOfRange)
    }
}

pub open spec fn spec_read_u16(data: Seq<u8>, offset: int) -> Result<u16, LayoutError> {
    checked_read(data, offset, 2, le_u16(data, offset))
}

pub open spec fn spec_read_u32(data: Seq<u8>, offset: int) -> Result<u32, LayoutError> {
    checked_read(data, offset, 4, le_u32(data, offset))
}

pub open spec fn spec_read_i32(data: Seq<u8>, offset: int) -> Result<i32, LayoutError> {
    checked_read(data, offset, 4, le_i32(data, offset))
}

pub open spec fn spec_read_u64(data: Seq<u8>, offset: int) -> Result<u64, LayoutError> {
    checked_read(data, offset, 8, le_u64(data, offset))
}

/// Succeeds exactly when `size` bytes at `offset` lie inside `data`.
pub fn require_range(data: &[u8], offset: usize, size: usize) -> (r: Result<(), LayoutError>)
    ensures
        r == checked_read(data@, offset as int, size as int, ()),
{
    if offset <= data.len() && size <= data.len() - offset {
        Ok(())
    } else {
        Err(LayoutError::OutOfRange)
    }
}

/// Reads a little-endian `u16` at `offset`.
pub fn read_u16(data: &[u8], offset: usize) -> (r: Result<u16, LayoutError>)
    ensures
        r == spec_read_u16(data@, offset as int),
{
    if offset <= data.len() && 2 <= data.len() - offset {
        Ok((data[offset] as u16) | ((data[offset + 1] as u16) << 8u16))
    } else {
        Err(LayoutError::OutOfRange)
    }
}

/// Reads a little-endian `u32` at `offset`.
pub fn read_u32(data: &[u8], offset: usize) -> (r: Result<u32, LayoutError>)
    ensures
        r == spec_read_u32(data@, offset as int),
{
    if offset <= data.len() && 4 <= data.len() - offset {
        Ok(u32_at(data, offset))
    } else {
        Err(LayoutError::OutOfRange)
    }
}

/// Reads a little-endian `i32` at `offset`.
pub fn read_i32(data: &[u8], offset: usize) -> (r: Result<i32, LayoutError>)
    ensures
        r == spec_read_i32(data@, offset as int),
{
    if offset <= data.len() && 4 <= data.len() - offset {
        Ok(u32_at(data, offset) as i32)
    } else {
        Err(LayoutError::OutOfRange)
    }
}

/// Reads a little-endian `u64` at `offset`.
pub fn read_u64(data: &[u8], offset: usize) -> (r: Result<u64, LayoutError>)
    ensures
        r == spec_read_u64(data@, offset as int),
{
    if offset <= data.len() && 8 <= data.len() - offset {
        let low = u32_at(data, offset);
        let high = u32_at(data, offset + 4);
        Ok((low as u64) | ((high as u64) << 32u64))
    } else {
        Err(LayoutError::OutOfRange)
    }
}

fn u32_at(data: &[u8], offset: usize) -> (v: u32)
    requires
        in_range(data@, offset as int, 4),
    ensures
        v == le_u32(data@, offset as int),
{
    (data[offset] as u32) | ((data[offset + 1] as u32) << 8u32) | ((data[offset + 2] as u32)
        << 16u32) | ((data[offset + 3] as u32) << 24u32)
}

/// A `usize` result seen as a mathematical integer.
pub open spec fn widen(r: Result<usize, LayoutError>) -> Result<int, LayoutError> {
    match r {
        Ok(v) => Ok(v as int),
        Err(e) => Err(e),
    }
}

/// Offset of entry `index` in a table of `entry_size`-byte entries starting at `base`,
/// provided `need` bytes from there lie inside `data`; `OutOfRange` otherwise.
pub open spec fn spec_entry_offset(
    data: Seq<u8>,
    base: int,
    index: int,
    entry_size: int,
    need: int,
) -> Result<int, LayoutError> {
    checked_read(data, base + index * entry_size, need, base + index * entry_size)
}

/// Computes `base + index * entry_size` and checks that `need` bytes from there are inside `data`.
pub fn entry_offset(data: &[u8], base: usize, index: usize, entry_size: usize, need: usize) -> (r:
    Result<usize, LayoutError>)
    ensures
        widen(r) == spec_entry_offset(
            data@,
            base as int,
            index as int,
            entry_size as int,
            need as int,
        ),
{
    match index.checked_mul(entry_size) {
        None => {
            assert(index * entry_size > usize::MAX);
            assert(data@.len() == data.len());
            assert(!in_range(data@, base + index * entry_size, need as int));
            Err(LayoutError::OutOfRange)
        },
        Some(scaled) => {
            match base.checked_add(scaled) {
                None => {
                    assert(data@.len() == data.len());
                    assert(!in_range(data@, base + index * entry_size, need as int));
                    Err(LayoutError::OutOfRange)
                },
                Some(offset) => {
                    assert(offset == base + index * entry_size);
                    if offset <= data.len() && need <= data.len() - offset {
                        assert(in_range(data@, base + index * entry_size, need as int));
                        assert(spec_entry_offset(data@, base as int, index as int, entry_size as int, need as int)
                            == Ok::<int, LayoutError>(offset as int));
                        Ok(offset)
                    } else {
                        Err(LayoutError::OutOfRange)
                    }
                },
            }
        },
    }
}

} // verus!

verus! {

/// Reads a little-endian `u16` at `base + delta`.
pub fn read_u16_at(data: &[u8], base: usize, delta: usize) -> (r: Result<u16, LayoutError>)
    ensures
        r == spec_read_u16(data@, base + delta),
{
    match base.checked_add(delta) {
        Some(offset) => read_u16(data, offset),
        None => {
            assert(data@.len() == data.len());
            Err(LayoutError::OutOfRange)
        },
    }
}

/// Reads a little-endian `u32` at `base + delta`.
pub fn read_u32_at(data: &[u8], base: usize, delta: usize) -> (r: Result<u32, LayoutError>)
    ensures
        r == spec_read_u32(data@, base + delta),
{
    match base.checked_add(delta) {
        Some(offset) => read_u32(data, offset),
        None => {
            assert(data@.len() == data.len());
            Err(LayoutError::OutOfRange)
        },
    }
}

/// Reads a little-endian `i32` at `base + delta`.
pub fn read_i32_at(data: &[u8], base: usize, delta: usize) -> (r: Result<i32, LayoutError>)
    ensures
        r == spec_read_i32(data@, base + delta),
{
    match base.checked_add(delta) {
        Some(offset) => read_i32(data, offset),
        None => {
            assert(data@.len() == data.len());
            Err(LayoutError::OutOfRange)
        },
    }
}

/// Reads a little-endian `u64` at `base + delta`.
pub fn read_u64_at(data: &[u8], base: usize, delta: usize) -> (r: Result<u64, LayoutError>)
    ensures
        r == spec_read_u64(data@, base + delta),
{
    match base.checked_add(delta) {
        Some(offset) => read_u64(data, offset),
        None => {
            assert(data@.len() == data.len());
            Err(LayoutError::OutOfRange)
        },
    }
}

} // verus!
