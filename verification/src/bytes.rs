//! Little-endian integers in byte strings.
use vstd::prelude::*;

verus! {

/// Unsigned 16-bit little-endian value at `i`.
pub open spec fn le_u16(b: Seq<u8>, i: int) -> u16 {
    (b[i] + 256 * b[i + 1]) as u16
}

/// Signed 16-bit little-endian (two's complement) value at `i`.
pub open spec fn le_i16(b: Seq<u8>, i: int) -> i16 {
    let u = le_u16(b, i);
    if u >= 32768 {
        (u - 65536) as i16
    } else {
        u as i16
    }
}

/// Unsigned 32-bit little-endian value at `i`.
pub open spec fn le_u32(b: Seq<u8>, i: int) -> u32 {
    (b[i] + 256 * b[i + 1] + 65536 * b[i + 2] + 16777216 * b[i + 3]) as u32
}

/// Signed byte (two's complement).
pub open spec fn as_i8(x: u8) -> i8 {
    if x >= 128 {
        (x - 256) as i8
    } else {
        x as i8
    }
}

pub fn read_le_u16(b: &[u8], i: usize) -> (r: u16)
    requires
        i + 2 <= b@.len(),
    ensures
        r == le_u16(b@, i as int),
{
    b[i] as u16 + (b[i + 1] as u16) * 256
}

pub fn read_le_i16(b: &[u8], i: usize) -> (r: i16)
    requires
        i + 2 <= b@.len(),
    ensures
        r == le_i16(b@, i as int),
{
    let u = read_le_u16(b, i);
    if u >= 32768 {
        (u as i32 - 65536) as i16
    } else {
        u as i16
    }
}

pub fn read_le_u32(b: &[u8], i: usize) -> (r: u32)
    requires
        i + 4 <= b@.len(),
    ensures
        r == le_u32(b@, i as int),
{
    b[i] as u32 + (b[i + 1] as u32) * 256 + (b[i + 2] as u32) * 65536 + (b[i + 3] as u32) * 16777216
}

pub fn byte_as_i8(x: u8) -> (r: i8)
    ensures
        r == as_i8(x),
{
    if x >= 128 {
        (x as i16 - 256) as i8
    } else {
        x as i8
    }
}

} // verus!
