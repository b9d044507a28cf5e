use vstd::prelude::*;

verus! {

/// The two-byte big-endian value at `p`.
pub open spec fn be16(d: Seq<u8>, p: int) -> nat
    recommends
        0 <= p,
        p + 2 <= d.len(),
{
    d[p] as nat * 0x100 + d[p + 1] as nat
}

/// The three-byte big-endian value at `p`.
pub open spec fn be24(d: Seq<u8>, p: int) -> nat
    recommends
        0 <= p,
        p + 3 <= d.len(),
{
    d[p] as nat * 0x10000 + d[p + 1] as nat * 0x100 + d[p + 2] as nat
}

/// The four-byte big-endian value at `p`.
pub open spec fn be32(d: Seq<u8>, p: int) -> nat
    recommends
        0 <= p,
        p + 4 <= d.len(),
{
    d[p] as nat * 0x1000000 + d[p + 1] as nat * 0x10000 + d[p + 2] as nat * 0x100 + d[p
        + 3] as nat
}

/// The eight-byte big-endian value at `p`.
pub open spec fn be64(d: Seq<u8>, p: int) -> nat
    recommends
        0 <= p,
        p + 8 <= d.len(),
{
    be32(d, p) * 0x100000000 + be32(d, p + 4)
}

/// The byte reinterpreted as a signed two's-complement value.
pub open spec fn as_i8(x: u8) -> i8 {
    if x < 0x80 {
        x as i8
    } else {
        (x - 0x100) as i8
    }
}

pub open spec fn as_i16(x: u16) -> i16 {
    if x < 0x8000 {
        x as i16
    } else {
        (x - 0x10000) as i16
    }
}

pub open spec fn as_i32(x: u32) -> i32 {
    if x < 0x80000000 {
        x as i32
    } else {
        (x - 0x100000000) as i32
    }
}

pub open spec fn as_i64(x: u64) -> i64 {
    if x < 0x8000000000000000 {
        x as i64
    } else {
        (x - 0x10000000000000000) as i64
    }
}

pub fn to_i8(x: u8) -> (r: i8)
    ensures
        r == as_i8(x),
{
    if x < 0x80 {
        x as i8
    } else {
        -((0xffu8 - x) as i8) - 1
    }
}

pub fn to_i16(x: u16) -> (r: i16)
    ensures
        r == as_i16(x),
{
    if x < 0x8000 {
        x as i16
    } else {
        -((0xffffu16 - x) as i16) - 1
    }
}

pub fn to_i32(x: u32) -> (r: i32)
    ensures
        r == as_i32(x),
{
    if x < 0x80000000 {
        x as i32
    } else {
        -((0xffffffffu32 - x) as i32) - 1
    }
}

pub fn to_i64(x: u64) -> (r: i64)
    ensures
        r == as_i64(x),
{
    if x < 0x8000000000000000 {
        x as i64
    } else {
        -((0xffffffffffffffffu64 - x) as i64) - 1
    }
}

/// Reads the two-byte big-endian integer at `off`.
pub fn get_u16(data: &[u8], off: usize) -> (r: u16)
    requires
        off + 2 <= data@.len(),
    ensures
        r as nat == be16(data@, off as int),
{
    (data[off] as u16) * 0x100 + (data[off + 1] as u16)
}

/// Reads the four-byte big-endian integer at `off`.
pub fn get_u32(data: &[u8], off: usize) -> (r: u32)
    requires
        off + 4 <= data@.len(),
    ensures
        r as nat == be32(data@, off as int),
{
    (data[off] as u32) * 0x1000000 + (data[off + 1] as u32) * 0x10000 + (data[off + 2] as u32)
        * 0x100 + (data[off + 3] as u32)
}

/// Reads the eight-byte big-endian integer at `off`.
pub fn get_u64(data: &[u8], off: usize) -> (r: u64)
    requires
        off + 8 <= data@.len(),
    ensures
        r as nat == be64(data@, off as int),
{
    let n: usize = data.len();
    let hi = get_u32(data, off);
    let lo = get_u32(data, off + 4);
    (hi as u64) * 0x100000000 + (lo as u64)
}

} // verus!
