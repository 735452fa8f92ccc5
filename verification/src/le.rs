//! Little-endian layouts of the fixed-width integers that appear on the wire.

use vstd::prelude::*;

verus! {

/// The two bytes of `x`, least significant first.
pub open spec fn le16(x: u16) -> Seq<u8> {
    seq![(x % 0x100) as u8, (x / 0x100) as u8]
}

/// The four bytes of `x`, least significant first.
pub open spec fn le32(x: u32) -> Seq<u8> {
    seq![
        (x % 0x100) as u8,
        (x / 0x100 % 0x100) as u8,
        (x / 0x1_0000 % 0x100) as u8,
        (x / 0x100_0000) as u8,
    ]
}

/// The eight bytes of `x`, least significant first.
pub open spec fn le64(x: u64) -> Seq<u8> {
    seq![
        (x % 0x100) as u8,
        (x / 0x100 % 0x100) as u8,
        (x / 0x1_0000 % 0x100) as u8,
        (x / 0x100_0000 % 0x100) as u8,
        (x / 0x1_0000_0000 % 0x100) as u8,
        (x / 0x100_0000_0000 % 0x100) as u8,
        (x / 0x1_0000_0000_0000 % 0x100) as u8,
        (x / 0x100_0000_0000_0000) as u8,
    ]
}

/// The two's complement bit pattern of `v`.
pub open spec fn i8_bits(v: i8) -> u8 {
    if v >= 0 {
        v as u8
    } else {
        (v + 0x100) as u8
    }
}

/// The two's complement bit pattern of `v`.
pub open spec fn i16_bits(v: i16) -> u16 {
    if v >= 0 {
        v as u16
    } else {
        (v + 0x1_0000) as u16
    }
}

/// The two's complement bit pattern of `v`.
pub open spec fn i32_bits(v: i32) -> u32 {
    if v >= 0 {
        v as u32
    } else {
        (v + 0x1_0000_0000) as u32
    }
}

/// The two's complement bit pattern of `v`.
pub open spec fn i64_bits(v: i64) -> u64 {
    if v >= 0 {
        v as u64
    } else {
        (v + 0x1_0000_0000_0000_0000) as u64
    }
}

/// The number whose two's complement bit pattern is `bits`.
pub open spec fn i8_of_bits(bits: u8) -> i8 {
    if bits < 0x80 {
        bits as i8
    } else {
        (bits - 0x100) as i8
    }
}

/// The number whose two's complement bit pattern is `bits`.
pub open spec fn i16_of_bits(bits: u16) -> i16 {
    if bits < 0x8000 {
        bits as i16
    } else {
        (bits - 0x1_0000) as i16
    }
}

/// The number whose two's complement bit pattern is `bits`.
pub open spec fn i32_of_bits(bits: u32) -> i32 {
    if bits < 0x8000_0000 {
        bits as i32
    } else {
        (bits - 0x1_0000_0000) as i32
    }
}

/// The number whose two's complement bit pattern is `bits`.
pub open spec fn i64_of_bits(bits: u64) -> i64 {
    if bits < 0x8000_0000_0000_0000 {
        bits as i64
    } else {
        (bits - 0x1_0000_0000_0000_0000) as i64
    }
}

/// The number that two little-endian bytes stand for.
pub open spec fn from_le16(b: Seq<u8>) -> u16 {
    (b[0] + 0x100 * b[1]) as u16
}

/// The number that four little-endian bytes stand for.
pub open spec fn from_le32(b: Seq<u8>) -> u32 {
    (b[0] + 0x100 * b[1] + 0x1_0000 * b[2] + 0x100_0000 * b[3]) as u32
}

/// The number that eight little-endian bytes stand for.
pub open spec fn from_le64(b: Seq<u8>) -> u64 {
    (b[0] + 0x100 * b[1] + 0x1_0000 * b[2] + 0x100_0000 * b[3] + 0x1_0000_0000 * b[4]
        + 0x100_0000_0000 * b[5] + 0x1_0000_0000_0000 * b[6] + 0x100_0000_0000_0000 * b[7]) as u64
}

/// Reading the bytes of a `u16` back gives the `u16`.
pub proof fn lemma_le16_round_trip(x: u16)
    ensures
        le16(x).len() == 2,
        from_le16(le16(x)) == x,
{
}

/// Reading the bytes of a `u32` back gives the `u32`.
pub proof fn lemma_le32_round_trip(x: u32)
    ensures
        le32(x).len() == 4,
        from_le32(le32(x)) == x,
{
    let q1 = x / 0x100;
    let q2 = x / 0x1_0000;
    let q3 = x / 0x100_0000;
    assert(q2 == q1 / 0x100);
    assert(q3 == q2 / 0x100);
    assert(x == x % 0x100 + 0x100 * q1);
    assert(q1 == q1 % 0x100 + 0x100 * q2);
    assert(q2 == q2 % 0x100 + 0x100 * q3);
}

/// Reading the bytes of a `u64` back gives the `u64`.
pub proof fn lemma_le64_round_trip(x: u64)
    ensures
        le64(x).len() == 8,
        from_le64(le64(x)) == x,
{
    let q1 = x / 0x100;
    let q2 = x / 0x1_0000;
    let q3 = x / 0x100_0000;
    let q4 = x / 0x1_0000_0000;
    let q5 = x / 0x100_0000_0000;
    let q6 = x / 0x1_0000_0000_0000;
    let q7 = x / 0x100_0000_0000_0000;
    assert(q2 == q1 / 0x100);
    assert(q3 == q2 / 0x100);
    assert(q4 == q3 / 0x100);
    assert(q5 == q4 / 0x100);
    assert(q6 == q5 / 0x100);
    assert(q7 == q6 / 0x100);
    let b = le64(x);
    assert(b[0] == x - 0x100 * q1);
    assert(b[1] == q1 - 0x100 * q2);
    assert(b[2] == q2 - 0x100 * q3);
    assert(b[3] == q3 - 0x100 * q4);
    assert(b[4] == q4 - 0x100 * q5);
    assert(b[5] == q5 - 0x100 * q6);
    assert(b[6] == q6 - 0x100 * q7);
    assert(b[7] == q7);
}

/// The bytes of `x` as `u16::to_le_bytes` lays them out.
pub fn u16_le(x: u16) -> (b: [u8; 2])
    ensures
        b@ == le16(x),
{
    let b: [u8; 2] = [(x % 0x100) as u8, (x / 0x100) as u8];
    assert(b@ =~= le16(x));
    b
}

/// The bytes of `x` as `u32::to_le_bytes` lays them out.
pub fn u32_le(x: u32) -> (b: [u8; 4])
    ensures
        b@ == le32(x),
{
    let b: [u8; 4] = [
        (x % 0x100) as u8,
        (x / 0x100 % 0x100) as u8,
        (x / 0x1_0000 % 0x100) as u8,
        (x / 0x100_0000) as u8,
    ];
    assert(b@ =~= le32(x));
    b
}

/// The bytes of `x` as `u64::to_le_bytes` lays them out.
pub fn u64_le(x: u64) -> (b: [u8; 8])
    ensures
        b@ == le64(x),
{
    let b: [u8; 8] = [
        (x % 0x100) as u8,
        (x / 0x100 % 0x100) as u8,
        (x / 0x1_0000 % 0x100) as u8,
        (x / 0x100_0000 % 0x100) as u8,
        (x / 0x1_0000_0000 % 0x100) as u8,
        (x / 0x100_0000_0000 % 0x100) as u8,
        (x / 0x1_0000_0000_0000 % 0x100) as u8,
        (x / 0x100_0000_0000_0000) as u8,
    ];
    assert(b@ =~= le64(x));
    b
}

/// The bytes of `v` as `i32::to_le_bytes` lays them out: those of its two's
/// complement bit pattern.
pub fn i32_le(v: i32) -> (b: [u8; 4])
    ensures
        b@ == le32(i32_bits(v)),
{
    let wide: i64 = v as i64;
    let bits: u32 = if wide >= 0 {
        wide as u32
    } else {
        (wide + 0x1_0000_0000) as u32
    };
    u32_le(bits)
}

/// The bytes of `v` as `i16::to_le_bytes` lays them out: those of its two's
/// complement bit pattern.
pub fn i16_le(v: i16) -> (b: [u8; 2])
    ensures
        b@ == le16(i16_bits(v)),
{
    let wide: i32 = v as i32;
    let bits: u16 = if wide >= 0 {
        wide as u16
    } else {
        (wide + 0x1_0000) as u16
    };
    u16_le(bits)
}

/// The bytes of `v` as `i64::to_le_bytes` lays them out: those of its two's
/// complement bit pattern.
pub fn i64_le(v: i64) -> (b: [u8; 8])
    ensures
        b@ == le64(i64_bits(v)),
{
    let wide: i128 = v as i128;
    let bits: u64 = if wide >= 0 {
        wide as u64
    } else {
        (wide + 0x1_0000_0000_0000_0000) as u64
    };
    u64_le(bits)
}

/// The byte of `v` as `i8::to_le_bytes` gives it: its two's complement bit
/// pattern.
pub fn i8_byte(v: i8) -> (b: u8)
    ensures
        b == i8_bits(v),
{
    let wide: i16 = v as i16;
    if wide >= 0 {
        wide as u8
    } else {
        (wide + 0x100) as u8
    }
}

} // verus!
