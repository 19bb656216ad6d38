//! Little-endian integer layouts shared by the telemetry decoder and the
//! command encoder.
//!
//! Every layout is stated arithmetically: a multi-byte value is the sum of its
//! bytes weighted by powers of 256, and byte `k` of a value is the value
//! divided by `256^k`, reduced modulo 256. Signed values use two's complement.

use vstd::prelude::*;

verus! {

/// The unsigned 16-bit value whose little-endian bytes are `lo`, `hi`.
pub open spec fn le_u16(lo: u8, hi: u8) -> int {
    lo as int + 256 * (hi as int)
}

/// The signed 16-bit value whose two's-complement little-endian bytes are
/// `lo`, `hi`.
pub open spec fn le_i16(lo: u8, hi: u8) -> int {
    if le_u16(lo, hi) >= 0x8000 {
        le_u16(lo, hi) - 0x1_0000
    } else {
        le_u16(lo, hi)
    }
}

/// The unsigned 24-bit value whose little-endian bytes are `b0`, `b1`, `b2`.
pub open spec fn le_u24(b0: u8, b1: u8, b2: u8) -> int {
    b0 as int + 256 * (b1 as int) + 65536 * (b2 as int)
}

/// The least significant byte of `value` in two's complement.
pub open spec fn byte0(value: int) -> u8 {
    (value % 256) as u8
}

/// The second least significant byte of `value` in two's complement.
pub open spec fn byte1(value: int) -> u8 {
    ((value / 256) % 256) as u8
}

/// The third least significant byte of `value` in two's complement.
pub open spec fn byte2(value: int) -> u8 {
    ((value / 65536) % 256) as u8
}

/// Reads an unsigned 16-bit little-endian value from two bytes.
pub fn u16_from_le(lo: u8, hi: u8) -> (value: u16)
    ensures
        value as int == le_u16(lo, hi),
{
    (hi as u16) * 256 + (lo as u16)
}

/// Reads a signed 16-bit little-endian value from two bytes.
pub fn i16_from_le(lo: u8, hi: u8) -> (value: i16)
    ensures
        value as int == le_i16(lo, hi),
{
    let raw: u16 = u16_from_le(lo, hi);
    if raw >= 0x8000 {
        (raw as i32 - 0x1_0000) as i16
    } else {
        raw as i16
    }
}

/// Reads an unsigned 24-bit little-endian value from three bytes, widened to
/// 32 bits with a zero high byte.
pub fn u24_from_le(b0: u8, b1: u8, b2: u8) -> (value: u32)
    ensures
        value as int == le_u24(b0, b1, b2),
        value < 0x100_0000,
{
    (b2 as u32) * 65536 + (b1 as u32) * 256 + (b0 as u32)
}

/// Splits an unsigned 16-bit value into its little-endian bytes.
pub fn u16_to_le(value: u16) -> (bytes: (u8, u8))
    ensures
        bytes.0 == byte0(value as int),
        bytes.1 == byte1(value as int),
{
    ((value % 256) as u8, (value / 256) as u8)
}

/// Splits a signed 16-bit value into its two's-complement little-endian
/// bytes.
pub fn i16_to_le(value: i16) -> (bytes: (u8, u8))
    ensures
        bytes.0 == byte0(value as int),
        bytes.1 == byte1(value as int),
{
    let raw: u16 = if value >= 0 {
        value as u16
    } else {
        (value as i32 + 0x1_0000) as u16
    };
    u16_to_le(raw)
}

/// The three low little-endian bytes of a 32-bit value; the high byte is
/// dropped.
pub fn u32_low3_to_le(value: u32) -> (bytes: (u8, u8, u8))
    ensures
        bytes.0 == byte0(value as int),
        bytes.1 == byte1(value as int),
        bytes.2 == byte2(value as int),
{
    ((value % 256) as u8, ((value / 256) % 256) as u8, ((value / 65536) % 256) as u8)
}

/// Writing an unsigned 16-bit value and reading the bytes back gives the
/// value.
pub proof fn lemma_u16_le_round_trip(value: u16)
    ensures
        le_u16(byte0(value as int), byte1(value as int)) == value,
{
}

/// Writing a signed 16-bit value and reading the bytes back gives the value.
pub proof fn lemma_i16_le_round_trip(value: i16)
    ensures
        le_i16(byte0(value as int), byte1(value as int)) == value,
{
}

/// Reading two bytes as an unsigned 16-bit value and writing it gives the
/// same two bytes.
pub proof fn lemma_u16_le_bytes_round_trip(lo: u8, hi: u8)
    ensures
        byte0(le_u16(lo, hi)) == lo,
        byte1(le_u16(lo, hi)) == hi,
        byte0(le_i16(lo, hi)) == lo,
        byte1(le_i16(lo, hi)) == hi,
{
}

/// The three low bytes of a 32-bit value read back as the value reduced
/// modulo `2^24`: the value itself exactly when it is below `2^24`.
pub proof fn lemma_u24_le_round_trip(value: u32)
    ensures
        le_u24(byte0(value as int), byte1(value as int), byte2(value as int)) == value
            % 0x100_0000,
        value < 0x100_0000 ==> le_u24(
            byte0(value as int),
            byte1(value as int),
            byte2(value as int),
        ) == value,
{
}

} // verus!
