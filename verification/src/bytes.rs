use vstd::prelude::*;

verus! {

/// Little-endian value of the two bytes at `pos`.
pub open spec fn le_u16_spec(b: Seq<u8>, pos: int) -> int {
    b[pos] + b[pos + 1] * 0x100
}

/// Little-endian value of the four bytes at `pos`.
pub open spec fn le_u32_spec(b: Seq<u8>, pos: int) -> int {
    b[pos] + b[pos + 1] * 0x100 + b[pos + 2] * 0x1_0000 + b[pos + 3] * 0x100_0000
}

/// Little-endian value of the eight bytes at `pos`.
pub open spec fn le_u64_spec(b: Seq<u8>, pos: int) -> int {
    le_u32_spec(b, pos) + le_u32_spec(b, pos + 4) * 0x1_0000_0000
}

/// The four bytes at `pos` as a two's-complement 32-bit integer.
pub open spec fn le_i32_spec(b: Seq<u8>, pos: int) -> int {
    if le_u32_spec(b, pos) < 0x8000_0000 {
        le_u32_spec(b, pos)
    } else {
        le_u32_spec(b, pos) - 0x1_0000_0000
    }
}

/// The eight bytes at `pos` as a two's-complement 64-bit integer.
pub open spec fn le_i64_spec(b: Seq<u8>, pos: int) -> int {
    if le_u64_spec(b, pos) < 0x8000_0000_0000_0000 {
        le_u64_spec(b, pos)
    } else {
        le_u64_spec(b, pos) - 0x1_0000_0000_0000_0000
    }
}

/// Relies on byteorder's `LittleEndian::read_u16`: the little-endian
/// unsigned 16-bit value of the first two bytes of the slice.
#[verifier::external_body]
pub fn read_le_u16(b: &Vec<u8>, pos: usize) -> (r: u16)
    requires
        pos + 2 <= b@.len(),
    ensures
        r == le_u16_spec(b@, pos as int),
{
    <byteorder::LittleEndian as byteorder::ByteOrder>::read_u16(&b[pos..pos + 2])
}

/// Relies on byteorder's `LittleEndian::read_u32`: the little-endian
/// unsigned 32-bit value of the first four bytes of the slice.
#[verifier::external_body]
pub fn read_le_u32(b: &Vec<u8>, pos: usize) -> (r: u32)
    requires
        pos + 4 <= b@.len(),
    ensures
        r == le_u32_spec(b@, pos as int),
{
    <byteorder::LittleEndian as byteorder::ByteOrder>::read_u32(&b[pos..pos + 4])
}

/// Relies on byteorder's `LittleEndian::read_u64`: the little-endian
/// unsigned 64-bit value of the first eight bytes of the slice.
#[verifier::external_body]
pub fn read_le_u64(b: &Vec<u8>, pos: usize) -> (r: u64)
    requires
        pos + 8 <= b@.len(),
    ensures
        r == le_u64_spec(b@, pos as int),
{
    <byteorder::LittleEndian as byteorder::ByteOrder>::read_u64(&b[pos..pos + 8])
}

/// Relies on byteorder's `LittleEndian::read_i32`, which reinterprets
/// the little-endian u32 as a two's-complement i32.
#[verifier::external_body]
pub fn read_le_i32(b: &Vec<u8>, pos: usize) -> (r: i32)
    requires
        pos + 4 <= b@.len(),
    ensures
        r == le_i32_spec(b@, pos as int),
{
    <byteorder::LittleEndian as byteorder::ByteOrder>::read_i32(&b[pos..pos + 4])
}

/// Relies on byteorder's `LittleEndian::read_i64`, which reinterprets
/// the little-endian u64 as a two's-complement i64.
#[verifier::external_body]
pub fn read_le_i64(b: &Vec<u8>, pos: usize) -> (r: i64)
    requires
        pos + 8 <= b@.len(),
    ensures
        r == le_i64_spec(b@, pos as int),
{
    <byteorder::LittleEndian as byteorder::ByteOrder>::read_i64(&b[pos..pos + 8])
}

} // verus!
