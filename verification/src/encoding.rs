//! The binary wire format: little-endian byte sequences for the 16-bit
//! data words and the 32-bit instruction words of the bytecode image.

use vstd::prelude::*;
use byteorder::{ByteOrder, LittleEndian, WriteBytesExt};

verus! {

/// The four little-endian bytes of a 32-bit word.
pub open spec fn le_bytes_u32(x: u32) -> Seq<u8> {
    seq![
        (x & 0xff) as u8,
        ((x >> 8) & 0xff) as u8,
        ((x >> 16) & 0xff) as u8,
        ((x >> 24) & 0xff) as u8,
    ]
}

/// The two little-endian bytes of a 16-bit word.
pub open spec fn le_bytes_u16(x: u16) -> Seq<u8> {
    seq![(x & 0xff) as u8, ((x >> 8) & 0xff) as u8]
}

/// The four little-endian bytes of a signed 32-bit word.
pub open spec fn le_bytes_i32(v: i32) -> Seq<u8> {
    le_bytes_u32(v as u32)
}

/// The 32-bit word read from four bytes in little-endian order.
pub open spec fn u32_of_le(b0: u8, b1: u8, b2: u8, b3: u8) -> u32 {
    (b0 as u32) | ((b1 as u32) << 8) | ((b2 as u32) << 16) | ((b3 as u32) << 24)
}

/// Reading back the four little-endian bytes of a word gives the word.
pub proof fn lemma_le_u32_roundtrip(x: u32)
    ensures
        u32_of_le(
            (x & 0xff) as u8,
            ((x >> 8) & 0xff) as u8,
            ((x >> 16) & 0xff) as u8,
            ((x >> 24) & 0xff) as u8,
        ) == x,
{
    assert(((x & 0xff) as u8 as u32) | ((((x >> 8) & 0xff) as u8 as u32) << 8) | ((((x >> 16)
        & 0xff) as u8 as u32) << 16) | ((((x >> 24) & 0xff) as u8 as u32) << 24) == x)
        by (bit_vector);
}

/// Relies on byteorder's `WriteBytesExt::write_u8`: appends the one
/// byte to the vector; writing to a `Vec` cannot fail.
#[verifier::external_body]
pub fn push_u8(out: &mut Vec<u8>, v: u8)
    ensures
        final(out)@ == old(out)@.push(v),
{
    out.write_u8(v).unwrap();
}

/// Relies on byteorder's `WriteBytesExt::write_u16` with `LittleEndian`:
/// appends the value's two bytes, least significant first; writing to a
/// `Vec` cannot fail.
#[verifier::external_body]
pub fn push_u16_le(out: &mut Vec<u8>, v: u16)
    ensures
        final(out)@ == old(out)@ + le_bytes_u16(v),
{
    out.write_u16::<LittleEndian>(v).unwrap();
}

/// Relies on byteorder's `WriteBytesExt::write_i32` with `LittleEndian`:
/// appends the value's four bytes, least significant first; writing to a
/// `Vec` cannot fail.
#[verifier::external_body]
pub fn push_i32_le(out: &mut Vec<u8>, v: i32)
    ensures
        final(out)@ == old(out)@ + le_bytes_i32(v),
{
    out.write_i32::<LittleEndian>(v).unwrap();
}

/// Relies on byteorder's `ByteOrder::read_i32` for `LittleEndian`: reads
/// the signed 32-bit word stored at `at` in little-endian order; the
/// four-byte slice keeps it from panicking.
#[verifier::external_body]
pub fn read_i32_le(m: &Vec<u8>, at: usize) -> (r: i32)
    requires
        at + 4 <= m.len(),
    ensures
        r as u32 == u32_of_le(m@[at as int], m@[at + 1], m@[at + 2], m@[at + 3]),
{
    LittleEndian::read_i32(&m[at..at + 4])
}

} // verus!
