//! Little-endian integers, as the header stores them.

use byteorder::{ByteOrder, LittleEndian};
use vstd::prelude::*;
use vstd::slice::slice_subrange;

verus! {

/// The number that the first two bytes of `b` spell, lowest byte first.
pub open spec fn le_u16(b: Seq<u8>) -> int {
    b[0] + b[1] * 0x100
}

/// The number that the first four bytes of `b` spell, lowest byte first.
pub open spec fn le_u32(b: Seq<u8>) -> int {
    b[0] + b[1] * 0x100 + b[2] * 0x1_0000 + b[3] * 0x100_0000
}

/// The number that the first eight bytes of `b` spell, lowest byte first.
pub open spec fn le_u64(b: Seq<u8>) -> int {
    le_u32(b) + le_u32(b.skip(4)) * 0x1_0000_0000
}

/// `<LittleEndian as ByteOrder>::read_u16` of byteorder. It panics on fewer
/// than two bytes; on more it reads the first two, lowest byte first.
#[verifier::external_body]
fn read_u16(buf: &[u8]) -> (v: u16)
    requires
        buf@.len() >= 2,
    ensures
        v == le_u16(buf@),
{
    LittleEndian::read_u16(buf)
}

/// `<LittleEndian as ByteOrder>::read_u32` of byteorder. It panics on fewer
/// than four bytes; on more it reads the first four, lowest byte first.
#[verifier::external_body]
fn read_u32(buf: &[u8]) -> (v: u32)
    requires
        buf@.len() >= 4,
    ensures
        v == le_u32(buf@),
{
    LittleEndian::read_u32(buf)
}

/// `<LittleEndian as ByteOrder>::read_u64` of byteorder. It panics on fewer
/// than eight bytes; on more it reads the first eight, lowest byte first.
#[verifier::external_body]
fn read_u64(buf: &[u8]) -> (v: u64)
    requires
        buf@.len() >= 8,
    ensures
        v == le_u64(buf@),
{
    LittleEndian::read_u64(buf)
}

/// The 16-bit little-endian integer that starts at byte `at`, if the bytes
/// reach that far.
pub fn u16_at(bytes: &[u8], at: usize) -> (r: Option<u16>)
    ensures
        at + 2 <= bytes@.len() ==> r == Some(le_u16(bytes@.skip(at as int)) as u16),
        at + 2 > bytes@.len() ==> r is None,
{
    if bytes.len() < 2 || at > bytes.len() - 2 {
        return None;
    }
    Some(read_u16(slice_subrange(bytes, at, bytes.len())))
}

/// The 32-bit little-endian integer that starts at byte `at`, if the bytes
/// reach that far.
pub fn u32_at(bytes: &[u8], at: usize) -> (r: Option<u32>)
    ensures
        at + 4 <= bytes@.len() ==> r == Some(le_u32(bytes@.skip(at as int)) as u32),
        at + 4 > bytes@.len() ==> r is None,
{
    if bytes.len() < 4 || at > bytes.len() - 4 {
        return None;
    }
    Some(read_u32(slice_subrange(bytes, at, bytes.len())))
}

/// The 64-bit little-endian integer that starts at byte `at`, if the bytes
/// reach that far.
pub fn u64_at(bytes: &[u8], at: usize) -> (r: Option<u64>)
    ensures
        at + 8 <= bytes@.len() ==> r == Some(le_u64(bytes@.skip(at as int)) as u64),
        at + 8 > bytes@.len() ==> r is None,
{
    if bytes.len() < 8 || at > bytes.len() - 8 {
        return None;
    }
    Some(read_u64(slice_subrange(bytes, at, bytes.len())))
}

} // verus!
