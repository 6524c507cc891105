//! Little-endian access to the byte buffer.
use byteorder::{ByteOrder, LittleEndian};
use vstd::prelude::*;

verus! {

/// The 16-bit little-endian value stored at `p`.
pub open spec fn le16(d: Seq<u8>, p: int) -> int {
    d[p] as int + d[p + 1] as int * 0x100
}

/// The 32-bit little-endian value stored at `p`.
pub open spec fn le32(d: Seq<u8>, p: int) -> int {
    d[p] as int + d[p + 1] as int * 0x100 + d[p + 2] as int * 0x1_0000 + d[p + 3] as int
        * 0x100_0000
}

/// `d` with the two bytes at `p` holding `v` in little-endian order.
pub open spec fn put16(d: Seq<u8>, p: int, v: u16) -> Seq<u8> {
    d.update(p, (v % 0x100) as u8).update(p + 1, (v / 0x100) as u8)
}

/// `d` with the four bytes at `p` holding `v` in little-endian order.
pub open spec fn put32(d: Seq<u8>, p: int, v: u32) -> Seq<u8> {
    d.update(p, (v % 0x100) as u8).update(p + 1, (v / 0x100 % 0x100) as u8).update(
        p + 2,
        (v / 0x1_0000 % 0x100) as u8,
    ).update(p + 3, (v / 0x100_0000) as u8)
}

/// Relies on byteorder's `LittleEndian::read_u16`: the first two bytes of the
/// slice, least significant first.
#[verifier::external_body]
pub(crate) fn read_u16_le(data: &Vec<u8>, p: usize) -> (r: u16)
    requires
        p + 2 <= data@.len(),
    ensures
        r as int == le16(data@, p as int),
{
    LittleEndian::read_u16(&data[p..])
}

/// Relies on byteorder's `LittleEndian::read_u32`: the first four bytes of the
/// slice, least significant first.
#[verifier::external_body]
pub(crate) fn read_u32_le(data: &Vec<u8>, p: usize) -> (r: u32)
    requires
        p + 4 <= data@.len(),
    ensures
        r as int == le32(data@, p as int),
{
    LittleEndian::read_u32(&data[p..])
}

/// Relies on byteorder's `LittleEndian::write_u16`: stores `v` in the first two
/// bytes of the slice, least significant first, and touches nothing else.
#[verifier::external_body]
pub(crate) fn write_u16_le(data: &mut Vec<u8>, p: usize, v: u16)
    requires
        p + 2 <= old(data)@.len(),
    ensures
        final(data)@ == put16(old(data)@, p as int, v),
{
    LittleEndian::write_u16(&mut data[p..], v)
}

/// Relies on byteorder's `LittleEndian::write_u32`: stores `v` in the first four
/// bytes of the slice, least significant first, and touches nothing else.
#[verifier::external_body]
pub(crate) fn write_u32_le(data: &mut Vec<u8>, p: usize, v: u32)
    requires
        p + 4 <= old(data)@.len(),
    ensures
        final(data)@ == put32(old(data)@, p as int, v),
{
    LittleEndian::write_u32(&mut data[p..], v)
}

} // verus!
