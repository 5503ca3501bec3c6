//! A magic value as four bytes, most significant first.

use vstd::prelude::*;

verus! {

/// The four bytes of `magic` in big-endian order.
pub open spec fn be_bytes(magic: u32) -> Seq<u8> {
    seq![
        (magic / 0x100_0000) as u8,
        (magic / 0x1_0000 % 0x100) as u8,
        (magic / 0x100 % 0x100) as u8,
        (magic % 0x100) as u8,
    ]
}

/// The magic value whose big-endian bytes are the four bytes of `bytes`.
pub open spec fn from_be_bytes(bytes: Seq<u8>) -> u32
    recommends
        bytes.len() == 4,
{
    (bytes[0] * 0x100_0000 + bytes[1] * 0x1_0000 + bytes[2] * 0x100 + bytes[3]) as u32
}

/// Splits a magic value into its four bytes, most significant first.
pub fn magic_to_bytes(magic: u32) -> (bytes: [u8; 4])
    ensures
        bytes@ == be_bytes(magic),
{
    [
        (magic / 0x100_0000) as u8,
        (magic / 0x1_0000 % 0x100) as u8,
        (magic / 0x100 % 0x100) as u8,
        (magic % 0x100) as u8,
    ]
}

/// Joins four bytes, most significant first, into a magic value.
pub fn magic_from_bytes(bytes: [u8; 4]) -> (magic: u32)
    ensures
        magic == from_be_bytes(bytes@),
{
    let b0: u32 = bytes[0] as u32;
    let b1: u32 = bytes[1] as u32;
    let b2: u32 = bytes[2] as u32;
    let b3: u32 = bytes[3] as u32;
    b0 * 0x100_0000 + b1 * 0x1_0000 + b2 * 0x100 + b3
}

/// Joining the bytes of a magic value gives the value back.
pub proof fn lemma_join_split(magic: u32)
    ensures
        be_bytes(magic).len() == 4,
        from_be_bytes(be_bytes(magic)) == magic,
{
}

} // verus!
