//! Little-endian encoding of 32-bit words, stated over byte sequences.

use vstd::prelude::*;

verus! {

/// The word whose little-endian encoding starts at `at` in `s`.
pub open spec fn le_u32(s: Seq<u8>, at: int) -> u32 {
    (s[at] as int + 0x100 * (s[at + 1] as int) + 0x1_0000 * (s[at + 2] as int) + 0x100_0000 * (s[at
        + 3] as int)) as u32
}

/// Byte `k` (0 is least significant) of the little-endian encoding of `v`.
pub open spec fn le_byte(v: u32, k: int) -> u8 {
    if k == 0 {
        (v % 0x100) as u8
    } else if k == 1 {
        (v / 0x100 % 0x100) as u8
    } else if k == 2 {
        (v / 0x1_0000 % 0x100) as u8
    } else {
        (v / 0x100_0000 % 0x100) as u8
    }
}

/// The four bytes that encode `v`, least significant first.
pub open spec fn le_bytes(v: u32) -> Seq<u8> {
    seq![le_byte(v, 0), le_byte(v, 1), le_byte(v, 2), le_byte(v, 3)]
}

/// Decoding what was encoded gives the word back.
pub proof fn lemma_le_roundtrip(v: u32)
    ensures
        le_u32(le_bytes(v), 0) == v,
{
}

/// Reads the little-endian word at `at`.
pub fn read_le_u32(b: &[u8], at: usize) -> (v: u32)
    requires
        at + 4 <= b@.len(),
    ensures
        v == le_u32(b@, at as int),
{
    let b0: u32 = b[at] as u32;
    let b1: u32 = b[at + 1] as u32;
    let b2: u32 = b[at + 2] as u32;
    let b3: u32 = b[at + 3] as u32;
    b0 + 0x100 * b1 + 0x1_0000 * b2 + 0x100_0000 * b3
}

/// Encodes `v` least significant byte first.
pub fn write_le_u32(v: u32) -> (b: [u8; 4])
    ensures
        b@ == le_bytes(v),
{
    let b: [u8; 4] = [
        (v % 0x100) as u8,
        (v / 0x100 % 0x100) as u8,
        (v / 0x1_0000 % 0x100) as u8,
        (v / 0x100_0000 % 0x100) as u8,
    ];
    assert(b@ =~= le_bytes(v));
    b
}

} // verus!
