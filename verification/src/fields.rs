//! Bounds-checked little-endian reads from a byte buffer.
//!
//! Every accessor is total: an out-of-range offset yields `None`, never a
//! panic, because firmware routinely ships structures shorter than the
//! current specification defines.

use vstd::prelude::*;

verus! {

/// The little-endian 16-bit value held at offset `o` of `b`.
pub open spec fn le_word(b: Seq<u8>, o: int) -> int
    recommends
        0 <= o,
        o + 2 <= b.len(),
{
    b[o] + 0x100 * b[o + 1]
}

/// The little-endian 32-bit value held at offset `o` of `b`.
pub open spec fn le_dword(b: Seq<u8>, o: int) -> int
    recommends
        0 <= o,
        o + 4 <= b.len(),
{
    b[o] + 0x100 * b[o + 1] + 0x1_0000 * b[o + 2] + 0x100_0000 * b[o + 3]
}

/// The little-endian 64-bit value held at offset `o` of `b`.
pub open spec fn le_qword(b: Seq<u8>, o: int) -> int
    recommends
        0 <= o,
        o + 8 <= b.len(),
{
    b[o] + 0x100 * b[o + 1] + 0x1_0000 * b[o + 2] + 0x100_0000 * b[o + 3]
        + 0x1_0000_0000 * b[o + 4] + 0x100_0000_0000 * b[o + 5]
        + 0x1_0000_0000_0000 * b[o + 6] + 0x100_0000_0000_0000 * b[o + 7]
}

/// The 8-bit field at `o`, absent when `o` lies outside the buffer.
pub fn byte_at(b: &Vec<u8>, o: usize) -> (r: Option<u8>)
    ensures
        o < b@.len() ==> r == Some(b@[o as int]),
        o >= b@.len() ==> r is None,
{
    if o < b.len() {
        Some(b[o])
    } else {
        None
    }
}

/// The little-endian 16-bit field at `o`, absent when it would overrun the buffer.
pub fn word_at(b: &Vec<u8>, o: usize) -> (r: Option<u16>)
    ensures
        o + 2 <= b@.len() ==> r == Some(le_word(b@, o as int) as u16),
        o + 2 > b@.len() ==> r is None,
{
    if b.len() >= 2 && o <= b.len() - 2 {
        let v: u16 = b[o] as u16 + 0x100 * (b[o + 1] as u16);
        Some(v)
    } else {
        None
    }
}

/// The little-endian 32-bit field at `o`, absent when it would overrun the buffer.
pub fn dword_at(b: &Vec<u8>, o: usize) -> (r: Option<u32>)
    ensures
        o + 4 <= b@.len() ==> r == Some(le_dword(b@, o as int) as u32),
        o + 4 > b@.len() ==> r is None,
{
    if b.len() >= 4 && o <= b.len() - 4 {
        let v: u32 = b[o] as u32 + 0x100 * (b[o + 1] as u32) + 0x1_0000 * (b[o + 2] as u32)
            + 0x100_0000 * (b[o + 3] as u32);
        Some(v)
    } else {
        None
    }
}

/// The little-endian 64-bit field at `o`, absent when it would overrun the buffer.
pub fn qword_at(b: &Vec<u8>, o: usize) -> (r: Option<u64>)
    ensures
        o + 8 <= b@.len() ==> r == Some(le_qword(b@, o as int) as u64),
        o + 8 > b@.len() ==> r is None,
{
    if b.len() >= 8 && o <= b.len() - 8 {
        let v: u64 = b[o] as u64 + 0x100 * (b[o + 1] as u64) + 0x1_0000 * (b[o + 2] as u64)
            + 0x100_0000 * (b[o + 3] as u64) + 0x1_0000_0000 * (b[o + 4] as u64)
            + 0x100_0000_0000 * (b[o + 5] as u64) + 0x1_0000_0000_0000 * (b[o + 6] as u64)
            + 0x100_0000_0000_0000 * (b[o + 7] as u64);
        Some(v)
    } else {
        None
    }
}

/// A copy of the bytes of `v` in `[a, b)`.
pub fn copy_range(v: &Vec<u8>, a: usize, b: usize) -> (r: Vec<u8>)
    requires
        a <= b <= v@.len(),
    ensures
        r@ == v@.subrange(a as int, b as int),
{
    let mut r: Vec<u8> = Vec::new();
    let mut i: usize = a;
    while i < b
        invariant
            a <= i <= b <= v@.len(),
            r@ == v@.subrange(a as int, i as int),
        decreases b - i,
    {
        r.push(v[i]);
        proof {
            assert(r@ =~= v@.subrange(a as int, i + 1));
        }
        i = i + 1;
    }
    r
}

} // verus!
