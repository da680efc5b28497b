//! The firmware entry-point records that locate and version the table.
//!
//! Two fixed-size forms exist, told apart by their anchor strings: the
//! 32-bit record (anchor `_SM_`, 31 bytes) and the 64-bit record (anchor
//! `_SM3_`, 24 bytes). An unrecognized anchor is fatal — the buffer is not
//! an entry point at all — while a failing checksum is only reported: some
//! firmware ships a wrong checksum over a table that is still usable.

use vstd::prelude::*;
use crate::fields::{le_word, le_dword, le_qword, copy_range};

verus! {

/// Byte length of the 32-bit entry-point record.
pub const ENTRY_32_LEN: usize = 31;

/// Byte length of the 64-bit entry-point record.
pub const ENTRY_64_LEN: usize = 24;

/// The sum of all bytes of `b`, as an unbounded integer.
pub open spec fn byte_sum(b: Seq<u8>) -> int
    decreases b.len(),
{
    if b.len() == 0 {
        0
    } else {
        byte_sum(b.drop_last()) + b.last()
    }
}

/// True when `b` opens with the 32-bit anchor `_SM_`.
pub open spec fn is_anchor32(b: Seq<u8>) -> bool {
    b.len() >= 4 && b[0] == 0x5F && b[1] == 0x53 && b[2] == 0x4D && b[3] == 0x5F
}

/// True when `b` opens with the 64-bit anchor `_SM3_`.
pub open spec fn is_anchor64(b: Seq<u8>) -> bool {
    b.len() >= 5 && b[0] == 0x5F && b[1] == 0x53 && b[2] == 0x4D && b[3] == 0x33 && b[4] == 0x5F
}

/// Why an entry-point buffer was rejected.
#[derive(Clone, Copy, PartialEq, Eq, Structural, Debug)]
pub enum EntryPointError {
    /// Neither anchor string opens the buffer: this is not an entry point.
    UnrecognizedAnchor,
    /// An anchor was found but the buffer ends before the fixed-size record.
    Truncated,
}

/// The fields of a parsed entry point. Fields that only one form carries
/// are absent for the other: the 64-bit form has no table length or
/// structure count, the 32-bit form no document revision.
#[derive(Clone, PartialEq, Eq, Debug)]
pub struct EntryPointInfo {
    pub smbios_major: u8,
    pub smbios_minor: u8,
    pub smbios_docrev: Option<u8>,
    pub table_address: u64,
    pub table_length: Option<u16>,
    pub structure_count: Option<u16>,
    pub anchor: Vec<u8>,
    pub checksum_valid: bool,
}

/// What `parse_entry_point` yields on a 32-bit record: version from the
/// BCD revision byte, table length, address and count from their fixed
/// offsets, and validity as the whole record summing to zero modulo 256.
pub open spec fn is_info32_of(info: EntryPointInfo, b: Seq<u8>) -> bool {
    &&& info.smbios_major == b[0x1E] as int / 16
    &&& info.smbios_minor == b[0x1E] as int % 16
    &&& info.smbios_docrev is None
    &&& info.table_address == le_dword(b, 0x18)
    &&& info.table_length == Some(le_word(b, 0x16) as u16)
    &&& info.structure_count == Some(le_word(b, 0x1C) as u16)
    &&& info.anchor@ == b.subrange(0, 4)
    &&& (info.checksum_valid <==> byte_sum(b.subrange(0, ENTRY_32_LEN as int)) % 256 == 0)
}

/// What `parse_entry_point` yields on a 64-bit record: version and document
/// revision bytes, the 64-bit table address, and validity as the whole
/// record summing to zero modulo 256. No table length or count exists; the
/// table is walked to its end marker.
pub open spec fn is_info64_of(info: EntryPointInfo, b: Seq<u8>) -> bool {
    &&& info.smbios_major == b[7]
    &&& info.smbios_minor == b[8]
    &&& info.smbios_docrev == Some(b[9])
    &&& info.table_address == le_qword(b, 0x10)
    &&& info.table_length is None
    &&& info.structure_count is None
    &&& info.anchor@ == b.subrange(0, 5)
    &&& (info.checksum_valid <==> byte_sum(b.subrange(0, ENTRY_64_LEN as int)) % 256 == 0)
}

/// Sums the first `n` bytes of `b`.
fn sum_bytes(b: &Vec<u8>, n: usize) -> (r: u32)
    requires
        n <= b@.len(),
        n <= 0x100,
    ensures
        r == byte_sum(b@.subrange(0, n as int)),
{
    let mut r: u32 = 0;
    let mut i: usize = 0;
    proof {
        assert(b@.subrange(0, 0) =~= Seq::<u8>::empty());
    }
    while i < n
        invariant
            0 <= i <= n <= b@.len(),
            n <= 0x100,
            r == byte_sum(b@.subrange(0, i as int)),
            r <= i * 0xFF,
        decreases n - i,
    {
        proof {
            assert(b@.subrange(0, i + 1).drop_last() =~= b@.subrange(0, i as int));
        }
        r = r + b[i] as u32;
        i = i + 1;
    }
    r
}

/// Parses and validates an entry-point buffer. The anchor string picks the
/// form; a recognized anchor over a buffer shorter than that form's fixed
/// record is reported as truncated; the checksum never rejects the record,
/// it only sets `checksum_valid`.
pub fn parse_entry_point(b: &Vec<u8>) -> (r: Result<EntryPointInfo, EntryPointError>)
    ensures
        r is Ok <==> (is_anchor64(b@) && b@.len() >= ENTRY_64_LEN) || (!is_anchor64(b@)
            && is_anchor32(b@) && b@.len() >= ENTRY_32_LEN),
        r == Result::<EntryPointInfo, EntryPointError>::Err(EntryPointError::UnrecognizedAnchor)
            <==> !is_anchor32(b@) && !is_anchor64(b@),
        r matches Ok(info) ==> (if is_anchor64(b@) {
            is_info64_of(info, b@)
        } else {
            is_info32_of(info, b@)
        }),
{
    let anchor64 = b.len() >= 5 && b[0] == 0x5F && b[1] == 0x53 && b[2] == 0x4D && b[3] == 0x33
        && b[4] == 0x5F;
    let anchor32 = b.len() >= 4 && b[0] == 0x5F && b[1] == 0x53 && b[2] == 0x4D && b[3] == 0x5F;
    if anchor64 {
        if b.len() < ENTRY_64_LEN {
            Err(EntryPointError::Truncated)
        } else {
            let sum = sum_bytes(b, ENTRY_64_LEN);
            let address = match crate::fields::qword_at(b, 0x10) {
                Some(a) => a,
                None => 0,
            };
            Ok(EntryPointInfo {
                smbios_major: b[7],
                smbios_minor: b[8],
                smbios_docrev: Some(b[9]),
                table_address: address,
                table_length: None,
                structure_count: None,
                anchor: copy_range(b, 0, 5),
                checksum_valid: sum % 256 == 0,
            })
        }
    } else if anchor32 {
        if b.len() < ENTRY_32_LEN {
            Err(EntryPointError::Truncated)
        } else {
            let sum = sum_bytes(b, ENTRY_32_LEN);
            let bcd = b[0x1E];
            let length = match crate::fields::word_at(b, 0x16) {
                Some(w) => w,
                None => 0,
            };
            let address = match crate::fields::dword_at(b, 0x18) {
                Some(a) => a,
                None => 0,
            };
            let count = match crate::fields::word_at(b, 0x1C) {
                Some(w) => w,
                None => 0,
            };
            Ok(EntryPointInfo {
                smbios_major: bcd / 16,
                smbios_minor: bcd % 16,
                smbios_docrev: None,
                table_address: address as u64,
                table_length: Some(length),
                structure_count: Some(count),
                anchor: copy_range(b, 0, 4),
                checksum_valid: sum % 256 == 0,
            })
        }
    } else {
        Err(EntryPointError::UnrecognizedAnchor)
    }
}

/// Changing one byte moves the sum by exactly that byte's change.
proof fn lemma_byte_sum_update(s1: Seq<u8>, s2: Seq<u8>, i: int)
    requires
        s1.len() == s2.len(),
        0 <= i < s1.len(),
        forall|j: int| 0 <= j < s1.len() && j != i ==> s1[j] == s2[j],
    ensures
        byte_sum(s2) == byte_sum(s1) - s1[i] + s2[i],
    decreases s1.len(),
{
    if i == s1.len() - 1 {
        assert(s1.drop_last() =~= s2.drop_last());
    } else {
        assert(forall|j: int| 0 <= j < s1.drop_last().len() && j != i ==> s1.drop_last()[j]
            == s2.drop_last()[j]);
        lemma_byte_sum_update(s1.drop_last(), s2.drop_last(), i);
    }
}

/// Law: the checksum catches every single-byte corruption. Where a record's
/// bytes sum to zero modulo 256, the same record with exactly one byte
/// changed no longer does.
pub proof fn lemma_checksum_flips_on_byte_change(s1: Seq<u8>, s2: Seq<u8>, i: int)
    requires
        s1.len() == s2.len(),
        0 <= i < s1.len(),
        forall|j: int| 0 <= j < s1.len() && j != i ==> s1[j] == s2[j],
        s1[i] != s2[i],
        byte_sum(s1) % 256 == 0,
    ensures
        byte_sum(s2) % 256 != 0,
{
    lemma_byte_sum_update(s1, s2, i);
    let m = byte_sum(s1);
    let n = byte_sum(s2);
    let d = s2[i] - s1[i];
    assert(n == m + d);
    assert(-256 < d < 256 && d != 0);
    vstd::arithmetic::div_mod::lemma_fundamental_div_mod(m, 256);
    vstd::arithmetic::div_mod::lemma_fundamental_div_mod(n, 256);
    if n % 256 == 0 {
        assert(m == 256 * (m / 256));
        assert(n == 256 * (n / 256));
        assert(d == 256 * (n / 256) - 256 * (m / 256));
        assert(d == 256 * (n / 256 - m / 256));
        let k = n / 256 - m / 256;
        if k >= 1 {
            assert(d >= 256);
        } else if k <= -1 {
            assert(d <= -256);
        } else {
            assert(d == 0);
        }
        assert(false);
    }
}

} // verus!
