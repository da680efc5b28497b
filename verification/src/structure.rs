//! One SMBIOS structure: header, formatted area, and trailing string list,
//! with the total, offset-indexed field accessors that every typed view uses.

use vstd::prelude::*;
use crate::fields::{le_word, byte_at, word_at, dword_at, qword_at, copy_range};
use crate::strings::{Strings, strings_of};

verus! {

/// A 16-bit identifier naming a structure within one table snapshot.
///
/// Sentinel values such as `0xFFFF` and `0xFFFE` mean "not applicable" and
/// are carried through unchanged.
#[derive(Clone, Copy, PartialEq, Eq, Structural, Debug, Hash)]
pub struct Handle(pub u16);

/// The fixed four-byte prefix of every structure.
///
/// `length` counts the header plus the formatted area only; the trailing
/// string list is not included. A well-formed header has `length >= 4`.
#[derive(Clone, Copy, PartialEq, Eq, Structural, Debug)]
pub struct Header {
    pub struct_type: u8,
    pub length: u8,
    pub handle: Handle,
}

impl Header {
    /// True when this header holds exactly the first four bytes of `raw`.
    pub open spec fn is_parse_of(&self, raw: Seq<u8>) -> bool {
        &&& raw.len() >= 4
        &&& self.struct_type == raw[0]
        &&& self.length == raw[1]
        &&& self.handle.0 == le_word(raw, 2)
    }

    /// Reads the header fields from the front of `raw`.
    pub fn parse(raw: &Vec<u8>) -> (h: Header)
        requires
            raw@.len() >= 4,
        ensures
            h.is_parse_of(raw@),
    {
        let hv: u16 = raw[2] as u16 + 0x100 * (raw[3] as u16);
        Header { struct_type: raw[0], length: raw[1], handle: Handle(hv) }
    }
}

/// Law: header fields survive a round trip. Any type, length and handle,
/// laid out on the wire as one type byte, one length byte and a
/// little-endian handle word, parse back to exactly those values.
pub proof fn lemma_header_round_trip(t: u8, l: u8, h: u16)
    ensures
        ({
            let raw = seq![t, l, (h % 0x100) as u8, (h / 0x100) as u8];
            &&& raw[0] == t
            &&& raw[1] == l
            &&& le_word(raw, 2) == h
            &&& forall|hh: Header| (#[trigger] hh.is_parse_of(raw)) ==> hh == (Header {
                struct_type: t,
                length: l,
                handle: Handle(h),
            })
        }),
{
    let raw = seq![t, l, (h % 0x100) as u8, (h / 0x100) as u8];
    assert(le_word(raw, 2) == h % 0x100 + 0x100 * (h / 0x100));
}

/// The byte count of header plus formatted area actually present in `raw`:
/// the declared length, capped at the bytes available.
pub open spec fn formatted_len(raw: Seq<u8>) -> int
    recommends
        raw.len() >= 4,
{
    if raw[1] as int <= raw.len() {
        raw[1] as int
    } else {
        raw.len() as int
    }
}

/// The 8-bit field of `f` at `o`, absent outside the formatted area.
pub open spec fn spec_field_byte(f: Seq<u8>, o: int) -> Option<u8> {
    if 0 <= o && o + 1 <= f.len() {
        Some(f[o])
    } else {
        None
    }
}

/// The little-endian 16-bit field of `f` at `o`, absent outside the formatted area.
pub open spec fn spec_field_word(f: Seq<u8>, o: int) -> Option<u16> {
    if 0 <= o && o + 2 <= f.len() {
        Some(le_word(f, o) as u16)
    } else {
        None
    }
}

/// The little-endian 32-bit field of `f` at `o`, absent outside the formatted area.
pub open spec fn spec_field_dword(f: Seq<u8>, o: int) -> Option<u32> {
    if 0 <= o && o + 4 <= f.len() {
        Some(crate::fields::le_dword(f, o) as u32)
    } else {
        None
    }
}

/// The little-endian 64-bit field of `f` at `o`, absent outside the formatted area.
pub open spec fn spec_field_qword(f: Seq<u8>, o: int) -> Option<u64> {
    if 0 <= o && o + 8 <= f.len() {
        Some(crate::fields::le_qword(f, o) as u64)
    } else {
        None
    }
}

/// The string referenced by the 1-based index held at `o`: absent when the
/// offset is outside the formatted area, when the index is 0, or when the
/// index is past the end of the string list.
pub open spec fn spec_field_string(f: Seq<u8>, strs: Seq<Seq<char>>, o: int) -> Option<Seq<char>> {
    match spec_field_byte(f, o) {
        Some(idx) => if 1 <= idx && idx as int <= strs.len() {
            Some(strs[idx as int - 1])
        } else {
            None
        },
        None => None,
    }
}

/// Law: a structure with no strings has every string field absent, whatever
/// offset or index the formatted area holds.
pub proof fn lemma_no_strings_absent(f: Seq<u8>, o: int)
    ensures
        spec_field_string(f, Seq::<Seq<char>>::empty(), o) is None,
{
}

/// Law: a string region of a single null byte (the terminator of a
/// structure with zero strings) decodes to an empty string list.
pub proof fn lemma_single_null_means_no_strings()
    ensures
        strings_of(seq![0u8]) =~= Seq::<Seq<char>>::empty(),
{
    assert(crate::strings::split_strings(seq![0u8]) =~= Seq::<Seq<u8>>::empty());
}

/// How an `Option<String>` result relates to its spec-level model.
pub open spec fn option_string_matches(r: Option<String>, m: Option<Seq<char>>) -> bool {
    &&& (r is Some <==> m is Some)
    &&& (r matches Some(s) ==> m matches Some(mc) && s@ == mc)
}

/// One structure's full decoded form: header, formatted-area bytes, and the
/// string list that trails them. Typed views query it purely by offset.
pub struct UndefinedStruct {
    pub header: Header,
    pub fields: Vec<u8>,
    pub strings: Strings,
}

impl UndefinedStruct {
    /// True when this value is the decoding of the structure span `raw`
    /// (header plus formatted area plus string region with terminator).
    pub open spec fn is_decode_of(&self, raw: Seq<u8>) -> bool {
        &&& raw.len() >= 4
        &&& self.header.is_parse_of(raw)
        &&& self.fields@ == raw.subrange(0, formatted_len(raw))
        &&& self.strings@ == strings_of(raw.skip(formatted_len(raw)))
    }

    /// Decodes one structure span: the first four bytes are the header, the
    /// declared length (capped at the bytes available) closes the formatted
    /// area, and the remainder is the string region.
    pub fn new(raw: &Vec<u8>) -> (r: UndefinedStruct)
        requires
            raw@.len() >= 4,
        ensures
            r.is_decode_of(raw@),
    {
        let header = Header::parse(raw);
        let flen: usize = if (header.length as usize) <= raw.len() {
            header.length as usize
        } else {
            raw.len()
        };
        let fields = copy_range(raw, 0, flen);
        let area = copy_range(raw, flen, raw.len());
        proof {
            assert(area@ =~= raw@.skip(formatted_len(raw@)));
        }
        let strings = Strings::new(area);
        UndefinedStruct { header, fields, strings }
    }

    /// The 8-bit field this structure holds at `o`.
    pub open spec fn spec_byte(&self, o: int) -> Option<u8> {
        spec_field_byte(self.fields@, o)
    }

    /// The 16-bit field this structure holds at `o`.
    pub open spec fn spec_word(&self, o: int) -> Option<u16> {
        spec_field_word(self.fields@, o)
    }

    /// The 32-bit field this structure holds at `o`.
    pub open spec fn spec_dword(&self, o: int) -> Option<u32> {
        spec_field_dword(self.fields@, o)
    }

    /// The 64-bit field this structure holds at `o`.
    pub open spec fn spec_qword(&self, o: int) -> Option<u64> {
        spec_field_qword(self.fields@, o)
    }

    /// The string this structure's index byte at `o` refers to.
    pub open spec fn spec_string(&self, o: int) -> Option<Seq<char>> {
        spec_field_string(self.fields@, self.strings@, o)
    }

    /// The 8-bit field at `offset`, absent when the structure is too short.
    pub fn get_field_byte(&self, offset: usize) -> (r: Option<u8>)
        ensures
            r == spec_field_byte(self.fields@, offset as int),
    {
        byte_at(&self.fields, offset)
    }

    /// The little-endian 16-bit field at `offset`, absent when the structure
    /// is too short.
    pub fn get_field_word(&self, offset: usize) -> (r: Option<u16>)
        ensures
            r == spec_field_word(self.fields@, offset as int),
    {
        word_at(&self.fields, offset)
    }

    /// The handle-valued field at `offset`, absent when the structure is too
    /// short.
    pub fn get_field_handle(&self, offset: usize) -> (r: Option<Handle>)
        ensures
            r matches Some(h) ==> spec_field_word(self.fields@, offset as int) matches Some(w)
                && h.0 == w,
            r is Some <==> spec_field_word(self.fields@, offset as int) is Some,
    {
        match word_at(&self.fields, offset) {
            Some(w) => Some(Handle(w)),
            None => None,
        }
    }

    /// The little-endian 32-bit field at `offset`, absent when the structure
    /// is too short.
    pub fn get_field_dword(&self, offset: usize) -> (r: Option<u32>)
        ensures
            r == spec_field_dword(self.fields@, offset as int),
    {
        dword_at(&self.fields, offset)
    }

    /// The little-endian 64-bit field at `offset`, absent when the structure
    /// is too short.
    pub fn get_field_qword(&self, offset: usize) -> (r: Option<u64>)
        ensures
            r == spec_field_qword(self.fields@, offset as int),
    {
        qword_at(&self.fields, offset)
    }

    /// The string referenced by the 1-based index byte at `offset`: index 0,
    /// an index past the string list, and an offset past the formatted area
    /// are all absent, never errors.
    pub fn get_field_string(&self, offset: usize) -> (r: Option<String>)
        ensures
            option_string_matches(
                r,
                spec_field_string(self.fields@, self.strings@, offset as int),
            ),
    {
        match byte_at(&self.fields, offset) {
            Some(idx) => self.strings.get_string(idx),
            None => None,
        }
    }
}

} // verus!
