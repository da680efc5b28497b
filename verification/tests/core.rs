use smbios::entry_point::{parse_entry_point, EntryPointError};
use smbios::structure::{Handle, UndefinedStruct};
use smbios::table::StructureTable;
use smbios::walker::{walk_table, WalkTermination};

/// A well-formed structure span: header, formatted tail, strings, terminator.
fn make_structure(
    struct_type: u8,
    handle: u16,
    formatted_tail: &[u8],
    strings: &[&str],
) -> Vec<u8> {
    let length = 4 + formatted_tail.len();
    let mut raw = vec![
        struct_type,
        length as u8,
        (handle & 0xFF) as u8,
        (handle >> 8) as u8,
    ];
    raw.extend_from_slice(formatted_tail);
    for s in strings {
        raw.extend_from_slice(s.as_bytes());
        raw.push(0);
    }
    // a structure with no strings still carries both terminator nulls
    if strings.is_empty() {
        raw.push(0);
    }
    raw.push(0);
    raw
}

#[test]
fn header_fields_recovered_exactly() {
    let raw = vec![0x0E, 0x08, 0x5F, 0x00, 0x01, 0xDD, 0x5B, 0x00, 0x00, 0x00];
    let s = UndefinedStruct::new(&raw);
    assert_eq!(s.header.struct_type, 14);
    assert_eq!(s.header.length, 8);
    assert_eq!(s.header.handle, Handle(0x005F));
    assert_eq!(s.get_field_byte(4), Some(1));
    assert_eq!(s.get_field_byte(5), Some(221));
}

#[test]
fn string_indexing_by_one_based_byte() {
    // formatted byte at offset 4 selects among the strings ["A", "B"]
    for (index_byte, expected) in [
        (0u8, None),
        (1u8, Some("A".to_string())),
        (2u8, Some("B".to_string())),
        (3u8, None),
        (200u8, None),
    ] {
        let raw = make_structure(11, 0x0010, &[index_byte], &["A", "B"]);
        let s = UndefinedStruct::new(&raw);
        assert_eq!(s.get_field_string(4), expected);
    }
}

#[test]
fn no_string_structure_is_always_absent() {
    // the string region is the lone extra null byte: zero strings
    for index_byte in [0u8, 1, 2, 255] {
        let raw = make_structure(11, 0x0010, &[index_byte], &[]);
        let s = UndefinedStruct::new(&raw);
        assert_eq!(s.strings.len(), 0);
        assert_eq!(s.get_field_string(4), None);
    }
}

#[test]
fn non_ascii_bytes_decode_as_latin1() {
    // the single byte 0xE9 is 'e' with acute accent in Latin-1 and becomes
    // that character, not a decode error or a replacement
    let raw = vec![11u8, 5, 0x11, 0x00, 1, 0x43, 0x61, 0x66, 0xE9, 0x00, 0x00];
    let s = UndefinedStruct::new(&raw);
    assert_eq!(s.get_field_string(4), Some("Caf\u{e9}".to_string()));
}

#[test]
fn absent_fields_at_every_width() {
    let raw = make_structure(5, 0x0001, &[0xAA, 0xBB], &[]);
    let s = UndefinedStruct::new(&raw);
    // length is 6: offsets 4 and 5 exist, 6 does not
    assert_eq!(s.get_field_byte(5), Some(0xBB));
    assert_eq!(s.get_field_byte(6), None);
    assert_eq!(s.get_field_word(4), Some(0xBBAA));
    assert_eq!(s.get_field_word(5), None);
    assert_eq!(s.get_field_dword(4), None);
    assert_eq!(s.get_field_qword(0), None);
    assert_eq!(s.get_field_handle(2), Some(Handle(0x0001)));
    assert_eq!(s.get_field_handle(5), None);
}

#[test]
fn little_endian_fields_exact() {
    let raw = make_structure(5, 0x0002, &[0x78, 0x56, 0x34, 0x12, 0xEF, 0xCD, 0xAB, 0x89], &[]);
    let s = UndefinedStruct::new(&raw);
    assert_eq!(s.get_field_word(4), Some(0x5678));
    assert_eq!(s.get_field_dword(4), Some(0x12345678));
    assert_eq!(s.get_field_qword(4), Some(0x89ABCDEF12345678));
}

#[test]
fn walker_boundary_two_structures_then_end_marker() {
    let mut table = Vec::new();
    table.extend(make_structure(1, 0x0001, &[0x01], &["X"]));
    table.extend(make_structure(2, 0x0002, &[0x02, 0x03], &[]));
    table.extend(make_structure(127, 0x0003, &[], &[]));
    let walk = walk_table(&table, None);
    assert_eq!(walk.structures.len(), 2);
    assert_eq!(walk.structures[0].header.struct_type, 1);
    assert_eq!(walk.structures[0].header.handle, Handle(1));
    assert_eq!(walk.structures[1].header.struct_type, 2);
    assert_eq!(walk.structures[1].header.handle, Handle(2));
    assert_eq!(walk.termination, WalkTermination::EndMarker);
}

#[test]
fn truncation_mid_formatted_area_keeps_prior_structures() {
    let mut table = Vec::new();
    let first = make_structure(1, 0x0001, &[0x01], &["X"]);
    let first_len = first.len();
    table.extend(first);
    // second header declares 10 bytes but only 6 follow
    table.extend([2u8, 10, 0x02, 0x00, 0xAA, 0xBB]);
    let walk = walk_table(&table, None);
    assert_eq!(walk.structures.len(), 1);
    assert_eq!(walk.structures[0].header.struct_type, 1);
    assert_eq!(
        walk.termination,
        WalkTermination::TruncatedStructure { offset: first_len }
    );
}

#[test]
fn malformed_length_stops_walking() {
    let mut table = Vec::new();
    table.extend(make_structure(1, 0x0001, &[], &[]));
    table.extend([2u8, 3, 0x02, 0x00, 0x00, 0x00]);
    let walk = walk_table(&table, None);
    assert_eq!(walk.structures.len(), 1);
    assert_eq!(walk.termination, WalkTermination::MalformedLength { offset: 6 });
}

#[test]
fn short_header_tail_is_reported() {
    let mut table = make_structure(1, 0x0001, &[], &[]);
    let offset = table.len();
    table.extend([9u8, 4]);
    let walk = walk_table(&table, None);
    assert_eq!(walk.structures.len(), 1);
    assert_eq!(walk.termination, WalkTermination::TruncatedHeader { offset });
}

#[test]
fn missing_final_terminator_is_tolerated() {
    // string bytes run to the buffer's end with no double null
    let mut table = make_structure(1, 0x0001, &[0x01], &["AB"]);
    table.pop();
    table.pop();
    let walk = walk_table(&table, None);
    assert_eq!(walk.structures.len(), 1);
    assert_eq!(walk.structures[0].get_field_string(4), Some("AB".to_string()));
    assert_eq!(walk.termination, WalkTermination::BufferExhausted);
}

#[test]
fn count_limit_stops_the_walk() {
    let mut table = Vec::new();
    table.extend(make_structure(1, 0x0001, &[], &[]));
    table.extend(make_structure(2, 0x0002, &[], &[]));
    table.extend(make_structure(3, 0x0003, &[], &[]));
    let walk = walk_table(&table, Some(2));
    assert_eq!(walk.structures.len(), 2);
    assert_eq!(walk.termination, WalkTermination::CountReached);
}

#[test]
fn table_indexes_by_handle_and_type() {
    let mut bytes = Vec::new();
    bytes.extend(make_structure(17, 0x0010, &[0x01], &["DIMM A"]));
    bytes.extend(make_structure(4, 0x0020, &[], &[]));
    bytes.extend(make_structure(17, 0x0030, &[0x01], &["DIMM B"]));
    bytes.extend(make_structure(127, 0x0040, &[], &[]));
    let table = StructureTable::build(&bytes);
    assert_eq!(table.len(), 3);
    assert_eq!(table.termination(), WalkTermination::EndMarker);
    assert!(table.duplicate_handles().is_empty());

    let by_handle = table.by_handle(Handle(0x0020)).unwrap();
    assert_eq!(by_handle.header.struct_type, 4);
    assert!(table.by_handle(Handle(0x0099)).is_none());

    let memories = table.by_type(17);
    assert_eq!(memories.len(), 2);
    assert_eq!(memories[0].header.handle, Handle(0x0010));
    assert_eq!(memories[1].header.handle, Handle(0x0030));
    assert_eq!(memories[0].get_field_string(4), Some("DIMM A".to_string()));
    assert_eq!(memories[1].get_field_string(4), Some("DIMM B".to_string()));
    assert!(table.by_type(99).is_empty());
}

#[test]
fn duplicate_handles_reported_first_wins() {
    let mut bytes = Vec::new();
    bytes.extend(make_structure(1, 0x0001, &[0x01], &["first"]));
    bytes.extend(make_structure(2, 0x0001, &[0x01], &["second"]));
    let table = StructureTable::build(&bytes);
    assert_eq!(table.duplicate_handles(), &vec![Handle(0x0001)]);
    let winner = table.by_handle(Handle(0x0001)).unwrap();
    assert_eq!(winner.header.struct_type, 1);
    assert_eq!(winner.get_field_string(4), Some("first".to_string()));
}

#[test]
fn repeated_decode_gives_identical_indexes() {
    let mut bytes = Vec::new();
    bytes.extend(make_structure(3, 0x0005, &[0x01], &["Chassis"]));
    bytes.extend(make_structure(17, 0x0006, &[], &[]));
    bytes.extend(make_structure(127, 0x0007, &[], &[]));
    let t1 = StructureTable::build(&bytes);
    let t2 = StructureTable::build(&bytes);
    assert_eq!(t1.len(), t2.len());
    assert_eq!(t1.termination(), t2.termination());
    assert_eq!(t1.duplicate_handles(), t2.duplicate_handles());
    for (a, b) in t1.all().iter().zip(t2.all().iter()) {
        assert_eq!(a.header, b.header);
        assert_eq!(a.fields, b.fields);
    }
    for h in [0x0005u16, 0x0006, 0x0007, 0xFFFF] {
        let r1 = t1.by_handle(Handle(h)).map(|s| s.header);
        let r2 = t2.by_handle(Handle(h)).map(|s| s.header);
        assert_eq!(r1, r2);
    }
    for c in [3u8, 17, 127, 0] {
        let v1: Vec<_> = t1.by_type(c).iter().map(|s| s.header).collect();
        let v2: Vec<_> = t2.by_type(c).iter().map(|s| s.header).collect();
        assert_eq!(v1, v2);
    }
}

/// A 32-bit entry point with a correct whole-record checksum.
fn make_entry_32() -> Vec<u8> {
    let mut b = vec![0u8; 31];
    b[0..4].copy_from_slice(b"_SM_");
    b[5] = 0x1F; // record length
    b[6] = 3; // major (direct field)
    b[7] = 4; // minor (direct field)
    b[0x10..0x15].copy_from_slice(b"_DMI_");
    b[0x16] = 100; // table length
    b[0x18..0x1C].copy_from_slice(&[0x00, 0x00, 0x0F, 0x00]); // address 0xF0000
    b[0x1C] = 5; // structure count
    b[0x1E] = 0x34; // BCD version 3.4
    let sum: u32 = b.iter().map(|&x| x as u32).sum();
    b[4] = ((256 - (sum % 256)) % 256) as u8;
    b
}

#[test]
fn entry_point_32_parses_and_checksums() {
    let b = make_entry_32();
    let sum: u32 = b.iter().map(|&x| x as u32).sum();
    assert_eq!(sum % 256, 0);
    let info = parse_entry_point(&b).unwrap();
    assert!(info.checksum_valid);
    assert_eq!(info.smbios_major, 3);
    assert_eq!(info.smbios_minor, 4);
    assert_eq!(info.smbios_docrev, None);
    assert_eq!(info.table_address, 0xF0000);
    assert_eq!(info.table_length, Some(100));
    assert_eq!(info.structure_count, Some(5));
    assert_eq!(info.anchor, b"_SM_".to_vec());
}

#[test]
fn corrupting_any_byte_flips_the_checksum() {
    let good = make_entry_32();
    for i in 4..31 {
        let mut bad = good.clone();
        bad[i] = bad[i].wrapping_add(1);
        let info = parse_entry_point(&bad).unwrap();
        assert!(!info.checksum_valid, "byte {} corrupted yet marked valid", i);
    }
}

#[test]
fn entry_point_64_parses() {
    let mut b = vec![0u8; 24];
    b[0..5].copy_from_slice(b"_SM3_");
    b[6] = 0x18; // record length
    b[7] = 3; // major
    b[8] = 2; // minor
    b[9] = 1; // docrev
    b[0x10..0x18].copy_from_slice(&0x12345678u64.to_le_bytes());
    let sum: u32 = b.iter().map(|&x| x as u32).sum();
    b[5] = ((256 - (sum % 256)) % 256) as u8;
    let info = parse_entry_point(&b).unwrap();
    assert!(info.checksum_valid);
    assert_eq!(info.smbios_major, 3);
    assert_eq!(info.smbios_minor, 2);
    assert_eq!(info.smbios_docrev, Some(1));
    assert_eq!(info.table_address, 0x12345678);
    assert_eq!(info.table_length, None);
    assert_eq!(info.structure_count, None);
    assert_eq!(info.anchor, b"_SM3_".to_vec());
}

#[test]
fn entry_point_rejections() {
    // unrecognized anchor: a hard failure, the buffer is not an entry point
    let junk = vec![0x10u8; 40];
    assert_eq!(
        parse_entry_point(&junk),
        Err(EntryPointError::UnrecognizedAnchor)
    );
    assert_eq!(
        parse_entry_point(&Vec::new()),
        Err(EntryPointError::UnrecognizedAnchor)
    );
    // recognized anchor over too few bytes
    assert_eq!(
        parse_entry_point(&b"_SM_".to_vec()),
        Err(EntryPointError::Truncated)
    );
    assert_eq!(
        parse_entry_point(&b"_SM3_".to_vec()),
        Err(EntryPointError::Truncated)
    );
    // a bad checksum alone never rejects the record
    let mut b = make_entry_32();
    b[4] = b[4].wrapping_add(1);
    assert!(parse_entry_point(&b).is_ok());
}
