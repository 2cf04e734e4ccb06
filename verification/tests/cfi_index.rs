use callstack_profile::cfi_index::index_entry;
use callstack_profile::{CfiSection, CfiSectionKind, DwarfCfiIndex, DwarfCfiIndexError};
use gimli::RunTimeEndian;

fn debug_frame(data: &[u8]) -> CfiSection<'_> {
    CfiSection {
        kind: CfiSectionKind::DebugFrame,
        data,
        endian: RunTimeEndian::Little,
        address_size: 4,
    }
}

fn eh_frame(data: &[u8]) -> CfiSection<'_> {
    CfiSection {
        kind: CfiSectionKind::EhFrame,
        data,
        endian: RunTimeEndian::Little,
        address_size: 4,
    }
}

/// Appends an entry: its length, its second word, and the rest.
fn push_entry(data: &mut Vec<u8>, second_word: u32, rest: &[u8]) -> u32 {
    let offset = data.len() as u32;
    data.extend_from_slice(&(rest.len() as u32 + 4).to_le_bytes());
    data.extend_from_slice(&second_word.to_le_bytes());
    data.extend_from_slice(rest);
    offset
}

/// Version 1, no augmentation, alignment factors 1 and -4, return address in register 14.
const CIE_BODY: [u8; 8] = [1, 0, 1, 0x7c, 14, 0, 0, 0];

fn fde_body(start: u32, len: u32) -> Vec<u8> {
    let mut body = start.to_le_bytes().to_vec();
    body.extend_from_slice(&len.to_le_bytes());
    body
}

fn push_debug_cie(data: &mut Vec<u8>) -> u32 {
    push_entry(data, 0xffff_ffff, &CIE_BODY)
}

fn push_debug_fde(data: &mut Vec<u8>, cie: u32, start: u32, len: u32) -> u32 {
    push_entry(data, cie, &fde_body(start, len))
}

fn push_eh_cie(data: &mut Vec<u8>) -> u32 {
    push_entry(data, 0, &CIE_BODY)
}

fn push_eh_fde(data: &mut Vec<u8>, cie: u32, start: u32, len: u32) -> u32 {
    let pointer = data.len() as u32 + 4 - cie;
    push_entry(data, pointer, &fde_body(start, len))
}

fn is_gimli_error(result: Result<DwarfCfiIndex, DwarfCfiIndexError>) -> bool {
    matches!(result, Err(DwarfCfiIndexError::Gimli(_)))
}

#[test]
fn debug_frame_is_indexed_by_address() {
    let mut data = Vec::new();
    let cie = push_debug_cie(&mut data);
    let high = push_debug_fde(&mut data, cie, 0x3000, 0x100);
    let low = push_debug_fde(&mut data, cie, 0x1000, 0x100);
    let middle = push_debug_fde(&mut data, cie, 0x2000, 0x100);
    let index = DwarfCfiIndex::try_new(&debug_frame(&data)).unwrap();
    assert_eq!(index.fde_offset_for_relative_address(0), None);
    assert_eq!(index.fde_offset_for_relative_address(0xfff), None);
    assert_eq!(index.fde_offset_for_relative_address(0x1000), Some(low));
    assert_eq!(index.fde_offset_for_relative_address(0x1001), Some(low));
    assert_eq!(index.fde_offset_for_relative_address(0x1fff), Some(low));
    assert_eq!(index.fde_offset_for_relative_address(0x2000), Some(middle));
    assert_eq!(index.fde_offset_for_relative_address(0x2fff), Some(middle));
    assert_eq!(index.fde_offset_for_relative_address(0x3000), Some(high));
    assert_eq!(index.fde_offset_for_relative_address(u64::MAX), Some(high));
    assert_eq!((high, low, middle), (16, 32, 48));
}

#[test]
fn eh_frame_is_indexed_by_address() {
    let mut data = Vec::new();
    let cie = push_eh_cie(&mut data);
    let second = push_eh_fde(&mut data, cie, 0x800, 0x10);
    let first = push_eh_fde(&mut data, cie, 0x400, 0x10);
    data.extend_from_slice(&[0, 0, 0, 0]);
    let index = DwarfCfiIndex::try_new(&eh_frame(&data)).unwrap();
    assert_eq!(index.fde_offset_for_relative_address(0x3ff), None);
    assert_eq!(index.fde_offset_for_relative_address(0x400), Some(first));
    assert_eq!(index.fde_offset_for_relative_address(0x7ff), Some(first));
    assert_eq!(index.fde_offset_for_relative_address(0x800), Some(second));
}

#[test]
fn entries_behind_the_terminator_of_an_eh_frame_are_left_out() {
    let mut data = Vec::new();
    let cie = push_eh_cie(&mut data);
    let fde = push_eh_fde(&mut data, cie, 0x400, 0x10);
    data.extend_from_slice(&[0, 0, 0, 0]);
    push_eh_fde(&mut data, cie, 0x500, 0x10);
    let index = DwarfCfiIndex::try_new(&eh_frame(&data)).unwrap();
    assert_eq!(index.fde_offset_for_relative_address(0x500), Some(fde));
}

#[test]
fn section_without_entries_finds_nothing() {
    let index = DwarfCfiIndex::try_new(&debug_frame(&[])).unwrap();
    assert_eq!(index.fde_offset_for_relative_address(0), None);
    assert_eq!(index.fde_offset_for_relative_address(u64::MAX), None);
    let index = DwarfCfiIndex::try_new(&eh_frame(&[])).unwrap();
    assert_eq!(index.fde_offset_for_relative_address(0), None);
}

#[test]
fn every_fde_of_a_section_has_an_offset_of_its_own() {
    let mut data = Vec::new();
    let cie = push_debug_cie(&mut data);
    let starts = [0x500, 0x100, 0x400, 0x200, 0x300];
    let offsets: Vec<u32> =
        starts.iter().map(|start| push_debug_fde(&mut data, cie, *start, 4)).collect();
    // Zero lengths between entries of a `.debug_frame` section are skipped.
    data.extend_from_slice(&[0, 0, 0, 0]);
    let last = push_debug_fde(&mut data, cie, 0x600, 4);
    let index = DwarfCfiIndex::try_new(&debug_frame(&data)).unwrap();
    for (start, offset) in starts.iter().zip(&offsets) {
        assert_eq!(index.fde_offset_for_relative_address(*start as u64), Some(*offset));
    }
    assert_eq!(index.fde_offset_for_relative_address(0x600), Some(last));
    assert_eq!(offsets, vec![16, 32, 48, 64, 80]);
    assert_eq!(last, 100);
}

#[test]
fn section_of_cies_alone_finds_nothing() {
    let mut data = Vec::new();
    push_debug_cie(&mut data);
    push_debug_cie(&mut data);
    let index = DwarfCfiIndex::try_new(&debug_frame(&data)).unwrap();
    assert_eq!(index.fde_offset_for_relative_address(u64::MAX), None);
}

#[test]
fn fde_can_point_to_a_cie_that_was_not_read_last() {
    let mut data = Vec::new();
    let first_cie = push_debug_cie(&mut data);
    let second_cie = push_debug_cie(&mut data);
    let a = push_debug_fde(&mut data, first_cie, 0x100, 4);
    let b = push_debug_fde(&mut data, second_cie, 0x200, 4);
    let c = push_debug_fde(&mut data, first_cie, 0x300, 4);
    let index = DwarfCfiIndex::try_new(&debug_frame(&data)).unwrap();
    assert_eq!(index.fde_offset_for_relative_address(0x1ff), Some(a));
    assert_eq!(index.fde_offset_for_relative_address(0x2ff), Some(b));
    assert_eq!(index.fde_offset_for_relative_address(0x3ff), Some(c));
}

#[test]
fn eh_frame_fde_can_point_to_a_cie_that_was_not_read_last() {
    let mut data = Vec::new();
    let first_cie = push_eh_cie(&mut data);
    push_eh_cie(&mut data);
    let fde = push_eh_fde(&mut data, first_cie, 0x100, 4);
    let index = DwarfCfiIndex::try_new(&eh_frame(&data)).unwrap();
    assert_eq!(index.fde_offset_for_relative_address(0x100), Some(fde));
}

#[test]
fn truncated_sections_are_refused() {
    let mut data = Vec::new();
    let cie = push_debug_cie(&mut data);
    push_debug_fde(&mut data, cie, 0x100, 4);
    data.truncate(data.len() - 1);
    assert!(is_gimli_error(DwarfCfiIndex::try_new(&debug_frame(&data))));
    let mut data = Vec::new();
    let cie = push_eh_cie(&mut data);
    push_eh_fde(&mut data, cie, 0x100, 4);
    data.truncate(data.len() - 1);
    assert!(is_gimli_error(DwarfCfiIndex::try_new(&eh_frame(&data))));
}

#[test]
fn cut_off_length_is_an_unexpected_end() {
    let mut data = Vec::new();
    let cie = push_eh_cie(&mut data);
    push_eh_fde(&mut data, cie, 0x200, 0x10);
    data.extend_from_slice(&[12, 0]);
    let eof = |result| {
        matches!(result, Err(DwarfCfiIndexError::Gimli(gimli::Error::UnexpectedEof(_))))
    };
    assert_eq!(data.len(), 34);
    assert!(eof(DwarfCfiIndex::try_new(&eh_frame(&data))));
    for len in 1..4 {
        assert!(eof(DwarfCfiIndex::try_new(&debug_frame(&vec![7; len]))));
        assert!(eof(DwarfCfiIndex::try_new(&eh_frame(&vec![0; len]))));
    }
}

#[test]
fn error_is_that_of_the_first_failure() {
    let version = |number: u8| {
        let mut body = CIE_BODY;
        body[0] = number;
        body
    };
    let mut data = Vec::new();
    push_debug_cie(&mut data);
    push_entry(&mut data, 0xffff_ffff, &version(9));
    push_entry(&mut data, 0xffff_ffff, &version(8));
    let error = DwarfCfiIndex::try_new(&debug_frame(&data)).err();
    assert_eq!(error, Some(DwarfCfiIndexError::Gimli(gimli::Error::UnknownVersion(9))));

    // An FDE whose CIE has an unknown version, before an entry with another.
    let mut data = Vec::new();
    push_debug_fde(&mut data, 16, 0x100, 4);
    push_entry(&mut data, 0xffff_ffff, &version(7));
    push_entry(&mut data, 0xffff_ffff, &version(6));
    let error = DwarfCfiIndex::try_new(&debug_frame(&data)).err();
    assert_eq!(error, Some(DwarfCfiIndexError::Gimli(gimli::Error::UnknownVersion(7))));
}

#[test]
fn addresses_have_between_1_and_8_bytes() {
    let mut section = debug_frame(&[]);
    for size in 0..=u8::MAX {
        section.address_size = size;
        assert_eq!(section.has_valid_address_size(), (1..=8).contains(&size));
    }
}

#[test]
fn fde_without_its_cie_is_refused() {
    let mut data = Vec::new();
    push_debug_cie(&mut data);
    push_debug_fde(&mut data, 4, 0x100, 4);
    assert!(is_gimli_error(DwarfCfiIndex::try_new(&debug_frame(&data))));
}

#[test]
fn address_size_matters() {
    let mut data = Vec::new();
    let cie = push_debug_cie(&mut data);
    push_entry(&mut data, cie, &[0, 1, 0, 0, 0, 0, 0, 0, 4, 0, 0, 0, 0, 0, 0, 0]);
    let mut section = debug_frame(&data);
    section.address_size = 8;
    let index = DwarfCfiIndex::try_new(&section).unwrap();
    assert_eq!(index.fde_offset_for_relative_address(0xff), None);
    assert_eq!(index.fde_offset_for_relative_address(0x100), Some(16));
    section.address_size = 3;
    assert!(is_gimli_error(DwarfCfiIndex::try_new(&section)));
}

#[test]
fn byte_order_matters() {
    let mut data = Vec::new();
    data.extend_from_slice(&[0, 0, 0, 12, 0xff, 0xff, 0xff, 0xff]);
    data.extend_from_slice(&CIE_BODY);
    data.extend_from_slice(&[0, 0, 0, 12, 0, 0, 0, 0, 0, 0, 1, 0, 0, 0, 0, 4]);
    let mut section = debug_frame(&data);
    section.endian = RunTimeEndian::Big;
    let index = DwarfCfiIndex::try_new(&section).unwrap();
    assert_eq!(index.fde_offset_for_relative_address(0x100), Some(16));
    assert_eq!(index.fde_offset_for_relative_address(0xff), None);
}

#[test]
fn fde_too_far_into_the_section_is_refused() {
    assert_eq!(index_entry(7, 0), Ok((7, 0)));
    assert_eq!(index_entry(7, 0xffff_ffff), Ok((7, u32::MAX)));
    assert_eq!(index_entry(7, 0x1_0000_0000), Err(DwarfCfiIndexError::FdeOffsetTooBig));
    assert_eq!(index_entry(7, usize::MAX), Err(DwarfCfiIndexError::FdeOffsetTooBig));
}

#[test]
fn entries_are_sorted_by_start() {
    let index = DwarfCfiIndex::from_entries(vec![(30, 3), (10, 1), (20, 2)]);
    assert_eq!(index.fde_offset_for_relative_address(9), None);
    assert_eq!(index.fde_offset_for_relative_address(10), Some(1));
    assert_eq!(index.fde_offset_for_relative_address(19), Some(1));
    assert_eq!(index.fde_offset_for_relative_address(20), Some(2));
    assert_eq!(index.fde_offset_for_relative_address(29), Some(2));
    assert_eq!(index.fde_offset_for_relative_address(30), Some(3));
    assert_eq!(index.fde_offset_for_relative_address(31), Some(3));
}

#[test]
fn of_entries_with_the_same_start_the_last_is_found_behind_it() {
    let index = DwarfCfiIndex::from_entries(vec![(10, 1), (5, 0), (10, 2), (10, 3)]);
    assert_eq!(index.fde_offset_for_relative_address(11), Some(3));
    assert_eq!(index.fde_offset_for_relative_address(9), Some(0));
    let found = index.fde_offset_for_relative_address(10);
    assert!(found == Some(1) || found == Some(2) || found == Some(3));
}

#[test]
fn entries_that_occur_twice_are_kept_twice() {
    let index = DwarfCfiIndex::from_entries(vec![(10, 1), (20, 2), (10, 1)]);
    assert_eq!(index.fde_offset_for_relative_address(10), Some(1));
    assert_eq!(index.fde_offset_for_relative_address(19), Some(1));
    assert_eq!(index.fde_offset_for_relative_address(20), Some(2));
}

#[test]
fn lookups_find_what_starts_there() {
    let entries: Vec<(u64, u32)> = (0..50).map(|i| ((i * 37 % 50) * 8, i as u32)).collect();
    let index = DwarfCfiIndex::from_entries(entries.clone());
    for (start, offset) in entries {
        assert_eq!(index.fde_offset_for_relative_address(start), Some(offset));
        assert_eq!(index.fde_offset_for_relative_address(start + 7), Some(offset));
    }
}

#[test]
fn errors_tell_what_went_wrong() {
    let error = DwarfCfiIndexError::from(gimli::Error::BadUtf8);
    assert_eq!(error, DwarfCfiIndexError::Gimli(gimli::Error::BadUtf8));
    assert_eq!(
        error.to_string(),
        format!("EhFrame processing failed: {}", gimli::Error::BadUtf8)
    );
    assert_eq!(error.source(), Some(&gimli::Error::BadUtf8));
    let error = DwarfCfiIndexError::FdeOffsetTooBig;
    assert_eq!(error.to_string(), "FDE offset did not fit into u32");
    assert_eq!(error.source(), None);
}
