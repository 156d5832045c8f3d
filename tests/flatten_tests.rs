use flatload::elf_input::{RawHeader, PT_LOAD};
use flatload::entry::{resolve_entry, UnresolvedEntry};
use flatload::flatten::flatten;
use flatload::metadata::{metadata_text, push_decimal};
use flatload::pipeline::{build_image, total_size, ImageError};
use flatload::segment::Segment;
use flatload::select::{segment_bytes, segments_from, select_loadable};

/// (p_type, vaddr, memsz, file content) of one program header.
type PhSpec = (u32, u64, u64, Vec<u8>);

/// A little-endian 64-bit executable image with the given program headers;
/// each header's file bytes follow the header table.
fn elf64_le(entry: u64, phs: &[PhSpec]) -> Vec<u8> {
    let mut out = vec![0x7f, b'E', b'L', b'F', 2, 1, 1, 0];
    out.resize(16, 0);
    out.extend_from_slice(&2u16.to_le_bytes());
    out.extend_from_slice(&0x3eu16.to_le_bytes());
    out.extend_from_slice(&1u32.to_le_bytes());
    out.extend_from_slice(&entry.to_le_bytes());
    out.extend_from_slice(&64u64.to_le_bytes());
    out.extend_from_slice(&0u64.to_le_bytes());
    out.extend_from_slice(&0u32.to_le_bytes());
    out.extend_from_slice(&64u16.to_le_bytes());
    out.extend_from_slice(&56u16.to_le_bytes());
    out.extend_from_slice(&(phs.len() as u16).to_le_bytes());
    out.extend_from_slice(&[0u8; 6]);
    let mut data_off = 64 + 56 * phs.len() as u64;
    for (p_type, vaddr, memsz, content) in phs {
        out.extend_from_slice(&p_type.to_le_bytes());
        out.extend_from_slice(&5u32.to_le_bytes());
        out.extend_from_slice(&data_off.to_le_bytes());
        out.extend_from_slice(&vaddr.to_le_bytes());
        out.extend_from_slice(&vaddr.to_le_bytes());
        out.extend_from_slice(&(content.len() as u64).to_le_bytes());
        out.extend_from_slice(&memsz.to_le_bytes());
        out.extend_from_slice(&0x1000u64.to_le_bytes());
        data_off += content.len() as u64;
    }
    for (_, _, _, content) in phs {
        out.extend_from_slice(content);
    }
    out
}

/// A big-endian 32-bit executable image with the given program headers.
fn elf32_be(entry: u32, phs: &[PhSpec]) -> Vec<u8> {
    let mut out = vec![0x7f, b'E', b'L', b'F', 1, 2, 1, 0];
    out.resize(16, 0);
    out.extend_from_slice(&2u16.to_be_bytes());
    out.extend_from_slice(&3u16.to_be_bytes());
    out.extend_from_slice(&1u32.to_be_bytes());
    out.extend_from_slice(&entry.to_be_bytes());
    out.extend_from_slice(&52u32.to_be_bytes());
    out.extend_from_slice(&0u32.to_be_bytes());
    out.extend_from_slice(&0u32.to_be_bytes());
    out.extend_from_slice(&52u16.to_be_bytes());
    out.extend_from_slice(&32u16.to_be_bytes());
    out.extend_from_slice(&(phs.len() as u16).to_be_bytes());
    out.extend_from_slice(&[0u8; 6]);
    let mut data_off = 52 + 32 * phs.len() as u32;
    for (p_type, vaddr, memsz, content) in phs {
        out.extend_from_slice(&p_type.to_be_bytes());
        out.extend_from_slice(&data_off.to_be_bytes());
        out.extend_from_slice(&(*vaddr as u32).to_be_bytes());
        out.extend_from_slice(&(*vaddr as u32).to_be_bytes());
        out.extend_from_slice(&(content.len() as u32).to_be_bytes());
        out.extend_from_slice(&(*memsz as u32).to_be_bytes());
        out.extend_from_slice(&5u32.to_be_bytes());
        out.extend_from_slice(&0x1000u32.to_be_bytes());
        data_off += content.len() as u32;
    }
    for (_, _, _, content) in phs {
        out.extend_from_slice(content);
    }
    out
}

fn pattern(len: usize, seed: u8) -> Vec<u8> {
    (0..len).map(|i| (i as u8).wrapping_mul(7).wrapping_add(seed) | 1).collect()
}

fn two_segments() -> Vec<Segment> {
    vec![
        Segment::new(0x1000, 0x300, pattern(0x200, 3)),
        Segment::new(0x1300, 0x50, pattern(0x50, 9)),
    ]
}

fn text(bytes: &[u8]) -> String {
    String::from_utf8(bytes.to_vec()).unwrap()
}

#[test]
fn two_segment_scenario_through_the_engine() {
    let segs = two_segments();
    let image = flatten(&segs);
    assert_eq!(image.len(), 0x350);
    assert_eq!(&image[..0x200], &pattern(0x200, 3)[..]);
    assert!(image[0x200..0x300].iter().all(|&b| b == 0));
    assert_eq!(&image[0x300..], &pattern(0x50, 9)[..]);
    let target = resolve_entry(&segs, 0x1010).unwrap();
    assert_eq!(target.segment_index, 0);
    assert_eq!(target.flat_offset, 0x10);
    assert_eq!(total_size(&segs), Some(0x350));
    assert_eq!(
        text(&metadata_text(target.flat_offset, 0x350)),
        "%define KERNEL_ENTRY_OFFSET 16\n%define KERNEL_MEMSIZE 848\n"
    );
}

#[test]
fn two_segment_scenario_from_an_image_file() {
    let file = elf64_le(
        0x1010,
        &[(PT_LOAD, 0x1000, 0x300, pattern(0x200, 3)), (PT_LOAD, 0x1300, 0x50, pattern(0x50, 9))],
    );
    let img = build_image(&file).unwrap();
    assert_eq!(img.image.len(), 0x350);
    assert!(img.image[0x200..0x300].iter().all(|&b| b == 0));
    assert_eq!(&img.image[..0x200], &pattern(0x200, 3)[..]);
    assert_eq!(&img.image[0x300..], &pattern(0x50, 9)[..]);
    assert_eq!(img.entry.flat_offset, 0x10);
    assert_eq!(img.total_size, 0x350);
    assert_eq!(text(&img.metadata), "%define KERNEL_ENTRY_OFFSET 16\n%define KERNEL_MEMSIZE 848\n");
}

#[test]
fn entry_in_second_segment_counts_padding_of_first() {
    let file = elf64_le(
        0x1320,
        &[(PT_LOAD, 0x1000, 0x300, pattern(0x200, 3)), (PT_LOAD, 0x1300, 0x50, pattern(0x50, 9))],
    );
    let img = build_image(&file).unwrap();
    assert_eq!(img.entry.segment_index, 1);
    assert_eq!(img.entry.flat_offset, 0x320);
}

#[test]
fn unresolved_entry_single_segment() {
    let segs = vec![Segment::new(0x2000, 0x100, pattern(0x100, 1))];
    assert_eq!(resolve_entry(&segs, 0x5000), Err(UnresolvedEntry { entry_address: 0x5000 }));
    let file = elf64_le(0x5000, &[(PT_LOAD, 0x2000, 0x100, pattern(0x100, 1))]);
    assert!(matches!(build_image(&file), Err(ImageError::UnresolvedEntry { entry_address: 0x5000 })));
}

#[test]
fn zero_segments_give_empty_image_and_unresolved_entry() {
    let segs: Vec<Segment> = Vec::new();
    assert!(flatten(&segs).is_empty());
    assert_eq!(total_size(&segs), Some(0));
    assert!(resolve_entry(&segs, 0x1000).is_err());
    assert_eq!(text(&metadata_text(0, 0)), "%define KERNEL_ENTRY_OFFSET 0\n%define KERNEL_MEMSIZE 0\n");
    let file = elf64_le(0x1000, &[]);
    assert!(matches!(build_image(&file), Err(ImageError::UnresolvedEntry { entry_address: 0x1000 })));
}

#[test]
fn running_twice_gives_identical_artifacts() {
    let file = elf64_le(
        0x1010,
        &[(PT_LOAD, 0x1000, 0x300, pattern(0x200, 3)), (PT_LOAD, 0x1300, 0x50, pattern(0x50, 9))],
    );
    let a = build_image(&file).unwrap();
    let b = build_image(&file.clone()).unwrap();
    assert_eq!(a.image, b.image);
    assert_eq!(a.metadata, b.metadata);
}

#[test]
fn image_length_is_sum_of_memory_sizes() {
    let segs = vec![
        Segment::new(0x0, 7, vec![1, 2, 3]),
        Segment::new(0x100, 0, vec![]),
        Segment::new(0x200, 5, vec![4, 5, 6, 7, 8]),
        Segment::new(0x300, 4, vec![]),
    ];
    let image = flatten(&segs);
    assert_eq!(image.len(), 16);
    assert_eq!(image, vec![1, 2, 3, 0, 0, 0, 0, 4, 5, 6, 7, 8, 0, 0, 0, 0]);
    assert_eq!(total_size(&segs), Some(16));
}

#[test]
fn entry_at_segment_start_resolves() {
    let segs = two_segments();
    let t = resolve_entry(&segs, 0x1000).unwrap();
    assert_eq!((t.segment_index, t.flat_offset), (0, 0));
    let t = resolve_entry(&segs, 0x1300).unwrap();
    assert_eq!((t.segment_index, t.flat_offset), (1, 0x300));
}

#[test]
fn entry_at_range_end_is_outside() {
    let segs = two_segments();
    assert!(resolve_entry(&segs, 0x1350).is_err());
    assert!(resolve_entry(&segs, 0xfff).is_err());
    let t = resolve_entry(&segs, 0x134f).unwrap();
    assert_eq!(t.flat_offset, 0x34f);
}

#[test]
fn overlapping_ranges_take_first_in_table_order() {
    let segs = vec![
        Segment::new(0x1000, 0x100, vec![]),
        Segment::new(0x1080, 0x100, vec![]),
    ];
    let t = resolve_entry(&segs, 0x1090).unwrap();
    assert_eq!(t.segment_index, 0);
    assert_eq!(t.flat_offset, 0x90);
}

#[test]
fn non_loadable_headers_are_skipped() {
    let headers: Vec<RawHeader> = vec![
        (6, 0, 0, 0, 0),
        (PT_LOAD, 10, 0x1000, 4, 8),
        (4, 20, 0, 2, 2),
        (PT_LOAD, 30, 0x2000, 0, 16),
    ];
    assert_eq!(select_loadable(&headers), vec![headers[1], headers[3]]);
    let file = elf64_le(
        0x2004,
        &[(4, 0, 0x10, vec![9, 9]), (PT_LOAD, 0x1000, 4, vec![1, 2]), (PT_LOAD, 0x2000, 8, vec![3])],
    );
    let img = build_image(&file).unwrap();
    assert_eq!(img.image, vec![1, 2, 0, 0, 3, 0, 0, 0, 0, 0, 0, 0]);
    assert_eq!(img.entry.flat_offset, 8);
    assert_eq!(text(&img.metadata), "%define KERNEL_ENTRY_OFFSET 8\n%define KERNEL_MEMSIZE 12\n");
}

#[test]
fn big_endian_32_bit_image() {
    let file = elf32_be(0x8004, &[(PT_LOAD, 0x8000, 6, vec![0xaa, 0xbb, 0xcc]), (PT_LOAD, 0x8006, 2, vec![0xdd])]);
    let img = build_image(&file).unwrap();
    assert_eq!(img.image, vec![0xaa, 0xbb, 0xcc, 0, 0, 0, 0xdd, 0]);
    assert_eq!(img.entry.flat_offset, 4);
    assert_eq!(img.total_size, 8);
}

#[test]
fn bad_magic_is_malformed() {
    let mut file = elf64_le(0x1000, &[(PT_LOAD, 0x1000, 4, vec![1])]);
    file[1] = b'X';
    assert!(matches!(build_image(&file), Err(ImageError::MalformedImage)));
    assert!(matches!(build_image(&[]), Err(ImageError::MalformedImage)));
}

#[test]
fn file_size_above_memory_size_is_malformed() {
    let file = elf64_le(0x1000, &[(PT_LOAD, 0x1000, 2, vec![1, 2, 3])]);
    assert!(matches!(build_image(&file), Err(ImageError::MalformedImage)));
}

#[test]
fn segment_past_end_of_file_is_malformed() {
    let mut file = elf64_le(0x1000, &[(PT_LOAD, 0x1000, 8, vec![1, 2, 3])]);
    file.truncate(file.len() - 1);
    assert!(matches!(build_image(&file), Err(ImageError::MalformedImage)));
    let headers: Vec<RawHeader> = vec![(PT_LOAD, 2, 0, 4, 4)];
    assert!(segments_from(&[0, 1, 2, 3, 4], &headers).is_none());
    let ok = segments_from(&[0, 1, 2, 3, 4, 5], &headers).unwrap();
    assert_eq!(ok[0].content, vec![2, 3, 4, 5]);
}

#[test]
fn segment_bytes_reads_a_range() {
    let data = [10u8, 11, 12, 13, 14];
    assert_eq!(segment_bytes(&data, 1, 3), Some(vec![11, 12, 13]));
    assert_eq!(segment_bytes(&data, 5, 0), Some(vec![]));
    assert_eq!(segment_bytes(&data, 4, 2), None);
    assert_eq!(segment_bytes(&data, u64::MAX, 2), None);
}

#[test]
fn total_size_overflow_is_reported() {
    let segs = vec![Segment::new(0, u64::MAX, vec![]), Segment::new(0, 1, vec![])];
    assert_eq!(total_size(&segs), None);
}

#[test]
fn huge_memory_footprint_is_malformed() {
    let file = elf64_le(0x0, &[(PT_LOAD, 0x0, u64::MAX, vec![]), (PT_LOAD, 0x0, 1, vec![])]);
    assert!(matches!(build_image(&file), Err(ImageError::MalformedImage)));
}

#[test]
fn decimal_digits() {
    let mut out = Vec::new();
    push_decimal(&mut out, 0);
    out.push(b' ');
    push_decimal(&mut out, 1234509);
    out.push(b' ');
    push_decimal(&mut out, u64::MAX);
    assert_eq!(text(&out), "0 1234509 18446744073709551615");
}

#[test]
fn loadable_type_matches_elf_constant() {
    assert_eq!(PT_LOAD, elf::abi::PT_LOAD);
}
