use primus::kernel::{segment_plan, PT_LOAD};
use primus::{load_kernel, ElfError, PhysicalMemory, ProgramHeader};

const PT_NOTE: u32 = 4;

/// A little-endian ELF64 image: header, program headers, then `payload`.
/// Each header is (kind, physical address, file size, memory size, offset).
fn elf_image(headers: &[(u32, u64, u64, u64, u64)], payload: &[u8]) -> Vec<u8> {
    let mut v = vec![0x7f, b'E', b'L', b'F', 2, 1, 1, 0];
    v.extend_from_slice(&[0u8; 8]);
    v.extend_from_slice(&2u16.to_le_bytes());
    v.extend_from_slice(&0x3eu16.to_le_bytes());
    v.extend_from_slice(&1u32.to_le_bytes());
    v.extend_from_slice(&0u64.to_le_bytes());
    v.extend_from_slice(&64u64.to_le_bytes());
    v.extend_from_slice(&0u64.to_le_bytes());
    v.extend_from_slice(&0u32.to_le_bytes());
    v.extend_from_slice(&64u16.to_le_bytes());
    v.extend_from_slice(&56u16.to_le_bytes());
    v.extend_from_slice(&(headers.len() as u16).to_le_bytes());
    v.extend_from_slice(&64u16.to_le_bytes());
    v.extend_from_slice(&0u16.to_le_bytes());
    v.extend_from_slice(&0u16.to_le_bytes());
    assert_eq!(v.len(), 64);
    for &(kind, paddr, filesz, memsz, offset) in headers {
        v.extend_from_slice(&kind.to_le_bytes());
        v.extend_from_slice(&7u32.to_le_bytes());
        v.extend_from_slice(&offset.to_le_bytes());
        v.extend_from_slice(&paddr.to_le_bytes());
        v.extend_from_slice(&paddr.to_le_bytes());
        v.extend_from_slice(&filesz.to_le_bytes());
        v.extend_from_slice(&memsz.to_le_bytes());
        v.extend_from_slice(&0x1000u64.to_le_bytes());
    }
    v.extend_from_slice(payload);
    v
}

fn payload(n: usize) -> Vec<u8> {
    (0..n).map(|i| (i % 251) as u8 + 1).collect()
}

fn filled_window(base: u64, len: usize, fill: u8) -> PhysicalMemory {
    let mut m = PhysicalMemory::zeroed(base, len).unwrap();
    for b in m.bytes.iter_mut() {
        *b = fill;
    }
    m
}

#[test]
fn load_segment_copies_file_bytes_then_zeroes_tail() {
    let data = payload(100);
    let offset = 64 + 56;
    let image = elf_image(&[(PT_LOAD, 0x100000, 100, 150, offset)], &data);
    let mut mem = filled_window(0x100000 - 16, 200, 0xAA);
    assert_eq!(load_kernel(&image, &mut mem), Ok(()));
    assert_eq!(&mem.bytes[..16], &[0xAAu8; 16][..]);
    assert_eq!(&mem.bytes[16..116], data.as_slice());
    assert_eq!(&mem.bytes[116..166], &[0u8; 50][..]);
    assert_eq!(&mem.bytes[166..], &[0xAAu8; 34][..]);
}

#[test]
fn non_load_segments_write_nothing() {
    let data = payload(32);
    let image = elf_image(&[(PT_NOTE, 0x2000, 32, 32, 64 + 56)], &data);
    let mut mem = filled_window(0x2000, 64, 0x55);
    assert_eq!(load_kernel(&image, &mut mem), Ok(()));
    assert_eq!(mem.bytes, vec![0x55u8; 64]);
}

#[test]
fn plan_lists_load_headers_in_order() {
    let data = payload(64);
    let off = 64 + 3 * 56;
    let image = elf_image(
        &[(PT_LOAD, 0x3000, 16, 32, off), (PT_NOTE, 0, 8, 8, off), (PT_LOAD, 0x1000, 8, 8, off + 16)],
        &data,
    );
    let plan = segment_plan(&image).unwrap();
    assert_eq!(
        plan,
        vec![
            ProgramHeader::new(PT_LOAD, 0x3000, 16, 32, off),
            ProgramHeader::new(PT_LOAD, 0x1000, 8, 8, off + 16)
        ]
    );
}

#[test]
fn later_segments_are_placed_after_earlier_ones() {
    let data = payload(16);
    let off = 64 + 2 * 56;
    let image = elf_image(&[(PT_LOAD, 0x10, 8, 8, off), (PT_LOAD, 0x14, 8, 8, off + 8)], &data);
    let mut mem = filled_window(0x10, 16, 0xEE);
    assert_eq!(load_kernel(&image, &mut mem), Ok(()));
    let mut expected = data[..4].to_vec();
    expected.extend_from_slice(&data[8..16]);
    expected.extend_from_slice(&[0xEEu8; 4]);
    assert_eq!(mem.bytes, expected);
}

#[test]
fn garbage_is_malformed() {
    let mut mem = filled_window(0, 16, 0);
    assert_eq!(load_kernel(&[1, 2, 3], &mut mem), Err(ElfError::Malformed));
    assert_eq!(load_kernel(&[], &mut mem), Err(ElfError::Malformed));
    assert_eq!(segment_plan(b"\x7fELF"), Err(ElfError::Malformed));
}

#[test]
fn file_size_over_memory_size_is_malformed() {
    let data = payload(16);
    let image = elf_image(&[(PT_LOAD, 0, 16, 8, 64 + 56)], &data);
    let mut mem = filled_window(0, 32, 0x11);
    assert_eq!(load_kernel(&image, &mut mem), Err(ElfError::Malformed));
    assert_eq!(mem.bytes, vec![0x11u8; 32]);
}

#[test]
fn file_range_past_image_is_malformed() {
    let data = payload(16);
    let image = elf_image(&[(PT_LOAD, 0, 32, 32, 64 + 56)], &data);
    let mut mem = filled_window(0, 64, 0x11);
    assert_eq!(load_kernel(&image, &mut mem), Err(ElfError::Malformed));
}

#[test]
fn destination_outside_memory_is_out_of_range() {
    let data = payload(16);
    let off = 64 + 2 * 56;
    let image = elf_image(&[(PT_LOAD, 0x100, 8, 8, off), (PT_LOAD, 0x200, 8, 16, off + 8)], &data);
    let mut mem = filled_window(0x100, 0x108, 0x22);
    assert_eq!(load_kernel(&image, &mut mem), Err(ElfError::OutOfRange));
    assert_eq!(mem.bytes, vec![0x22u8; 0x108]);
}

#[test]
fn window_past_address_space_is_refused() {
    assert!(PhysicalMemory::zeroed(u64::MAX, 2).is_none());
    assert!(PhysicalMemory::zeroed(u64::MAX, 1).is_some());
}
