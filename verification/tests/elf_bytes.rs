//! End-to-end reading of a small hand-assembled 64-bit little-endian ELF
//! image: two loadable segments, a `.stack` reservation section, and the
//! string table that names it.

use elfsize::{read_elf_file, size_summary, ExtractionError, SegmentType};

fn push_u16(v: &mut Vec<u8>, x: u16) {
    v.extend_from_slice(&x.to_le_bytes());
}

fn push_u32(v: &mut Vec<u8>, x: u32) {
    v.extend_from_slice(&x.to_le_bytes());
}

fn push_u64(v: &mut Vec<u8>, x: u64) {
    v.extend_from_slice(&x.to_le_bytes());
}

fn program_header(v: &mut Vec<u8>, p_type: u32, p_flags: u32, offset: u64, vaddr: u64, filesz: u64, memsz: u64) {
    push_u32(v, p_type);
    push_u32(v, p_flags);
    push_u64(v, offset);
    push_u64(v, vaddr);
    push_u64(v, vaddr);
    push_u64(v, filesz);
    push_u64(v, memsz);
    push_u64(v, 0x1000);
}

fn section_header(v: &mut Vec<u8>, name: u32, sh_type: u32, offset: u64, size: u64) {
    push_u32(v, name);
    push_u32(v, sh_type);
    push_u64(v, 0); // flags
    push_u64(v, 0); // addr
    push_u64(v, offset);
    push_u64(v, size);
    push_u32(v, 0); // link
    push_u32(v, 0); // info
    push_u64(v, 1); // addralign
    push_u64(v, 0); // entsize
}

/// Layout: 64-byte header, two 56-byte program headers, 6 bytes of segment
/// data, the section string table, then three section headers at offset 200.
fn sample_elf(stack_size: u64) -> Vec<u8> {
    let mut v: Vec<u8> = Vec::new();
    // e_ident
    v.extend_from_slice(&[0x7f, b'E', b'L', b'F', 2, 1, 1, 0, 0, 0, 0, 0, 0, 0, 0, 0]);
    push_u16(&mut v, 2); // e_type: executable
    push_u16(&mut v, 0x3e); // e_machine: x86-64
    push_u32(&mut v, 1); // e_version
    push_u64(&mut v, 0x1000); // e_entry
    push_u64(&mut v, 64); // e_phoff
    push_u64(&mut v, 200); // e_shoff
    push_u32(&mut v, 0); // e_flags
    push_u16(&mut v, 64); // e_ehsize
    push_u16(&mut v, 56); // e_phentsize
    push_u16(&mut v, 2); // e_phnum
    push_u16(&mut v, 64); // e_shentsize
    push_u16(&mut v, 3); // e_shnum
    push_u16(&mut v, 2); // e_shstrndx
    assert_eq!(v.len(), 64);
    // PT_LOAD, read+execute, 4 file bytes, no padding
    program_header(&mut v, 1, 5, 176, 0x1000, 4, 4);
    // PT_LOAD, read+write, 2 file bytes, 10 bytes of zero padding
    program_header(&mut v, 1, 6, 180, 0x2000, 2, 12);
    assert_eq!(v.len(), 176);
    v.extend_from_slice(&[0x90, 0x90, 0x90, 0xc3]); // instructions
    v.extend_from_slice(&[1, 2]); // data
    // section string table at 182: "\0.stack\0.shstrtab\0"
    v.push(0);
    v.extend_from_slice(b".stack");
    v.push(0);
    v.extend_from_slice(b".shstrtab");
    v.push(0);
    assert_eq!(v.len(), 200);
    section_header(&mut v, 0, 0, 0, 0); // null section
    section_header(&mut v, 1, 8, 0, stack_size); // .stack, SHT_NOBITS
    section_header(&mut v, 8, 3, 182, 18); // .shstrtab, SHT_STRTAB
    v
}

#[test]
fn reads_segments_and_reservations_from_real_bytes() {
    let bytes = sample_elf(8);
    let info = read_elf_file(&bytes).unwrap();
    assert_eq!(info.segments.len(), 2);
    assert_eq!(info.segments[0].ty, SegmentType::Text);
    assert_eq!(info.segments[0].file_size, 4);
    assert_eq!(info.segments[0].zero_padding, 0);
    assert_eq!(info.segments[1].ty, SegmentType::Data);
    assert_eq!(info.segments[1].file_size, 2);
    assert_eq!(info.segments[1].zero_padding, 10);
    assert_eq!(info._entry, 0x1000);
    assert_eq!(info.stack_mem_size, Some(8));
    assert_eq!(info.heap_mem_size, None);
}

#[test]
fn summarizes_real_bytes() {
    let bytes = sample_elf(8);
    let s = size_summary(&bytes).unwrap();
    assert_eq!(s.instruction_memory, 4);
    assert_eq!(s.data_memory_total, 12);
    assert_eq!(s.data_memory_stack, Some(8));
    assert_eq!(s.data_memory_heap, None);
    assert_eq!(s.data_memory_fixed(), 4);
    assert_eq!(s.total(), 16);
    assert_eq!(s.total_fixed(), 8);
}

#[test]
fn zero_sized_stack_section_in_real_bytes_is_no_reservation() {
    let bytes = sample_elf(0);
    let info = read_elf_file(&bytes).unwrap();
    assert_eq!(info.stack_mem_size, None);
}

#[test]
fn garbage_bytes_are_a_malformed_file() {
    let r = size_summary(b"this is not an elf image");
    assert!(matches!(r, Err(ExtractionError::Malformed(_))));
    let r = read_elf_file(&[]);
    assert!(matches!(r, Err(ExtractionError::Malformed(_))));
}
