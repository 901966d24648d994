use aemu::armv6::Memory;
use aemu::elf_loader::{
    load_elf_into_memory, load_elf_into_vec_memory, plan_elf_load, ElfLoadError, PAGE_SIZE, PT_LOAD,
};
use aemu::guest_memory::MappedMemory;
use std::path::PathBuf;

#[test]
fn plans_and_loads_pt_load_segment_with_bss() {
    let mut elf = minimal_elf_with_one_load_segment(0x1000, 0x1050, &[1, 2, 3, 4], 8);
    let plan = plan_elf_load(PathBuf::from("libgame.so"), &elf, 0x7000_0000).unwrap();

    assert_eq!(plan.entry, 0x7000_1050);
    assert_eq!(plan.memory_base, 0x7000_1000);
    assert_eq!(plan.memory_size, 0x1000);
    assert_eq!(plan.segments.len(), 1);
    assert_eq!(plan.segments[0].memory_addr, 0x7000_1000);
    assert_eq!(plan.segments[0].file_size, 4);
    assert_eq!(plan.segments[0].memory_size, 8);

    let mut memory = load_elf_into_vec_memory(&elf, &plan).unwrap();
    assert_eq!(memory.base(), 0x7000_1000);
    assert_eq!(memory.len(), 0x1000);
    assert_eq!(memory.load8(0x7000_1000).unwrap(), 1);
    assert_eq!(memory.load8(0x7000_1003).unwrap(), 4);
    assert_eq!(memory.load8(0x7000_1004).unwrap(), 0);
    assert_eq!(memory.load8(0x7000_1007).unwrap(), 0);

    elf[0x100] = 9;
    assert_eq!(memory.load8(0x7000_1000).unwrap(), 1);
}

#[test]
fn rejects_load_segment_with_file_size_beyond_memory_size() {
    let elf = minimal_elf_with_one_load_segment(0x1000, 0x1000, &[1, 2, 3, 4], 2);
    let err = plan_elf_load(PathBuf::from("bad.so"), &elf, 0).unwrap_err();
    assert_eq!(
        err,
        ElfLoadError::BadLoadSegment("file size exceeds memory size")
    );
}

#[test]
fn rejects_elf_without_load_segments() {
    let mut elf = minimal_elf_with_one_load_segment(0x1000, 0x1000, &[1], 1);
    write_u32(&mut elf, 52, 2);
    let err = plan_elf_load(PathBuf::from("no-load.so"), &elf, 0).unwrap_err();
    assert_eq!(err, ElfLoadError::NoLoadSegments);
}

#[test]
fn loads_segments_into_mapped_memory() {
    let elf = minimal_elf_with_one_load_segment(0x2000, 0x2000, &[0xaa, 0xbb], 4);
    let plan = plan_elf_load(PathBuf::from("mapped.so"), &elf, 0x7100_0000).unwrap();
    let mut memory = MappedMemory::new();
    memory
        .map_zeroed(plan.memory_base, plan.memory_size as usize)
        .unwrap();

    load_elf_into_memory(&elf, &plan, &mut memory).unwrap();

    assert_eq!(memory.load8(0x7100_2000).unwrap(), 0xaa);
    assert_eq!(memory.load8(0x7100_2001).unwrap(), 0xbb);
    assert_eq!(memory.load8(0x7100_2002).unwrap(), 0);
}

fn minimal_elf_with_one_load_segment(
    vaddr: u32,
    entry: u32,
    data: &[u8],
    memsz: u32,
) -> Vec<u8> {
    let mut bytes = vec![0; 0x100 + data.len()];
    bytes[0..4].copy_from_slice(b"\x7fELF");
    bytes[4] = 1;
    bytes[5] = 1;
    bytes[6] = 1;
    write_u16(&mut bytes, 16, 3);
    write_u16(&mut bytes, 18, 40);
    write_u32(&mut bytes, 20, 1);
    write_u32(&mut bytes, 24, entry);
    write_u32(&mut bytes, 28, 52);
    write_u32(&mut bytes, 36, 0x0500_0000);
    write_u16(&mut bytes, 42, 32);
    write_u16(&mut bytes, 44, 1);

    write_u32(&mut bytes, 52, PT_LOAD);
    write_u32(&mut bytes, 56, 0x100);
    write_u32(&mut bytes, 60, vaddr);
    write_u32(&mut bytes, 64, vaddr);
    write_u32(&mut bytes, 68, data.len() as u32);
    write_u32(&mut bytes, 72, memsz);
    write_u32(&mut bytes, 76, 5);
    write_u32(&mut bytes, 80, PAGE_SIZE);
    bytes[0x100..0x100 + data.len()].copy_from_slice(data);
    bytes
}

fn write_u16(out: &mut [u8], off: usize, value: u16) {
    out[off..off + 2].copy_from_slice(&value.to_le_bytes());
}

fn write_u32(out: &mut [u8], off: usize, value: u32) {
    out[off..off + 4].copy_from_slice(&value.to_le_bytes());
}
