use aemu::armv6::{Memory, VecMemory};
use aemu::elf_dynamic::{
    parse_elf_dynamic_bytes, ArmRelocationKind, ElfDynamicError, ElfRelocation, ElfRelocationInfo,
    PltRelKind, RelocationTable, SymbolBinding, SymbolKind,
};
use aemu::elf_linker::{apply_arm_rel_relocations, apply_one, ElfLinkError};
use aemu::elf_loader::{load_elf_into_vec_memory, plan_elf_load, ElfLoadError, ElfLoadRange};
use aemu::guest_memory::MappedMemory;
use std::path::PathBuf;

fn put16(out: &mut [u8], off: usize, value: u16) {
    out[off..off + 2].copy_from_slice(&value.to_le_bytes());
}

fn put32(out: &mut [u8], off: usize, value: u32) {
    out[off..off + 4].copy_from_slice(&value.to_le_bytes());
}

fn header(len: usize) -> Vec<u8> {
    let mut elf = vec![0; len];
    elf[0..4].copy_from_slice(b"\x7fELF");
    elf[4] = 1;
    elf[5] = 1;
    put16(&mut elf, 18, 40);
    put32(&mut elf, 28, 52);
    put16(&mut elf, 42, 32);
    put16(&mut elf, 46, 40);
    elf
}

fn program(elf: &mut [u8], at: usize, p_type: u32, off: u32, vaddr: u32, filesz: u32, memsz: u32) {
    put32(elf, at, p_type);
    put32(elf, at + 4, off);
    put32(elf, at + 8, vaddr);
    put32(elf, at + 16, filesz);
    put32(elf, at + 20, memsz);
}

fn plan_error(elf: &[u8], bias: u32) -> ElfLoadError {
    plan_elf_load(PathBuf::from("x.so"), elf, bias).unwrap_err()
}

#[test]
fn planning_refuses_bad_headers() {
    assert_eq!(plan_error(&[0; 51], 0), ElfLoadError::Truncated("header"));
    assert_eq!(plan_error(&[0; 52], 0), ElfLoadError::NotElf);
    let mut elf = header(52);
    elf[4] = 2;
    assert_eq!(plan_error(&elf, 0).to_string(), "unsupported ELF class 2");
    elf[4] = 1;
    elf[5] = 2;
    assert_eq!(plan_error(&elf, 0).to_string(), "unsupported ELF endian 2");
    elf[5] = 1;
    put16(&mut elf, 18, 3);
    assert_eq!(
        plan_error(&elf, 0).to_string(),
        "unsupported ELF machine 3, expected ARM"
    );
    put16(&mut elf, 18, 40);
    put16(&mut elf, 44, 1);
    assert_eq!(
        plan_error(&elf, 0).to_string(),
        "truncated ELF program header table"
    );
    put16(&mut elf, 42, 0);
    assert_eq!(plan_error(&elf, 0), ElfLoadError::BadProgramHeader);
}

#[test]
fn planning_refuses_segments_that_do_not_fit() {
    let mut elf = header(84);
    put16(&mut elf, 44, 1);
    program(&mut elf, 52, 1, 80, 0, 8, 8);
    assert_eq!(plan_error(&elf, 0), ElfLoadError::Truncated("load segment data"));
    program(&mut elf, 52, 1, 0xffff_fff0, 0, 0x20, 0x20);
    assert_eq!(
        plan_error(&elf, 0),
        ElfLoadError::BadLoadSegment("file range overflow")
    );
    program(&mut elf, 52, 1, 0, 0x8000_0000, 0, 8);
    assert_eq!(
        plan_error(&elf, 0x8000_0000),
        ElfLoadError::BadLoadSegment("virtual address overflow")
    );
    program(&mut elf, 52, 1, 0, 0xffff_fff8, 0, 0x10);
    assert_eq!(
        plan_error(&elf, 0),
        ElfLoadError::BadLoadSegment("memory range overflow")
    );
    program(&mut elf, 52, 1, 0, 0xffff_f100, 0, 0x10);
    assert_eq!(
        plan_error(&elf, 0),
        ElfLoadError::BadLoadSegment("page range overflow")
    );
    program(&mut elf, 52, 1, 0, 0x1000, 0, 0x10);
    put32(&mut elf, 24, 0xffff_ffff);
    assert_eq!(
        plan_error(&elf, 0x10).to_string(),
        "bad ELF load segment: entry address overflow"
    );
}

#[test]
fn plans_cover_all_segments_and_load() {
    let mut elf = header(52 + 3 * 32 + 4);
    let data = 52 + 3 * 32;
    elf[data..].copy_from_slice(&[1, 2, 3, 4]);
    put16(&mut elf, 44, 3);
    program(&mut elf, 52, 1, data as u32, 0x1ffe, 4, 4);
    program(&mut elf, 84, 0x7000_0001, 0, 0x1100, 8, 16);
    program(&mut elf, 116, 1, data as u32, 0x4000, 2, 6);
    let plan = plan_elf_load(PathBuf::from("x.so"), &elf, 0x1_0000).unwrap();
    assert_eq!(plan.memory_base, 0x1_1000);
    assert_eq!(plan.memory_size, 0x4000);
    assert_eq!(plan.arm_exidx, Some(ElfLoadRange { addr: 0x1_1100, size: 16 }));
    assert_eq!(plan.segments.len(), 2);
    let mut mem = load_elf_into_vec_memory(&elf, &plan).unwrap();
    assert_eq!(mem.load32(0x1_1ffe).unwrap(), 0x0403_0201);
    assert_eq!(mem.load32(0x1_4000).unwrap(), 0x0000_0201);
    assert_eq!(mem.load16(0x1_4004).unwrap(), 0);
    assert_eq!(mem.load8(0x1_3000).unwrap(), 0);
}

#[test]
fn mapped_regions_are_kept_apart() {
    let mut mem = MappedMemory::new();
    assert!(mem.load8(0).is_err());
    mem.map_zeroed(0x1000, 0x100).unwrap();
    mem.map_zeroed(0x3000, 0x100).unwrap();
    mem.map_zeroed(0x1100, 0).unwrap();
    assert_eq!(
        mem.map_zeroed(0x10ff, 2).unwrap_err().to_string(),
        "memory error: mapped ranges overlap"
    );
    assert_eq!(
        mem.map_zeroed(0xffff_ffff, 2).unwrap_err().to_string(),
        "memory error: mapped range leaves the address space"
    );
    mem.map_zeroed(0xffff_ffff, 1).unwrap();
    mem.map_zeroed(0x1100, 4).unwrap();
    mem.store32(0x10fe, 0x1122_3344).unwrap();
    assert_eq!(mem.load32(0x10fe).unwrap(), 0x1122_3344);
    assert_eq!(mem.load16(0x1100).unwrap(), 0x1122);
    assert_eq!(
        mem.load8(0x2000).unwrap_err().to_string(),
        "memory error: address 0x00002000 is not mapped"
    );
    assert_eq!(mem.load8(0x3000).unwrap(), 0);
}

fn relocation(offset: u32, kind: ArmRelocationKind, name: Option<&str>) -> ElfRelocation {
    ElfRelocation {
        table: RelocationTable::PltRel,
        offset,
        kind,
        symbol_index: 5,
        symbol_name: name.map(|name| name.to_string()),
    }
}

fn one_symbol(name: &str) -> Option<u32> {
    if name == "known" {
        Some(0x100)
    } else {
        None
    }
}

#[test]
fn relocations_write_what_their_kind_says() {
    let kinds = [
        (ArmRelocationKind::Relative, 0x2000u32 + 7),
        (ArmRelocationKind::Abs32, 0x107),
        (ArmRelocationKind::Target1, 0x107),
        (ArmRelocationKind::Rel32, 0x107u32.wrapping_sub(0x2010)),
        (ArmRelocationKind::GlobDat, 0x100),
        (ArmRelocationKind::JumpSlot, 0x100),
        (ArmRelocationKind::V4Bx, 7),
    ];
    for (kind, expected) in kinds {
        let mut mem = VecMemory::new(0x2000, 0x20);
        mem.store32(0x2010, 7).unwrap();
        mem.store32(0x2014, 9).unwrap();
        let list = [relocation(0x10, kind, Some("known"))];
        apply_arm_rel_relocations(&mut mem, 0x2000, &list, &one_symbol).unwrap();
        assert_eq!(mem.load32(0x2010).unwrap(), expected);
        assert_eq!(mem.load32(0x2014).unwrap(), 9);
    }
}

#[test]
fn relocations_stop_at_the_first_failure() {
    let mut mem = VecMemory::new(0x2000, 0x20);
    let list = [
        relocation(0x0, ArmRelocationKind::GlobDat, Some("known")),
        relocation(0x4, ArmRelocationKind::Copy, Some("known")),
        relocation(0x8, ArmRelocationKind::GlobDat, Some("known")),
    ];
    let err = apply_arm_rel_relocations(&mut mem, 0x2000, &list, &one_symbol).unwrap_err();
    assert_eq!(err, ElfLinkError::UnsupportedRelocation(ArmRelocationKind::Copy));
    assert_eq!(err.to_string(), "unsupported relocation: R_ARM_COPY");
    assert_eq!(mem.load32(0x2000).unwrap(), 0x100);
    assert_eq!(mem.load32(0x2008).unwrap(), 0);
}

#[test]
fn relocation_failures_have_reasons() {
    let mut mem = VecMemory::new(0x2000, 0x20);
    let mut fail = |bias: u32, rel: ElfRelocation| {
        apply_arm_rel_relocations(&mut mem, bias, &[rel], &one_symbol).unwrap_err().to_string()
    };
    assert_eq!(
        fail(0xffff_fff0, relocation(0x10, ArmRelocationKind::Abs32, Some("known"))),
        "relocation address overflow for offset 0x00000010"
    );
    assert_eq!(
        fail(0x2000, relocation(0, ArmRelocationKind::Abs32, None)),
        "relocation references unnamed symbol index 5"
    );
    assert_eq!(
        fail(0x2000, relocation(0, ArmRelocationKind::Abs32, Some("lost"))),
        "unresolved symbol: lost"
    );
    assert_eq!(
        fail(0x2000, relocation(0, ArmRelocationKind::Other(99), None)),
        "unsupported relocation: R_ARM_99"
    );
    assert_eq!(
        fail(0x2000, relocation(0x20, ArmRelocationKind::Relative, None)),
        "memory error: address 0x00002020 outside memory range 0x00002000..0x00002020"
    );
    let rel = relocation(0, ArmRelocationKind::JumpSlot, Some("lost"));
    assert_eq!(
        apply_one(&mut mem, 0x2000, 0, &rel, None).unwrap_err(),
        ElfLinkError::UnresolvedSymbol("lost".to_string())
    );
    apply_one(&mut mem, 0x2000, 0, &rel, Some(3)).unwrap();
    assert_eq!(mem.load32(0x2000).unwrap(), 3);
}

fn dynamic_error(elf: &[u8]) -> ElfDynamicError {
    parse_elf_dynamic_bytes(PathBuf::from("x.so"), elf).unwrap_err()
}

#[test]
fn dynamic_sections_refuse_bad_tables() {
    assert_eq!(dynamic_error(&[0; 4]).to_string(), "truncated ELF header");
    assert_eq!(dynamic_error(&[0; 60]).to_string(), "not an ELF file");
    let mut elf = header(52);
    elf[4] = 2;
    assert_eq!(dynamic_error(&elf), ElfDynamicError::UnsupportedClass(2));
    elf[4] = 1;
    elf[5] = 0;
    assert_eq!(dynamic_error(&elf), ElfDynamicError::UnsupportedEndian(0));
    elf[5] = 1;
    put16(&mut elf, 44, 1);
    assert_eq!(dynamic_error(&elf), ElfDynamicError::Truncated("program header table"));
    put16(&mut elf, 42, 31);
    assert_eq!(dynamic_error(&elf).to_string(), "bad ELF program header table");
    put16(&mut elf, 44, 0);
    put16(&mut elf, 48, 2);
    assert_eq!(dynamic_error(&elf), ElfDynamicError::Truncated("section header table"));
    put16(&mut elf, 46, 39);
    assert_eq!(dynamic_error(&elf).to_string(), "bad ELF section header table");
}

fn dynamic_file(strings: &[u8], strsz: u32) -> Vec<u8> {
    let table = 52 + 64;
    let strtab = table + 4 * 8;
    let mut elf = header(strtab + strings.len());
    put16(&mut elf, 44, 2);
    let len = elf.len() as u32;
    program(&mut elf, 52, 1, 0, 0x1000, len, len);
    program(&mut elf, 84, 2, table as u32, 0, 32, 32);
    for (i, (tag, value)) in
        [(1, 1), (5, 0x1000 + strtab as u32), (10, strsz), (12, 0x77)].iter().enumerate()
    {
        put32(&mut elf, table + 8 * i, *tag);
        put32(&mut elf, table + 8 * i + 4, *value);
    }
    elf[strtab..].copy_from_slice(strings);
    elf
}

#[test]
fn needed_names_come_from_the_string_table() {
    let elf = dynamic_file(b"\0caf\xc3\xa9.so\0", 10);
    let info = parse_elf_dynamic_bytes(PathBuf::from("x.so"), &elf).unwrap();
    assert_eq!(info.needed, vec!["café.so"]);
    assert_eq!(info.init, Some(0x77));
    assert_eq!(info.init_array, None);
    assert_eq!(info.relocations, ElfRelocationInfo::default());
    assert_eq!(info.path, PathBuf::from("x.so"));
}

#[test]
fn needed_names_must_be_terminated_text() {
    assert_eq!(dynamic_error(&dynamic_file(b"\0abc\0", 4)), ElfDynamicError::BadStringTable);
    assert_eq!(dynamic_error(&dynamic_file(b"\0\xff\0", 3)), ElfDynamicError::BadStringTable);
    assert_eq!(
        dynamic_error(&dynamic_file(b"", 0)).to_string(),
        "bad ELF string table"
    );
    let mut elf = dynamic_file(b"\0a\0", 3);
    put32(&mut elf, 84 + 16, 0x1_0000);
    assert_eq!(dynamic_error(&elf), ElfDynamicError::Truncated("dynamic table"));
}

#[test]
fn symbol_properties_have_names() {
    assert_eq!(SymbolBinding::from(2), SymbolBinding::Weak);
    assert_eq!(SymbolBinding::from(0).to_string(), "local");
    assert_eq!(SymbolBinding::from(9).to_string(), "bind(9)");
    assert_eq!(SymbolKind::from(2), SymbolKind::Func);
    assert_eq!(SymbolKind::from(6).to_string(), "tls");
    assert_eq!(SymbolKind::from(13).to_string(), "type(13)");
    assert_eq!(PltRelKind::from(17), PltRelKind::Rel);
    assert_eq!(PltRelKind::from(7).to_string(), "RELA");
    assert_eq!(PltRelKind::from(3).to_string(), "3");
}

#[test]
fn plans_move_with_a_page_aligned_bias() {
    let mut elf = header(52 + 3 * 32 + 4);
    let data = (52 + 3 * 32) as u32;
    put16(&mut elf, 44, 3);
    put32(&mut elf, 24, 0x123);
    program(&mut elf, 52, 1, data, 0x1ffe, 4, 4);
    program(&mut elf, 84, 0x7000_0001, 0, 0x1100, 8, 16);
    program(&mut elf, 116, 1, data, 0x4000, 2, 6);
    let low = plan_elf_load(PathBuf::from("x.so"), &elf, 0).unwrap();
    let high = plan_elf_load(PathBuf::from("x.so"), &elf, 0x7654_3000).unwrap();
    assert_eq!(high.entry, low.entry + 0x7654_3000);
    assert_eq!(high.memory_base, low.memory_base + 0x7654_3000);
    assert_eq!(high.memory_size, low.memory_size);
    let mut moved = low.segments.clone();
    for segment in &mut moved {
        segment.memory_addr += 0x7654_3000;
    }
    assert_eq!(high.segments, moved);
    assert_eq!(high.arm_exidx, Some(ElfLoadRange { addr: 0x7654_4100, size: 16 }));
}

#[test]
fn later_segments_lie_over_earlier_ones() {
    let mut elf = header(52 + 2 * 32 + 6);
    let data = 52 + 2 * 32;
    elf[data..].copy_from_slice(&[1, 2, 3, 4, 5, 6]);
    put16(&mut elf, 44, 2);
    program(&mut elf, 52, 1, data as u32, 0x1000, 4, 8);
    program(&mut elf, 84, 1, data as u32 + 4, 0x1001, 2, 2);
    let plan = plan_elf_load(PathBuf::from("x.so"), &elf, 0).unwrap();
    let mut mem = load_elf_into_vec_memory(&elf, &plan).unwrap();
    assert_eq!(mem.load32(0x1000).unwrap(), 0x0406_0501);
    assert_eq!(mem.load32(0x1004).unwrap(), 0);
    assert_eq!((mem.base(), mem.len()), (plan.memory_base, plan.memory_size as usize));
}

#[test]
fn relocation_lists_can_be_joined() {
    let first = [relocation(0x0, ArmRelocationKind::GlobDat, Some("known"))];
    let second = [relocation(0x0, ArmRelocationKind::Abs32, Some("known"))];
    let joined = [first[0].clone(), second[0].clone()];
    let mut a = VecMemory::new(0x2000, 8);
    let mut b = VecMemory::new(0x2000, 8);
    apply_arm_rel_relocations(&mut a, 0x2000, &joined, &one_symbol).unwrap();
    apply_arm_rel_relocations(&mut b, 0x2000, &first, &one_symbol).unwrap();
    apply_arm_rel_relocations(&mut b, 0x2000, &second, &one_symbol).unwrap();
    assert_eq!(a.load32(0x2000).unwrap(), 0x200);
    assert_eq!(b.load32(0x2000).unwrap(), 0x200);
}
