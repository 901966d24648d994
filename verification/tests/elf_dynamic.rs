use aemu::elf_dynamic::{
    parse_elf_dynamic_bytes, ElfDynamicError, ElfImport, ElfRelocationInfo, ElfSymbolTableInfo,
    ElfTableRange, PltRelKind, SymbolBinding, SymbolKind, DT_INIT, DT_INIT_ARRAY, DT_INIT_ARRAYSZ,
    DT_JMPREL, DT_NEEDED, DT_NULL, DT_PLTREL, DT_PLTRELSZ, DT_REL, DT_RELENT, DT_RELSZ, DT_STRSZ,
    DT_STRTAB, DT_SYMENT, DT_SYMTAB, EM_ARM, PT_DYNAMIC, PT_LOAD, SHN_UNDEF, SHT_DYNSYM, SHT_STRTAB,
};
use aemu::zip_probe::{extract_parsed_zip_entry, find_zip_entry, parse_zip_entries};
use std::path::PathBuf;

#[test]
fn parses_needed_imports_and_relocation_metadata() {
    let elf = dynamic_test_elf();
    let info = parse_elf_dynamic_bytes(PathBuf::from("libgame.so"), &elf).unwrap();

    assert_eq!(info.needed, vec!["libc.so", "libGLESv2.so"]);
    assert_eq!(
        info.dynsym,
        Some(ElfSymbolTableInfo {
            addr: 0x11c0,
            entry_size: Some(16)
        })
    );
    assert_eq!(
        info.imports,
        vec![
            ElfImport {
                name: "puts".to_string(),
                binding: SymbolBinding::Global,
                kind: SymbolKind::Func,
            },
            ElfImport {
                name: "glDrawArrays".to_string(),
                binding: SymbolBinding::Weak,
                kind: SymbolKind::Func,
            },
        ]
    );
    assert_eq!(
        info.relocations.rel,
        Some(ElfTableRange {
            addr: 0x1500,
            size: 24
        })
    );
    assert_eq!(info.relocations.rel_entry_size, Some(8));
    assert_eq!(
        info.relocations.plt_rel,
        Some(ElfTableRange {
            addr: 0x1600,
            size: 16
        })
    );
    assert_eq!(info.relocations.plt_rel_kind, Some(PltRelKind::Rel));
    assert_eq!(info.init, Some(0x1234));
    assert_eq!(
        info.init_array,
        Some(ElfTableRange {
            addr: 0x1700,
            size: 8
        })
    );
}

#[test]
fn accepts_elf_without_dynamic_segment_or_dynsym() {
    let mut elf = vec![0; 52];
    write_elf_header(&mut elf, 0, 0, 0, 0);
    let info = parse_elf_dynamic_bytes(PathBuf::from("plain.so"), &elf).unwrap();
    assert!(info.needed.is_empty());
    assert!(info.imports.is_empty());
    assert_eq!(info.relocations, ElfRelocationInfo::default());
}

#[test]
fn rejects_non_arm_elf() {
    let mut elf = vec![0; 52];
    write_elf_header(&mut elf, 0, 0, 0, 0);
    write_u16(&mut elf, 18, 3);
    let err = parse_elf_dynamic_bytes(PathBuf::from("x86.so"), &elf).unwrap_err();
    assert_eq!(err, ElfDynamicError::UnsupportedMachine(3));
}

#[test]
fn parses_local_minecraft_dynamic_imports_when_present() {
    let apk = zip_with_one_file(
        "lib/armeabi-v7a/libminecraftpe.so",
        dynamic_elf(
            ["libc.so", "libGLESv2.so"],
            ["glCreateShader", "eglGetProcAddress"],
        ),
    );
    let bytes = read_zip_entry(&apk, "lib/armeabi-v7a/libminecraftpe.so").unwrap();
    let info = parse_elf_dynamic_bytes(
        PathBuf::from("MineCraftPE-a0.15.0.1.apk!/lib/armeabi-v7a/libminecraftpe.so"),
        &bytes,
    )
    .unwrap();

    assert!(info.needed.iter().any(|needed| needed == "libGLESv2.so"));
    assert!(
        info.imports
            .iter()
            .any(|import| import.name == "glCreateShader")
    );
    assert!(
        info.imports
            .iter()
            .any(|import| import.name == "eglGetProcAddress")
    );
}

fn dynamic_test_elf() -> Vec<u8> {
    dynamic_elf(["libc.so", "libGLESv2.so"], ["puts", "glDrawArrays"])
}

fn dynamic_elf(needed: [&str; 2], imports: [&str; 2]) -> Vec<u8> {
    let dyn_off = 0x100usize;
    let dyn_vaddr = 0x1100u32;
    let dynstr_off = 0x180usize;
    let dynstr_vaddr = 0x1180u32;
    let dynsym_off = 0x1c0usize;
    let dynsym_vaddr = 0x11c0u32;
    let shstr_off = 0x220usize;
    let shoff = 0x260usize;

    let mut dynstr = Vec::new();
    dynstr.push(0);
    let libc = push_str(&mut dynstr, needed[0]);
    let gles = push_str(&mut dynstr, needed[1]);
    let puts = push_str(&mut dynstr, imports[0]);
    let draw = push_str(&mut dynstr, imports[1]);

    let mut dynsym = Vec::new();
    dynsym.resize(16, 0);
    push_dynsym(&mut dynsym, puts, 0x12, SHN_UNDEF);
    push_dynsym(&mut dynsym, draw, 0x22, SHN_UNDEF);

    let mut shstr = Vec::new();
    shstr.push(0);
    let dynsym_name = push_str(&mut shstr, ".dynsym");
    let dynstr_name = push_str(&mut shstr, ".dynstr");
    let shstr_name = push_str(&mut shstr, ".shstrtab");

    let mut bytes = vec![0; shoff + 4 * 40];
    write_elf_header(&mut bytes, 52, 2, shoff as u32, 4);

    write_phdr(
        &mut bytes,
        52,
        PT_LOAD,
        0,
        0x1000,
        shoff as u32,
        shoff as u32,
    );
    write_phdr(
        &mut bytes,
        84,
        PT_DYNAMIC,
        dyn_off as u32,
        dyn_vaddr,
        16 * 8,
        16 * 8,
    );

    let mut dyn_entries = Vec::new();
    push_dynamic(&mut dyn_entries, DT_NEEDED, libc);
    push_dynamic(&mut dyn_entries, DT_NEEDED, gles);
    push_dynamic(&mut dyn_entries, DT_STRTAB, dynstr_vaddr);
    push_dynamic(&mut dyn_entries, DT_STRSZ, dynstr.len() as u32);
    push_dynamic(&mut dyn_entries, DT_SYMTAB, dynsym_vaddr);
    push_dynamic(&mut dyn_entries, DT_SYMENT, 16);
    push_dynamic(&mut dyn_entries, DT_REL, 0x1500);
    push_dynamic(&mut dyn_entries, DT_RELSZ, 24);
    push_dynamic(&mut dyn_entries, DT_RELENT, 8);
    push_dynamic(&mut dyn_entries, DT_PLTREL, DT_REL);
    push_dynamic(&mut dyn_entries, DT_JMPREL, 0x1600);
    push_dynamic(&mut dyn_entries, DT_PLTRELSZ, 16);
    push_dynamic(&mut dyn_entries, DT_INIT, 0x1234);
    push_dynamic(&mut dyn_entries, DT_INIT_ARRAY, 0x1700);
    push_dynamic(&mut dyn_entries, DT_INIT_ARRAYSZ, 8);
    push_dynamic(&mut dyn_entries, DT_NULL, 0);

    bytes[dyn_off..dyn_off + dyn_entries.len()].copy_from_slice(&dyn_entries);
    bytes[dynstr_off..dynstr_off + dynstr.len()].copy_from_slice(&dynstr);
    bytes[dynsym_off..dynsym_off + dynsym.len()].copy_from_slice(&dynsym);
    bytes[shstr_off..shstr_off + shstr.len()].copy_from_slice(&shstr);

    write_shdr(
        &mut bytes,
        shoff + 40,
        dynsym_name,
        SHT_DYNSYM,
        dynsym_off as u32,
        dynsym.len() as u32,
        2,
        16,
    );
    write_shdr(
        &mut bytes,
        shoff + 80,
        dynstr_name,
        SHT_STRTAB,
        dynstr_off as u32,
        dynstr.len() as u32,
        0,
        0,
    );
    write_shdr(
        &mut bytes,
        shoff + 120,
        shstr_name,
        SHT_STRTAB,
        shstr_off as u32,
        shstr.len() as u32,
        0,
        0,
    );
    bytes
}

fn write_elf_header(bytes: &mut [u8], phoff: u32, phnum: u16, shoff: u32, shnum: u16) {
    bytes[0..4].copy_from_slice(b"\x7fELF");
    bytes[4] = 1;
    bytes[5] = 1;
    bytes[6] = 1;
    write_u16(bytes, 16, 3);
    write_u16(bytes, 18, EM_ARM);
    write_u32(bytes, 20, 1);
    write_u32(bytes, 28, phoff);
    write_u32(bytes, 32, shoff);
    write_u32(bytes, 36, 0x0500_0000);
    write_u16(bytes, 42, 32);
    write_u16(bytes, 44, phnum);
    write_u16(bytes, 46, 40);
    write_u16(bytes, 48, shnum);
}

fn write_phdr(
    bytes: &mut [u8],
    off: usize,
    p_type: u32,
    file_off: u32,
    vaddr: u32,
    filesz: u32,
    memsz: u32,
) {
    write_u32(bytes, off, p_type);
    write_u32(bytes, off + 4, file_off);
    write_u32(bytes, off + 8, vaddr);
    write_u32(bytes, off + 12, vaddr);
    write_u32(bytes, off + 16, filesz);
    write_u32(bytes, off + 20, memsz);
    write_u32(bytes, off + 24, 4);
    write_u32(bytes, off + 28, 4);
}

fn write_shdr(
    bytes: &mut [u8],
    off: usize,
    name: u32,
    sh_type: u32,
    file_off: u32,
    size: u32,
    link: u32,
    entsize: u32,
) {
    write_u32(bytes, off, name);
    write_u32(bytes, off + 4, sh_type);
    write_u32(bytes, off + 16, file_off);
    write_u32(bytes, off + 20, size);
    write_u32(bytes, off + 24, link);
    write_u32(bytes, off + 36, entsize);
}

fn push_dynsym(out: &mut Vec<u8>, name: u32, info: u8, shndx: u16) {
    push_u32(out, name);
    push_u32(out, 0);
    push_u32(out, 0);
    out.push(info);
    out.push(0);
    push_u16(out, shndx);
}

fn push_dynamic(out: &mut Vec<u8>, tag: u32, value: u32) {
    push_u32(out, tag);
    push_u32(out, value);
}

fn push_str(out: &mut Vec<u8>, value: &str) -> u32 {
    let offset = out.len() as u32;
    out.extend_from_slice(value.as_bytes());
    out.push(0);
    offset
}

fn push_u16(out: &mut Vec<u8>, value: u16) {
    out.extend_from_slice(&value.to_le_bytes());
}

fn push_u32(out: &mut Vec<u8>, value: u32) {
    out.extend_from_slice(&value.to_le_bytes());
}

fn write_u16(out: &mut [u8], off: usize, value: u16) {
    out[off..off + 2].copy_from_slice(&value.to_le_bytes());
}

fn write_u32(out: &mut [u8], off: usize, value: u32) {
    out[off..off + 4].copy_from_slice(&value.to_le_bytes());
}

fn read_zip_entry(archive: &[u8], name: &str) -> Option<Vec<u8>> {
    let entries = parse_zip_entries(archive).ok()?;
    let at = find_zip_entry(&entries, name)?;
    extract_parsed_zip_entry(archive, &entries[at]).ok()
}

fn zip_with_one_file(name: &str, data: Vec<u8>) -> Vec<u8> {
    let name = name.as_bytes();
    let mut bytes = Vec::new();
    let local_offset = bytes.len() as u32;
    push_u32(&mut bytes, 0x0403_4b50);
    push_u16(&mut bytes, 20);
    push_u16(&mut bytes, 0);
    push_u16(&mut bytes, 0);
    push_u16(&mut bytes, 0);
    push_u16(&mut bytes, 0);
    push_u32(&mut bytes, 0);
    push_u32(&mut bytes, data.len() as u32);
    push_u32(&mut bytes, data.len() as u32);
    push_u16(&mut bytes, name.len() as u16);
    push_u16(&mut bytes, 0);
    bytes.extend_from_slice(name);
    bytes.extend_from_slice(&data);

    let central_offset = bytes.len() as u32;
    push_u32(&mut bytes, 0x0201_4b50);
    push_u16(&mut bytes, 20);
    push_u16(&mut bytes, 20);
    push_u16(&mut bytes, 0);
    push_u16(&mut bytes, 0);
    push_u16(&mut bytes, 0);
    push_u16(&mut bytes, 0);
    push_u32(&mut bytes, 0);
    push_u32(&mut bytes, data.len() as u32);
    push_u32(&mut bytes, data.len() as u32);
    push_u16(&mut bytes, name.len() as u16);
    push_u16(&mut bytes, 0);
    push_u16(&mut bytes, 0);
    push_u16(&mut bytes, 0);
    push_u16(&mut bytes, 0);
    push_u32(&mut bytes, 0);
    push_u32(&mut bytes, local_offset);
    bytes.extend_from_slice(name);

    let central_size = bytes.len() as u32 - central_offset;
    push_u32(&mut bytes, 0x0605_4b50);
    push_u16(&mut bytes, 0);
    push_u16(&mut bytes, 0);
    push_u16(&mut bytes, 1);
    push_u16(&mut bytes, 1);
    push_u32(&mut bytes, central_size);
    push_u32(&mut bytes, central_offset);
    push_u16(&mut bytes, 0);
    bytes
}
