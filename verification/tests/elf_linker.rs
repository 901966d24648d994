use aemu::armv6::{Memory, VecMemory};
use aemu::elf_dynamic::{ArmRelocationKind, ElfRelocation, RelocationTable};
use aemu::elf_linker::{apply_arm_rel_relocations, ElfLinkError};

#[test]
fn applies_core_arm_rel_relocations() {
    let load_bias = 0x7000_0000;
    let mut memory = VecMemory::new(0x7000_1000, 0x100);
    memory.store32(0x7000_1000, 0x20).unwrap();
    memory.store32(0x7000_1004, 4).unwrap();
    memory.store32(0x7000_1008, 0xdead_beef).unwrap();
    memory.store32(0x7000_100c, 4).unwrap();

    let relocations = vec![
        relocation(0x1000, ArmRelocationKind::Relative, 0, None),
        relocation(0x1004, ArmRelocationKind::Abs32, 1, Some("abs")),
        relocation(0x1008, ArmRelocationKind::GlobDat, 2, Some("glob")),
        relocation(0x100c, ArmRelocationKind::Rel32, 3, Some("rel")),
    ];
    apply_arm_rel_relocations(&mut memory, load_bias, &relocations, &test_resolver).unwrap();

    assert_eq!(memory.load32(0x7000_1000).unwrap(), 0x7000_0020);
    assert_eq!(memory.load32(0x7000_1004).unwrap(), 0x7100_0004);
    assert_eq!(memory.load32(0x7000_1008).unwrap(), 0x7200_0000);
    assert_eq!(memory.load32(0x7000_100c).unwrap(), 0x0000_0ff8);
}

#[test]
fn reports_unresolved_relocation_symbol() {
    let mut memory = VecMemory::new(0x1000, 0x10);
    let err = apply_arm_rel_relocations(
        &mut memory,
        0,
        &[relocation(
            0x1000,
            ArmRelocationKind::JumpSlot,
            1,
            Some("missing"),
        )],
        &missing_resolver,
    )
    .unwrap_err();

    assert_eq!(err, ElfLinkError::UnresolvedSymbol("missing".to_string()));
}

fn relocation(
    offset: u32,
    kind: ArmRelocationKind,
    symbol_index: u32,
    symbol_name: Option<&str>,
) -> ElfRelocation {
    ElfRelocation {
        table: RelocationTable::Rel,
        offset,
        kind,
        symbol_index,
        symbol_name: symbol_name.map(|name| name.to_string()),
    }
}

fn test_resolver(name: &str) -> Option<u32> {
    match name {
        "abs" => Some(0x7100_0000),
        "glob" => Some(0x7200_0000),
        "rel" => Some(0x7000_2000),
        _ => None,
    }
}

fn missing_resolver(_name: &str) -> Option<u32> {
    None
}
