use aemu::apk_plan::{
    analyze_apk_bytes, classify_armv7a_library, ApkPlanError, ApkRunPlan, Armv7aBlocker,
    NativeLibraryPlan, ARMV7A_TARGET_ABI,
};
use aemu::dex_index::{ApkDexIndex, DexIndexError, DexMemberKind};
use aemu::elf_probe::{
    attr_spec, parse_arm_attributes, probe_arm_elf_bytes, value_name, ArmAttribute, AttrKind,
    ElfProbe, ElfProbeError,
};
use aemu::zip_probe::{
    extract_parsed_zip_entry, find_zip_entry, parse_zip_entries, ZipCompression, ZipProbeError,
};
use std::path::PathBuf;

fn push16(out: &mut Vec<u8>, value: u16) {
    out.extend_from_slice(&value.to_le_bytes());
}

fn push32(out: &mut Vec<u8>, value: u32) {
    out.extend_from_slice(&value.to_le_bytes());
}

fn put32(out: &mut [u8], off: usize, value: u32) {
    out[off..off + 4].copy_from_slice(&value.to_le_bytes());
}

fn zip(files: &[(&str, u16, &[u8])]) -> Vec<u8> {
    let mut out = Vec::new();
    let mut directory = Vec::new();
    for (name, method, data) in files {
        let at = out.len() as u32;
        push32(&mut out, 0x0403_4b50);
        out.extend_from_slice(&[0; 22]);
        push16(&mut out, name.len() as u16);
        push16(&mut out, 3);
        out.extend_from_slice(name.as_bytes());
        out.extend_from_slice(&[9; 3]);
        out.extend_from_slice(data);
        push32(&mut directory, 0x0201_4b50);
        directory.extend_from_slice(&[0; 6]);
        push16(&mut directory, *method);
        directory.extend_from_slice(&[0; 8]);
        push32(&mut directory, data.len() as u32);
        push32(&mut directory, data.len() as u32);
        push16(&mut directory, name.len() as u16);
        push16(&mut directory, 2);
        push16(&mut directory, 1);
        directory.extend_from_slice(&[0; 8]);
        push32(&mut directory, at);
        directory.extend_from_slice(name.as_bytes());
        directory.extend_from_slice(&[7; 3]);
    }
    let start = out.len() as u32;
    out.extend_from_slice(&directory);
    push32(&mut out, 0x0605_4b50);
    push16(&mut out, 0);
    push16(&mut out, 0);
    push16(&mut out, files.len() as u16);
    push16(&mut out, files.len() as u16);
    push32(&mut out, directory.len() as u32);
    push32(&mut out, start);
    push16(&mut out, 4);
    out.extend_from_slice(b"note");
    out
}

#[test]
fn archives_give_their_entries() {
    let bytes = zip(&[("a.txt", 0, b"hello"), ("b/c", 8, b"xx"), ("d", 12, b"")]);
    let entries = parse_zip_entries(&bytes).unwrap();
    assert_eq!(entries.len(), 3);
    assert_eq!(entries[0].name, "a.txt");
    assert_eq!(entries[0].uncompressed_size, 5);
    assert_eq!(entries[1].compression, ZipCompression::Deflated);
    assert_eq!(entries[2].compression.to_string(), "method 12");
    assert_eq!(extract_parsed_zip_entry(&bytes, &entries[0]).unwrap(), b"hello");
    assert_eq!(find_zip_entry(&entries, "b/c"), Some(1));
    assert_eq!(find_zip_entry(&entries, "b"), None);
    assert_eq!(
        extract_parsed_zip_entry(&bytes, &entries[1]).unwrap_err().to_string(),
        "unsupported ZIP compression: deflated"
    );
}

#[test]
fn archives_refuse_what_does_not_fit() {
    assert_eq!(parse_zip_entries(b"PK").unwrap_err().to_string(), "not a ZIP file");
    let bytes = zip(&[("a", 0, b"hello")]);
    let mut cut = bytes.clone();
    let at = bytes.len() - 26;
    put32(&mut cut, at + 16, bytes.len() as u32);
    assert_eq!(parse_zip_entries(&cut).unwrap_err(), ZipProbeError::Truncated("directory"));
    put32(&mut cut, at + 16, 0);
    assert_eq!(
        parse_zip_entries(&cut).unwrap_err().to_string(),
        "invalid ZIP directory entry"
    );
    let mut entries = parse_zip_entries(&bytes).unwrap();
    entries[0].local_header_offset = u64::MAX;
    assert_eq!(
        extract_parsed_zip_entry(&bytes, &entries[0]).unwrap_err().to_string(),
        "truncated ZIP local header"
    );
    entries[0].local_header_offset = 1;
    assert_eq!(
        extract_parsed_zip_entry(&bytes, &entries[0]).unwrap_err(),
        ZipProbeError::Invalid("local header")
    );
    entries[0].local_header_offset = 0;
    entries[0].compressed_size = 4;
    assert_eq!(
        extract_parsed_zip_entry(&bytes, &entries[0]).unwrap_err(),
        ZipProbeError::Invalid("stored size")
    );
    entries[0].compressed_size = 0xffff_ffff_ffff;
    assert_eq!(
        extract_parsed_zip_entry(&bytes, &entries[0]).unwrap_err(),
        ZipProbeError::Truncated("entry data")
    );
}

#[test]
fn plans_are_ordered_by_entry_name() {
    let bytes = zip(&[
        ("lib/x86/libz.so", 0, b"nope"),
        ("lib/armeabi-v7a/deep/liba.so", 0, b"nope"),
        ("assets/lib/armeabi-v7a/liba.so", 0, b"nope"),
        ("lib/lonely.so", 0, b"nope"),
        ("lib/armeabi-v7a/liba.so", 0, b"nope"),
    ]);
    let plan = analyze_apk_bytes(PathBuf::from("dir/game.apk"), &bytes).unwrap();
    let names: Vec<&str> = plan.native_libraries.iter().map(|l| l.entry_name.as_str()).collect();
    assert_eq!(
        names,
        vec![
            "lib/armeabi-v7a/deep/liba.so",
            "lib/armeabi-v7a/liba.so",
            "lib/lonely.so",
            "lib/x86/libz.so",
        ]
    );
    assert_eq!(plan.native_libraries[0].abi, "armeabi-v7a");
    assert_eq!(plan.native_libraries[0].library_name, "deep/liba.so");
    assert_eq!(plan.native_libraries[2].abi, "");
    assert_eq!(plan.native_libraries[2].library_name, "");
    assert_eq!(plan.native_libraries[0].probe, None);
    assert_eq!(
        plan.native_libraries[0].probe_error.as_deref(),
        Some("truncated ELF header")
    );
    assert_eq!(
        plan.abi_counts(),
        vec![
            ("".to_string(), 1),
            ("armeabi-v7a".to_string(), 2),
            ("x86".to_string(), 1),
        ]
    );
    let total: usize = plan.abi_counts().iter().map(|(_, count)| *count).sum();
    assert_eq!(total, plan.native_libraries.len());
    assert_eq!(plan.target_libraries().len(), 2);
    assert_eq!(plan.target_libraries()[1].library_name, "liba.so");
    assert!(plan.has_target_abi());
    assert!(!plan.is_armv7a_runnable());
    assert_eq!(
        plan.summary_blockers()[3],
        "lib/x86/libz.so: ABI x86 is not armeabi-v7a, ELF probe failed: truncated ELF header"
    );
}

#[test]
fn packages_without_libraries_say_so() {
    let plan = analyze_apk_bytes(PathBuf::from("a.apk"), &zip(&[("x", 0, b"")])).unwrap();
    assert_eq!(
        plan.summary_blockers(),
        vec!["no native libraries found; DEX-only APK execution is not implemented"]
    );
    assert!(plan.abi_counts().is_empty());
    assert!(!plan.is_armv7a_runnable());
}

#[test]
fn packages_that_cannot_be_read_say_why() {
    let err = analyze_apk_bytes(PathBuf::from("a.apk"), b"junk").unwrap_err();
    assert_eq!(err, ApkPlanError::Zip(ZipProbeError::NotZip));
    assert_eq!(err.to_string(), "not a ZIP file");
    let packed = zip(&[("lib/armeabi-v7a/a.so", 8, b"zz")]);
    assert_eq!(
        analyze_apk_bytes(PathBuf::from("a.apk"), &packed).unwrap_err().to_string(),
        "unsupported ZIP compression: deflated"
    );
    assert_eq!(ApkPlanError::Io("gone".to_string()).to_string(), "gone");
}

fn plain_elf(machine: u8) -> Vec<u8> {
    let mut elf = vec![0; 52 + 40 + 11];
    elf[0..4].copy_from_slice(b"\x7fELF");
    elf[4] = 1;
    elf[5] = 1;
    elf[18] = machine;
    put32(&mut elf, 32, 52);
    put32(&mut elf, 36, 0x0500_0000);
    elf[46] = 40;
    elf[48] = 1;
    elf[50] = 0;
    put32(&mut elf, 52 + 16, 92);
    put32(&mut elf, 52 + 20, 11);
    elf
}

#[test]
fn probes_name_the_entry_inside_the_package() {
    let bytes = zip(&[("lib/armeabi-v7a/a.so", 0, &plain_elf(40))]);
    let plan = analyze_apk_bytes(PathBuf::from("dir/game.apk"), &bytes).unwrap();
    let probe = plan.native_libraries[0].probe.as_ref().unwrap();
    assert_eq!(probe.path, PathBuf::from("dir/game.apk!lib/armeabi-v7a/a.so"));
    assert_eq!(probe.eabi, "EABI5");
    assert!(plan.is_armv7a_runnable());
    assert!(plan.summary_blockers().is_empty());
    let other = zip(&[("lib/armeabi-v7a/a.so", 0, &plain_elf(3))]);
    let plan = analyze_apk_bytes(PathBuf::from("g.apk"), &other).unwrap();
    assert_eq!(
        plan.native_libraries[0].armv7a_blockers,
        vec![Armv7aBlocker::NotArmElf("unknown(3)".to_string())]
    );
    assert_eq!(
        plan.summary_blockers(),
        vec!["lib/armeabi-v7a/a.so: ELF machine is unknown(3), not ARM"]
    );
}

#[test]
fn libraries_without_a_probe_are_blocked() {
    assert_eq!(
        classify_armv7a_library(ARMV7A_TARGET_ABI, None, None),
        vec![Armv7aBlocker::ProbeFailed("unknown error".to_string())]
    );
    let library = NativeLibraryPlan {
        entry_name: "lib/armeabi-v7a/a.so".to_string(),
        abi: "armeabi-v7a".to_string(),
        library_name: "a.so".to_string(),
        compression: ZipCompression::Stored,
        compressed_size: 0,
        uncompressed_size: 0,
        probe: None,
        probe_error: None,
        armv7a_blockers: vec![Armv7aBlocker::ProbeFailed("x".to_string())],
    };
    let plan = ApkRunPlan { path: PathBuf::from("a"), native_libraries: vec![library] };
    assert!(plan.has_target_abi());
    assert!(!plan.is_armv7a_runnable());
}

fn probe(attributes: &[(&str, &str)]) -> ElfProbe {
    ElfProbe {
        path: PathBuf::from("x"),
        machine: "ARM".to_string(),
        eabi: "EABI5".to_string(),
        attributes: attributes
            .iter()
            .map(|(name, value)| ArmAttribute {
                tag: 0,
                name: name.to_string(),
                value: value.to_string(),
            })
            .collect(),
    }
}

#[test]
fn probes_answer_from_the_first_attribute() {
    let p = probe(&[("Tag_FP_arch", "None"), ("Tag_FP_arch", "VFPv3")]);
    assert_eq!(p.fp_arch(), Some("None"));
    assert!(!p.requires_vfp());
    assert!(!p.requires_vfp3_or_newer());
    let p = probe(&[("Tag_FP_arch", "VFPv4-D16"), ("Tag_THUMB_ISA_use", "Thumb-2 or so")]);
    assert!(p.requires_vfp3_or_newer());
    assert!(p.requires_vfp());
    assert!(p.requires_thumb2());
    assert!(!p.requires_neon());
    assert!(!p.requires_armv7_or_newer());
    assert_eq!(p.attr_value("Tag_CPU_arch"), None);
    let p = probe(&[("Tag_FP_arch", "VFPv2"), ("Tag_CPU_arch", "v8-M.mainline")]);
    assert!(p.requires_vfp() && !p.requires_vfp3_or_newer());
    assert!(p.requires_armv7_or_newer());
    assert!(!probe(&[("Tag_THUMB_ISA_use", "Thumb-1")]).requires_thumb2());
    assert!(!probe(&[("Tag_Advanced_SIMD_arch", "None")]).requires_neon());
}

#[test]
fn attribute_sections_end_where_they_are_cut_off() {
    assert!(parse_arm_attributes(&[]).is_empty());
    assert!(parse_arm_attributes(b"B").is_empty());
    let mut attrs = vec![b'A', 0, 0, 0, 0];
    attrs.extend_from_slice(b"aeabi\0");
    let start = attrs.len();
    attrs.extend_from_slice(&[1, 0, 0, 0, 0]);
    attrs.extend_from_slice(&[0x80, 0x01, 0xac, 0x02, 44, 9, 5, b'a', 0xff, 0, 10, 3, 4, b'z']);
    let len = (attrs.len() - start) as u32;
    put32(&mut attrs, start + 1, len);
    let total = attrs.len() as u32 - 1;
    put32(&mut attrs, 1, total);
    let parsed = parse_arm_attributes(&attrs);
    assert_eq!(parsed.len(), 4);
    assert_eq!(parsed[0].tag, 128);
    assert_eq!(parsed[0].name, "Tag_128");
    assert_eq!(parsed[0].value, "300");
    assert_eq!(parsed[1].name, "Tag_DIV_use");
    assert_eq!(parsed[1].value, "9");
    assert_eq!(parsed[2].name, "Tag_CPU_name");
    assert_eq!(parsed[2].value, "");
    assert_eq!(parsed[3].name, "Tag_FP_arch");
    assert_eq!(parsed[3].value, "VFPv3");
    attrs[5] = b'b';
    assert!(parse_arm_attributes(&attrs).is_empty());
}

#[test]
fn probing_refuses_bad_files() {
    let fail = |bytes: &[u8]| probe_arm_elf_bytes(PathBuf::from("x"), bytes).unwrap_err();
    assert_eq!(fail(&[0; 10]), ElfProbeError::Truncated("ELF header"));
    assert_eq!(fail(&[0; 52]).to_string(), "not an ELF file");
    let mut elf = plain_elf(40);
    elf[4] = 2;
    assert_eq!(fail(&elf).to_string(), "unsupported ELF class 2");
    elf[4] = 1;
    elf[5] = 2;
    assert_eq!(fail(&elf).to_string(), "unsupported ELF endian 2");
    elf[5] = 1;
    elf[48] = 2;
    put32(&mut elf, 32, 60);
    assert_eq!(fail(&elf).to_string(), "truncated section header");
    let mut elf = plain_elf(40);
    elf[50] = 1;
    assert_eq!(fail(&elf), ElfProbeError::Truncated("section string table"));
    assert_eq!(ElfProbeError::Io("gone".to_string()).to_string(), "gone");
}

struct Dex {
    strings: Vec<Vec<u8>>,
    types: Vec<u32>,
    protos: Vec<(u32, Vec<u16>)>,
    fields: Vec<(u16, u16, u32)>,
    methods: Vec<(u16, u16, u32)>,
    classes: Vec<(u32, u32, u32, Vec<u16>, Vec<u8>)>,
}

impl Dex {
    fn bytes(&self) -> Vec<u8> {
        let mut out = vec![0; 0x70];
        out[0..8].copy_from_slice(b"dex\n035\0");
        put32(&mut out, 0x24, 0x70);
        put32(&mut out, 0x28, 0x1234_5678);
        let mut texts = Vec::new();
        for text in &self.strings {
            texts.push(out.len() as u32);
            out.push(text.len() as u8);
            out.extend_from_slice(text);
            out.push(0);
        }
        let mut parameters = Vec::new();
        for (_, list) in &self.protos {
            if list.is_empty() {
                parameters.push(0);
            } else {
                parameters.push(out.len() as u32);
                push32(&mut out, list.len() as u32);
                for item in list {
                    push16(&mut out, *item);
                }
            }
        }
        let mut lists = Vec::new();
        let mut data = Vec::new();
        for (_, _, _, interfaces, members) in &self.classes {
            if interfaces.is_empty() {
                lists.push(0);
            } else {
                lists.push(out.len() as u32);
                push32(&mut out, interfaces.len() as u32);
                for item in interfaces {
                    push16(&mut out, *item);
                }
            }
            if members.is_empty() {
                data.push(0);
            } else {
                data.push(out.len() as u32);
                out.extend_from_slice(members);
            }
        }
        let mut table = |out: &mut Vec<u8>, at: usize, count: usize| {
            let here = out.len() as u32;
            put32(out, at, count as u32);
            put32(out, at + 4, here);
        };
        table(&mut out, 0x38, texts.len());
        for at in &texts {
            push32(&mut out, *at);
        }
        table(&mut out, 0x40, self.types.len());
        for index in &self.types {
            push32(&mut out, *index);
        }
        table(&mut out, 0x48, self.protos.len());
        for ((returned, _), at) in self.protos.iter().zip(&parameters) {
            push32(&mut out, 0);
            push32(&mut out, *returned);
            push32(&mut out, *at);
        }
        table(&mut out, 0x50, self.fields.len());
        for (class, ty, name) in &self.fields {
            push16(&mut out, *class);
            push16(&mut out, *ty);
            push32(&mut out, *name);
        }
        table(&mut out, 0x58, self.methods.len());
        for (class, proto, name) in &self.methods {
            push16(&mut out, *class);
            push16(&mut out, *proto);
            push32(&mut out, *name);
        }
        table(&mut out, 0x60, self.classes.len());
        for (i, (class, flags, superclass, _, _)) in self.classes.iter().enumerate() {
            push32(&mut out, *class);
            push32(&mut out, *flags);
            push32(&mut out, *superclass);
            push32(&mut out, lists[i]);
            push32(&mut out, 0);
            push32(&mut out, 0);
            push32(&mut out, data[i]);
            push32(&mut out, 0);
        }
        let len = out.len() as u32;
        put32(&mut out, 0x20, len);
        out
    }
}

fn sample() -> Dex {
    Dex {
        strings: vec![
            b"La/Main;".to_vec(),
            b"Landroid/app/NativeActivity;".to_vec(),
            b"La/Callback;".to_vec(),
            b"I".to_vec(),
            b"V".to_vec(),
            b"run".to_vec(),
            b"count".to_vec(),
            b"caf\xff".to_vec(),
        ],
        types: vec![0, 1, 2, 3, 4],
        protos: vec![(4, vec![3, 2]), (3, vec![])],
        fields: vec![(0, 3, 6), (0, 3, 7)],
        methods: vec![(0, 0, 5), (2, 1, 5)],
        classes: vec![
            (2, 0x201, 0xffff_ffff, vec![], vec![0, 0, 0, 1, 1, 1, 0]),
            (0, 1, 1, vec![2], vec![1, 1, 1, 0, 0, 8, 1, 0, 0, 0x82, 0x02, 0]),
        ],
    }
}

fn index(dex: &Dex) -> Result<ApkDexIndex, DexIndexError> {
    ApkDexIndex::from_apk(&zip(&[("classes.dex", 0, &dex.bytes())]))
}

#[test]
fn packages_are_indexed_by_class() {
    let found = index(&sample()).unwrap();
    assert!(found.contains_class("La/Main;"));
    assert!(found.contains_class("[La/Callback;"));
    assert!(!found.contains_class("La/Other;"));
    assert_eq!(found.native_activity_class(), Some("La/Main;"));
    assert!(found.is_assignable_to("La/Main;", "La/Callback;"));
    assert!(found.is_assignable_to("La/Main;", "Landroid/content/Context;"));
    assert!(!found.is_assignable_to("La/Callback;", "La/Main;"));
    assert!(found.is_declared_native_method("La/Main;", "run", "(ILa/Callback;)V"));
    assert!(!found.is_declared_native_method("La/Callback;", "run", "()I"));
    assert!(found.contains_member("La/Main;", "count", "I", DexMemberKind::Field, true));
    assert!(!found.contains_member("La/Main;", "count", "I", DexMemberKind::Field, false));
    assert!(found.contains_member("La/Main;", "caf\u{fffd}", "I", DexMemberKind::Field, false));
    let member = found
        .resolve_member("La/Callback;", "run", "()I", DexMemberKind::Method, false)
        .unwrap();
    assert_eq!(member.declaring_class, "La/Callback;");
}

#[test]
fn dex_files_are_taken_in_name_order_and_must_not_repeat_a_class() {
    let first = sample().bytes();
    let apk = zip(&[("classes2.dex", 0, b"junk"), ("classes.dex", 0, &first)]);
    assert_eq!(
        ApkDexIndex::from_apk(&apk).unwrap_err().to_string(),
        "truncated DEX header"
    );
    let apk = zip(&[("classes2.dex", 0, &first), ("classes.dex", 0, &first)]);
    assert_eq!(
        ApkDexIndex::from_apk(&apk).unwrap_err(),
        DexIndexError::Invalid("duplicate class definition")
    );
    let apk = zip(&[("assets/classes.dex", 0, &first)]);
    assert_eq!(ApkDexIndex::from_apk(&apk).unwrap().native_activity_class(), None);
    assert_eq!(
        ApkDexIndex::from_apk(b"junk").unwrap_err().to_string(),
        "APK ZIP: not a ZIP file"
    );
    let apk = zip(&[("classes.dex", 8, &first)]);
    assert_eq!(
        ApkDexIndex::from_apk(&apk).unwrap_err().to_string(),
        "APK ZIP: unsupported ZIP compression: deflated"
    );
}

#[test]
fn bad_dex_headers_are_refused() {
    let good = sample().bytes();
    let fail = |at: usize, byte: u8| {
        let mut bytes = good.clone();
        bytes[at] = byte;
        ApkDexIndex::from_apk(&zip(&[("classes.dex", 0, &bytes)])).unwrap_err().to_string()
    };
    assert_eq!(fail(0, b'x'), "invalid DEX magic");
    assert_eq!(fail(7, 1), "invalid DEX magic");
    assert_eq!(fail(0x20, 0xff), "invalid DEX file size");
    assert_eq!(fail(0x24, 0x71), "invalid DEX header size");
    assert_eq!(fail(0x28, 0), "invalid DEX endian tag");
    assert_eq!(fail(0x3b, 0x80), "invalid DEX table size overflow");
    assert_eq!(fail(0x39, 0x10), "truncated DEX table");
    let mut bytes = good.clone();
    put32(&mut bytes, 0x38, 0x2000_0000);
    put32(&mut bytes, 0x3c, 0x8000_0000);
    assert_eq!(
        ApkDexIndex::from_apk(&zip(&[("classes.dex", 0, &bytes)])).unwrap_err().to_string(),
        "invalid DEX table offset overflow"
    );
}

#[test]
fn bad_dex_references_are_refused() {
    let fail = |change: &dyn Fn(&mut Dex)| {
        let mut dex = sample();
        change(&mut dex);
        index(&dex).unwrap_err().to_string()
    };
    assert_eq!(fail(&|d: &mut Dex| d.types[0] = 99), "invalid DEX string index 99");
    assert_eq!(fail(&|d: &mut Dex| d.protos[0].0 = 77), "invalid DEX type index 77");
    assert_eq!(fail(&|d: &mut Dex| d.protos[0].1[1] = 66), "invalid DEX type index 66");
    assert_eq!(fail(&|d: &mut Dex| d.classes[0].0 = 55), "invalid DEX type index 55");
    assert_eq!(fail(&|d: &mut Dex| d.fields[0].0 = 2), "invalid DEX encoded field owner");
    assert_eq!(fail(&|d: &mut Dex| d.methods[0].0 = 2), "invalid DEX encoded method owner");
    assert_eq!(fail(&|d: &mut Dex| d.methods[0].1 = 9), "invalid DEX proto index 9");
    assert_eq!(fail(&|d: &mut Dex| d.fields[1].2 = 6), "invalid DEX duplicate encoded field");
    assert_eq!(fail(&|d: &mut Dex| d.classes[1].4[4] = 9), "invalid DEX field index 9");
    assert_eq!(fail(&|d: &mut Dex| d.classes[1].4[8] = 9), "invalid DEX method index 9");
    assert_eq!(
        fail(&|d: &mut Dex| d.classes[0].4 = vec![0, 0, 0, 2, 1, 1, 0, 0, 1, 0]),
        "invalid DEX duplicate encoded method"
    );
    assert_eq!(
        fail(&|d: &mut Dex| d.classes[0].4 = vec![0xff, 0xff, 0xff, 0xff, 0x1f]),
        "invalid DEX ULEB128 overflow"
    );
}

#[test]
fn lookups_stop_at_a_class_that_comes_up_again() {
    let mut found = ApkDexIndex::new();
    found.insert_test_class("La;", Some("Lb;"));
    found.insert_test_class("Lb;", Some("La;"));
    found.insert_test_method("La;", "<init>", "()V", false, false);
    assert!(!found.contains_member("La;", "<init>", "()V", DexMemberKind::Method, false));
    assert!(!found.contains_member("La;", "x", "I", DexMemberKind::Field, true));
    assert!(found.is_assignable_to("La;", "Lb;"));
    assert!(!found.is_assignable_to("La;", "Lc;"));
    assert_eq!(found.native_activity_class(), None);
}

#[test]
fn lookups_only_give_declaring_classes() {
    let mut found = ApkDexIndex::new();
    found.insert_test_class("Lbase;", None);
    found.insert_test_class("Lchild;", Some("Lbase;"));
    found.insert_test_method("Lbase;", "m", "()V", true, true);
    found.insert_test_field("Lbase;", "f", "I", false);
    found.insert_test_field("Lchild;", "f", "I", true);
    let field = |class: &str, is_static: bool| {
        found
            .resolve_member(class, "f", "I", DexMemberKind::Field, is_static)
            .map(|member| member.declaring_class)
    };
    assert_eq!(field("Lchild;", false).as_deref(), Some("Lbase;"));
    assert_eq!(field("Lchild;", true).as_deref(), Some("Lchild;"));
    assert_eq!(field("Lbase;", true), None);
    assert!(found.contains_member("Lchild;", "m", "()V", DexMemberKind::Method, true));
    assert!(!found.contains_member("Lchild;", "m", "()V", DexMemberKind::Method, false));
    assert!(found.is_declared_native_method("Lbase;", "m", "()V"));
    assert!(!found.is_declared_native_method("Lchild;", "m", "()V"));
}

#[test]
fn assignment_goes_on_between_classes_and_by_element_for_arrays() {
    let mut found = ApkDexIndex::new();
    found.insert_test_class("La;", Some("Lb;"));
    found.insert_test_class("Lb;", Some("Ljava/lang/Throwable;"));
    found.add_test_interface("Lb;", "Lc;");
    assert!(found.is_assignable_to("La;", "La;"));
    assert!(found.is_assignable_to("La;", "Lb;"));
    assert!(found.is_assignable_to("Lb;", "Ljava/lang/Object;"));
    assert!(found.is_assignable_to("La;", "Ljava/lang/Object;"));
    assert!(found.is_assignable_to("La;", "Lc;"));
    assert!(found.is_assignable_to("[[La;", "[[Lc;"));
    assert!(found.is_assignable_to("[La;", "Ljava/io/Serializable;"));
    assert!(!found.is_assignable_to("[La;", "Lc;"));
    assert!(!found.is_assignable_to("Lc;", "[La;"));
    assert!(!found.is_assignable_to("[I", "[Ljava/lang/Object;"));
}

#[test]
fn known_attributes_have_names_of_their_own() {
    let mut names = Vec::new();
    for tag in 0..100 {
        if let Some(spec) = attr_spec(tag) {
            assert!(spec.name.starts_with("Tag_"));
            assert!(!names.contains(&spec.name));
            assert_eq!(spec.kind == AttrKind::Text, tag == 4 || tag == 5);
            names.push(spec.name);
        }
    }
    assert_eq!(names.len(), 13);
    assert_eq!(value_name(6, 21), Some("v8.1-M.mainline"));
    assert_eq!(value_name(6, 18), None);
    assert_eq!(value_name(7, 83), Some("Application or Real-time"));
}
