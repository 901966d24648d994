use aemu::apk_plan::{analyze_apk_bytes, classify_armv7a_library};
use aemu::elf_probe::{ArmAttribute, ElfProbe};
use std::path::PathBuf;

#[test]
fn accepts_armv7a_thumb2_vfp3_neon_library() {
    let probe = ElfProbe {
        path: PathBuf::from("lib/armeabi-v7a/libminecraftpe.so"),
        machine: "ARM".to_string(),
        eabi: "EABI5".to_string(),
        attributes: vec![
            attr("Tag_CPU_arch", "v7"),
            attr("Tag_THUMB_ISA_use", "Thumb-2"),
            attr("Tag_FP_arch", "VFPv3"),
            attr("Tag_Advanced_SIMD_arch", "NEONv1"),
        ],
    };

    let blockers = classify_armv7a_library("armeabi-v7a", Some(&probe), None);
    assert!(blockers.is_empty());
}

#[test]
fn accepts_armv7a_apk_library() {
    let apk = zip_with_one_file(
        "lib/armeabi-v7a/libgame.so",
        minimal_arm_elf(arm_attrs("ARM v7", 10, 2, 3, 1)),
    );
    let plan = analyze_apk_bytes(PathBuf::from("game.apk"), &apk).unwrap();

    assert_eq!(plan.native_libraries.len(), 1);
    assert!(plan.has_target_abi());
    assert!(plan.is_armv7a_runnable());
    assert!(plan.summary_blockers().is_empty());
}

#[test]
fn rejects_apk_without_armeabi_v7a_libraries() {
    let apk = zip_with_one_file(
        "lib/x86/libminecraftpe.so",
        minimal_arm_elf(arm_attrs("ARM v6", 6, 1, 2, 0)),
    );
    let plan = analyze_apk_bytes(PathBuf::from("mcpe.apk"), &apk).unwrap();

    assert!(!plan.has_target_abi());
    assert!(!plan.is_armv7a_runnable());
    let blockers = plan.summary_blockers();
    assert!(
        blockers
            .iter()
            .any(|blocker| blocker.contains("missing lib/armeabi-v7a/*.so"))
    );
}

fn attr(name: &str, value: &str) -> ArmAttribute {
    ArmAttribute {
        tag: 0,
        name: name.to_string(),
        value: value.to_string(),
    }
}

fn arm_attrs(cpu_name: &str, cpu_arch: u8, thumb: u8, fp_arch: u8, simd: u8) -> Vec<u8> {
    let mut payload = Vec::new();
    payload.push(5);
    payload.extend_from_slice(cpu_name.as_bytes());
    payload.push(0);
    payload.extend_from_slice(&[6, cpu_arch, 8, 1, 9, thumb, 10, fp_arch, 12, simd]);

    let file_len = 1 + 4 + payload.len();
    let mut subsection_payload = Vec::new();
    subsection_payload.extend_from_slice(b"aeabi\0");
    subsection_payload.push(1);
    push_u32(&mut subsection_payload, file_len as u32);
    subsection_payload.extend_from_slice(&payload);

    let mut attrs = Vec::new();
    attrs.push(b'A');
    push_u32(&mut attrs, (4 + subsection_payload.len()) as u32);
    attrs.extend_from_slice(&subsection_payload);
    attrs
}

fn minimal_arm_elf(attrs: Vec<u8>) -> Vec<u8> {
    let mut bytes = vec![0; 52];
    bytes[0..4].copy_from_slice(b"\x7fELF");
    bytes[4] = 1;
    bytes[5] = 1;
    bytes[6] = 1;
    write_u16(&mut bytes, 16, 3);
    write_u16(&mut bytes, 18, 40);
    write_u32(&mut bytes, 20, 1);
    write_u32(&mut bytes, 36, 0x0500_0000);
    write_u16(&mut bytes, 46, 40);
    write_u16(&mut bytes, 48, 3);
    write_u16(&mut bytes, 50, 2);

    let attr_off = bytes.len();
    bytes.extend_from_slice(&attrs);
    let shstr_off = bytes.len();
    bytes.extend_from_slice(b"\0.ARM.attributes\0.shstrtab\0");
    while bytes.len() % 4 != 0 {
        bytes.push(0);
    }

    let shoff = bytes.len();
    bytes.resize(shoff + 3 * 40, 0);
    write_u32(&mut bytes, 32, shoff as u32);

    write_u32(&mut bytes, shoff + 40, 1);
    write_u32(&mut bytes, shoff + 40 + 16, attr_off as u32);
    write_u32(&mut bytes, shoff + 40 + 20, attrs.len() as u32);

    write_u32(&mut bytes, shoff + 80, 17);
    write_u32(&mut bytes, shoff + 80 + 16, shstr_off as u32);
    write_u32(&mut bytes, shoff + 80 + 20, 27);

    bytes
}

fn zip_with_one_file(name: &str, data: Vec<u8>) -> Vec<u8> {
    let name = name.as_bytes();
    let mut bytes = Vec::new();
    let local_offset = bytes.len() as u32;
    push_u32(&mut bytes, 0x0403_4b50);
    push_u16(&mut bytes, 20);
    push_u16(&mut bytes, 0);
    push_u16(&mut bytes, 0);
    push_u16(&mut bytes, 0);
    push_u16(&mut bytes, 0);
    push_u32(&mut bytes, 0);
    push_u32(&mut bytes, data.len() as u32);
    push_u32(&mut bytes, data.len() as u32);
    push_u16(&mut bytes, name.len() as u16);
    push_u16(&mut bytes, 0);
    bytes.extend_from_slice(name);
    bytes.extend_from_slice(&data);

    let central_offset = bytes.len() as u32;
    push_u32(&mut bytes, 0x0201_4b50);
    push_u16(&mut bytes, 20);
    push_u16(&mut bytes, 20);
    push_u16(&mut bytes, 0);
    push_u16(&mut bytes, 0);
    push_u16(&mut bytes, 0);
    push_u16(&mut bytes, 0);
    push_u32(&mut bytes, 0);
    push_u32(&mut bytes, data.len() as u32);
    push_u32(&mut bytes, data.len() as u32);
    push_u16(&mut bytes, name.len() as u16);
    push_u16(&mut bytes, 0);
    push_u16(&mut bytes, 0);
    push_u16(&mut bytes, 0);
    push_u16(&mut bytes, 0);
    push_u32(&mut bytes, 0);
    push_u32(&mut bytes, local_offset);
    bytes.extend_from_slice(name);

    let central_size = bytes.len() as u32 - central_offset;
    push_u32(&mut bytes, 0x0605_4b50);
    push_u16(&mut bytes, 0);
    push_u16(&mut bytes, 0);
    push_u16(&mut bytes, 1);
    push_u16(&mut bytes, 1);
    push_u32(&mut bytes, central_size);
    push_u32(&mut bytes, central_offset);
    push_u16(&mut bytes, 0);
    bytes
}

fn push_u16(out: &mut Vec<u8>, value: u16) {
    out.extend_from_slice(&value.to_le_bytes());
}

fn push_u32(out: &mut Vec<u8>, value: u32) {
    out.extend_from_slice(&value.to_le_bytes());
}

fn write_u16(out: &mut [u8], off: usize, value: u16) {
    out[off..off + 2].copy_from_slice(&value.to_le_bytes());
}

fn write_u32(out: &mut [u8], off: usize, value: u32) {
    out[off..off + 4].copy_from_slice(&value.to_le_bytes());
}
