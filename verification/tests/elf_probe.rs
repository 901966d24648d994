use aemu::elf_probe::{parse_arm_attributes, probe_arm_elf_bytes};
use aemu::zip_probe::{extract_parsed_zip_entry, find_zip_entry, parse_zip_entries};
use std::path::PathBuf;

#[test]
fn parses_minimal_file_attributes() {
    let attrs = [
        b'A', 0x3d, 0, 0, 0, b'a', b'e', b'a', b'b', b'i', 0, 1, 0x33, 0, 0, 0, 5, b'A', b'R',
        b'M', b' ', b'v', b'7', 0, 6, 10, 7, 65, 8, 1, 9, 2, 10, 3, 12, 1, 17, 2, 18, 4, 20, 1,
        21, 1, 23, 3, 24, 1, 26, 2, 27, 3, 30, 2, 34, 1, 38, 1, 44, 1, 68, 1,
    ];
    let parsed = parse_arm_attributes(&attrs);
    assert!(
        parsed
            .iter()
            .any(|a| a.name == "Tag_CPU_name" && a.value == "ARM v7")
    );
    assert!(
        parsed
            .iter()
            .any(|a| a.name == "Tag_CPU_arch" && a.value == "v7")
    );
    assert!(
        parsed
            .iter()
            .any(|a| a.name == "Tag_THUMB_ISA_use" && a.value == "Thumb-2")
    );
}

#[test]
fn probes_minecraft_pe_so_from_local_apk_when_present() {
    let apk = zip_with_one_file(
        "lib/armeabi-v7a/libminecraftpe.so",
        minimal_arm_elf(arm_attrs("ARM v7", 10, 2, 3, 1)),
    );
    let bytes = read_zip_entry(&apk, "lib/armeabi-v7a/libminecraftpe.so").unwrap();
    let probe = probe_arm_elf_bytes(
        PathBuf::from("MineCraftPE-a0.15.0.1.apk!/lib/armeabi-v7a/libminecraftpe.so"),
        &bytes,
    )
    .unwrap();
    assert!(probe.requires_armv7_or_newer());
    assert!(probe.requires_thumb2());
    assert!(probe.requires_vfp());
    assert!(probe.requires_neon());
}

fn read_zip_entry(archive: &[u8], name: &str) -> Option<Vec<u8>> {
    let entries = parse_zip_entries(archive).ok()?;
    let at = find_zip_entry(&entries, name)?;
    extract_parsed_zip_entry(archive, &entries[at]).ok()
}

fn arm_attrs(cpu_name: &str, cpu_arch: u8, thumb: u8, fp_arch: u8, simd: u8) -> Vec<u8> {
    let mut payload = Vec::new();
    payload.push(5);
    payload.extend_from_slice(cpu_name.as_bytes());
    payload.push(0);
    payload.extend_from_slice(&[6, cpu_arch, 8, 1, 9, thumb, 10, fp_arch, 12, simd]);

    let file_len = 1 + 4 + payload.len();
    let mut subsection_payload = Vec::new();
    subsection_payload.extend_from_slice(b"aeabi\0");
    subsection_payload.push(1);
    push_u32(&mut subsection_payload, file_len as u32);
    subsection_payload.extend_from_slice(&payload);

    let mut attrs = Vec::new();
    attrs.push(b'A');
    push_u32(&mut attrs, (4 + subsection_payload.len()) as u32);
    attrs.extend_from_slice(&subsection_payload);
    attrs
}

fn minimal_arm_elf(attrs: Vec<u8>) -> Vec<u8> {
    let mut bytes = vec![0; 52];
    bytes[0..4].copy_from_slice(b"\x7fELF");
    bytes[4] = 1;
    bytes[5] = 1;
    bytes[6] = 1;
    write_u16(&mut bytes, 16, 3);
    write_u16(&mut bytes, 18, 40);
    write_u32(&mut bytes, 20, 1);
    write_u32(&mut bytes, 36, 0x0500_0000);
    write_u16(&mut bytes, 46, 40);
    write_u16(&mut bytes, 48, 3);
    write_u16(&mut bytes, 50, 2);

    let attr_off = bytes.len();
    bytes.extend_from_slice(&attrs);
    let shstr_off = bytes.len();
    bytes.extend_from_slice(b"\0.ARM.attributes\0.shstrtab\0");
    while bytes.len() % 4 != 0 {
        bytes.push(0);
    }

    let shoff = bytes.len();
    bytes.resize(shoff + 3 * 40, 0);
    write_u32(&mut bytes, 32, shoff as u32);

    write_u32(&mut bytes, shoff + 40, 1);
    write_u32(&mut bytes, shoff + 40 + 16, attr_off as u32);
    write_u32(&mut bytes, shoff + 40 + 20, attrs.len() as u32);

    write_u32(&mut bytes, shoff + 80, 17);
    write_u32(&mut bytes, shoff + 80 + 16, shstr_off as u32);
    write_u32(&mut bytes, shoff + 80 + 20, 27);

    bytes
}

fn zip_with_one_file(name: &str, data: Vec<u8>) -> Vec<u8> {
    let name = name.as_bytes();
    let mut bytes = Vec::new();
    let local_offset = bytes.len() as u32;
    push_u32(&mut bytes, 0x0403_4b50);
    push_u16(&mut bytes, 20);
    push_u16(&mut bytes, 0);
    push_u16(&mut bytes, 0);
    push_u16(&mut bytes, 0);
    push_u16(&mut bytes, 0);
    push_u32(&mut bytes, 0);
    push_u32(&mut bytes, data.len() as u32);
    push_u32(&mut bytes, data.len() as u32);
    push_u16(&mut bytes, name.len() as u16);
    push_u16(&mut bytes, 0);
    bytes.extend_from_slice(name);
    bytes.extend_from_slice(&data);

    let central_offset = bytes.len() as u32;
    push_u32(&mut bytes, 0x0201_4b50);
    push_u16(&mut bytes, 20);
    push_u16(&mut bytes, 20);
    push_u16(&mut bytes, 0);
    push_u16(&mut bytes, 0);
    push_u16(&mut bytes, 0);
    push_u16(&mut bytes, 0);
    push_u32(&mut bytes, 0);
    push_u32(&mut bytes, data.len() as u32);
    push_u32(&mut bytes, data.len() as u32);
    push_u16(&mut bytes, name.len() as u16);
    push_u16(&mut bytes, 0);
    push_u16(&mut bytes, 0);
    push_u16(&mut bytes, 0);
    push_u16(&mut bytes, 0);
    push_u32(&mut bytes, 0);
    push_u32(&mut bytes, local_offset);
    bytes.extend_from_slice(name);

    let central_size = bytes.len() as u32 - central_offset;
    push_u32(&mut bytes, 0x0605_4b50);
    push_u16(&mut bytes, 0);
    push_u16(&mut bytes, 0);
    push_u16(&mut bytes, 1);
    push_u16(&mut bytes, 1);
    push_u32(&mut bytes, central_size);
    push_u32(&mut bytes, central_offset);
    push_u16(&mut bytes, 0);
    bytes
}

fn push_u16(out: &mut Vec<u8>, value: u16) {
    out.extend_from_slice(&value.to_le_bytes());
}

fn push_u32(out: &mut Vec<u8>, value: u32) {
    out.extend_from_slice(&value.to_le_bytes());
}

fn write_u16(out: &mut [u8], off: usize, value: u16) {
    out[off..off + 2].copy_from_slice(&value.to_le_bytes());
}

fn write_u32(out: &mut [u8], off: usize, value: u32) {
    out[off..off + 4].copy_from_slice(&value.to_le_bytes());
}
