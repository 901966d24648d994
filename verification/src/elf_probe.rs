//! What an ELF file says of the processor it was built for.

use crate::bytes::{find_zero, has_elf_magic, is_elf, u16_at, u16_le, u32_at, u32_le, zero_from};
use crate::strings::{
    contains, read_terminated, same_text, stands_at, terminated_text, text_contains, text_view,
    utf8_text,
};
use crate::text::{dec, dec_text, join};
use std::path::PathBuf;
use vstd::prelude::*;
use vstd::slice::slice_subrange;
use vstd::string::StringExecFns;
use vstd::utf8::{decode_utf8, valid_utf8};

verus! {

/// What was found in a file.
#[derive(Debug, Clone, PartialEq, Eq)]
pub struct ElfProbe {
    pub path: PathBuf,
    pub machine: String,
    pub eabi: String,
    pub attributes: Vec<ArmAttribute>,
}

/// One build attribute.
#[derive(Debug, Clone, PartialEq, Eq)]
pub struct ArmAttribute {
    pub tag: u64,
    pub name: String,
    pub value: String,
}

/// Why a file cannot be probed.
#[derive(Debug, Clone, PartialEq, Eq)]
pub enum ElfProbeError {
    Io(String),
    NotElf,
    UnsupportedClass(u8),
    UnsupportedEndian(u8),
    Truncated(&'static str),
}

/// An [`ElfProbeError`] as a mathematical value.
pub enum ElfProbeErrorView {
    Io(Seq<char>),
    NotElf,
    UnsupportedClass(u8),
    UnsupportedEndian(u8),
    Truncated(Seq<char>),
}

impl View for ElfProbeError {
    type V = ElfProbeErrorView;

    open spec fn view(&self) -> ElfProbeErrorView {
        match self {
            ElfProbeError::Io(err) => ElfProbeErrorView::Io(err@),
            ElfProbeError::NotElf => ElfProbeErrorView::NotElf,
            ElfProbeError::UnsupportedClass(v) => ElfProbeErrorView::UnsupportedClass(*v),
            ElfProbeError::UnsupportedEndian(v) => ElfProbeErrorView::UnsupportedEndian(*v),
            ElfProbeError::Truncated(what) => ElfProbeErrorView::Truncated(what@),
        }
    }
}

impl ElfProbeErrorView {
    /// The message for this error.
    pub open spec fn text(self) -> Seq<char> {
        match self {
            ElfProbeErrorView::Io(err) => err,
            ElfProbeErrorView::NotElf => "not an ELF file"@,
            ElfProbeErrorView::UnsupportedClass(v) => "unsupported ELF class "@ + dec_text(
                v as nat,
            ),
            ElfProbeErrorView::UnsupportedEndian(v) => "unsupported ELF endian "@ + dec_text(
                v as nat,
            ),
            ElfProbeErrorView::Truncated(what) => "truncated "@ + what,
        }
    }
}

impl ElfProbeError {
    /// The message for this error.
    pub fn to_string(&self) -> (r: String)
        ensures
            r@ == self@.text(),
    {
        match self {
            ElfProbeError::Io(err) => err.clone(),
            ElfProbeError::NotElf => String::from_str("not an ELF file"),
            ElfProbeError::UnsupportedClass(v) => join(
                "unsupported ELF class ",
                dec(*v as u64).as_str(),
            ),
            ElfProbeError::UnsupportedEndian(v) => join(
                "unsupported ELF endian ",
                dec(*v as u64).as_str(),
            ),
            ElfProbeError::Truncated(what) => join("truncated ", what),
        }
    }
}

/// An [`ArmAttribute`] as a mathematical value.
pub struct AttributeView {
    pub tag: u64,
    pub name: Seq<char>,
    pub value: Seq<char>,
}

impl View for ArmAttribute {
    type V = AttributeView;

    open spec fn view(&self) -> AttributeView {
        AttributeView { tag: self.tag, name: self.name@, value: self.value@ }
    }
}

/// The views of a list of attributes.
pub open spec fn attribute_views(v: Seq<ArmAttribute>) -> Seq<AttributeView> {
    v.map_values(|a: ArmAttribute| a@)
}

/// An [`ElfProbe`] as a mathematical value, without its path.
pub struct ProbeView {
    pub machine: Seq<char>,
    pub eabi: Seq<char>,
    pub attributes: Seq<AttributeView>,
}

impl View for ElfProbe {
    type V = ProbeView;

    open spec fn view(&self) -> ProbeView {
        ProbeView {
            machine: self.machine@,
            eabi: self.eabi@,
            attributes: attribute_views(self.attributes@),
        }
    }
}

/// The value of the first attribute with a name.
pub open spec fn value_named(attributes: Seq<AttributeView>, name: Seq<char>) -> Option<Seq<char>>
    decreases attributes.len(),
{
    if attributes.len() == 0 {
        None
    } else if attributes[0].name == name {
        Some(attributes[0].value)
    } else {
        value_named(attributes.drop_first(), name)
    }
}

impl ProbeView {
    /// The value of an attribute.
    pub open spec fn value_of(self, name: Seq<char>) -> Option<Seq<char>> {
        value_named(self.attributes, name)
    }

    /// Whether the code needs version 7 of the architecture or a newer one.
    pub open spec fn needs_armv7(self) -> bool {
        match self.value_of("Tag_CPU_arch"@) {
            Some(value) => value == "v7"@ || value == "v7E-M"@ || value == "v8"@ || value
                == "v8-M.baseline"@ || value == "v8-M.mainline"@ || value == "v8.1-M.mainline"@,
            None => false,
        }
    }

    /// Whether the code needs Thumb-2.
    pub open spec fn needs_thumb2(self) -> bool {
        match self.value_of("Tag_THUMB_ISA_use"@) {
            Some(value) => contains(value, "Thumb-2"@),
            None => false,
        }
    }

    /// Whether the code needs VFP registers.
    pub open spec fn needs_vfp(self) -> bool {
        match self.value_of("Tag_FP_arch"@) {
            Some(value) => value != "None"@ && value != "Allowed"@,
            None => false,
        }
    }

    /// Whether the code needs NEON.
    pub open spec fn needs_neon(self) -> bool {
        match self.value_of("Tag_Advanced_SIMD_arch"@) {
            Some(value) => value != "None"@,
            None => false,
        }
    }

    /// Whether the code needs version 3 of VFP or a newer one.
    pub open spec fn needs_vfp3(self) -> bool {
        match self.value_of("Tag_FP_arch"@) {
            Some(value) => value == "VFPv3"@ || value == "VFPv3-D16"@ || value == "VFPv4"@ || value
                == "VFPv4-D16"@ || value == "FPv5-A"@ || value == "FPv5-D16"@,
            None => false,
        }
    }
}

impl ElfProbe {
    /// Whether the code needs version 7 of the architecture or a newer one.
    pub fn requires_armv7_or_newer(&self) -> (r: bool)
        ensures
            r == self@.needs_armv7(),
    {
        match self.attr_value("Tag_CPU_arch") {
            Some(value) => same_text(value, "v7") || same_text(value, "v7E-M") || same_text(
                value,
                "v8",
            ) || same_text(value, "v8-M.baseline") || same_text(value, "v8-M.mainline")
                || same_text(value, "v8.1-M.mainline"),
            None => false,
        }
    }

    /// Whether the code needs Thumb-2.
    pub fn requires_thumb2(&self) -> (r: bool)
        ensures
            r == self@.needs_thumb2(),
    {
        match self.attr_value("Tag_THUMB_ISA_use") {
            Some(value) => text_contains(value, "Thumb-2"),
            None => false,
        }
    }

    /// Whether the code needs VFP registers.
    pub fn requires_vfp(&self) -> (r: bool)
        ensures
            r == self@.needs_vfp(),
    {
        match self.attr_value("Tag_FP_arch") {
            Some(value) => !same_text(value, "None") && !same_text(value, "Allowed"),
            None => false,
        }
    }

    /// Whether the code needs NEON.
    pub fn requires_neon(&self) -> (r: bool)
        ensures
            r == self@.needs_neon(),
    {
        match self.attr_value("Tag_Advanced_SIMD_arch") {
            Some(value) => !same_text(value, "None"),
            None => false,
        }
    }

    /// The floating-point architecture.
    pub fn fp_arch(&self) -> (r: Option<&str>)
        ensures
            text_view(r) == self@.value_of("Tag_FP_arch"@),
    {
        self.attr_value("Tag_FP_arch")
    }

    /// Whether the code needs version 3 of VFP or a newer one.
    pub fn requires_vfp3_or_newer(&self) -> (r: bool)
        ensures
            r == self@.needs_vfp3(),
    {
        match self.fp_arch() {
            Some(value) => same_text(value, "VFPv3") || same_text(value, "VFPv3-D16")
                || same_text(value, "VFPv4") || same_text(value, "VFPv4-D16") || same_text(
                value,
                "FPv5-A",
            ) || same_text(value, "FPv5-D16"),
            None => false,
        }
    }

    /// The value of the first attribute with a name.
    pub fn attr_value(&self, name: &str) -> (r: Option<&str>)
        ensures
            text_view(r) == self@.value_of(name@),
    {
        let ghost all = attribute_views(self.attributes@);
        let mut idx: usize = 0;
        assert(all.skip(0) =~= all);
        while idx < self.attributes.len()
            invariant
                idx <= self.attributes@.len(),
                all == attribute_views(self.attributes@),
                value_named(all, name@) == value_named(all.skip(idx as int), name@),
            decreases self.attributes@.len() - idx,
        {
            assert(all.skip(idx as int).drop_first() =~= all.skip(idx + 1));
            if same_text(self.attributes[idx].name.as_str(), name) {
                return Some(self.attributes[idx].value.as_str());
            }
            idx += 1;
        }
        None
    }
}

/// VFP version 3 is VFP.
pub proof fn vfp3_is_vfp(p: ProbeView)
    ensures
        p.needs_vfp3() ==> p.needs_vfp(),
{
    reveal_strlit("VFPv3");
    reveal_strlit("VFPv3-D16");
    reveal_strlit("VFPv4");
    reveal_strlit("VFPv4-D16");
    reveal_strlit("FPv5-A");
    reveal_strlit("FPv5-D16");
    reveal_strlit("None");
    reveal_strlit("Allowed");
    if p.needs_vfp3() && !p.needs_vfp() {
        let v = p.value_of("Tag_FP_arch"@)->0;
        assert(v.len() != 4 && v.len() != 7);
    }
}

/// A result with its error taken by view.
pub type Checked<T> = core::result::Result<T, ElfProbeErrorView>;

/// A section header, as far as probing needs it.
#[derive(Debug, Clone, Copy)]
pub struct Section {
    pub name_off: usize,
    pub offset: usize,
    pub size: usize,
}

/// The section header at `off`.
pub open spec fn section_at(b: Seq<u8>, off: int) -> Section {
    Section {
        name_off: u32_at(b, off) as usize,
        offset: u32_at(b, off + 16) as usize,
        size: u32_at(b, off + 20) as usize,
    }
}

/// Where a section header stands.
pub open spec fn header_off(b: Seq<u8>, idx: int) -> int {
    u32_at(b, 32) + idx * u16_at(b, 46)
}

/// The section headers of a file.
pub open spec fn sections_of(b: Seq<u8>) -> Checked<Seq<Section>> {
    let num = u16_at(b, 48) as nat;
    if exists|idx: int| 0 <= idx < num && #[trigger] header_off(b, idx) + 40 > b.len() {
        Err(ElfProbeErrorView::Truncated("section header"@))
    } else {
        Ok(Seq::new(num, |idx: int| section_at(b, header_off(b, idx))))
    }
}

/// The bytes of a section, if they lie inside the file.
pub open spec fn contents_of(b: Seq<u8>, s: Section) -> Option<Seq<u8>> {
    if s.offset + s.size <= b.len() {
        Some(b.subrange(s.offset as int, s.offset + s.size))
    } else {
        None
    }
}

/// The index of the first section with a name, or the length.
pub open spec fn section_named(
    sections: Seq<Section>,
    strings: Seq<u8>,
    name: Seq<char>,
    from: int,
) -> int
    decreases sections.len() - from,
{
    if from >= sections.len() || terminated_text(strings, sections[from].name_off as int) == Some(
        name,
    ) {
        from
    } else {
        section_named(sections, strings, name, from + 1)
    }
}

/// The name of a machine number.
pub open spec fn machine_text(machine: u16) -> Seq<char> {
    if machine == 40 {
        "ARM"@
    } else {
        "unknown("@ + dec_text(machine as nat) + ")"@
    }
}

/// What a file says of its processor.
pub open spec fn probe_of(b: Seq<u8>) -> Checked<ProbeView> {
    if b.len() < 52 {
        Err(ElfProbeErrorView::Truncated("ELF header"@))
    } else if !is_elf(b) {
        Err(ElfProbeErrorView::NotElf)
    } else if b[4] != 1 {
        Err(ElfProbeErrorView::UnsupportedClass(b[4]))
    } else if b[5] != 1 {
        Err(ElfProbeErrorView::UnsupportedEndian(b[5]))
    } else {
        match sections_of(b) {
            Err(e) => Err(e),
            Ok(sections) => {
                let strndx = u16_at(b, 50) as int;
                if strndx >= sections.len() || contents_of(b, sections[strndx]) is None {
                    Err(ElfProbeErrorView::Truncated("section string table"@))
                } else {
                    let strings = contents_of(b, sections[strndx])->0;
                    let at = section_named(sections, strings, ".ARM.attributes"@, 0);
                    Ok(
                        ProbeView {
                            machine: machine_text(u16_at(b, 18)),
                            eabi: "EABI"@ + dec_text(((u32_at(b, 36) >> 24) & 0xff) as nat),
                            attributes: if at >= sections.len() {
                                Seq::empty()
                            } else {
                                match contents_of(b, sections[at]) {
                                    Some(attributes) => attributes_of(attributes),
                                    None => Seq::empty(),
                                }
                            },
                        },
                    )
                }
            },
        }
    }
}

/// The length of the little-endian base-128 number at the start of `b`, looking
/// from byte `from` on. It is zero where no number of at most ten bytes ends.
pub open spec fn uleb_len(b: Seq<u8>, from: int) -> int
    decreases b.len() - from,
{
    if from >= b.len() || from >= 10 {
        0
    } else if b[from] & 0x80 == 0 {
        from + 1
    } else {
        uleb_len(b, from + 1)
    }
}

/// The number in the low seven bits of the first `n` bytes, modulo the word size.
pub open spec fn uleb_value(b: Seq<u8>, n: int) -> u64
    decreases n,
{
    if n <= 0 {
        0
    } else {
        uleb_value(b, n - 1) | (((b[n - 1] & 0x7f) as u64) << ((7 * (n - 1)) as u64))
    }
}

/// The number at the start of `b` and its length, or two zeros.
pub open spec fn uleb(b: Seq<u8>) -> (u64, int) {
    let n = uleb_len(b, 0);
    if n == 0 {
        (0, 0)
    } else {
        (uleb_value(b, n), n)
    }
}

/// A base-128 number lies inside its bytes.
pub proof fn uleb_len_bounds(b: Seq<u8>, from: int)
    requires
        0 <= from,
    ensures
        0 <= uleb_len(b, from) <= b.len(),
        uleb_len(b, from) <= 10,
    decreases b.len() - from,
{
    if from < b.len() && from < 10 && b[from] & 0x80 != 0 {
        uleb_len_bounds(b, from + 1);
    }
}

/// How the value of an attribute is written.
#[derive(Debug, Clone, Copy, PartialEq, Eq, Structural)]
pub enum AttrKind {
    Text,
    Number,
}

/// The name and the form of an attribute.
#[derive(Debug, Clone, Copy)]
pub struct AttrSpec {
    pub name: &'static str,
    pub kind: AttrKind,
}

/// The form and the name of a known attribute.
pub open spec fn known_attribute(tag: u64) -> Option<(AttrKind, Seq<char>)> {
    match tag {
        4 => Some((AttrKind::Text, "Tag_CPU_raw_name"@)),
        5 => Some((AttrKind::Text, "Tag_CPU_name"@)),
        6 => Some((AttrKind::Number, "Tag_CPU_arch"@)),
        7 => Some((AttrKind::Number, "Tag_CPU_arch_profile"@)),
        8 => Some((AttrKind::Number, "Tag_ARM_ISA_use"@)),
        9 => Some((AttrKind::Number, "Tag_THUMB_ISA_use"@)),
        10 => Some((AttrKind::Number, "Tag_FP_arch"@)),
        12 => Some((AttrKind::Number, "Tag_Advanced_SIMD_arch"@)),
        24 => Some((AttrKind::Number, "Tag_ABI_align_needed"@)),
        25 => Some((AttrKind::Number, "Tag_ABI_align_preserved"@)),
        28 => Some((AttrKind::Number, "Tag_ABI_VFP_args"@)),
        34 => Some((AttrKind::Number, "Tag_CPU_unaligned_access"@)),
        44 => Some((AttrKind::Number, "Tag_DIV_use"@)),
        _ => None,
    }
}

/// The names of the values of `Tag_CPU_arch`.
pub open spec fn cpu_arch_text(raw: u64) -> Option<Seq<char>> {
    match raw {
        0 => Some("Pre-v4"@),
        1 => Some("v4"@),
        2 => Some("v4T"@),
        3 => Some("v5T"@),
        4 => Some("v5TE"@),
        5 => Some("v5TEJ"@),
        6 => Some("v6"@),
        7 => Some("v6KZ"@),
        8 => Some("v6T2"@),
        9 => Some("v6K"@),
        10 => Some("v7"@),
        11 => Some("v6-M"@),
        12 => Some("v6S-M"@),
        13 => Some("v7E-M"@),
        14 => Some("v8"@),
        15 => Some("v8-R"@),
        16 => Some("v8-M.baseline"@),
        17 => Some("v8-M.mainline"@),
        21 => Some("v8.1-M.mainline"@),
        _ => None,
    }
}

/// The names of the values of `Tag_CPU_arch_profile`.
pub open spec fn cpu_arch_profile_text(raw: u64) -> Option<Seq<char>> {
    match raw {
        0 => Some("None"@),
        65 => Some("Application"@),
        82 => Some("Real-time"@),
        77 => Some("Microcontroller"@),
        83 => Some("Application or Real-time"@),
        _ => None,
    }
}

/// The names of the values of `Tag_ARM_ISA_use`.
pub open spec fn arm_isa_use_text(raw: u64) -> Option<Seq<char>> {
    match raw {
        0 => Some("No"@),
        1 => Some("Yes"@),
        _ => None,
    }
}

/// The names of the values of `Tag_THUMB_ISA_use`.
pub open spec fn thumb_isa_use_text(raw: u64) -> Option<Seq<char>> {
    match raw {
        0 => Some("No"@),
        1 => Some("Thumb-1"@),
        2 => Some("Thumb-2"@),
        _ => None,
    }
}

/// The names of the values of `Tag_FP_arch`.
pub open spec fn fp_arch_text(raw: u64) -> Option<Seq<char>> {
    match raw {
        0 => Some("None"@),
        1 => Some("VFPv1"@),
        2 => Some("VFPv2"@),
        3 => Some("VFPv3"@),
        4 => Some("VFPv3-D16"@),
        5 => Some("VFPv4"@),
        6 => Some("VFPv4-D16"@),
        7 => Some("FPv5-A"@),
        8 => Some("FPv5-D16"@),
        _ => None,
    }
}

/// The names of the values of `Tag_Advanced_SIMD_arch`.
pub open spec fn advanced_simd_arch_text(raw: u64) -> Option<Seq<char>> {
    match raw {
        0 => Some("None"@),
        1 => Some("NEONv1"@),
        2 => Some("NEONv1 with Fused-MAC"@),
        3 => Some("ARMv8 NEON"@),
        _ => None,
    }
}

/// The names of the values of `Tag_ABI_align_needed`.
pub open spec fn abi_align_needed_text(raw: u64) -> Option<Seq<char>> {
    match raw {
        0 => Some("No"@),
        1 => Some("8-byte"@),
        2 => Some("4-byte"@),
        _ => None,
    }
}

/// The names of the values of `Tag_ABI_align_preserved`.
pub open spec fn abi_align_preserved_text(raw: u64) -> Option<Seq<char>> {
    match raw {
        0 => Some("No"@),
        1 => Some("8-byte except leaf SP"@),
        2 => Some("8-byte"@),
        _ => None,
    }
}

/// The names of the values of `Tag_ABI_VFP_args`.
pub open spec fn abi_vfp_args_text(raw: u64) -> Option<Seq<char>> {
    match raw {
        0 => Some("AAPCS"@),
        1 => Some("VFP registers"@),
        2 => Some("toolchain-specific"@),
        _ => None,
    }
}

/// The names of the values of `Tag_CPU_unaligned_access`.
pub open spec fn cpu_unaligned_access_text(raw: u64) -> Option<Seq<char>> {
    match raw {
        0 => Some("No"@),
        1 => Some("v6"@),
        _ => None,
    }
}

/// The names of the values of `Tag_DIV_use`.
pub open spec fn div_use_text(raw: u64) -> Option<Seq<char>> {
    match raw {
        0 => Some("Allowed"@),
        1 => Some("Not allowed"@),
        2 => Some("Allowed in v7-R/v7-M"@),
        _ => None,
    }
}

/// The name of a value of a known attribute.
pub open spec fn value_text(tag: u64, raw: u64) -> Option<Seq<char>> {
    match tag {
        6 => cpu_arch_text(raw),
        7 => cpu_arch_profile_text(raw),
        8 => arm_isa_use_text(raw),
        9 => thumb_isa_use_text(raw),
        10 => fp_arch_text(raw),
        12 => advanced_simd_arch_text(raw),
        24 => abi_align_needed_text(raw),
        25 => abi_align_preserved_text(raw),
        28 => abi_vfp_args_text(raw),
        34 => cpu_unaligned_access_text(raw),
        44 => div_use_text(raw),
        _ => None,
    }
}

/// The known attributes are thirteen, two of them texts. Their names start with
/// `Tag_`, and no two have the same name.
pub proof fn known_attributes_are_told_apart(tag: u64, other: u64)
    ensures
        known_attribute(tag) is Some <==> tag == 4 || tag == 5 || tag == 6 || tag == 7 || tag == 8
            || tag == 9 || tag == 10 || tag == 12 || tag == 24 || tag == 25 || tag == 28 || tag == 34
            || tag == 44,
        match known_attribute(tag) {
            Some((kind, name)) => (kind == AttrKind::Text <==> tag == 4 || tag == 5) && stands_at(
                name,
                "Tag_"@,
                0,
            ),
            None => true,
        },
        match (known_attribute(tag), known_attribute(other)) {
            (Some((_, a)), Some((_, b))) => tag != other ==> a != b,
            _ => true,
        },
{
    reveal_strlit("Tag_");
    reveal_strlit("Tag_CPU_raw_name");
    reveal_strlit("Tag_CPU_name");
    reveal_strlit("Tag_CPU_arch");
    reveal_strlit("Tag_CPU_arch_profile");
    reveal_strlit("Tag_ARM_ISA_use");
    reveal_strlit("Tag_THUMB_ISA_use");
    reveal_strlit("Tag_FP_arch");
    reveal_strlit("Tag_Advanced_SIMD_arch");
    reveal_strlit("Tag_ABI_align_needed");
    reveal_strlit("Tag_ABI_align_preserved");
    reveal_strlit("Tag_ABI_VFP_args");
    reveal_strlit("Tag_CPU_unaligned_access");
    reveal_strlit("Tag_DIV_use");
    assert("Tag_CPU_raw_name"@.subrange(0, 4) =~= "Tag_"@);
    assert("Tag_CPU_name"@.subrange(0, 4) =~= "Tag_"@);
    assert("Tag_CPU_arch"@.subrange(0, 4) =~= "Tag_"@);
    assert("Tag_CPU_arch_profile"@.subrange(0, 4) =~= "Tag_"@);
    assert("Tag_ARM_ISA_use"@.subrange(0, 4) =~= "Tag_"@);
    assert("Tag_THUMB_ISA_use"@.subrange(0, 4) =~= "Tag_"@);
    assert("Tag_FP_arch"@.subrange(0, 4) =~= "Tag_"@);
    assert("Tag_Advanced_SIMD_arch"@.subrange(0, 4) =~= "Tag_"@);
    assert("Tag_ABI_align_needed"@.subrange(0, 4) =~= "Tag_"@);
    assert("Tag_ABI_align_preserved"@.subrange(0, 4) =~= "Tag_"@);
    assert("Tag_ABI_VFP_args"@.subrange(0, 4) =~= "Tag_"@);
    assert("Tag_CPU_unaligned_access"@.subrange(0, 4) =~= "Tag_"@);
    assert("Tag_DIV_use"@.subrange(0, 4) =~= "Tag_"@);
    assert("Tag_CPU_name"@[8] != "Tag_CPU_arch"@[8]);
    assert("Tag_CPU_raw_name"@[4] != "Tag_ABI_VFP_args"@[4]);
    assert("Tag_CPU_arch_profile"@[4] != "Tag_ABI_align_needed"@[4]);
    assert("Tag_FP_arch"@[4] != "Tag_DIV_use"@[4]);
}

/// Which values of the known attributes have names, each value one.
pub proof fn named_values(raw: u64)
    ensures
        value_text(6, raw) is Some <==> raw <= 17 || raw == 21,
        value_text(7, raw) is Some <==> raw == 0 || raw == 65 || raw == 82 || raw == 77 || raw == 83,
        value_text(8, raw) is Some <==> raw <= 1,
        value_text(9, raw) is Some <==> raw <= 2,
        value_text(10, raw) is Some <==> raw <= 8,
        value_text(12, raw) is Some <==> raw <= 3,
        value_text(24, raw) is Some <==> raw <= 2,
        value_text(25, raw) is Some <==> raw <= 2,
        value_text(28, raw) is Some <==> raw <= 2,
        value_text(34, raw) is Some <==> raw <= 1,
        value_text(44, raw) is Some <==> raw <= 2,
{
}

/// UTF-8 text, or the empty text for other bytes.
pub open spec fn text_or_empty(b: Seq<u8>) -> Seq<char> {
    if valid_utf8(b) {
        decode_utf8(b)
    } else {
        Seq::empty()
    }
}

/// `acc` and the attributes of a file payload, up to the first that is cut off.
pub open spec fn payload_attributes(p: Seq<u8>, acc: Seq<AttributeView>) -> Seq<AttributeView>
    decreases p.len(),
    via payload_attributes_decreases
{
    let (tag, n) = uleb(p);
    if n == 0 {
        acc
    } else {
        let q = p.skip(n);
        match known_attribute(tag) {
            Some((AttrKind::Text, name)) => {
                let end = zero_from(q, 0);
                if end >= q.len() {
                    acc
                } else {
                    payload_attributes(
                        q.skip(end + 1),
                        acc.push(AttributeView { tag, name, value: text_or_empty(q.take(end)) }),
                    )
                }
            },
            Some((AttrKind::Number, name)) => {
                let (raw, m) = uleb(q);
                if m == 0 {
                    acc
                } else {
                    payload_attributes(
                        q.skip(m),
                        acc.push(
                            AttributeView {
                                tag,
                                name,
                                value: match value_text(tag, raw) {
                                    Some(text) => text,
                                    None => dec_text(raw as nat),
                                },
                            },
                        ),
                    )
                }
            },
            None => {
                let (raw, m) = uleb(q);
                if m == 0 {
                    acc
                } else {
                    payload_attributes(
                        q.skip(m),
                        acc.push(
                            AttributeView {
                                tag,
                                name: "Tag_"@ + dec_text(tag as nat),
                                value: dec_text(raw as nat),
                            },
                        ),
                    )
                }
            },
        }
    }
}

#[via_fn]
proof fn payload_attributes_decreases(p: Seq<u8>, acc: Seq<AttributeView>) {
    uleb_len_bounds(p, 0);
    let (tag, n) = uleb(p);
    if n != 0 {
        let q = p.skip(n);
        uleb_len_bounds(q, 0);
        crate::bytes::zero_from_is_first(q, 0);
    }
}

/// `acc` and the attributes of the file parts between two offsets of a
/// subsection, up to the first that does not fit.
pub open spec fn parts_between(b: Seq<u8>, at: int, end: int, acc: Seq<AttributeView>) -> Seq<
    AttributeView,
>
    decreases end - at,
{
    if at >= end {
        acc
    } else {
        let (tag, n) = uleb(b.subrange(at, end));
        let len = u32_at(b, at + n) as int;
        if n <= 0 || at + n + 4 > end || len < n + 4 || at + len > end {
            acc
        } else {
            parts_between(
                b,
                at + len,
                end,
                if tag == 1 {
                    payload_attributes(b.subrange(at + n + 4, at + len), acc)
                } else {
                    acc
                },
            )
        }
    }
}

/// `acc` and the attributes of the subsections from `pos` on, up to the first
/// that does not fit. Only those of the vendor `aeabi` count.
pub open spec fn subsections_from(b: Seq<u8>, pos: int, acc: Seq<AttributeView>) -> Seq<
    AttributeView,
>
    decreases b.len() - pos,
{
    let len = u32_at(b, pos) as int;
    let end = pos + len;
    if pos + 4 > b.len() || len < 4 || end > b.len() {
        acc
    } else {
        let vendor_end = zero_from(b.take(end), pos + 4);
        if vendor_end >= end {
            acc
        } else {
            subsections_from(
                b,
                end,
                if text_or_empty(b.subrange(pos + 4, vendor_end)) == "aeabi"@ {
                    parts_between(b, vendor_end + 1, end, acc)
                } else {
                    acc
                },
            )
        }
    }
}

/// The attributes of an attribute section.
pub open spec fn attributes_of(b: Seq<u8>) -> Seq<AttributeView> {
    if b.len() > 0 && b[0] == 0x41 {
        subsections_from(b, 1, Seq::empty())
    } else {
        Seq::empty()
    }
}

/// The form and the name of a known attribute.
pub fn attr_spec(tag: u64) -> (r: Option<AttrSpec>)
    ensures
        match r {
            Some(s) => known_attribute(tag) == Some((s.kind, s.name@)),
            None => known_attribute(tag) is None,
        },
{
    match tag {
        4 => Some(AttrSpec { name: "Tag_CPU_raw_name", kind: AttrKind::Text }),
        5 => Some(AttrSpec { name: "Tag_CPU_name", kind: AttrKind::Text }),
        6 => Some(AttrSpec { name: "Tag_CPU_arch", kind: AttrKind::Number }),
        7 => Some(AttrSpec { name: "Tag_CPU_arch_profile", kind: AttrKind::Number }),
        8 => Some(AttrSpec { name: "Tag_ARM_ISA_use", kind: AttrKind::Number }),
        9 => Some(AttrSpec { name: "Tag_THUMB_ISA_use", kind: AttrKind::Number }),
        10 => Some(AttrSpec { name: "Tag_FP_arch", kind: AttrKind::Number }),
        12 => Some(AttrSpec { name: "Tag_Advanced_SIMD_arch", kind: AttrKind::Number }),
        24 => Some(AttrSpec { name: "Tag_ABI_align_needed", kind: AttrKind::Number }),
        25 => Some(AttrSpec { name: "Tag_ABI_align_preserved", kind: AttrKind::Number }),
        28 => Some(AttrSpec { name: "Tag_ABI_VFP_args", kind: AttrKind::Number }),
        34 => Some(AttrSpec { name: "Tag_CPU_unaligned_access", kind: AttrKind::Number }),
        44 => Some(AttrSpec { name: "Tag_DIV_use", kind: AttrKind::Number }),
        _ => None,
    }
}

fn cpu_arch_name(raw: u64) -> (r: Option<&'static str>)
    ensures
        text_view(r) == cpu_arch_text(raw),
{
    match raw {
        0 => Some("Pre-v4"),
        1 => Some("v4"),
        2 => Some("v4T"),
        3 => Some("v5T"),
        4 => Some("v5TE"),
        5 => Some("v5TEJ"),
        6 => Some("v6"),
        7 => Some("v6KZ"),
        8 => Some("v6T2"),
        9 => Some("v6K"),
        10 => Some("v7"),
        11 => Some("v6-M"),
        12 => Some("v6S-M"),
        13 => Some("v7E-M"),
        14 => Some("v8"),
        15 => Some("v8-R"),
        16 => Some("v8-M.baseline"),
        17 => Some("v8-M.mainline"),
        21 => Some("v8.1-M.mainline"),
        _ => None,
    }
}

fn cpu_arch_profile_name(raw: u64) -> (r: Option<&'static str>)
    ensures
        text_view(r) == cpu_arch_profile_text(raw),
{
    match raw {
        0 => Some("None"),
        65 => Some("Application"),
        82 => Some("Real-time"),
        77 => Some("Microcontroller"),
        83 => Some("Application or Real-time"),
        _ => None,
    }
}

fn arm_isa_use_name(raw: u64) -> (r: Option<&'static str>)
    ensures
        text_view(r) == arm_isa_use_text(raw),
{
    match raw {
        0 => Some("No"),
        1 => Some("Yes"),
        _ => None,
    }
}

fn thumb_isa_use_name(raw: u64) -> (r: Option<&'static str>)
    ensures
        text_view(r) == thumb_isa_use_text(raw),
{
    match raw {
        0 => Some("No"),
        1 => Some("Thumb-1"),
        2 => Some("Thumb-2"),
        _ => None,
    }
}

fn fp_arch_name(raw: u64) -> (r: Option<&'static str>)
    ensures
        text_view(r) == fp_arch_text(raw),
{
    match raw {
        0 => Some("None"),
        1 => Some("VFPv1"),
        2 => Some("VFPv2"),
        3 => Some("VFPv3"),
        4 => Some("VFPv3-D16"),
        5 => Some("VFPv4"),
        6 => Some("VFPv4-D16"),
        7 => Some("FPv5-A"),
        8 => Some("FPv5-D16"),
        _ => None,
    }
}

fn advanced_simd_arch_name(raw: u64) -> (r: Option<&'static str>)
    ensures
        text_view(r) == advanced_simd_arch_text(raw),
{
    match raw {
        0 => Some("None"),
        1 => Some("NEONv1"),
        2 => Some("NEONv1 with Fused-MAC"),
        3 => Some("ARMv8 NEON"),
        _ => None,
    }
}

fn abi_align_needed_name(raw: u64) -> (r: Option<&'static str>)
    ensures
        text_view(r) == abi_align_needed_text(raw),
{
    match raw {
        0 => Some("No"),
        1 => Some("8-byte"),
        2 => Some("4-byte"),
        _ => None,
    }
}

fn abi_align_preserved_name(raw: u64) -> (r: Option<&'static str>)
    ensures
        text_view(r) == abi_align_preserved_text(raw),
{
    match raw {
        0 => Some("No"),
        1 => Some("8-byte except leaf SP"),
        2 => Some("8-byte"),
        _ => None,
    }
}

fn abi_vfp_args_name(raw: u64) -> (r: Option<&'static str>)
    ensures
        text_view(r) == abi_vfp_args_text(raw),
{
    match raw {
        0 => Some("AAPCS"),
        1 => Some("VFP registers"),
        2 => Some("toolchain-specific"),
        _ => None,
    }
}

fn cpu_unaligned_access_name(raw: u64) -> (r: Option<&'static str>)
    ensures
        text_view(r) == cpu_unaligned_access_text(raw),
{
    match raw {
        0 => Some("No"),
        1 => Some("v6"),
        _ => None,
    }
}

fn div_use_name(raw: u64) -> (r: Option<&'static str>)
    ensures
        text_view(r) == div_use_text(raw),
{
    match raw {
        0 => Some("Allowed"),
        1 => Some("Not allowed"),
        2 => Some("Allowed in v7-R/v7-M"),
        _ => None,
    }
}

/// The name of a value of a known attribute.
pub fn value_name(tag: u64, raw: u64) -> (r: Option<&'static str>)
    ensures
        text_view(r) == value_text(tag, raw),
{
    match tag {
        6 => cpu_arch_name(raw),
        7 => cpu_arch_profile_name(raw),
        8 => arm_isa_use_name(raw),
        9 => thumb_isa_use_name(raw),
        10 => fp_arch_name(raw),
        12 => advanced_simd_arch_name(raw),
        24 => abi_align_needed_name(raw),
        25 => abi_align_preserved_name(raw),
        28 => abi_vfp_args_name(raw),
        34 => cpu_unaligned_access_name(raw),
        44 => div_use_name(raw),
        _ => None,
    }
}

fn read_uleb128(bytes: &[u8]) -> (r: (u64, usize))
    ensures
        r.0 == uleb(bytes@).0,
        r.1 == uleb(bytes@).1,
        0 <= r.1 <= bytes@.len(),
{
    let mut value: u64 = 0;
    let mut shift: u64 = 0;
    let mut idx: usize = 0;
    while idx < bytes.len() && idx < 10
        invariant
            idx <= bytes@.len(),
            idx <= 10,
            shift == 7 * idx,
            value == uleb_value(bytes@, idx as int),
            uleb_len(bytes@, 0) == uleb_len(bytes@, idx as int),
        decreases 10 - idx,
    {
        value = value | (((bytes[idx] & 0x7f) as u64) << shift);
        if bytes[idx] & 0x80 == 0 {
            return (value, idx + 1);
        }
        shift += 7;
        idx += 1;
    }
    (0, 0)
}

fn text_or_none(b: &[u8]) -> (r: &str)
    ensures
        r@ == text_or_empty(b@),
{
    match utf8_text(b) {
        Some(text) => text,
        None => {
            proof {
                reveal_strlit("");
                assert(""@ =~= Seq::empty());
            }
            ""
        },
    }
}

fn put(out: &mut Vec<ArmAttribute>, tag: u64, name: String, value: String)
    ensures
        attribute_views(final(out)@) == attribute_views(old(out)@).push(
            AttributeView { tag, name: name@, value: value@ },
        ),
{
    out.push(ArmAttribute { tag, name, value });
    assert(attribute_views(out@) =~= attribute_views(old(out)@).push(
        AttributeView { tag, name: name@, value: value@ },
    ));
}

fn parse_file_attribute_payload(payload: &[u8], out: &mut Vec<ArmAttribute>)
    ensures
        attribute_views(final(out)@) == payload_attributes(payload@, attribute_views(old(out)@)),
{
    let mut rest = payload;
    while !rest.is_empty()
        invariant
            payload_attributes(payload@, attribute_views(old(out)@)) == payload_attributes(
                rest@,
                attribute_views(out@),
            ),
        ensures
            payload_attributes(payload@, attribute_views(old(out)@)) == attribute_views(out@),
        decreases rest@.len(),
    {
        let (tag, tag_len) = read_uleb128(rest);
        if tag_len == 0 {
            break;
        }
        let body = slice_subrange(rest, tag_len, rest.len());
        assert(body@ =~= rest@.skip(tag_len as int));
        match attr_spec(tag) {
            None => {
                let (value, value_len) = read_uleb128(body);
                if value_len == 0 {
                    break;
                }
                put(out, tag, join("Tag_", dec(tag).as_str()), dec(value));
                rest = slice_subrange(body, value_len, body.len());
                assert(rest@ =~= body@.skip(value_len as int));
            },
            Some(spec) => match spec.kind {
                AttrKind::Text => {
                    let end = match find_zero(body, 0) {
                        Some(end) => end,
                        None => break,
                    };
                    let value = String::from_str(text_or_none(slice_subrange(body, 0, end)));
                    assert(body@.subrange(0, end as int) =~= body@.take(end as int));
                    put(out, tag, String::from_str(spec.name), value);
                    rest = slice_subrange(body, end + 1, body.len());
                    assert(rest@ =~= body@.skip(end + 1));
                },
                AttrKind::Number => {
                    let (raw, raw_len) = read_uleb128(body);
                    if raw_len == 0 {
                        break;
                    }
                    let value = match value_name(tag, raw) {
                        Some(text) => String::from_str(text),
                        None => dec(raw),
                    };
                    put(out, tag, String::from_str(spec.name), value);
                    rest = slice_subrange(body, raw_len, body.len());
                    assert(rest@ =~= body@.skip(raw_len as int));
                },
            },
        }
    }
}

/// The attributes of the file parts of a subsection.
fn parse_parts(bytes: &[u8], start: usize, end: usize, out: &mut Vec<ArmAttribute>)
    requires
        start <= end <= bytes@.len(),
    ensures
        attribute_views(final(out)@) == parts_between(
            bytes@,
            start as int,
            end as int,
            attribute_views(old(out)@),
        ),
{
    let mut at: usize = start;
    while at < end
        invariant
            start <= at <= end <= bytes@.len(),
            parts_between(bytes@, start as int, end as int, attribute_views(old(out)@))
                == parts_between(bytes@, at as int, end as int, attribute_views(out@)),
        ensures
            parts_between(bytes@, start as int, end as int, attribute_views(old(out)@))
                == attribute_views(out@),
        decreases end - at,
    {
        let (tag, tag_len) = read_uleb128(slice_subrange(bytes, at, end));
        if tag_len == 0 || end - at - tag_len < 4 {
            break;
        }
        let len = match u32_le(bytes, at + tag_len) {
            Some(len) => len as usize,
            None => break,
        };
        if len < tag_len + 4 || len > end - at {
            break;
        }
        if tag == 1 {
            parse_file_attribute_payload(
                slice_subrange(bytes, at + tag_len + 4, at + len),
                out,
            );
        }
        at += len;
    }
}

/// Reads an attribute section.
pub fn parse_arm_attributes(bytes: &[u8]) -> (r: Vec<ArmAttribute>)
    ensures
        attribute_views(r@) == attributes_of(bytes@),
{
    let mut out: Vec<ArmAttribute> = Vec::new();
    assert(attribute_views(out@) =~= Seq::empty());
    if bytes.len() == 0 || bytes[0] != 0x41 {
        return out;
    }
    let mut pos: usize = 1;
    while bytes.len() - pos >= 4
        invariant
            1 <= pos <= bytes@.len(),
            attributes_of(bytes@) == subsections_from(bytes@, pos as int, attribute_views(out@)),
        ensures
            attributes_of(bytes@) == attribute_views(out@),
        decreases bytes@.len() - pos,
    {
        let subsection_len = match u32_le(bytes, pos) {
            Some(len) => len as usize,
            None => break,
        };
        if subsection_len < 4 || subsection_len > bytes.len() - pos {
            break;
        }
        let end = pos + subsection_len;
        let subsection = slice_subrange(bytes, 0, end);
        assert(subsection@ =~= bytes@.take(end as int));
        let vendor_end = match find_zero(subsection, pos + 4) {
            Some(vendor_end) => vendor_end,
            None => break,
        };
        let vendor = text_or_none(slice_subrange(bytes, pos + 4, vendor_end));
        if same_text(vendor, "aeabi") {
            parse_parts(bytes, vendor_end + 1, end, &mut out);
        }
        pos = end;
    }
    out
}

fn section_bytes<'a>(bytes: &'a [u8], section: &Section) -> (r: Option<&'a [u8]>)
    ensures
        match r {
            Some(s) => contents_of(bytes@, *section) == Some(s@),
            None => contents_of(bytes@, *section) is None,
        },
{
    if section.offset > bytes.len() || section.size > bytes.len() - section.offset {
        return None;
    }
    Some(slice_subrange(bytes, section.offset, section.offset + section.size))
}

fn find_section(sections: &[Section], strings: &[u8], name: &str) -> (r: Option<usize>)
    ensures
        match r {
            Some(i) => i < sections@.len() && i == section_named(sections@, strings@, name@, 0),
            None => section_named(sections@, strings@, name@, 0) == sections@.len(),
        },
{
    let mut idx: usize = 0;
    while idx < sections.len()
        invariant
            idx <= sections@.len(),
            section_named(sections@, strings@, name@, 0) == section_named(
                sections@,
                strings@,
                name@,
                idx as int,
            ),
        decreases sections@.len() - idx,
    {
        match read_terminated(strings, sections[idx].name_off) {
            Some(text) => if same_text(text, name) {
                return Some(idx);
            },
            None => {},
        }
        idx += 1;
    }
    None
}

fn le_u16(bytes: &[u8], off: usize) -> (r: u16)
    requires
        off + 2 <= bytes@.len(),
    ensures
        r == u16_at(bytes@, off as int),
{
    match u16_le(bytes, off) {
        Some(v) => v,
        None => 0,
    }
}

fn le_u32(bytes: &[u8], off: usize) -> (r: u32)
    requires
        off + 4 <= bytes@.len(),
    ensures
        r == u32_at(bytes@, off as int),
{
    match u32_le(bytes, off) {
        Some(v) => v,
        None => 0,
    }
}

/// Reads the section headers.
#[verifier::loop_isolation(false)]
fn parse_sections(bytes: &[u8]) -> (r: Result<Vec<Section>, ElfProbeError>)
    requires
        bytes@.len() >= 52,
    ensures
        match r {
            Ok(v) => sections_of(bytes@) == Ok::<Seq<Section>, ElfProbeErrorView>(v@),
            Err(e) => sections_of(bytes@) == Err::<Seq<Section>, ElfProbeErrorView>(e@),
        },
{
    let shoff = le_u32(bytes, 32);
    let shentsize = le_u16(bytes, 46);
    let shnum = le_u16(bytes, 48);
    let mut sections: Vec<Section> = Vec::new();
    let mut idx: u16 = 0;
    while idx < shnum
        invariant
            idx <= shnum,
            forall|k: int| 0 <= k < idx ==> #[trigger] header_off(bytes@, k) + 40 <= bytes@.len(),
            sections@ =~= Seq::new(
                idx as nat,
                |k: int| section_at(bytes@, header_off(bytes@, k)),
            ),
        decreases shnum - idx,
    {
        assert(0 <= idx * shentsize <= 0xffff * 0xffff) by (nonlinear_arith)
            requires
                idx <= 0xffff,
                shentsize <= 0xffff,
        ;
        let off: u64 = shoff as u64 + idx as u64 * shentsize as u64;
        assert(off == header_off(bytes@, idx as int));
        if off + 40 > bytes.len() as u64 {
            return Err(ElfProbeError::Truncated("section header"));
        }
        let off = off as usize;
        sections.push(
            Section {
                name_off: le_u32(bytes, off) as usize,
                offset: le_u32(bytes, off + 16) as usize,
                size: le_u32(bytes, off + 20) as usize,
            },
        );
        idx += 1;
    }
    Ok(sections)
}

/// Reads what a 32-bit little-endian file says of its processor.
pub fn probe_arm_elf_bytes(path: PathBuf, bytes: &[u8]) -> (r: Result<ElfProbe, ElfProbeError>)
    ensures
        match r {
            Ok(probe) => probe.path == path && probe_of(bytes@) == Ok::<
                ProbeView,
                ElfProbeErrorView,
            >(probe@),
            Err(e) => probe_of(bytes@) == Err::<ProbeView, ElfProbeErrorView>(e@),
        },
{
    if bytes.len() < 52 {
        return Err(ElfProbeError::Truncated("ELF header"));
    }
    if !has_elf_magic(bytes) {
        return Err(ElfProbeError::NotElf);
    }
    if bytes[4] != 1 {
        return Err(ElfProbeError::UnsupportedClass(bytes[4]));
    }
    if bytes[5] != 1 {
        return Err(ElfProbeError::UnsupportedEndian(bytes[5]));
    }
    let machine_raw = le_u16(bytes, 18);
    let flags = le_u32(bytes, 36);
    let shstrndx = le_u16(bytes, 50) as usize;
    let sections = parse_sections(bytes)?;
    if shstrndx >= sections.len() {
        return Err(ElfProbeError::Truncated("section string table"));
    }
    let shstr = match section_bytes(bytes, &sections[shstrndx]) {
        Some(shstr) => shstr,
        None => return Err(ElfProbeError::Truncated("section string table")),
    };
    let mut attributes: Vec<ArmAttribute> = Vec::new();
    assert(attribute_views(attributes@) =~= Seq::empty());
    match find_section(sections.as_slice(), shstr, ".ARM.attributes") {
        Some(at) => match section_bytes(bytes, &sections[at]) {
            Some(found) => {
                attributes = parse_arm_attributes(found);
            },
            None => {},
        },
        None => {},
    }
    let machine = if machine_raw == 40 {
        String::from_str("ARM")
    } else {
        join(join("unknown(", dec(machine_raw as u64).as_str()).as_str(), ")")
    };
    let eabi = join("EABI", dec(((flags >> 24) & 0xff) as u64).as_str());
    Ok(ElfProbe { path, machine, eabi, attributes })
}

} // verus!
