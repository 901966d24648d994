//! The dynamic section of an ELF file: needed libraries, imported symbols,
//! relocation tables and initialisers.

use crate::bytes::{has_elf_magic, is_elf, u16_at, u16_le, u32_at, u32_le};
use crate::strings::{read_terminated, terminated_text, texts};
use crate::text::{dec, dec_text, join};
use std::path::PathBuf;
use vstd::prelude::*;
use vstd::slice::slice_subrange;
use vstd::std_specs::convert::FromSpecImpl;
use vstd::string::StringExecFns;

verus! {

/// The machine number of ARM.
pub const EM_ARM: u16 = 40;

/// A segment that is loaded.
pub const PT_LOAD: u32 = 1;

/// The segment that holds the dynamic table.
pub const PT_DYNAMIC: u32 = 2;

/// A section that holds a string table.
pub const SHT_STRTAB: u32 = 3;

/// A section that holds dynamic symbols.
pub const SHT_DYNSYM: u32 = 11;

/// The section index of an undefined symbol.
pub const SHN_UNDEF: u16 = 0;

/// The end of the dynamic table.
pub const DT_NULL: u32 = 0;

/// The name of a needed library.
pub const DT_NEEDED: u32 = 1;

/// The size of the procedure linkage relocations.
pub const DT_PLTRELSZ: u32 = 2;

/// The address of the string table.
pub const DT_STRTAB: u32 = 5;

/// The address of the symbol table.
pub const DT_SYMTAB: u32 = 6;

/// The size of the string table.
pub const DT_STRSZ: u32 = 10;

/// The size of a symbol.
pub const DT_SYMENT: u32 = 11;

/// The address of the initialiser.
pub const DT_INIT: u32 = 12;

/// The address of the relocation table.
pub const DT_REL: u32 = 17;

/// The size of the relocation table.
pub const DT_RELSZ: u32 = 18;

/// The size of a relocation.
pub const DT_RELENT: u32 = 19;

/// The kind of the procedure linkage relocations.
pub const DT_PLTREL: u32 = 20;

/// The address of the procedure linkage relocations.
pub const DT_JMPREL: u32 = 23;

/// The address of the initialiser array.
pub const DT_INIT_ARRAY: u32 = 25;

/// The size of the initialiser array.
pub const DT_INIT_ARRAYSZ: u32 = 27;

/// What the dynamic section of a file says.
#[derive(Debug, Clone, PartialEq, Eq)]
pub struct ElfDynamicInfo {
    pub path: PathBuf,
    pub needed: Vec<String>,
    pub imports: Vec<ElfImport>,
    pub dynsym: Option<ElfSymbolTableInfo>,
    pub relocations: ElfRelocationInfo,
    pub init: Option<u32>,
    pub init_array: Option<ElfTableRange>,
}

/// A symbol that the file expects from elsewhere.
#[derive(Debug, Clone, PartialEq, Eq)]
pub struct ElfImport {
    pub name: String,
    pub binding: SymbolBinding,
    pub kind: SymbolKind,
}

/// Where the dynamic symbols lie in memory.
#[derive(Debug, Clone, Copy, PartialEq, Eq, Structural)]
pub struct ElfSymbolTableInfo {
    pub addr: u32,
    pub entry_size: Option<u32>,
}

/// How a symbol binds.
#[derive(Debug, Clone, Copy, PartialEq, Eq, Structural)]
pub enum SymbolBinding {
    Local,
    Global,
    Weak,
    Other(u8),
}

/// What a symbol stands for.
#[derive(Debug, Clone, Copy, PartialEq, Eq, Structural)]
pub enum SymbolKind {
    NoType,
    Object,
    Func,
    Section,
    File,
    Common,
    Tls,
    Other(u8),
}

/// Where the relocation tables lie in memory.
#[derive(Debug, Clone, PartialEq, Eq)]
pub struct ElfRelocationInfo {
    pub rel: Option<ElfTableRange>,
    pub rel_entry_size: Option<u32>,
    pub plt_rel: Option<ElfTableRange>,
    pub plt_rel_kind: Option<PltRelKind>,
}

/// A table in memory.
#[derive(Debug, Clone, Copy, PartialEq, Eq, Structural)]
pub struct ElfTableRange {
    pub addr: u32,
    pub size: u32,
}

/// The form of the procedure linkage relocations.
#[derive(Debug, Clone, Copy, PartialEq, Eq, Structural)]
pub enum PltRelKind {
    Rel,
    Rela,
    Other(u32),
}

/// Which table a relocation was found in.
#[derive(Debug, Clone, Copy, PartialEq, Eq, Structural)]
pub enum RelocationTable {
    Rel,
    PltRel,
}

/// What a relocation does.
#[derive(Debug, Clone, Copy, PartialEq, Eq, Structural)]
pub enum ArmRelocationKind {
    Relative,
    Abs32,
    Target1,
    Rel32,
    GlobDat,
    JumpSlot,
    V4Bx,
    Copy,
    Other(u8),
}

/// One relocation.
#[derive(Debug, Clone, PartialEq, Eq)]
pub struct ElfRelocation {
    pub table: RelocationTable,
    pub offset: u32,
    pub kind: ArmRelocationKind,
    pub symbol_index: u32,
    pub symbol_name: Option<String>,
}

/// Why a dynamic section cannot be read.
#[derive(Debug, Clone, PartialEq, Eq)]
pub enum ElfDynamicError {
    NotElf,
    UnsupportedClass(u8),
    UnsupportedEndian(u8),
    UnsupportedMachine(u16),
    Truncated(&'static str),
    BadProgramHeader,
    BadSectionHeader,
    BadDynamicTable,
    BadStringTable,
}

/// An [`ElfDynamicError`] as a mathematical value.
pub enum ElfDynamicErrorView {
    NotElf,
    UnsupportedClass(u8),
    UnsupportedEndian(u8),
    UnsupportedMachine(u16),
    Truncated(Seq<char>),
    BadProgramHeader,
    BadSectionHeader,
    BadDynamicTable,
    BadStringTable,
}

impl View for ElfDynamicError {
    type V = ElfDynamicErrorView;

    open spec fn view(&self) -> ElfDynamicErrorView {
        match self {
            ElfDynamicError::NotElf => ElfDynamicErrorView::NotElf,
            ElfDynamicError::UnsupportedClass(v) => ElfDynamicErrorView::UnsupportedClass(*v),
            ElfDynamicError::UnsupportedEndian(v) => ElfDynamicErrorView::UnsupportedEndian(*v),
            ElfDynamicError::UnsupportedMachine(v) => ElfDynamicErrorView::UnsupportedMachine(*v),
            ElfDynamicError::Truncated(what) => ElfDynamicErrorView::Truncated(what@),
            ElfDynamicError::BadProgramHeader => ElfDynamicErrorView::BadProgramHeader,
            ElfDynamicError::BadSectionHeader => ElfDynamicErrorView::BadSectionHeader,
            ElfDynamicError::BadDynamicTable => ElfDynamicErrorView::BadDynamicTable,
            ElfDynamicError::BadStringTable => ElfDynamicErrorView::BadStringTable,
        }
    }
}

impl ElfDynamicErrorView {
    /// The message for this error.
    pub open spec fn text(self) -> Seq<char> {
        match self {
            ElfDynamicErrorView::NotElf => "not an ELF file"@,
            ElfDynamicErrorView::UnsupportedClass(v) => "unsupported ELF class "@ + dec_text(
                v as nat,
            ),
            ElfDynamicErrorView::UnsupportedEndian(v) => "unsupported ELF endian "@ + dec_text(
                v as nat,
            ),
            ElfDynamicErrorView::UnsupportedMachine(v) => "unsupported ELF machine "@ + dec_text(
                v as nat,
            ) + ", expected ARM"@,
            ElfDynamicErrorView::Truncated(what) => "truncated ELF "@ + what,
            ElfDynamicErrorView::BadProgramHeader => "bad ELF program header table"@,
            ElfDynamicErrorView::BadSectionHeader => "bad ELF section header table"@,
            ElfDynamicErrorView::BadDynamicTable => "bad ELF dynamic table"@,
            ElfDynamicErrorView::BadStringTable => "bad ELF string table"@,
        }
    }
}

impl ElfDynamicError {
    /// The message for this error.
    pub fn to_string(&self) -> (r: String)
        ensures
            r@ == self@.text(),
    {
        match self {
            ElfDynamicError::NotElf => String::from_str("not an ELF file"),
            ElfDynamicError::UnsupportedClass(v) => join(
                "unsupported ELF class ",
                dec(*v as u64).as_str(),
            ),
            ElfDynamicError::UnsupportedEndian(v) => join(
                "unsupported ELF endian ",
                dec(*v as u64).as_str(),
            ),
            ElfDynamicError::UnsupportedMachine(v) => join(
                join("unsupported ELF machine ", dec(*v as u64).as_str()).as_str(),
                ", expected ARM",
            ),
            ElfDynamicError::Truncated(what) => join("truncated ELF ", what),
            ElfDynamicError::BadProgramHeader => String::from_str("bad ELF program header table"),
            ElfDynamicError::BadSectionHeader => String::from_str("bad ELF section header table"),
            ElfDynamicError::BadDynamicTable => String::from_str("bad ELF dynamic table"),
            ElfDynamicError::BadStringTable => String::from_str("bad ELF string table"),
        }
    }
}

impl SymbolBinding {
    /// The name of this binding.
    pub open spec fn text(self) -> Seq<char> {
        match self {
            SymbolBinding::Local => "local"@,
            SymbolBinding::Global => "global"@,
            SymbolBinding::Weak => "weak"@,
            SymbolBinding::Other(v) => "bind("@ + dec_text(v as nat) + ")"@,
        }
    }

    /// The name of this binding.
    pub fn to_string(&self) -> (r: String)
        ensures
            r@ == self.text(),
    {
        match self {
            SymbolBinding::Local => String::from_str("local"),
            SymbolBinding::Global => String::from_str("global"),
            SymbolBinding::Weak => String::from_str("weak"),
            SymbolBinding::Other(v) => join(join("bind(", dec(*v as u64).as_str()).as_str(), ")"),
        }
    }
}

impl SymbolKind {
    /// The name of this kind.
    pub open spec fn text(self) -> Seq<char> {
        match self {
            SymbolKind::NoType => "notype"@,
            SymbolKind::Object => "object"@,
            SymbolKind::Func => "func"@,
            SymbolKind::Section => "section"@,
            SymbolKind::File => "file"@,
            SymbolKind::Common => "common"@,
            SymbolKind::Tls => "tls"@,
            SymbolKind::Other(v) => "type("@ + dec_text(v as nat) + ")"@,
        }
    }

    /// The name of this kind.
    pub fn to_string(&self) -> (r: String)
        ensures
            r@ == self.text(),
    {
        match self {
            SymbolKind::NoType => String::from_str("notype"),
            SymbolKind::Object => String::from_str("object"),
            SymbolKind::Func => String::from_str("func"),
            SymbolKind::Section => String::from_str("section"),
            SymbolKind::File => String::from_str("file"),
            SymbolKind::Common => String::from_str("common"),
            SymbolKind::Tls => String::from_str("tls"),
            SymbolKind::Other(v) => join(join("type(", dec(*v as u64).as_str()).as_str(), ")"),
        }
    }
}

impl PltRelKind {
    /// The name of this form.
    pub open spec fn text(self) -> Seq<char> {
        match self {
            PltRelKind::Rel => "REL"@,
            PltRelKind::Rela => "RELA"@,
            PltRelKind::Other(v) => dec_text(v as nat),
        }
    }

    /// The name of this form.
    pub fn to_string(&self) -> (r: String)
        ensures
            r@ == self.text(),
    {
        match self {
            PltRelKind::Rel => String::from_str("REL"),
            PltRelKind::Rela => String::from_str("RELA"),
            PltRelKind::Other(v) => dec(*v as u64),
        }
    }
}

impl ArmRelocationKind {
    /// The name of this relocation.
    pub open spec fn text(self) -> Seq<char> {
        match self {
            ArmRelocationKind::Relative => "R_ARM_RELATIVE"@,
            ArmRelocationKind::Abs32 => "R_ARM_ABS32"@,
            ArmRelocationKind::Target1 => "R_ARM_TARGET1"@,
            ArmRelocationKind::Rel32 => "R_ARM_REL32"@,
            ArmRelocationKind::GlobDat => "R_ARM_GLOB_DAT"@,
            ArmRelocationKind::JumpSlot => "R_ARM_JUMP_SLOT"@,
            ArmRelocationKind::V4Bx => "R_ARM_V4BX"@,
            ArmRelocationKind::Copy => "R_ARM_COPY"@,
            ArmRelocationKind::Other(v) => "R_ARM_"@ + dec_text(v as nat),
        }
    }

    /// The name of this relocation.
    pub fn to_string(&self) -> (r: String)
        ensures
            r@ == self.text(),
    {
        match self {
            ArmRelocationKind::Relative => String::from_str("R_ARM_RELATIVE"),
            ArmRelocationKind::Abs32 => String::from_str("R_ARM_ABS32"),
            ArmRelocationKind::Target1 => String::from_str("R_ARM_TARGET1"),
            ArmRelocationKind::Rel32 => String::from_str("R_ARM_REL32"),
            ArmRelocationKind::GlobDat => String::from_str("R_ARM_GLOB_DAT"),
            ArmRelocationKind::JumpSlot => String::from_str("R_ARM_JUMP_SLOT"),
            ArmRelocationKind::V4Bx => String::from_str("R_ARM_V4BX"),
            ArmRelocationKind::Copy => String::from_str("R_ARM_COPY"),
            ArmRelocationKind::Other(v) => join("R_ARM_", dec(*v as u64).as_str()),
        }
    }
}

/// The binding of a number.
pub open spec fn binding_of(value: u8) -> SymbolBinding {
    match value {
        0 => SymbolBinding::Local,
        1 => SymbolBinding::Global,
        2 => SymbolBinding::Weak,
        other => SymbolBinding::Other(other),
    }
}

impl From<u8> for SymbolBinding {
    fn from(value: u8) -> (r: Self) {
        match value {
            0 => SymbolBinding::Local,
            1 => SymbolBinding::Global,
            2 => SymbolBinding::Weak,
            other => SymbolBinding::Other(other),
        }
    }
}

impl FromSpecImpl<u8> for SymbolBinding {
    open spec fn obeys_from_spec() -> bool {
        true
    }

    open spec fn from_spec(value: u8) -> SymbolBinding {
        binding_of(value)
    }
}

/// The symbol kind of a number.
pub open spec fn kind_of(value: u8) -> SymbolKind {
    match value {
        0 => SymbolKind::NoType,
        1 => SymbolKind::Object,
        2 => SymbolKind::Func,
        3 => SymbolKind::Section,
        4 => SymbolKind::File,
        5 => SymbolKind::Common,
        6 => SymbolKind::Tls,
        other => SymbolKind::Other(other),
    }
}

impl From<u8> for SymbolKind {
    fn from(value: u8) -> (r: Self) {
        match value {
            0 => SymbolKind::NoType,
            1 => SymbolKind::Object,
            2 => SymbolKind::Func,
            3 => SymbolKind::Section,
            4 => SymbolKind::File,
            5 => SymbolKind::Common,
            6 => SymbolKind::Tls,
            other => SymbolKind::Other(other),
        }
    }
}

impl FromSpecImpl<u8> for SymbolKind {
    open spec fn obeys_from_spec() -> bool {
        true
    }

    open spec fn from_spec(value: u8) -> SymbolKind {
        kind_of(value)
    }
}

/// The relocation form of a tag.
pub open spec fn plt_kind_of(value: u32) -> PltRelKind {
    match value {
        17 => PltRelKind::Rel,
        7 => PltRelKind::Rela,
        other => PltRelKind::Other(other),
    }
}

impl From<u32> for PltRelKind {
    fn from(value: u32) -> (r: Self) {
        match value {
            17 => PltRelKind::Rel,
            7 => PltRelKind::Rela,
            other => PltRelKind::Other(other),
        }
    }
}

impl FromSpecImpl<u32> for PltRelKind {
    open spec fn obeys_from_spec() -> bool {
        true
    }

    open spec fn from_spec(value: u32) -> PltRelKind {
        plt_kind_of(value)
    }
}

impl Default for ElfRelocationInfo {
    /// No relocations.
    fn default() -> (r: Self)
        ensures
            r == (ElfRelocationInfo {
                rel: None,
                rel_entry_size: None,
                plt_rel: None,
                plt_rel_kind: None,
            }),
    {
        ElfRelocationInfo { rel: None, rel_entry_size: None, plt_rel: None, plt_rel_kind: None }
    }
}

/// The tables of a file.
#[derive(Debug, Clone, Copy)]
pub struct ElfHeader {
    pub phoff: usize,
    pub phentsize: usize,
    pub phnum: usize,
    pub shoff: usize,
    pub shentsize: usize,
    pub shnum: usize,
}

/// A program header.
#[derive(Debug, Clone, Copy)]
pub struct ProgramHeader {
    pub p_type: u32,
    pub offset: u32,
    pub vaddr: u32,
    pub filesz: u32,
    pub memsz: u32,
}

/// A section header.
#[derive(Debug, Clone, Copy)]
pub struct SectionHeader {
    pub sh_type: u32,
    pub offset: u32,
    pub size: u32,
    pub link: u32,
    pub entsize: u32,
}

/// An entry of the dynamic table.
#[derive(Debug, Clone, Copy)]
pub struct DynamicEntry {
    pub tag: u32,
    pub value: u32,
}

/// A result with its error taken by view.
pub type Checked<T> = core::result::Result<T, ElfDynamicErrorView>;

/// A result with its error taken by view.
pub open spec fn checked<T>(r: Result<T, ElfDynamicError>) -> Checked<T> {
    match r {
        Ok(v) => Ok(v),
        Err(e) => Err(e@),
    }
}

/// A list with its error taken by view.
pub open spec fn checked_list<T>(r: Result<Vec<T>, ElfDynamicError>) -> Checked<Seq<T>> {
    match r {
        Ok(v) => Ok(v@),
        Err(e) => Err(e@),
    }
}

/// The header of a 32-bit little-endian ARM file.
pub open spec fn header_of(b: Seq<u8>) -> Checked<ElfHeader> {
    if b.len() < 52 {
        Err(ElfDynamicErrorView::Truncated("header"@))
    } else if !is_elf(b) {
        Err(ElfDynamicErrorView::NotElf)
    } else if b[4] != 1 {
        Err(ElfDynamicErrorView::UnsupportedClass(b[4]))
    } else if b[5] != 1 {
        Err(ElfDynamicErrorView::UnsupportedEndian(b[5]))
    } else if u16_at(b, 18) != EM_ARM {
        Err(ElfDynamicErrorView::UnsupportedMachine(u16_at(b, 18)))
    } else {
        Ok(
            ElfHeader {
                phoff: u32_at(b, 28) as usize,
                shoff: u32_at(b, 32) as usize,
                phentsize: u16_at(b, 42) as usize,
                phnum: u16_at(b, 44) as usize,
                shentsize: u16_at(b, 46) as usize,
                shnum: u16_at(b, 48) as usize,
            },
        )
    }
}

/// The program header at `off`.
pub open spec fn program_at(b: Seq<u8>, off: int) -> ProgramHeader {
    ProgramHeader {
        p_type: u32_at(b, off),
        offset: u32_at(b, off + 4),
        vaddr: u32_at(b, off + 8),
        filesz: u32_at(b, off + 16),
        memsz: u32_at(b, off + 20),
    }
}

/// The section header at `off`.
pub open spec fn section_at(b: Seq<u8>, off: int) -> SectionHeader {
    SectionHeader {
        sh_type: u32_at(b, off + 4),
        offset: u32_at(b, off + 16),
        size: u32_at(b, off + 20),
        link: u32_at(b, off + 24),
        entsize: u32_at(b, off + 36),
    }
}

/// The program headers of a file.
pub open spec fn programs_of(b: Seq<u8>, h: ElfHeader) -> Checked<Seq<ProgramHeader>> {
    let end = h.phoff + h.phentsize * h.phnum;
    if h.phnum == 0 {
        Ok(Seq::empty())
    } else if h.phentsize < 32 || end > usize::MAX {
        Err(ElfDynamicErrorView::BadProgramHeader)
    } else if end > b.len() {
        Err(ElfDynamicErrorView::Truncated("program header table"@))
    } else {
        Ok(Seq::new(h.phnum as nat, |i: int| program_at(b, h.phoff + i * h.phentsize)))
    }
}

/// The section headers of a file.
pub open spec fn sections_of(b: Seq<u8>, h: ElfHeader) -> Checked<Seq<SectionHeader>> {
    let end = h.shoff + h.shentsize * h.shnum;
    if h.shnum == 0 {
        Ok(Seq::empty())
    } else if h.shentsize < 40 || end > usize::MAX {
        Err(ElfDynamicErrorView::BadSectionHeader)
    } else if end > b.len() {
        Err(ElfDynamicErrorView::Truncated("section header table"@))
    } else {
        Ok(Seq::new(h.shnum as nat, |i: int| section_at(b, h.shoff + i * h.shentsize)))
    }
}

/// The dynamic entries between two offsets, up to the end mark.
pub open spec fn entries_between(b: Seq<u8>, pos: int, end: int) -> Seq<DynamicEntry>
    decreases end - pos,
{
    if pos + 8 > end || u32_at(b, pos) == DT_NULL {
        Seq::empty()
    } else {
        seq![DynamicEntry { tag: u32_at(b, pos), value: u32_at(b, pos + 4) }] + entries_between(
            b,
            pos + 8,
            end,
        )
    }
}

/// The index of the first program header of a type, or the length.
pub open spec fn first_program(ps: Seq<ProgramHeader>, p_type: u32, from: int) -> int
    decreases ps.len() - from,
{
    if from >= ps.len() || ps[from].p_type == p_type {
        from
    } else {
        first_program(ps, p_type, from + 1)
    }
}

/// The dynamic table of a file: that of its first dynamic segment, if it has one.
pub open spec fn dynamics_of(b: Seq<u8>, ps: Seq<ProgramHeader>) -> Checked<Seq<DynamicEntry>> {
    let at = first_program(ps, PT_DYNAMIC, 0);
    if at >= ps.len() {
        Ok(Seq::empty())
    } else {
        let start = ps[at].offset as int;
        let end = start + ps[at].filesz;
        if end > usize::MAX {
            Err(ElfDynamicErrorView::BadDynamicTable)
        } else if end > b.len() {
            Err(ElfDynamicErrorView::Truncated("dynamic table"@))
        } else {
            Ok(entries_between(b, start, end))
        }
    }
}

/// The value of the first entry with a tag.
pub open spec fn value_of(ds: Seq<DynamicEntry>, tag: u32) -> Option<u32>
    decreases ds.len(),
{
    if ds.len() == 0 {
        None
    } else if ds[0].tag == tag {
        Some(ds[0].value)
    } else {
        value_of(ds.drop_first(), tag)
    }
}

/// The offset in the file of a loaded address: the first load segment whose
/// file range holds the address decides. A load segment before it whose range
/// does not fit the address space stops the search.
pub open spec fn file_offset_of(ps: Seq<ProgramHeader>, addr: u32) -> Option<u32>
    decreases ps.len(),
{
    if ps.len() == 0 {
        None
    } else {
        let p = ps[0];
        if p.p_type != PT_LOAD {
            file_offset_of(ps.drop_first(), addr)
        } else if p.vaddr + p.memsz > u32::MAX || p.vaddr + p.filesz > u32::MAX {
            None
        } else if p.vaddr <= addr < p.vaddr + p.memsz && addr < p.vaddr + p.filesz {
            if p.offset + (addr - p.vaddr) > u32::MAX {
                None
            } else {
                Some((p.offset + (addr - p.vaddr)) as u32)
            }
        } else {
            file_offset_of(ps.drop_first(), addr)
        }
    }
}

/// The bytes of a table, cut at the end of the file. The largest size stands
/// for all that is there.
pub open spec fn table_of(b: Seq<u8>, offset: u32, size: u32) -> Checked<Seq<u8>> {
    let left = b.len() - offset;
    if left < 0 {
        Err(ElfDynamicErrorView::Truncated("table"@))
    } else if size == u32::MAX || size > left {
        Ok(b.skip(offset as int))
    } else {
        Ok(b.subrange(offset as int, offset + size))
    }
}

/// The zero-terminated UTF-8 text at `off` of a string table.
pub open spec fn string_at(b: Seq<u8>, off: int) -> Checked<Seq<char>> {
    match terminated_text(b, off) {
        Some(text) => Ok(text),
        None => Err(ElfDynamicErrorView::BadStringTable),
    }
}

/// `acc` and the names of the needed libraries from entry `idx` on.
pub open spec fn names_from(
    table: Seq<u8>,
    ds: Seq<DynamicEntry>,
    idx: int,
    acc: Seq<Seq<char>>,
) -> Checked<Seq<Seq<char>>>
    decreases ds.len() - idx,
{
    if idx >= ds.len() {
        Ok(acc)
    } else if ds[idx].tag != DT_NEEDED {
        names_from(table, ds, idx + 1, acc)
    } else {
        match string_at(table, ds[idx].value as int) {
            Ok(name) => names_from(table, ds, idx + 1, acc.push(name)),
            Err(e) => Err(e),
        }
    }
}

/// The names of the needed libraries.
pub open spec fn needed_of(b: Seq<u8>, ps: Seq<ProgramHeader>, ds: Seq<DynamicEntry>) -> Checked<
    Seq<Seq<char>>,
> {
    match value_of(ds, DT_STRTAB) {
        None => Ok(Seq::empty()),
        Some(addr) => match file_offset_of(ps, addr) {
            None => Err(ElfDynamicErrorView::BadStringTable),
            Some(off) => match table_of(
                b,
                off,
                match value_of(ds, DT_STRSZ) {
                    Some(size) => size,
                    None => u32::MAX,
                },
            ) {
                Err(e) => Err(e),
                Ok(table) => names_from(table, ds, 0, Seq::empty()),
            },
        },
    }
}

/// An [`ElfImport`] as a mathematical value.
pub struct ImportView {
    pub name: Seq<char>,
    pub binding: SymbolBinding,
    pub kind: SymbolKind,
}

impl View for ElfImport {
    type V = ImportView;

    open spec fn view(&self) -> ImportView {
        ImportView { name: self.name@, binding: self.binding, kind: self.kind }
    }
}

/// The views of a list of imports.
pub open spec fn import_views(v: Seq<ElfImport>) -> Seq<ImportView> {
    v.map_values(|i: ElfImport| i@)
}

/// `acc` and the named undefined symbols from symbol `idx` on.
pub open spec fn undefined_from(
    symbols: Seq<u8>,
    strings: Seq<u8>,
    entsize: int,
    idx: int,
    acc: Seq<ImportView>,
) -> Checked<Seq<ImportView>>
    decreases symbols.len() / (entsize as nat) - idx,
{
    let off = idx * entsize;
    if idx >= symbols.len() / (entsize as nat) {
        Ok(acc)
    } else if u16_at(symbols, off + 14) != SHN_UNDEF || u32_at(symbols, off) == 0 {
        undefined_from(symbols, strings, entsize, idx + 1, acc)
    } else {
        match string_at(strings, u32_at(symbols, off) as int) {
            Err(e) => Err(e),
            Ok(name) => if name.len() == 0 {
                undefined_from(symbols, strings, entsize, idx + 1, acc)
            } else {
                undefined_from(
                    symbols,
                    strings,
                    entsize,
                    idx + 1,
                    acc.push(
                        ImportView {
                            name,
                            binding: binding_of(symbols[off + 12] >> 4),
                            kind: kind_of(symbols[off + 12] & 0xf),
                        },
                    ),
                )
            },
        }
    }
}

/// The size of a symbol: sixteen bytes where the section does not say.
pub open spec fn symbol_size(s: SectionHeader) -> u32 {
    if s.entsize == 0 {
        16
    } else {
        s.entsize
    }
}

/// `acc` and the imports of one symbol section.
pub open spec fn section_imports(
    b: Seq<u8>,
    sections: Seq<SectionHeader>,
    s: SectionHeader,
    acc: Seq<ImportView>,
) -> Checked<Seq<ImportView>> {
    if symbol_size(s) < 16 || s.link >= sections.len() || sections[s.link as int].sh_type
        != SHT_STRTAB {
        Err(ElfDynamicErrorView::BadSectionHeader)
    } else {
        let t = sections[s.link as int];
        match (table_of(b, s.offset, s.size), table_of(b, t.offset, t.size)) {
            (Err(e), _) => Err(e),
            (_, Err(e)) => Err(e),
            (Ok(symbols), Ok(strings)) => undefined_from(
                symbols,
                strings,
                symbol_size(s) as int,
                0,
                acc,
            ),
        }
    }
}

/// `acc` and the imports of the symbol sections from section `idx` on.
pub open spec fn imports_from(
    b: Seq<u8>,
    sections: Seq<SectionHeader>,
    idx: int,
    acc: Seq<ImportView>,
) -> Checked<Seq<ImportView>>
    decreases sections.len() - idx,
{
    if idx >= sections.len() {
        Ok(acc)
    } else if sections[idx].sh_type != SHT_DYNSYM {
        imports_from(b, sections, idx + 1, acc)
    } else {
        match section_imports(b, sections, sections[idx], acc) {
            Ok(acc1) => imports_from(b, sections, idx + 1, acc1),
            Err(e) => Err(e),
        }
    }
}

/// A table with an address and a size, if it is there and not empty.
pub open spec fn range_of(addr: Option<u32>, size: Option<u32>) -> Option<ElfTableRange> {
    match (addr, size) {
        (Some(addr), Some(size)) => if size != 0 {
            Some(ElfTableRange { addr, size })
        } else {
            None
        },
        _ => None,
    }
}

/// Where the relocation tables lie.
pub open spec fn relocations_of(ds: Seq<DynamicEntry>) -> ElfRelocationInfo {
    ElfRelocationInfo {
        rel: range_of(value_of(ds, DT_REL), value_of(ds, DT_RELSZ)),
        rel_entry_size: value_of(ds, DT_RELENT),
        plt_rel: range_of(value_of(ds, DT_JMPREL), value_of(ds, DT_PLTRELSZ)),
        plt_rel_kind: match value_of(ds, DT_PLTREL) {
            Some(v) => Some(plt_kind_of(v)),
            None => None,
        },
    }
}

/// An [`ElfDynamicInfo`] as a mathematical value, without its path.
pub struct DynamicView {
    pub needed: Seq<Seq<char>>,
    pub imports: Seq<ImportView>,
    pub dynsym: Option<ElfSymbolTableInfo>,
    pub relocations: ElfRelocationInfo,
    pub init: Option<u32>,
    pub init_array: Option<ElfTableRange>,
}

impl View for ElfDynamicInfo {
    type V = DynamicView;

    open spec fn view(&self) -> DynamicView {
        DynamicView {
            needed: texts(self.needed@),
            imports: import_views(self.imports@),
            dynsym: self.dynsym,
            relocations: self.relocations,
            init: self.init,
            init_array: self.init_array,
        }
    }
}

/// What the dynamic section of a file says. The tables are read in the order
/// header, program headers, section headers, dynamic table, needed libraries,
/// imports, and the first that is bad decides the error.
pub open spec fn dynamic_of(b: Seq<u8>) -> Checked<DynamicView> {
    match header_of(b) {
        Err(e) => Err(e),
        Ok(h) => match (programs_of(b, h), sections_of(b, h)) {
            (Err(e), _) => Err(e),
            (_, Err(e)) => Err(e),
            (Ok(ps), Ok(sections)) => match dynamics_of(b, ps) {
                Err(e) => Err(e),
                Ok(ds) => match (
                    needed_of(b, ps, ds),
                    imports_from(b, sections, 0, Seq::empty()),
                ) {
                    (Err(e), _) => Err(e),
                    (_, Err(e)) => Err(e),
                    (Ok(needed), Ok(imports)) => Ok(
                        DynamicView {
                            needed,
                            imports,
                            dynsym: match value_of(ds, DT_SYMTAB) {
                                Some(addr) => Some(
                                    ElfSymbolTableInfo {
                                        addr,
                                        entry_size: value_of(ds, DT_SYMENT),
                                    },
                                ),
                                None => None,
                            },
                            relocations: relocations_of(ds),
                            init: value_of(ds, DT_INIT),
                            init_array: range_of(
                                value_of(ds, DT_INIT_ARRAY),
                                value_of(ds, DT_INIT_ARRAYSZ),
                            ),
                        },
                    ),
                },
            },
        },
    }
}

fn le_u16(bytes: &[u8], off: usize) -> (r: Result<u16, ElfDynamicError>)
    ensures
        checked(r) == if off + 2 <= bytes@.len() {
            Ok(u16_at(bytes@, off as int))
        } else {
            Err(ElfDynamicErrorView::Truncated("u16"@))
        },
{
    match u16_le(bytes, off) {
        Some(v) => Ok(v),
        None => Err(ElfDynamicError::Truncated("u16")),
    }
}

fn le_u32(bytes: &[u8], off: usize) -> (r: Result<u32, ElfDynamicError>)
    ensures
        checked(r) == if off + 4 <= bytes@.len() {
            Ok(u32_at(bytes@, off as int))
        } else {
            Err(ElfDynamicErrorView::Truncated("u32"@))
        },
{
    match u32_le(bytes, off) {
        Some(v) => Ok(v),
        None => Err(ElfDynamicError::Truncated("u32")),
    }
}

fn parse_header(bytes: &[u8]) -> (r: Result<ElfHeader, ElfDynamicError>)
    ensures
        checked(r) == header_of(bytes@),
        r is Ok ==> r->Ok_0.phentsize <= 0xffff && r->Ok_0.phnum <= 0xffff && r->Ok_0.shentsize
            <= 0xffff && r->Ok_0.shnum <= 0xffff,
{
    if bytes.len() < 52 {
        return Err(ElfDynamicError::Truncated("header"));
    }
    if !has_elf_magic(bytes) {
        return Err(ElfDynamicError::NotElf);
    }
    if bytes[4] != 1 {
        return Err(ElfDynamicError::UnsupportedClass(bytes[4]));
    }
    if bytes[5] != 1 {
        return Err(ElfDynamicError::UnsupportedEndian(bytes[5]));
    }
    let machine = le_u16(bytes, 18)?;
    if machine != EM_ARM {
        return Err(ElfDynamicError::UnsupportedMachine(machine));
    }
    Ok(
        ElfHeader {
            phoff: le_u32(bytes, 28)? as usize,
            shoff: le_u32(bytes, 32)? as usize,
            phentsize: le_u16(bytes, 42)? as usize,
            phnum: le_u16(bytes, 44)? as usize,
            shentsize: le_u16(bytes, 46)? as usize,
            shnum: le_u16(bytes, 48)? as usize,
        },
    )
}

/// The end of a table of `num` entries of `size` bytes, if it can be an offset.
fn table_end(off: usize, size: usize, num: usize) -> (r: Option<usize>)
    requires
        size <= 0xffff,
        num <= 0xffff,
    ensures
        r == if off + size * num <= usize::MAX {
            Some((off + size * num) as usize)
        } else {
            None
        },
{
    assert(size * num <= 0xffff * 0xffff) by (nonlinear_arith)
        requires
            size <= 0xffff,
            num <= 0xffff,
    ;
    let len: usize = size * num;
    if off > usize::MAX - len {
        None
    } else {
        Some(off + len)
    }
}

/// An entry of a table lies inside the table.
proof fn entry_inside(idx: int, num: int, size: int)
    requires
        0 <= idx < num,
        0 <= size,
    ensures
        0 <= idx * size,
        idx * size + size <= num * size,
        num * size == size * num,
{
    assert(0 <= idx * size) by (nonlinear_arith)
        requires
            0 <= idx,
            0 <= size,
    ;
    assert(idx * size + size <= num * size) by (nonlinear_arith)
        requires
            idx + 1 <= num,
            0 <= size,
    ;
    assert(num * size == size * num) by (nonlinear_arith);
}

#[verifier::loop_isolation(false)]
fn parse_program_headers(bytes: &[u8], header: &ElfHeader) -> (r: Result<
    Vec<ProgramHeader>,
    ElfDynamicError,
>)
    requires
        header.phentsize <= 0xffff,
        header.phnum <= 0xffff,
    ensures
        checked_list(r) == programs_of(bytes@, *header),
{
    if header.phnum == 0 {
        let out: Vec<ProgramHeader> = Vec::new();
        assert(out@ =~= Seq::empty());
        return Ok(out);
    }
    if header.phentsize < 32 {
        return Err(ElfDynamicError::BadProgramHeader);
    }
    let ph_end = match table_end(header.phoff, header.phentsize, header.phnum) {
        Some(end) => end,
        None => return Err(ElfDynamicError::BadProgramHeader),
    };
    if ph_end > bytes.len() {
        return Err(ElfDynamicError::Truncated("program header table"));
    }
    let mut out: Vec<ProgramHeader> = Vec::new();
    let mut idx: usize = 0;
    while idx < header.phnum
        invariant
            idx <= header.phnum,
            out@ =~= Seq::new(
                idx as nat,
                |i: int| program_at(bytes@, header.phoff + i * header.phentsize),
            ),
        decreases header.phnum - idx,
    {
        proof {
            entry_inside(idx as int, header.phnum as int, header.phentsize as int);
        }
        let off = header.phoff + idx * header.phentsize;
        out.push(
            ProgramHeader {
                p_type: le_u32(bytes, off)?,
                offset: le_u32(bytes, off + 4)?,
                vaddr: le_u32(bytes, off + 8)?,
                filesz: le_u32(bytes, off + 16)?,
                memsz: le_u32(bytes, off + 20)?,
            },
        );
        idx += 1;
    }
    Ok(out)
}

#[verifier::loop_isolation(false)]
fn parse_section_headers(bytes: &[u8], header: &ElfHeader) -> (r: Result<
    Vec<SectionHeader>,
    ElfDynamicError,
>)
    requires
        header.shentsize <= 0xffff,
        header.shnum <= 0xffff,
    ensures
        checked_list(r) == sections_of(bytes@, *header),
{
    if header.shnum == 0 {
        let out: Vec<SectionHeader> = Vec::new();
        assert(out@ =~= Seq::empty());
        return Ok(out);
    }
    if header.shentsize < 40 {
        return Err(ElfDynamicError::BadSectionHeader);
    }
    let sh_end = match table_end(header.shoff, header.shentsize, header.shnum) {
        Some(end) => end,
        None => return Err(ElfDynamicError::BadSectionHeader),
    };
    if sh_end > bytes.len() {
        return Err(ElfDynamicError::Truncated("section header table"));
    }
    let mut out: Vec<SectionHeader> = Vec::new();
    let mut idx: usize = 0;
    while idx < header.shnum
        invariant
            idx <= header.shnum,
            out@ =~= Seq::new(
                idx as nat,
                |i: int| section_at(bytes@, header.shoff + i * header.shentsize),
            ),
        decreases header.shnum - idx,
    {
        proof {
            entry_inside(idx as int, header.shnum as int, header.shentsize as int);
        }
        let off = header.shoff + idx * header.shentsize;
        out.push(
            SectionHeader {
                sh_type: le_u32(bytes, off + 4)?,
                offset: le_u32(bytes, off + 16)?,
                size: le_u32(bytes, off + 20)?,
                link: le_u32(bytes, off + 24)?,
                entsize: le_u32(bytes, off + 36)?,
            },
        );
        idx += 1;
    }
    Ok(out)
}

fn find_program(programs: &[ProgramHeader], p_type: u32) -> (r: Option<usize>)
    ensures
        match r {
            Some(i) => i < programs@.len() && i == first_program(programs@, p_type, 0),
            None => first_program(programs@, p_type, 0) == programs@.len(),
        },
{
    let mut idx: usize = 0;
    while idx < programs.len()
        invariant
            idx <= programs@.len(),
            first_program(programs@, p_type, 0) == first_program(programs@, p_type, idx as int),
        decreases programs@.len() - idx,
    {
        if programs[idx].p_type == p_type {
            return Some(idx);
        }
        idx += 1;
    }
    None
}

#[verifier::loop_isolation(false)]
fn parse_dynamic_entries(bytes: &[u8], programs: &[ProgramHeader]) -> (r: Result<
    Vec<DynamicEntry>,
    ElfDynamicError,
>)
    ensures
        checked_list(r) == dynamics_of(bytes@, programs@),
{
    let mut out: Vec<DynamicEntry> = Vec::new();
    assert(out@ =~= Seq::empty());
    let at = match find_program(programs, PT_DYNAMIC) {
        Some(at) => at,
        None => return Ok(out),
    };
    let start = programs[at].offset as usize;
    if start > usize::MAX - programs[at].filesz as usize {
        return Err(ElfDynamicError::BadDynamicTable);
    }
    let end = start + programs[at].filesz as usize;
    if end > bytes.len() {
        return Err(ElfDynamicError::Truncated("dynamic table"));
    }
    let mut pos: usize = start;
    let ghost whole = entries_between(bytes@, start as int, end as int);
    assert(out@ + whole =~= whole);
    while end - pos >= 8
        invariant
            start <= pos <= end,
            out@ + entries_between(bytes@, pos as int, end as int) == whole,
        decreases end - pos,
    {
        let tag = le_u32(bytes, pos)?;
        let value = le_u32(bytes, pos + 4)?;
        if tag == DT_NULL {
            assert(out@ + Seq::<DynamicEntry>::empty() =~= out@);
            return Ok(out);
        }
        let ghost before = out@;
        out.push(DynamicEntry { tag, value });
        pos += 8;
        assert(out@ + entries_between(bytes@, pos as int, end as int) =~= before + (seq![
            DynamicEntry { tag, value },
        ] + entries_between(bytes@, pos as int, end as int)));
    }
    assert(out@ + Seq::<DynamicEntry>::empty() =~= out@);
    Ok(out)
}

fn dynamic_value(dynamics: &[DynamicEntry], tag: u32) -> (r: Option<u32>)
    ensures
        r == value_of(dynamics@, tag),
{
    let mut idx: usize = 0;
    assert(dynamics@.skip(0) =~= dynamics@);
    while idx < dynamics.len()
        invariant
            idx <= dynamics@.len(),
            value_of(dynamics@, tag) == value_of(dynamics@.skip(idx as int), tag),
        decreases dynamics@.len() - idx,
    {
        assert(dynamics@.skip(idx as int).drop_first() =~= dynamics@.skip(idx + 1));
        if dynamics[idx].tag == tag {
            return Some(dynamics[idx].value);
        }
        idx += 1;
    }
    None
}

fn virtual_to_file_offset(programs: &[ProgramHeader], addr: u32) -> (r: Option<u32>)
    ensures
        r == file_offset_of(programs@, addr),
{
    let mut idx: usize = 0;
    assert(programs@.skip(0) =~= programs@);
    while idx < programs.len()
        invariant
            idx <= programs@.len(),
            file_offset_of(programs@, addr) == file_offset_of(programs@.skip(idx as int), addr),
        decreases programs@.len() - idx,
    {
        assert(programs@.skip(idx as int).drop_first() =~= programs@.skip(idx + 1));
        let program = programs[idx];
        if program.p_type == PT_LOAD {
            let mem_end = program.vaddr.checked_add(program.memsz)?;
            let file_end = program.vaddr.checked_add(program.filesz)?;
            if addr >= program.vaddr && addr < mem_end && addr < file_end {
                return program.offset.checked_add(addr - program.vaddr);
            }
        }
        idx += 1;
    }
    None
}

fn bounded_bytes(bytes: &[u8], offset: u32, requested_size: u32) -> (r: Result<
    &[u8],
    ElfDynamicError,
>)
    ensures
        match r {
            Ok(s) => table_of(bytes@, offset, requested_size) == Ok::<Seq<u8>, ElfDynamicErrorView>(
                s@,
            ),
            Err(e) => table_of(bytes@, offset, requested_size) == Err::<
                Seq<u8>,
                ElfDynamicErrorView,
            >(e@),
        },
{
    let start = offset as usize;
    if bytes.len() < start {
        return Err(ElfDynamicError::Truncated("table"));
    }
    let available = bytes.len() - start;
    let size = if requested_size == u32::MAX || requested_size as usize > available {
        available
    } else {
        requested_size as usize
    };
    Ok(slice_subrange(bytes, start, start + size))
}

fn read_string(bytes: &[u8], off: usize) -> (r: Result<String, ElfDynamicError>)
    ensures
        match r {
            Ok(s) => string_at(bytes@, off as int) == Ok::<Seq<char>, ElfDynamicErrorView>(s@),
            Err(e) => string_at(bytes@, off as int) == Err::<Seq<char>, ElfDynamicErrorView>(e@),
        },
{
    match read_terminated(bytes, off) {
        Some(text) => Ok(String::from_str(text)),
        None => Err(ElfDynamicError::BadStringTable),
    }
}

#[verifier::loop_isolation(false)]
fn parse_needed(bytes: &[u8], programs: &[ProgramHeader], dynamics: &[DynamicEntry]) -> (r: Result<
    Vec<String>,
    ElfDynamicError,
>)
    ensures
        match r {
            Ok(v) => needed_of(bytes@, programs@, dynamics@) == Ok::<
                Seq<Seq<char>>,
                ElfDynamicErrorView,
            >(texts(v@)),
            Err(e) => needed_of(bytes@, programs@, dynamics@) == Err::<
                Seq<Seq<char>>,
                ElfDynamicErrorView,
            >(e@),
        },
{
    let mut needed: Vec<String> = Vec::new();
    assert(texts(needed@) =~= Seq::empty());
    let strtab_addr = match dynamic_value(dynamics, DT_STRTAB) {
        Some(addr) => addr,
        None => return Ok(needed),
    };
    let strsz = match dynamic_value(dynamics, DT_STRSZ) {
        Some(size) => size,
        None => u32::MAX,
    };
    let strtab_file_off = match virtual_to_file_offset(programs, strtab_addr) {
        Some(off) => off,
        None => return Err(ElfDynamicError::BadStringTable),
    };
    let strtab = bounded_bytes(bytes, strtab_file_off, strsz)?;
    let mut idx: usize = 0;
    while idx < dynamics.len()
        invariant
            idx <= dynamics@.len(),
            names_from(strtab@, dynamics@, 0, Seq::empty()) == names_from(
                strtab@,
                dynamics@,
                idx as int,
                texts(needed@),
            ),
        decreases dynamics@.len() - idx,
    {
        if dynamics[idx].tag == DT_NEEDED {
            let name = read_string(strtab, dynamics[idx].value as usize)?;
            assert(texts(needed@.push(name)) =~= texts(needed@).push(name@));
            needed.push(name);
        }
        idx += 1;
    }
    Ok(needed)
}

/// The imports of one symbol section, put behind those before it.
#[verifier::loop_isolation(false)]
fn take_undefined(
    symbols: &[u8],
    strings: &[u8],
    entsize: usize,
    imports: &mut Vec<ElfImport>,
) -> (r: Result<(), ElfDynamicError>)
    requires
        entsize >= 16,
    ensures
        match r {
            Ok(_) => undefined_from(
                symbols@,
                strings@,
                entsize as int,
                0,
                import_views(old(imports)@),
            ) == Ok::<Seq<ImportView>, ElfDynamicErrorView>(import_views(final(imports)@)),
            Err(e) => undefined_from(
                symbols@,
                strings@,
                entsize as int,
                0,
                import_views(old(imports)@),
            ) == Err::<Seq<ImportView>, ElfDynamicErrorView>(e@),
        },
{
    let count = symbols.len() / entsize;
    let mut idx: usize = 0;
    while idx < count
        invariant
            idx <= count,
            undefined_from(symbols@, strings@, entsize as int, 0, import_views(old(imports)@))
                == undefined_from(
                symbols@,
                strings@,
                entsize as int,
                idx as int,
                import_views(imports@),
            ),
        decreases count - idx,
    {
        proof {
            entry_inside(idx as int, count as int, entsize as int);
            assert(count * entsize <= symbols@.len()) by (nonlinear_arith)
                requires
                    count == symbols@.len() / (entsize as nat),
                    entsize > 0,
            ;
        }
        let off = idx * entsize;
        let name_off = le_u32(symbols, off)? as usize;
        let info = symbols[off + 12];
        let shndx = le_u16(symbols, off + 14)?;
        if shndx == SHN_UNDEF && name_off != 0 {
            let name = read_string(strings, name_off)?;
            if !name.as_str().is_empty() {
                let import = ElfImport {
                    name,
                    binding: SymbolBinding::from(info >> 4),
                    kind: SymbolKind::from(info & 0xf),
                };
                assert(import_views(imports@.push(import)) =~= import_views(imports@).push(
                    import@,
                ));
                imports.push(import);
            }
        }
        idx += 1;
    }
    Ok(())
}

#[verifier::loop_isolation(false)]
fn parse_imports(bytes: &[u8], sections: &[SectionHeader]) -> (r: Result<
    Vec<ElfImport>,
    ElfDynamicError,
>)
    ensures
        match r {
            Ok(v) => imports_from(bytes@, sections@, 0, Seq::empty()) == Ok::<
                Seq<ImportView>,
                ElfDynamicErrorView,
            >(import_views(v@)),
            Err(e) => imports_from(bytes@, sections@, 0, Seq::empty()) == Err::<
                Seq<ImportView>,
                ElfDynamicErrorView,
            >(e@),
        },
{
    let mut imports: Vec<ElfImport> = Vec::new();
    assert(import_views(imports@) =~= Seq::empty());
    let mut idx: usize = 0;
    while idx < sections.len()
        invariant
            idx <= sections@.len(),
            imports_from(bytes@, sections@, 0, Seq::empty()) == imports_from(
                bytes@,
                sections@,
                idx as int,
                import_views(imports@),
            ),
        decreases sections@.len() - idx,
    {
        let section = sections[idx];
        if section.sh_type == SHT_DYNSYM {
            let entsize: u32 = if section.entsize == 0 {
                16
            } else {
                section.entsize
            };
            if entsize < 16 {
                return Err(ElfDynamicError::BadSectionHeader);
            }
            if section.link as usize >= sections.len() {
                return Err(ElfDynamicError::BadSectionHeader);
            }
            let strtab = sections[section.link as usize];
            if strtab.sh_type != SHT_STRTAB {
                return Err(ElfDynamicError::BadSectionHeader);
            }
            let symbols = bounded_bytes(bytes, section.offset, section.size)?;
            let strings = bounded_bytes(bytes, strtab.offset, strtab.size)?;
            take_undefined(symbols, strings, entsize as usize, &mut imports)?;
        }
        idx += 1;
    }
    Ok(imports)
}

fn table_range(addr: Option<u32>, size: Option<u32>) -> (r: Option<ElfTableRange>)
    ensures
        r == range_of(addr, size),
{
    match (addr, size) {
        (Some(addr), Some(size)) => if size != 0 {
            Some(ElfTableRange { addr, size })
        } else {
            None
        },
        _ => None,
    }
}

fn parse_relocation_info(dynamics: &[DynamicEntry]) -> (r: ElfRelocationInfo)
    ensures
        r == relocations_of(dynamics@),
{
    ElfRelocationInfo {
        rel: table_range(dynamic_value(dynamics, DT_REL), dynamic_value(dynamics, DT_RELSZ)),
        rel_entry_size: dynamic_value(dynamics, DT_RELENT),
        plt_rel: table_range(
            dynamic_value(dynamics, DT_JMPREL),
            dynamic_value(dynamics, DT_PLTRELSZ),
        ),
        plt_rel_kind: match dynamic_value(dynamics, DT_PLTREL) {
            Some(v) => Some(PltRelKind::from(v)),
            None => None,
        },
    }
}

/// Reads the dynamic section of a 32-bit little-endian ARM file.
pub fn parse_elf_dynamic_bytes(path: PathBuf, bytes: &[u8]) -> (r: Result<
    ElfDynamicInfo,
    ElfDynamicError,
>)
    ensures
        match r {
            Ok(info) => info.path == path && dynamic_of(bytes@) == Ok::<
                DynamicView,
                ElfDynamicErrorView,
            >(info@),
            Err(e) => dynamic_of(bytes@) == Err::<DynamicView, ElfDynamicErrorView>(e@),
        },
{
    let header = parse_header(bytes)?;
    let programs = parse_program_headers(bytes, &header)?;
    let sections = parse_section_headers(bytes, &header)?;
    let dynamics = parse_dynamic_entries(bytes, programs.as_slice())?;
    let needed = parse_needed(bytes, programs.as_slice(), dynamics.as_slice())?;
    let imports = parse_imports(bytes, sections.as_slice())?;
    Ok(
        ElfDynamicInfo {
            path,
            needed,
            imports,
            dynsym: match dynamic_value(dynamics.as_slice(), DT_SYMTAB) {
                Some(addr) => Some(
                    ElfSymbolTableInfo {
                        addr,
                        entry_size: dynamic_value(dynamics.as_slice(), DT_SYMENT),
                    },
                ),
                None => None,
            },
            relocations: parse_relocation_info(dynamics.as_slice()),
            init: dynamic_value(dynamics.as_slice(), DT_INIT),
            init_array: table_range(
                dynamic_value(dynamics.as_slice(), DT_INIT_ARRAY),
                dynamic_value(dynamics.as_slice(), DT_INIT_ARRAYSZ),
            ),
        },
    )
}

} // verus!
