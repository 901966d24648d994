//! Planning where the segments of an ELF file go, and loading them.

use crate::armv6::laws::{blocks_take_what_fits, overlaid};
use crate::armv6::memory::{block_state, in_block, MemState, Memory, VecMemory};
use crate::bytes::{has_elf_magic, is_elf, u16_at, u16_le, u32_at, u32_le};
use crate::text::{dec, dec_text, join};
use std::path::PathBuf;
use vstd::prelude::*;
use vstd::slice::slice_subrange;
use vstd::string::StringExecFns;

verus! {

/// A segment that is loaded.
pub const PT_LOAD: u32 = 1;

/// The table of exception index entries.
pub const PT_ARM_EXIDX: u32 = 0x7000_0001;

/// The granularity of the planned memory range.
pub const PAGE_SIZE: u32 = 0x1000;

/// Where the segments of a file go.
#[derive(Debug, Clone, PartialEq, Eq)]
pub struct ElfLoadPlan {
    pub path: PathBuf,
    pub load_bias: u32,
    pub entry: u32,
    pub memory_base: u32,
    pub memory_size: u32,
    pub arm_exidx: Option<ElfLoadRange>,
    pub segments: Vec<ElfLoadSegment>,
}

/// A range of guest memory.
#[derive(Debug, Clone, Copy, PartialEq, Eq, Structural)]
pub struct ElfLoadRange {
    pub addr: u32,
    pub size: u32,
}

/// One loaded segment: a range of the file and a range of memory.
#[derive(Debug, Clone, Copy, PartialEq, Eq, Structural)]
pub struct ElfLoadSegment {
    pub file_offset: u32,
    pub file_size: u32,
    pub memory_addr: u32,
    pub memory_size: u32,
    pub flags: u32,
    pub align: u32,
}

/// Why a file cannot be planned or loaded.
#[derive(Debug, Clone, PartialEq, Eq)]
pub enum ElfLoadError {
    NotElf,
    UnsupportedClass(u8),
    UnsupportedEndian(u8),
    UnsupportedMachine(u16),
    Truncated(&'static str),
    BadProgramHeader,
    BadLoadSegment(&'static str),
    NoLoadSegments,
    Memory(String),
}

/// An [`ElfLoadError`] as a mathematical value.
pub enum ElfLoadErrorView {
    NotElf,
    UnsupportedClass(u8),
    UnsupportedEndian(u8),
    UnsupportedMachine(u16),
    Truncated(Seq<char>),
    BadProgramHeader,
    BadLoadSegment(Seq<char>),
    NoLoadSegments,
    Memory(Seq<char>),
}

impl View for ElfLoadError {
    type V = ElfLoadErrorView;

    open spec fn view(&self) -> ElfLoadErrorView {
        match self {
            ElfLoadError::NotElf => ElfLoadErrorView::NotElf,
            ElfLoadError::UnsupportedClass(v) => ElfLoadErrorView::UnsupportedClass(*v),
            ElfLoadError::UnsupportedEndian(v) => ElfLoadErrorView::UnsupportedEndian(*v),
            ElfLoadError::UnsupportedMachine(v) => ElfLoadErrorView::UnsupportedMachine(*v),
            ElfLoadError::Truncated(what) => ElfLoadErrorView::Truncated(what@),
            ElfLoadError::BadProgramHeader => ElfLoadErrorView::BadProgramHeader,
            ElfLoadError::BadLoadSegment(what) => ElfLoadErrorView::BadLoadSegment(what@),
            ElfLoadError::NoLoadSegments => ElfLoadErrorView::NoLoadSegments,
            ElfLoadError::Memory(err) => ElfLoadErrorView::Memory(err@),
        }
    }
}

impl ElfLoadErrorView {
    /// The message for this error.
    pub open spec fn text(self) -> Seq<char> {
        match self {
            ElfLoadErrorView::NotElf => "not an ELF file"@,
            ElfLoadErrorView::UnsupportedClass(v) => "unsupported ELF class "@ + dec_text(
                v as nat,
            ),
            ElfLoadErrorView::UnsupportedEndian(v) => "unsupported ELF endian "@ + dec_text(
                v as nat,
            ),
            ElfLoadErrorView::UnsupportedMachine(v) => "unsupported ELF machine "@ + dec_text(
                v as nat,
            ) + ", expected ARM"@,
            ElfLoadErrorView::Truncated(what) => "truncated ELF "@ + what,
            ElfLoadErrorView::BadProgramHeader => "bad ELF program header table"@,
            ElfLoadErrorView::BadLoadSegment(what) => "bad ELF load segment: "@ + what,
            ElfLoadErrorView::NoLoadSegments => "ELF has no PT_LOAD segments"@,
            ElfLoadErrorView::Memory(err) => err,
        }
    }
}

impl ElfLoadError {
    /// The message for this error.
    pub fn to_string(&self) -> (r: String)
        ensures
            r@ == self@.text(),
    {
        match self {
            ElfLoadError::NotElf => String::from_str("not an ELF file"),
            ElfLoadError::UnsupportedClass(v) => join(
                "unsupported ELF class ",
                dec(*v as u64).as_str(),
            ),
            ElfLoadError::UnsupportedEndian(v) => join(
                "unsupported ELF endian ",
                dec(*v as u64).as_str(),
            ),
            ElfLoadError::UnsupportedMachine(v) => join(
                join("unsupported ELF machine ", dec(*v as u64).as_str()).as_str(),
                ", expected ARM",
            ),
            ElfLoadError::Truncated(what) => join("truncated ELF ", what),
            ElfLoadError::BadProgramHeader => String::from_str("bad ELF program header table"),
            ElfLoadError::BadLoadSegment(what) => join("bad ELF load segment: ", what),
            ElfLoadError::NoLoadSegments => String::from_str("ELF has no PT_LOAD segments"),
            ElfLoadError::Memory(err) => err.clone(),
        }
    }
}

/// The header fields that planning needs.
#[derive(Debug, Clone, Copy)]
pub struct ElfHeader {
    pub entry: u32,
    pub phoff: usize,
    pub phentsize: usize,
    pub phnum: usize,
}

/// A program header.
#[derive(Debug, Clone, Copy)]
pub struct ProgramHeader {
    pub p_type: u32,
    pub offset: u32,
    pub vaddr: u32,
    pub filesz: u32,
    pub memsz: u32,
    pub flags: u32,
    pub align: u32,
}

/// A result with its error taken by view.
pub type Checked<T> = core::result::Result<T, ElfLoadErrorView>;

/// A result with its error taken by view.
pub open spec fn checked<T>(r: Result<T, ElfLoadError>) -> Checked<T> {
    match r {
        Ok(v) => Ok(v),
        Err(e) => Err(e@),
    }
}

/// The header of a 32-bit little-endian ARM file.
pub open spec fn header_of(b: Seq<u8>) -> Checked<ElfHeader> {
    if b.len() < 52 {
        Err(ElfLoadErrorView::Truncated("header"@))
    } else if !is_elf(b) {
        Err(ElfLoadErrorView::NotElf)
    } else if b[4] != 1 {
        Err(ElfLoadErrorView::UnsupportedClass(b[4]))
    } else if b[5] != 1 {
        Err(ElfLoadErrorView::UnsupportedEndian(b[5]))
    } else if u16_at(b, 18) != 40 {
        Err(ElfLoadErrorView::UnsupportedMachine(u16_at(b, 18)))
    } else {
        Ok(
            ElfHeader {
                entry: u32_at(b, 24),
                phoff: u32_at(b, 28) as usize,
                phentsize: u16_at(b, 42) as usize,
                phnum: u16_at(b, 44) as usize,
            },
        )
    }
}

/// The program header at `off`.
pub open spec fn program_at(b: Seq<u8>, off: int) -> ProgramHeader {
    ProgramHeader {
        p_type: u32_at(b, off),
        offset: u32_at(b, off + 4),
        vaddr: u32_at(b, off + 8),
        filesz: u32_at(b, off + 16),
        memsz: u32_at(b, off + 20),
        flags: u32_at(b, off + 24),
        align: u32_at(b, off + 28),
    }
}

/// What has been planned so far.
pub struct Draft {
    pub segments: Seq<ElfLoadSegment>,
    pub base: u32,
    pub end: u32,
    pub exidx: Option<ElfLoadRange>,
}

/// The multiple of `align` at or below `v`.
pub open spec fn floor_to(v: int, align: int) -> int {
    v - v % align
}

/// The multiple of `align` at or above `v`.
pub open spec fn ceil_to(v: int, align: int) -> int {
    floor_to(v + align - 1, align)
}

/// A draft with one more program header taken in.
pub open spec fn with_program(d: Draft, ph: ProgramHeader, len: nat, bias: u32) -> Checked<Draft> {
    let addr = bias + ph.vaddr;
    let end = addr + ph.memsz;
    if ph.p_type == PT_ARM_EXIDX {
        if addr > u32::MAX {
            Err(ElfLoadErrorView::BadProgramHeader)
        } else {
            Ok(
                Draft {
                    exidx: Some(
                        ElfLoadRange {
                            addr: addr as u32,
                            size: if ph.memsz >= ph.filesz {
                                ph.memsz
                            } else {
                                ph.filesz
                            },
                        },
                    ),
                    ..d
                },
            )
        }
    } else if ph.p_type != PT_LOAD {
        Ok(d)
    } else if ph.filesz > ph.memsz {
        Err(ElfLoadErrorView::BadLoadSegment("file size exceeds memory size"@))
    } else if ph.offset + ph.filesz > u32::MAX {
        Err(ElfLoadErrorView::BadLoadSegment("file range overflow"@))
    } else if ph.offset + ph.filesz > len {
        Err(ElfLoadErrorView::Truncated("load segment data"@))
    } else if addr > u32::MAX {
        Err(ElfLoadErrorView::BadLoadSegment("virtual address overflow"@))
    } else if end > u32::MAX {
        Err(ElfLoadErrorView::BadLoadSegment("memory range overflow"@))
    } else if end + 0xfff > u32::MAX {
        Err(ElfLoadErrorView::BadLoadSegment("page range overflow"@))
    } else {
        let low = floor_to(addr, 0x1000);
        let high = ceil_to(end, 0x1000);
        Ok(
            Draft {
                segments: d.segments.push(
                    ElfLoadSegment {
                        file_offset: ph.offset,
                        file_size: ph.filesz,
                        memory_addr: addr as u32,
                        memory_size: ph.memsz,
                        flags: ph.flags,
                        align: ph.align,
                    },
                ),
                base: if d.base <= low {
                    d.base
                } else {
                    low as u32
                },
                end: if d.end >= high {
                    d.end
                } else {
                    high as u32
                },
                exidx: d.exidx,
            },
        )
    }
}

/// A draft with the program headers from `idx` on taken in.
pub open spec fn drafted(b: Seq<u8>, h: ElfHeader, bias: u32, idx: nat, d: Draft) -> Checked<Draft>
    decreases h.phnum - idx,
{
    if idx >= h.phnum {
        Ok(d)
    } else if h.phentsize < 32 {
        Err(ElfLoadErrorView::BadProgramHeader)
    } else {
        match with_program(
            d,
            program_at(b, h.phoff + idx * h.phentsize),
            b.len(),
            bias,
        ) {
            Ok(d1) => drafted(b, h, bias, idx + 1, d1),
            Err(e) => Err(e),
        }
    }
}

/// The empty draft.
pub open spec fn blank() -> Draft {
    Draft { segments: Seq::empty(), base: u32::MAX, end: 0, exidx: None }
}

/// The end of the program header table.
pub open spec fn table_end(h: ElfHeader) -> int {
    h.phoff + h.phentsize * h.phnum
}

/// Entry point and draft of a whole file.
pub open spec fn plan_of(b: Seq<u8>, bias: u32) -> Checked<(u32, Draft)> {
    match header_of(b) {
        Err(e) => Err(e),
        Ok(h) => if table_end(h) > usize::MAX {
            Err(ElfLoadErrorView::BadProgramHeader)
        } else if table_end(h) > b.len() {
            Err(ElfLoadErrorView::Truncated("program header table"@))
        } else {
            match drafted(b, h, bias, 0, blank()) {
                Err(e) => Err(e),
                Ok(d) => if d.segments.len() == 0 {
                    Err(ElfLoadErrorView::NoLoadSegments)
                } else if d.end < d.base {
                    Err(ElfLoadErrorView::BadLoadSegment("empty memory range"@))
                } else if bias + h.entry > u32::MAX {
                    Err(ElfLoadErrorView::BadLoadSegment("entry address overflow"@))
                } else {
                    Ok(((bias + h.entry) as u32, d))
                },
            }
        },
    }
}

/// A segment lies inside a file of `len` bytes and inside a range of memory.
pub open spec fn segment_fits(s: ElfLoadSegment, len: nat, base: int, end: int) -> bool {
    &&& s.file_size <= s.memory_size
    &&& s.file_offset + s.file_size <= len
    &&& base <= s.memory_addr
    &&& s.memory_addr + s.memory_size <= end
}

impl ElfLoadPlan {
    /// All segments lie inside a file of `len` bytes and inside the planned
    /// memory range.
    pub open spec fn covers(&self, len: nat) -> bool {
        forall|i: int|
            0 <= i < self.segments@.len() ==> #[trigger] segment_fits(
                self.segments@[i],
                len,
                self.memory_base as int,
                self.memory_base + self.memory_size,
            )
    }
}

/// The segments of a draft lie inside its range.
pub open spec fn draft_fits(d: Draft, len: nat) -> bool {
    forall|i: int|
        0 <= i < d.segments.len() ==> #[trigger] segment_fits(
            d.segments[i],
            len,
            d.base as int,
            d.end as int,
        )
}

proof fn with_program_fits(d: Draft, ph: ProgramHeader, len: nat, bias: u32)
    requires
        draft_fits(d, len),
    ensures
        with_program(d, ph, len, bias) is Ok ==> draft_fits(with_program(d, ph, len, bias)->Ok_0, len),
{
    if with_program(d, ph, len, bias) is Ok {
        let d1 = with_program(d, ph, len, bias)->Ok_0;
        assert forall|i: int| 0 <= i < d1.segments.len() implies #[trigger] segment_fits(
            d1.segments[i],
            len,
            d1.base as int,
            d1.end as int,
        ) by {
            if i < d.segments.len() {
                assert(segment_fits(d.segments[i], len, d.base as int, d.end as int));
            }
        }
    }
}

fn parse_header(bytes: &[u8]) -> (r: Result<ElfHeader, ElfLoadError>)
    ensures
        checked(r) == header_of(bytes@),
        r is Ok ==> r->Ok_0.phentsize <= 0xffff && r->Ok_0.phnum <= 0xffff,
{
    if bytes.len() < 52 {
        return Err(ElfLoadError::Truncated("header"));
    }
    if !has_elf_magic(bytes) {
        return Err(ElfLoadError::NotElf);
    }
    if bytes[4] != 1 {
        return Err(ElfLoadError::UnsupportedClass(bytes[4]));
    }
    if bytes[5] != 1 {
        return Err(ElfLoadError::UnsupportedEndian(bytes[5]));
    }
    let machine = le_u16(bytes, 18)?;
    if machine != 40 {
        return Err(ElfLoadError::UnsupportedMachine(machine));
    }
    Ok(
        ElfHeader {
            entry: le_u32(bytes, 24)?,
            phoff: le_u32(bytes, 28)? as usize,
            phentsize: le_u16(bytes, 42)? as usize,
            phnum: le_u16(bytes, 44)? as usize,
        },
    )
}

fn parse_program_header(bytes: &[u8], off: usize, phentsize: usize) -> (r: Result<
    ProgramHeader,
    ElfLoadError,
>)
    ensures
        checked(r) == if phentsize < 32 || off + 32 > usize::MAX {
            Err(ElfLoadErrorView::BadProgramHeader)
        } else if off + 32 > bytes@.len() {
            Err(ElfLoadErrorView::Truncated("program header"@))
        } else {
            Ok(program_at(bytes@, off as int))
        },
{
    if phentsize < 32 {
        return Err(ElfLoadError::BadProgramHeader);
    }
    if off > usize::MAX - 32 {
        return Err(ElfLoadError::BadProgramHeader);
    }
    if off + 32 > bytes.len() {
        return Err(ElfLoadError::Truncated("program header"));
    }
    Ok(
        ProgramHeader {
            p_type: le_u32(bytes, off)?,
            offset: le_u32(bytes, off + 4)?,
            vaddr: le_u32(bytes, off + 8)?,
            filesz: le_u32(bytes, off + 16)?,
            memsz: le_u32(bytes, off + 20)?,
            flags: le_u32(bytes, off + 24)?,
            align: le_u32(bytes, off + 28)?,
        },
    )
}

fn align_down(value: u32, align: u32) -> (r: u32)
    requires
        align > 0,
    ensures
        r == floor_to(value as int, align as int),
{
    assert(0 <= value % align <= value) by (nonlinear_arith)
        requires
            align > 0,
            value >= 0,
    ;
    value - value % align
}

fn align_up(value: u32, align: u32) -> (r: Option<u32>)
    requires
        align > 0,
    ensures
        r == if value + align - 1 > u32::MAX {
            None
        } else {
            Some(ceil_to(value as int, align as int) as u32)
        },
{
    if value > u32::MAX - (align - 1) {
        None
    } else {
        Some(align_down(value + (align - 1), align))
    }
}

fn le_u16(bytes: &[u8], off: usize) -> (r: Result<u16, ElfLoadError>)
    ensures
        checked(r) == if off + 2 <= bytes@.len() {
            Ok(u16_at(bytes@, off as int))
        } else {
            Err(ElfLoadErrorView::Truncated("u16"@))
        },
{
    match u16_le(bytes, off) {
        Some(v) => Ok(v),
        None => Err(ElfLoadError::Truncated("u16")),
    }
}

fn le_u32(bytes: &[u8], off: usize) -> (r: Result<u32, ElfLoadError>)
    ensures
        checked(r) == if off + 4 <= bytes@.len() {
            Ok(u32_at(bytes@, off as int))
        } else {
            Err(ElfLoadErrorView::Truncated("u32"@))
        },
{
    match u32_le(bytes, off) {
        Some(v) => Ok(v),
        None => Err(ElfLoadError::Truncated("u32")),
    }
}

/// A load segment with its page range.
fn plan_segment(ph: &ProgramHeader, len: usize, load_bias: u32) -> (r: Result<
    (ElfLoadSegment, u32, u32),
    ElfLoadError,
>)
    requires
        ph.p_type == PT_LOAD,
    ensures
        match r {
            Ok((s, low, high)) => {
                &&& low == floor_to(load_bias + ph.vaddr, 0x1000)
                &&& high == ceil_to(load_bias + ph.vaddr + ph.memsz, 0x1000)
                &&& s == (ElfLoadSegment {
                    file_offset: ph.offset,
                    file_size: ph.filesz,
                    memory_addr: (load_bias + ph.vaddr) as u32,
                    memory_size: ph.memsz,
                    flags: ph.flags,
                    align: ph.align,
                })
                &&& forall|d: Draft|
                    (#[trigger] with_program(d, *ph, len as nat, load_bias)) is Ok
            },
            Err(e) => forall|d: Draft|
                (#[trigger] with_program(d, *ph, len as nat, load_bias)) == Err::<
                    Draft,
                    ElfLoadErrorView,
                >(e@),
        },
{
    if ph.filesz > ph.memsz {
        return Err(ElfLoadError::BadLoadSegment("file size exceeds memory size"));
    }
    if ph.offset > u32::MAX - ph.filesz {
        return Err(ElfLoadError::BadLoadSegment("file range overflow"));
    }
    if (ph.offset + ph.filesz) as usize > len {
        return Err(ElfLoadError::Truncated("load segment data"));
    }
    if load_bias > u32::MAX - ph.vaddr {
        return Err(ElfLoadError::BadLoadSegment("virtual address overflow"));
    }
    let memory_addr = load_bias + ph.vaddr;
    if memory_addr > u32::MAX - ph.memsz {
        return Err(ElfLoadError::BadLoadSegment("memory range overflow"));
    }
    let segment_end = memory_addr + ph.memsz;
    let page_start = align_down(memory_addr, PAGE_SIZE);
    let page_end = match align_up(segment_end, PAGE_SIZE) {
        Some(end) => end,
        None => return Err(ElfLoadError::BadLoadSegment("page range overflow")),
    };
    Ok(
        (
            ElfLoadSegment {
                file_offset: ph.offset,
                file_size: ph.filesz,
                memory_addr,
                memory_size: ph.memsz,
                flags: ph.flags,
                align: ph.align,
            },
            page_start,
            page_end,
        ),
    )
}

/// Plans where the segments of `bytes` go when loaded at `load_bias`.
#[verifier::loop_isolation(false)]
pub fn plan_elf_load(path: PathBuf, bytes: &[u8], load_bias: u32) -> (r: Result<
    ElfLoadPlan,
    ElfLoadError,
>)
    ensures
        match r {
            Ok(plan) => plan.path == path && is_plan_of(plan, bytes@, load_bias),
            Err(e) => plan_of(bytes@, load_bias) == Err::<(u32, Draft), ElfLoadErrorView>(e@),
        },
        r is Ok ==> r->Ok_0.covers(bytes@.len()),
{
    let header = parse_header(bytes)?;
    assert(header.phentsize * header.phnum <= 0xffff * 0xffff) by (nonlinear_arith)
        requires
            0 <= header.phentsize <= 0xffff,
            0 <= header.phnum <= 0xffff,
    ;
    let table = header.phentsize * header.phnum;
    if header.phoff > usize::MAX - table {
        return Err(ElfLoadError::BadProgramHeader);
    }
    if header.phoff + table > bytes.len() {
        return Err(ElfLoadError::Truncated("program header table"));
    }
    let mut segments: Vec<ElfLoadSegment> = Vec::new();
    let mut memory_base: u32 = u32::MAX;
    let mut memory_end: u32 = 0;
    let mut arm_exidx: Option<ElfLoadRange> = None;
    let mut idx: usize = 0;
    let mut off: usize = header.phoff;
    let ghost mut draft = blank();
    assert(segments@ =~= draft.segments);
    while idx < header.phnum
        invariant
            idx <= header.phnum,
            off == header.phoff + idx * header.phentsize,
            draft == (Draft {
                segments: segments@,
                base: memory_base,
                end: memory_end,
                exidx: arm_exidx,
            }),
            draft_fits(draft, bytes@.len()),
            drafted(bytes@, header, load_bias, 0, blank()) == drafted(
                bytes@,
                header,
                load_bias,
                idx as nat,
                draft,
            ),
        decreases header.phnum - idx,
    {
        assert((idx + 1) * header.phentsize == idx * header.phentsize + header.phentsize && (idx
            + 1) * header.phentsize <= table) by (nonlinear_arith)
            requires
                0 <= idx < header.phnum,
                table == header.phentsize * header.phnum,
                header.phentsize >= 0,
        ;
        let ph = parse_program_header(bytes, off, header.phentsize)?;
        proof {
            with_program_fits(draft, ph, bytes@.len(), load_bias);
        }
        if ph.p_type == PT_ARM_EXIDX {
            if load_bias > u32::MAX - ph.vaddr {
                return Err(ElfLoadError::BadProgramHeader);
            }
            arm_exidx = Some(
                ElfLoadRange {
                    addr: load_bias + ph.vaddr,
                    size: if ph.memsz >= ph.filesz {
                        ph.memsz
                    } else {
                        ph.filesz
                    },
                },
            );
        } else if ph.p_type == PT_LOAD {
            let planned = plan_segment(&ph, bytes.len(), load_bias);
            let (segment, page_start, page_end) = planned?;
            assert(with_program(draft, ph, bytes@.len(), load_bias) is Ok);
            if page_start < memory_base {
                memory_base = page_start;
            }
            if page_end > memory_end {
                memory_end = page_end;
            }
            segments.push(segment);
        }
        proof {
            let next = Draft {
                segments: segments@,
                base: memory_base,
                end: memory_end,
                exidx: arm_exidx,
            };
            assert(with_program(draft, ph, bytes@.len(), load_bias) == Ok::<
                Draft,
                ElfLoadErrorView,
            >(next));
            draft = next;
        }
        off += header.phentsize;
        idx += 1;
    }
    if segments.len() == 0 {
        return Err(ElfLoadError::NoLoadSegments);
    }
    if memory_end < memory_base {
        return Err(ElfLoadError::BadLoadSegment("empty memory range"));
    }
    if load_bias > u32::MAX - header.entry {
        return Err(ElfLoadError::BadLoadSegment("entry address overflow"));
    }
    let plan = ElfLoadPlan {
        path,
        load_bias,
        entry: load_bias + header.entry,
        memory_base,
        memory_size: memory_end - memory_base,
        arm_exidx,
        segments,
    };
    proof {
        assert forall|i: int| 0 <= i < plan.segments@.len() implies #[trigger] segment_fits(
            plan.segments@[i],
            bytes@.len(),
            plan.memory_base as int,
            plan.memory_base + plan.memory_size,
        ) by {
            assert(segment_fits(
                draft.segments[i],
                bytes@.len(),
                draft.base as int,
                draft.end as int,
            ));
        }
    }
    Ok(plan)
}

/// The memory after one segment is loaded.
pub open spec fn segment_loaded(m: MemState, b: Seq<u8>, s: ElfLoadSegment) -> (
    MemState,
    Checked<()>,
) {
    let end = s.file_offset + s.file_size;
    if end > usize::MAX {
        (m, Err(ElfLoadErrorView::BadLoadSegment("file range overflow"@)))
    } else if end > b.len() {
        (m, Err(ElfLoadErrorView::Truncated("load segment data"@)))
    } else {
        match m.store_bytes(s.memory_addr, b.subrange(s.file_offset as int, end)) {
            (m1, Ok(_)) => (m1, Ok(())),
            (m1, Err(t)) => (m1, Err(ElfLoadErrorView::Memory(t.text()))),
        }
    }
}

/// The memory after the segments from `i` on are loaded.
pub open spec fn segments_loaded(m: MemState, b: Seq<u8>, s: Seq<ElfLoadSegment>, i: nat) -> (
    MemState,
    Checked<()>,
)
    decreases s.len() - i,
{
    if i >= s.len() {
        (m, Ok(()))
    } else {
        match segment_loaded(m, b, s[i as int]) {
            (m1, Ok(_)) => segments_loaded(m1, b, s, i + 1),
            (m1, Err(e)) => (m1, Err(e)),
        }
    }
}

fn load_segment<M: Memory>(bytes: &[u8], segment: &ElfLoadSegment, memory: &mut M) -> (r: Result<
    (),
    ElfLoadError,
>)
    ensures
        (final(memory).state(), checked(r)) == segment_loaded(
            old(memory).state(),
            bytes@,
            *segment,
        ),
{
    let start = segment.file_offset as usize;
    let size = segment.file_size as usize;
    if start > usize::MAX - size {
        return Err(ElfLoadError::BadLoadSegment("file range overflow"));
    }
    let end = start + size;
    if end > bytes.len() {
        return Err(ElfLoadError::Truncated("load segment data"));
    }
    let ghost data = bytes@.subrange(start as int, end as int);
    let mut addr = segment.memory_addr;
    let mut at: usize = start;
    assert(data.skip(0) =~= data);
    while at < end
        invariant
            start <= at <= end <= bytes@.len(),
            data == bytes@.subrange(start as int, end as int),
            end == segment.file_offset + segment.file_size,
            start == segment.file_offset,
            old(memory).state().store_bytes(segment.memory_addr, data)
                == memory.state().store_bytes(addr, data.skip(at - start)),
        decreases end - at,
    {
        assert(data.skip(at - start).drop_first() =~= data.skip(at + 1 - start));
        match memory.store8(addr, bytes[at]) {
            Ok(_) => {},
            Err(err) => return Err(ElfLoadError::Memory(err.to_string())),
        }
        addr = addr.wrapping_add(1);
        at += 1;
    }
    Ok(())
}

/// Copies the file contents of the planned segments into memory.
pub fn load_elf_into_memory<M: Memory>(bytes: &[u8], plan: &ElfLoadPlan, memory: &mut M) -> (r:
    Result<(), ElfLoadError>)
    ensures
        (final(memory).state(), checked(r)) == segments_loaded(
            old(memory).state(),
            bytes@,
            plan.segments@,
            0,
        ),
{
    let mut i: usize = 0;
    while i < plan.segments.len()
        invariant
            i <= plan.segments@.len(),
            segments_loaded(old(memory).state(), bytes@, plan.segments@, 0) == segments_loaded(
                memory.state(),
                bytes@,
                plan.segments@,
                i as nat,
            ),
        decreases plan.segments@.len() - i,
    {
        load_segment(bytes, &plan.segments[i], memory)?;
        i += 1;
    }
    Ok(())
}

/// The contents of a block after the first `n` segments are copied into it.
pub open spec fn image(base: u32, size: nat, b: Seq<u8>, s: Seq<ElfLoadSegment>, n: nat) -> Seq<u8>
    decreases n,
{
    if n == 0 {
        Seq::new(size, |i: int| 0u8)
    } else {
        let before = image(base, size, b, s, (n - 1) as nat);
        let seg = s[n - 1];
        let off = seg.memory_addr - base;
        Seq::new(
            size,
            |i: int|
                if off <= i < off + seg.file_size {
                    b[seg.file_offset + i - off]
                } else {
                    before[i]
                },
        )
    }
}

/// Loading the segments of a covering plan from `n` on goes through.
proof fn loading_goes_through(plan: &ElfLoadPlan, b: Seq<u8>, n: nat)
    requires
        plan.covers(b.len()),
        n <= plan.segments@.len(),
        plan.memory_base + plan.memory_size <= 0x1_0000_0000,
        plan.memory_size <= usize::MAX,
        b.len() <= usize::MAX,
    ensures
        ({
            let size = plan.memory_size as nat;
            let m = block_state(
                plan.memory_base,
                image(plan.memory_base, size, b, plan.segments@, n),
            );
            segments_loaded(m, b, plan.segments@, n) == (
                block_state(
                    plan.memory_base,
                    image(plan.memory_base, size, b, plan.segments@, plan.segments@.len()),
                ),
                Ok::<(), ElfLoadErrorView>(()),
            )
        }),
    decreases plan.segments@.len() - n,
{
    if n < plan.segments@.len() {
        let size = plan.memory_size as nat;
        let s = plan.segments@[n as int];
        assert(segment_fits(
            s,
            b.len(),
            plan.memory_base as int,
            plan.memory_base + plan.memory_size,
        ));
        let data = image(plan.memory_base, size, b, plan.segments@, n);
        assert(data.len() == size);
        let part = b.subrange(s.file_offset as int, s.file_offset + s.file_size);
        blocks_take_what_fits(plan.memory_base, data, s.memory_addr, part);
        assert(part.take(part.len() as int) =~= part);
        let after = overlaid(data, s.memory_addr - plan.memory_base, part);
        assert(after =~= image(plan.memory_base, size, b, plan.segments@, n + 1));
        loading_goes_through(plan, b, n + 1);
    }
}

/// Loads the planned segments into a fresh block of zeros. A plan whose
/// segments fit loads without fail: each segment's file bytes stand at its
/// address, later segments over earlier ones, and everything else is zero.
#[verifier::loop_isolation(false)]
pub fn load_elf_into_vec_memory(bytes: &[u8], plan: &ElfLoadPlan) -> (r: Result<
    VecMemory,
    ElfLoadError,
>)
    ensures
        ({
            let size = plan.memory_size as nat;
            let fresh = block_state(plan.memory_base, Seq::new(size, |i: int| 0u8));
            match segments_loaded(fresh, bytes@, plan.segments@, 0) {
                (m, Ok(_)) => r is Ok && r->Ok_0.state() == m,
                (_, Err(e)) => r is Err && r->Err_0@ == e,
            }
        }),
        r is Ok ==> r->Ok_0.start() == plan.memory_base && r->Ok_0.contents().len()
            == plan.memory_size,
        plan.covers(bytes@.len()) && plan.memory_base + plan.memory_size <= 0x1_0000_0000 ==> r is Ok
            && r->Ok_0.contents() == image(
            plan.memory_base,
            plan.memory_size as nat,
            bytes@,
            plan.segments@,
            plan.segments@.len(),
        ),
{
    let mut memory = VecMemory::new(plan.memory_base, plan.memory_size as usize);
    let ghost fresh = memory.state();
    proof {
        if plan.covers(bytes@.len()) && plan.memory_base + plan.memory_size <= 0x1_0000_0000 {
            assert(bytes@.len() == bytes.len());
            loading_goes_through(plan, bytes@, 0);
        }
    }
    let mut i: usize = 0;
    while i < plan.segments.len()
        invariant
            i <= plan.segments@.len(),
            memory.start() == plan.memory_base,
            memory.contents().len() == plan.memory_size,
            fresh == block_state(
                plan.memory_base,
                Seq::new(plan.memory_size as nat, |i: int| 0u8),
            ),
            segments_loaded(fresh, bytes@, plan.segments@, 0) == segments_loaded(
                memory.state(),
                bytes@,
                plan.segments@,
                i as nat,
            ),
        decreases plan.segments@.len() - i,
    {
        load_block_segment(bytes, &plan.segments[i], &mut memory)?;
        i += 1;
    }
    proof {
        if plan.covers(bytes@.len()) && plan.memory_base + plan.memory_size <= 0x1_0000_0000 {
            let whole = image(
                plan.memory_base,
                plan.memory_size as nat,
                bytes@,
                plan.segments@,
                plan.segments@.len(),
            );
            blocks_of_one_state(plan.memory_base, memory.contents(), whole);
        }
    }
    Ok(memory)
}

/// Copies the file contents of one segment into a block.
fn load_block_segment(bytes: &[u8], segment: &ElfLoadSegment, memory: &mut VecMemory) -> (r: Result<
    (),
    ElfLoadError,
>)
    ensures
        (final(memory).state(), checked(r)) == segment_loaded(
            old(memory).state(),
            bytes@,
            *segment,
        ),
        final(memory).start() == old(memory).start(),
        final(memory).contents().len() == old(memory).contents().len(),
{
    let start = segment.file_offset as usize;
    let size = segment.file_size as usize;
    if start > usize::MAX - size {
        return Err(ElfLoadError::BadLoadSegment("file range overflow"));
    }
    let end = start + size;
    if end > bytes.len() {
        return Err(ElfLoadError::Truncated("load segment data"));
    }
    match memory.load_bytes(segment.memory_addr, slice_subrange(bytes, start, end)) {
        Ok(_) => Ok(()),
        Err(err) => Err(ElfLoadError::Memory(err.to_string())),
    }
}

/// Two blocks of one extent inside the address space that hold the same at
/// every address hold the same bytes.
proof fn blocks_of_one_state(base: u32, a: Seq<u8>, b: Seq<u8>)
    requires
        a.len() == b.len(),
        base + a.len() <= 0x1_0000_0000,
        block_state(base, a) == block_state(base, b),
    ensures
        a == b,
{
    assert forall|i: int| 0 <= i < a.len() implies a[i] == b[i] by {
        let x = (base + i) as u32;
        assert(in_block(x, base, a.len() as int));
        assert(block_state(base, a).bytes[x] == a[i]);
        assert(block_state(base, b).bytes[x] == b[i]);
    }
    assert(a =~= b);
}

/// Whether the file bytes of a segment hold the byte at `addr`.
pub open spec fn fills(s: ElfLoadSegment, addr: int) -> bool {
    s.memory_addr <= addr < s.memory_addr + s.file_size
}

/// A byte of an image comes from the last segment whose file bytes hold its
/// address, and is zero where there is none.
pub proof fn image_takes_the_last_segment(
    base: u32,
    size: nat,
    b: Seq<u8>,
    s: Seq<ElfLoadSegment>,
    n: nat,
    addr: int,
)
    requires
        base <= addr < base + size,
        n <= s.len(),
    ensures
        image(base, size, b, s, n).len() == size,
        (forall|j: int| 0 <= j < n ==> !fills(#[trigger] s[j], addr)) ==> image(
            base,
            size,
            b,
            s,
            n,
        )[addr - base] == 0,
        forall|k: int|
            0 <= k < n && fills(#[trigger] s[k], addr) && (forall|j: int|
                k < j < n ==> !fills(#[trigger] s[j], addr)) ==> image(
                base,
                size,
                b,
                s,
                n,
            )[addr - base] == b[s[k].file_offset + (addr - s[k].memory_addr)],
    decreases n,
{
    if n > 0 {
        image_takes_the_last_segment(base, size, b, s, (n - 1) as nat, addr);
        assert(s[n - 1] == s[n - 1]);
    }
}

proof fn drafted_fits(b: Seq<u8>, h: ElfHeader, bias: u32, idx: nat, d: Draft)
    requires
        draft_fits(d, b.len()),
    ensures
        drafted(b, h, bias, idx, d) is Ok ==> draft_fits(
            drafted(b, h, bias, idx, d)->Ok_0,
            b.len(),
        ),
    decreases h.phnum - idx,
{
    if idx < h.phnum && h.phentsize >= 32 {
        let ph = program_at(b, h.phoff + idx * h.phentsize);
        with_program_fits(d, ph, b.len(), bias);
        if with_program(d, ph, b.len(), bias) is Ok {
            drafted_fits(b, h, bias, idx + 1, with_program(d, ph, b.len(), bias)->Ok_0);
        }
    }
}

/// Whether a plan is that of a file at a bias.
pub open spec fn is_plan_of(plan: ElfLoadPlan, b: Seq<u8>, bias: u32) -> bool {
    match plan_of(b, bias) {
        Ok((entry, d)) => {
            &&& plan.load_bias == bias
            &&& plan.entry == entry
            &&& plan.memory_base == d.base
            &&& plan.memory_size == d.end - d.base
            &&& plan.arm_exidx == d.exidx
            &&& plan.segments@ == d.segments
        },
        Err(_) => false,
    }
}

/// Whatever was planned for a file loads without fail into a fresh block of the
/// planned extent, and gives the image of the file.
pub proof fn planned_files_load(plan: ElfLoadPlan, b: Seq<u8>, bias: u32)
    requires
        is_plan_of(plan, b, bias),
        b.len() <= usize::MAX,
    ensures
        plan.covers(b.len()),
        plan.memory_base + plan.memory_size <= u32::MAX,
        segments_loaded(
            block_state(plan.memory_base, Seq::new(plan.memory_size as nat, |i: int| 0u8)),
            b,
            plan.segments@,
            0,
        ) == (
            block_state(
                plan.memory_base,
                image(
                    plan.memory_base,
                    plan.memory_size as nat,
                    b,
                    plan.segments@,
                    plan.segments@.len(),
                ),
            ),
            Ok::<(), ElfLoadErrorView>(()),
        ),
{
    let h = header_of(b)->Ok_0;
    let d = drafted(b, h, bias, 0, blank())->Ok_0;
    drafted_fits(b, h, bias, 0, blank());
    assert forall|i: int| 0 <= i < plan.segments@.len() implies #[trigger] segment_fits(
        plan.segments@[i],
        b.len(),
        plan.memory_base as int,
        plan.memory_base + plan.memory_size,
    ) by {
        assert(segment_fits(d.segments[i], b.len(), d.base as int, d.end as int));
    }
    loading_goes_through(&plan, b, 0);
}

/// Whether `t` is the segment `s` moved by a bias.
pub open spec fn moved_segment(s: ElfLoadSegment, t: ElfLoadSegment, bias: u32) -> bool {
    t.memory_addr == s.memory_addr + bias && t == (ElfLoadSegment {
        memory_addr: t.memory_addr,
        ..s
    })
}

/// Whether `t` lists the segments of `s` moved by a bias.
pub open spec fn moved_segments(s: Seq<ElfLoadSegment>, t: Seq<ElfLoadSegment>, bias: u32) -> bool {
    &&& t.len() == s.len()
    &&& forall|i: int| 0 <= i < s.len() ==> #[trigger] moved_segment(s[i], t[i], bias)
}

/// Whether `y` is the range `x` moved by a bias.
pub open spec fn moved_range(x: Option<ElfLoadRange>, y: Option<ElfLoadRange>, bias: u32) -> bool {
    match (x, y) {
        (None, None) => true,
        (Some(x), Some(y)) => y.addr == x.addr + bias && y.size == x.size,
        _ => false,
    }
}

/// Whether a draft is another one moved by a bias.
spec fn moved_draft(d: Draft, e: Draft, bias: u32) -> bool {
    &&& moved_segments(d.segments, e.segments, bias)
    &&& moved_range(d.exidx, e.exidx, bias)
    &&& if d.segments.len() == 0 {
        d.base == u32::MAX && e.base == u32::MAX && d.end == 0 && e.end == 0
    } else {
        e.base == d.base + bias && e.end == d.end + bias
    }
}

proof fn moved_push(
    s: Seq<ElfLoadSegment>,
    t: Seq<ElfLoadSegment>,
    x: ElfLoadSegment,
    y: ElfLoadSegment,
    bias: u32,
)
    requires
        moved_segments(s, t, bias),
        moved_segment(x, y, bias),
    ensures
        moved_segments(s.push(x), t.push(y), bias),
{
    let s1 = s.push(x);
    let t1 = t.push(y);
    assert forall|i: int| 0 <= i < s1.len() implies #[trigger] moved_segment(
        s1[i],
        t1[i],
        bias,
    ) by {
        if i < s.len() {
            assert(moved_segment(s[i], t[i], bias));
        }
    }
}

proof fn drafts_move(b: Seq<u8>, h: ElfHeader, bias: u32, idx: nat, d: Draft, e: Draft)
    requires
        bias % 0x1000 == 0,
        moved_draft(d, e, bias),
        drafted(b, h, 0, idx, d) is Ok,
        drafted(b, h, bias, idx, e) is Ok,
    ensures
        moved_draft(drafted(b, h, 0, idx, d)->Ok_0, drafted(b, h, bias, idx, e)->Ok_0, bias),
    decreases h.phnum - idx,
{
    if idx < h.phnum {
        let ph = program_at(b, h.phoff + idx * h.phentsize);
        let d1 = with_program(d, ph, b.len(), 0)->Ok_0;
        let e1 = with_program(e, ph, b.len(), bias)->Ok_0;
        if ph.p_type == PT_LOAD {
            assert(floor_to(bias + ph.vaddr, 0x1000) == floor_to(ph.vaddr as int, 0x1000) + bias);
            assert(ceil_to(bias + ph.vaddr + ph.memsz, 0x1000) == ceil_to(
                ph.vaddr + ph.memsz,
                0x1000,
            ) + bias);
            assert(e1.base == d1.base + bias);
            assert(e1.end == d1.end + bias);
            let (x, y) = (d1.segments.last(), e1.segments.last());
            moved_push(d.segments, e.segments, x, y, bias);
            assert(d1.segments =~= d.segments.push(x));
            assert(e1.segments =~= e.segments.push(y));
        }
        drafts_move(b, h, bias, idx + 1, d1, e1);
    }
}

/// At a page-aligned bias a file is planned as at no bias, with every address
/// moved by the bias.
pub proof fn plans_move_with_the_bias(plan: ElfLoadPlan, moved: ElfLoadPlan, b: Seq<u8>, bias: u32)
    requires
        bias % 0x1000 == 0,
        is_plan_of(plan, b, 0),
        is_plan_of(moved, b, bias),
    ensures
        moved.entry == plan.entry + bias,
        moved.memory_base == plan.memory_base + bias,
        moved.memory_size == plan.memory_size,
        moved_segments(plan.segments@, moved.segments@, bias),
        moved_range(plan.arm_exidx, moved.arm_exidx, bias),
{
    let h = header_of(b)->Ok_0;
    drafts_move(b, h, bias, 0, blank(), blank());
}

} // verus!
