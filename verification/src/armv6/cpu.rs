//! The processor state.

use super::bits::group_masks;
use super::memory::{MemState, Memory};
use super::trap::{seen, Result, TrapView};
use vstd::prelude::*;

verus! {

broadcast use group_masks;

/// A machine result with its trap as a mathematical value.
pub type Seen<T> = core::result::Result<T, TrapView>;

/// The instruction set that is being executed.
#[derive(Debug, Clone, Copy, PartialEq, Eq, Structural)]
pub enum Isa {
    Arm,
    Thumb,
}

/// The floating-point identification register.
pub const VFP_FPSID_ARM1136: u32 = 0x4101_20b4;

/// Cumulative flag: invalid operation.
pub const FPSCR_IOC: u32 = 1;

/// Cumulative flag: division by zero.
pub const FPSCR_DZC: u32 = 2;

/// Cumulative flag: overflow.
pub const FPSCR_OFC: u32 = 4;

/// Cumulative flag: underflow.
pub const FPSCR_UFC: u32 = 8;

/// Cumulative flag: inexact.
pub const FPSCR_IXC: u32 = 16;

/// The program status flags.
#[derive(Debug, Clone, Copy, PartialEq, Eq, Structural)]
pub struct Cpsr {
    pub n: bool,
    pub z: bool,
    pub c: bool,
    pub v: bool,
    pub q: bool,
    pub ge: u8,
    pub t: bool,
}

impl Default for Cpsr {
    fn default() -> (r: Self)
        ensures
            r == Cpsr::clear(),
    {
        Cpsr { n: false, z: false, c: false, v: false, q: false, ge: 0, t: false }
    }
}

/// `1` shifted to bit `n`, or nothing.
pub open spec fn flag_at(set: bool, n: u32) -> u32 {
    if set {
        1u32 << n
    } else {
        0
    }
}

fn flag_bit(set: bool, n: u32) -> (r: u32)
    requires
        n < 32,
    ensures
        r == flag_at(set, n),
{
    if set {
        1u32 << n
    } else {
        0
    }
}

impl Cpsr {
    /// All flags clear, ARM state.
    pub open spec fn clear() -> Cpsr {
        Cpsr { n: false, z: false, c: false, v: false, q: false, ge: 0, t: false }
    }

    /// The status register as a word: each flag at its architectural place.
    pub open spec fn word(self) -> u32 {
        flag_at(self.n, 31) | flag_at(self.z, 30) | flag_at(self.c, 29) | flag_at(self.v, 28)
            | flag_at(self.q, 27) | (((self.ge & 0xf) as u32) << 16) | flag_at(self.t, 5)
    }

    /// The flags that a status word holds.
    pub open spec fn of_word(value: u32) -> Cpsr {
        Cpsr {
            n: value & (1u32 << 31) != 0,
            z: value & (1u32 << 30) != 0,
            c: value & (1u32 << 29) != 0,
            v: value & (1u32 << 28) != 0,
            q: value & (1u32 << 27) != 0,
            ge: ((value >> 16) & 0xf) as u8,
            t: value & (1u32 << 5) != 0,
        }
    }

    /// Negative and zero taken from a result.
    pub open spec fn nz(self, value: u32) -> Cpsr {
        Cpsr { n: value & 0x8000_0000 != 0, z: value == 0, ..self }
    }

    /// Negative and zero taken from a result, and a carry.
    pub open spec fn nzc(self, value: u32, carry: bool) -> Cpsr {
        Cpsr { c: carry, ..self.nz(value) }
    }

    /// All four condition flags.
    pub open spec fn nzcv(self, value: u32, carry: bool, overflow: bool) -> Cpsr {
        Cpsr { v: overflow, ..self.nzc(value, carry) }
    }

    /// The sticky saturation flag, set where `sat` holds.
    pub open spec fn sticky(self, sat: bool) -> Cpsr {
        Cpsr { q: self.q || sat, ..self }
    }

    /// The status register as a word.
    pub fn to_u32(self) -> (r: u32)
        ensures
            r == self.word(),
    {
        flag_bit(self.n, 31) | flag_bit(self.z, 30) | flag_bit(self.c, 29) | flag_bit(self.v, 28)
            | flag_bit(self.q, 27) | (((self.ge & 0xf) as u32) << 16) | flag_bit(self.t, 5)
    }

    /// The flags that a status word holds.
    pub fn from_u32(value: u32) -> (r: Self)
        ensures
            r == Cpsr::of_word(value),
    {
        Cpsr {
            n: value & (1u32 << 31) != 0,
            z: value & (1u32 << 30) != 0,
            c: value & (1u32 << 29) != 0,
            v: value & (1u32 << 28) != 0,
            q: value & (1u32 << 27) != 0,
            ge: ((value >> 16) & 0xf) as u8,
            t: value & (1u32 << 5) != 0,
        }
    }

    pub(crate) fn set_nz(&mut self, value: u32)
        ensures
            *final(self) == old(self).nz(value),
    {
        self.n = value & 0x8000_0000 != 0;
        self.z = value == 0;
    }

    pub(crate) fn set_nzc(&mut self, value: u32, carry: bool)
        ensures
            *final(self) == old(self).nzc(value, carry),
    {
        self.set_nz(value);
        self.c = carry;
    }

    pub(crate) fn set_nzcv(&mut self, value: u32, carry: bool, overflow: bool)
        ensures
            *final(self) == old(self).nzcv(value, carry, overflow),
    {
        self.set_nzc(value, carry);
        self.v = overflow;
    }
}

/// The flags survive a trip through the status word, but for the unused half
/// of the GE byte.
pub proof fn cpsr_from_word_of_word(c: Cpsr)
    ensures
        Cpsr::of_word(c.word()) == (Cpsr { ge: c.ge & 0xf, ..c }),
{
    let n = flag_at(c.n, 31);
    let z = flag_at(c.z, 30);
    let cc = flag_at(c.c, 29);
    let v = flag_at(c.v, 28);
    let q = flag_at(c.q, 27);
    let t = flag_at(c.t, 5);
    let ge = c.ge;
    assert(({
        let w = n | z | cc | v | q | (((ge & 0xf) as u32) << 16) | t;
        &&& (w & (1u32 << 31) != 0) == (n != 0)
        &&& (w & (1u32 << 30) != 0) == (z != 0)
        &&& (w & (1u32 << 29) != 0) == (cc != 0)
        &&& (w & (1u32 << 28) != 0) == (v != 0)
        &&& (w & (1u32 << 27) != 0) == (q != 0)
        &&& (w & (1u32 << 5) != 0) == (t != 0)
        &&& ((w >> 16) & 0xf) as u8 == ge & 0xf
        &&& (1u32 << 31) != 0 && (1u32 << 30) != 0 && (1u32 << 29) != 0 && (1u32 << 28) != 0 && (
        1u32 << 27) != 0 && (1u32 << 5) != 0
    })) by (bit_vector)
        requires
            n == 0 || n == 1u32 << 31,
            z == 0 || z == 1u32 << 30,
            cc == 0 || cc == 1u32 << 29,
            v == 0 || v == 1u32 << 28,
            q == 0 || q == 1u32 << 27,
            t == 0 || t == 1u32 << 5,
    ;
}

/// A status word keeps exactly the bits that stand for flags.
pub proof fn cpsr_word_of_word(value: u32)
    ensures
        Cpsr::of_word(value).word() == value & 0xf80f_0020,
{
    let n = flag_at(value & (1u32 << 31) != 0, 31);
    let z = flag_at(value & (1u32 << 30) != 0, 30);
    let c = flag_at(value & (1u32 << 29) != 0, 29);
    let v = flag_at(value & (1u32 << 28) != 0, 28);
    let q = flag_at(value & (1u32 << 27) != 0, 27);
    let t = flag_at(value & (1u32 << 5) != 0, 5);
    assert(n | z | c | v | q | (((((value >> 16) & 0xf) as u8 & 0xf) as u32) << 16) | t == value
        & 0xf80f_0020) by (bit_vector)
        requires
            n == if value & (1u32 << 31) != 0 { 1u32 << 31 } else { 0 },
            z == if value & (1u32 << 30) != 0 { 1u32 << 30 } else { 0 },
            c == if value & (1u32 << 29) != 0 { 1u32 << 29 } else { 0 },
            v == if value & (1u32 << 28) != 0 { 1u32 << 28 } else { 0 },
            q == if value & (1u32 << 27) != 0 { 1u32 << 27 } else { 0 },
            t == if value & (1u32 << 5) != 0 { 1u32 << 5 } else { 0 },
    ;
}

/// An address that a load-exclusive has claimed.
#[derive(Debug, Clone, Copy, PartialEq, Eq, Structural)]
pub struct ExclusiveReservation {
    pub addr: u32,
    pub size: u8,
}

impl ExclusiveReservation {
    /// Whether a store of `size` bytes at `addr` touches the claimed bytes.
    pub open spec fn overlaps(self, addr: u32, size: u8) -> bool {
        addr < self.addr + self.size && self.addr < addr + size
    }
}

/// The processor as a mathematical value.
#[verifier::ext_equal]
pub struct CpuState {
    /// The sixteen core registers.
    pub regs: Seq<u32>,
    /// The floating-point registers, as sixty-four words.
    pub sregs: Seq<u32>,
    pub fpscr: u32,
    pub tpidrurw: u32,
    pub tpidruro: u32,
    pub counter: u64,
    pub cpsr: Cpsr,
    /// The target prefix of a two-part Thumb branch.
    pub bl_prefix: Option<u32>,
    /// The conditions of the instructions left in the current IT block.
    pub it: Seq<u32>,
    pub reservation: Option<ExclusiveReservation>,
}

impl CpuState {
    /// Register `i`.
    pub open spec fn r(self, i: usize) -> u32 {
        self.regs[i as int]
    }

    /// Register `i` set to `v`.
    pub open spec fn with_r(self, i: usize, v: u32) -> CpuState {
        CpuState { regs: self.regs.update(i as int, v), ..self }
    }

    /// Floating-point word `i`.
    pub open spec fn s(self, i: usize) -> u32 {
        self.sregs[i as int]
    }

    /// Floating-point word `i` set to `v`.
    pub open spec fn with_s(self, i: usize, v: u32) -> CpuState {
        CpuState { sregs: self.sregs.update(i as int, v), ..self }
    }

    /// Doubleword register `i`: two neighbouring words, low one first.
    pub open spec fn d(self, i: usize) -> u64 {
        (self.sregs[2 * i] as u64) | ((self.sregs[2 * i + 1] as u64) << 32)
    }

    /// Doubleword register `i` set to `v`.
    pub open spec fn with_d(self, i: usize, v: u64) -> CpuState {
        CpuState {
            sregs: self.sregs.update(2 * i, v as u32).update(2 * i + 1, (v >> 32) as u32),
            ..self
        }
    }

    /// The flags replaced.
    pub open spec fn with_cpsr(self, c: Cpsr) -> CpuState {
        CpuState { cpsr: c, ..self }
    }

    /// The sticky saturation flag, set where `sat` holds.
    pub open spec fn sticky(self, sat: bool) -> CpuState {
        self.with_cpsr(self.cpsr.sticky(sat))
    }

    /// The floating-point status replaced.
    pub open spec fn with_fpscr(self, v: u32) -> CpuState {
        CpuState { fpscr: v, ..self }
    }

    /// The reservation replaced.
    pub open spec fn with_reservation(self, r: Option<ExclusiveReservation>) -> CpuState {
        CpuState { reservation: r, ..self }
    }

    /// The branch prefix replaced.
    pub open spec fn with_bl_prefix(self, p: Option<u32>) -> CpuState {
        CpuState { bl_prefix: p, ..self }
    }

    /// The pending IT conditions replaced.
    pub open spec fn with_it(self, it: Seq<u32>) -> CpuState {
        CpuState { it, ..self }
    }

    /// A jump to `target`, whose lowest bit selects the instruction set.
    /// Entering ARM state ends an IT block.
    pub open spec fn jump(self, target: u32) -> CpuState {
        let thumb = target & 1 != 0;
        CpuState {
            regs: self.regs.update(15, target & !1u32),
            cpsr: Cpsr { t: thumb, ..self.cpsr },
            it: if thumb {
                self.it
            } else {
                Seq::empty()
            },
            ..self
        }
    }

    /// Register `i` as an operand in ARM state, where the program counter reads
    /// two instructions ahead.
    pub open spec fn ra(self, i: usize, pc: u32) -> u32 {
        if i == 15 {
            pc.wrapping_add(8)
        } else {
            self.r(i)
        }
    }

    /// Register `i` as an operand in Thumb state.
    pub open spec fn rt(self, i: usize, pc: u32) -> u32 {
        if i == 15 {
            pc.wrapping_add(4)
        } else {
            self.r(i)
        }
    }

    /// Register `i` written in ARM state: writing the program counter jumps.
    pub open spec fn wa(self, i: usize, v: u32) -> CpuState {
        if i == 15 {
            self.jump(v)
        } else {
            self.with_r(i, v)
        }
    }

    /// Register `i` written in Thumb state.
    pub open spec fn wt(self, i: usize, v: u32) -> CpuState {
        if i == 15 {
            self.with_r(15, v & !1u32)
        } else {
            self.with_r(i, v)
        }
    }

    /// A store of `size` bytes at `addr` breaks a reservation that it touches.
    pub open spec fn after_store(self, addr: u32, size: u8) -> CpuState {
        match self.reservation {
            Some(r) => if r.overlaps(addr, size) {
                self.with_reservation(None)
            } else {
                self
            },
            None => self,
        }
    }

    /// The register banks have their sizes.
    pub open spec fn wf(self) -> bool {
        self.regs.len() == 16 && self.sregs.len() == 64
    }

    /// The state after reset.
    pub open spec fn reset() -> CpuState {
        CpuState {
            regs: Seq::new(16, |i: int| 0u32),
            sregs: Seq::new(64, |i: int| 0u32),
            fpscr: 0,
            tpidrurw: 0,
            tpidruro: 0,
            counter: 1,
            cpsr: Cpsr::clear(),
            bl_prefix: None,
            it: Seq::empty(),
            reservation: None,
        }
    }
}

/// The instruction was carried out.
pub open spec fn took(s: CpuState) -> (CpuState, Seen<bool>) {
    (s, Ok(true))
}

/// The word is not one of these instructions.
pub open spec fn passed(s: CpuState) -> (CpuState, Seen<bool>) {
    (s, Ok(false))
}

/// Execution stops at an unpredictable operation.
pub open spec fn unpredictable<T>(s: CpuState, what: Seq<char>) -> (CpuState, Seen<T>) {
    (s, Err(TrapView::Unpredictable(what)))
}

/// Execution stops at an undefined A32 word.
pub open spec fn undefined<T>(s: CpuState, pc: u32, instr: u32) -> (CpuState, Seen<T>) {
    (s, Err(TrapView::UndefinedArm { pc, instr }))
}

/// Execution stops at an undefined Thumb halfword.
pub open spec fn undefined_thumb<T>(s: CpuState, pc: u32, instr: u16) -> (CpuState, Seen<T>) {
    (s, Err(TrapView::UndefinedThumb { pc, instr }))
}

/// Execution stops at a privileged operation.
pub open spec fn privileged<T>(s: CpuState, pc: u32, instr: u32, operation: Seq<char>) -> (
    CpuState,
    Seen<T>,
) {
    (s, Err(TrapView::Privileged { pc, instr, operation }))
}

/// A step that leaves memory alone, with the memory.
pub open spec fn beside<T>(out: (CpuState, Seen<T>), m: MemState) -> (CpuState, MemState, Seen<T>) {
    (out.0, m, out.1)
}

/// Execution stops at a refused access.
pub open spec fn faulted<T>(s: CpuState, m: MemState, t: TrapView) -> (
    CpuState,
    MemState,
    Seen<T>,
) {
    (s, m, Err(t))
}

/// A byte store by the processor.
pub open spec fn cpu_store8(s: CpuState, m: MemState, addr: u32, v: u8) -> (
    CpuState,
    MemState,
    Seen<()>,
) {
    match m.store8(addr, v) {
        (m1, Ok(_)) => (s.after_store(addr, 1), m1, Ok(())),
        (m1, Err(t)) => (s, m1, Err(t)),
    }
}

/// A halfword store by the processor.
pub open spec fn cpu_store16(s: CpuState, m: MemState, addr: u32, v: u16) -> (
    CpuState,
    MemState,
    Seen<()>,
) {
    match m.store16(addr, v) {
        (m1, Ok(_)) => (s.after_store(addr, 2), m1, Ok(())),
        (m1, Err(t)) => (s, m1, Err(t)),
    }
}

/// A word store by the processor.
pub open spec fn cpu_store32(s: CpuState, m: MemState, addr: u32, v: u32) -> (
    CpuState,
    MemState,
    Seen<()>,
) {
    match m.store32(addr, v) {
        (m1, Ok(_)) => (s.after_store(addr, 4), m1, Ok(())),
        (m1, Err(t)) => (s, m1, Err(t)),
    }
}

/// What a processor keeps to itself: its register banks, its counter, and what
/// it remembers between instructions.
#[derive(Debug, Clone)]
pub struct CpuCore {
    regs: [u32; 16],
    sregs: [u32; 64],
    cp15_virtual_counter: u64,
    thumb_bl_prefix: Option<u32>,
    thumb_it: Vec<u32>,
    exclusive_reservation: Option<ExclusiveReservation>,
}

/// The processor: core registers, floating-point registers and status.
#[derive(Debug, Clone)]
pub struct Cpu {
    pub fpscr: u32,
    pub cp15_tpidrurw: u32,
    pub cp15_tpidruro: u32,
    pub cpsr: Cpsr,
    pub core: CpuCore,
}

impl View for Cpu {
    type V = CpuState;

    closed spec fn view(&self) -> CpuState {
        CpuState {
            regs: self.core.regs@,
            sregs: self.core.sregs@,
            fpscr: self.fpscr,
            tpidrurw: self.cp15_tpidrurw,
            tpidruro: self.cp15_tpidruro,
            counter: self.core.cp15_virtual_counter,
            cpsr: self.cpsr,
            bl_prefix: self.core.thumb_bl_prefix,
            it: self.core.thumb_it@,
            reservation: self.core.exclusive_reservation,
        }
    }
}

impl Default for Cpu {
    fn default() -> (r: Self)
        ensures
            r@ == CpuState::reset(),
    {
        Cpu::new()
    }
}

impl Cpu {
    /// The register banks of a processor have their sizes.
    pub proof fn view_wf(&self)
        ensures
            self@.wf(),
    {
    }

    /// The public fields are those of the state.
    pub proof fn view_fields(&self)
        ensures
            self@.cpsr == self.cpsr,
            self@.fpscr == self.fpscr,
            self@.tpidrurw == self.cp15_tpidrurw,
            self@.tpidruro == self.cp15_tpidruro,
    {
    }

    /// Writing public fields changes just them: a processor with the core of
    /// another one has its state but for the fields.
    pub proof fn written_fields(&self, before: &Cpu)
        requires
            self.core == before.core,
        ensures
            self@ == (CpuState {
                cpsr: self.cpsr,
                fpscr: self.fpscr,
                tpidrurw: self.cp15_tpidrurw,
                tpidruro: self.cp15_tpidruro,
                ..before@
            }),
    {
    }

    /// A processor after reset, in ARM state.
    pub fn new() -> (r: Self)
        ensures
            r@ == CpuState::reset(),
    {
        let r = Cpu {
            fpscr: 0,
            cp15_tpidrurw: 0,
            cp15_tpidruro: 0,
            cpsr: Cpsr::default(),
            core: CpuCore {
                regs: [0;16],
                sregs: [0;64],
                cp15_virtual_counter: 1,
                thumb_bl_prefix: None,
                thumb_it: Vec::new(),
                exclusive_reservation: None,
            },
        };
        assert(r@ =~= CpuState::reset());
        r
    }

    /// The current instruction set.
    pub fn isa(&self) -> (r: Isa)
        ensures
            r == if self@.cpsr.t {
                Isa::Thumb
            } else {
                Isa::Arm
            },
    {
        if self.cpsr.t {
            Isa::Thumb
        } else {
            Isa::Arm
        }
    }

    /// Selects an instruction set; ARM state has no IT block.
    pub fn set_isa(&mut self, isa: Isa)
        ensures
            final(self)@ == (CpuState {
                cpsr: Cpsr { t: isa == Isa::Thumb, ..old(self)@.cpsr },
                it: if isa == Isa::Arm {
                    Seq::empty()
                } else {
                    old(self)@.it
                },
                ..old(self)@
            }),
    {
        self.cpsr.t = isa == Isa::Thumb;
        if isa == Isa::Arm {
            self.core.thumb_it = Vec::new();
        }
    }

    /// Core register `idx`.
    pub fn reg(&self, idx: usize) -> (r: u32)
        requires
            idx < 16,
        ensures
            r == self@.r(idx),
    {
        self.core.regs[idx]
    }

    /// Sets core register `idx`.
    pub fn set_reg(&mut self, idx: usize, value: u32)
        requires
            idx < 16,
        ensures
            final(self)@ == old(self)@.with_r(idx, value),
    {
        self.core.regs[idx] = value;
    }

    /// Floating-point word `idx`.
    pub fn sreg(&self, idx: usize) -> (r: u32)
        requires
            idx < 64,
        ensures
            r == self@.s(idx),
    {
        self.core.sregs[idx]
    }

    /// Sets floating-point word `idx`.
    pub fn set_sreg(&mut self, idx: usize, value: u32)
        requires
            idx < 64,
        ensures
            final(self)@ == old(self)@.with_s(idx, value),
    {
        self.core.sregs[idx] = value;
    }

    /// Doubleword register `idx`.
    pub fn dreg(&self, idx: usize) -> (r: u64)
        requires
            idx < 32,
        ensures
            r == self@.d(idx),
    {
        (self.core.sregs[idx * 2] as u64) | ((self.core.sregs[idx * 2 + 1] as u64) << 32)
    }

    /// Sets doubleword register `idx`.
    pub fn set_dreg(&mut self, idx: usize, value: u64)
        requires
            idx < 32,
        ensures
            final(self)@ == old(self)@.with_d(idx, value),
    {
        self.core.sregs[idx * 2] = value as u32;
        self.core.sregs[idx * 2 + 1] = (value >> 32) as u32;
    }

    /// The program counter.
    pub fn pc(&self) -> (r: u32)
        ensures
            r == self@.r(15),
    {
        self.core.regs[15]
    }

    /// Sets the program counter and leaves the instruction set alone.
    pub fn set_pc(&mut self, value: u32)
        ensures
            final(self)@ == old(self)@.with_r(15, value),
    {
        self.core.regs[15] = value;
    }

    /// Jumps to `target`, whose lowest bit selects the instruction set.
    pub fn branch_exchange(&mut self, target: u32)
        ensures
            final(self)@ == old(self)@.jump(target),
    {
        self.cpsr.t = target & 1 != 0;
        if !self.cpsr.t {
            self.core.thumb_it = Vec::new();
        }
        self.core.regs[15] = target & !1u32;
        assert(self@ =~= old(self)@.jump(target));
    }

    /// The status flags.
    pub fn flags(&self) -> (r: Cpsr)
        ensures
            r == self@.cpsr,
    {
        self.cpsr
    }

    /// Replaces the status flags.
    pub fn set_flags(&mut self, c: Cpsr)
        ensures
            final(self)@ == old(self)@.with_cpsr(c),
    {
        self.cpsr = c;
    }

    /// Sets the sticky saturation flag where `sat` holds.
    pub(crate) fn saturated(&mut self, sat: bool)
        ensures
            final(self)@ == old(self)@.sticky(sat),
    {
        self.cpsr.q = self.cpsr.q || sat;
    }

    pub(crate) fn set_nz(&mut self, value: u32)
        ensures
            final(self)@ == old(self)@.with_cpsr(old(self)@.cpsr.nz(value)),
    {
        self.cpsr.set_nz(value);
    }

    pub(crate) fn set_nzc(&mut self, value: u32, carry: bool)
        ensures
            final(self)@ == old(self)@.with_cpsr(old(self)@.cpsr.nzc(value, carry)),
    {
        self.cpsr.set_nzc(value, carry);
    }

    pub(crate) fn set_nzcv(&mut self, value: u32, carry: bool, overflow: bool)
        ensures
            final(self)@ == old(self)@.with_cpsr(old(self)@.cpsr.nzcv(value, carry, overflow)),
    {
        self.cpsr.set_nzcv(value, carry, overflow);
    }

    /// The floating-point status.
    pub fn fp_status(&self) -> (r: u32)
        ensures
            r == self@.fpscr,
    {
        self.fpscr
    }

    /// Replaces the floating-point status.
    pub fn set_fp_status(&mut self, v: u32)
        ensures
            final(self)@ == old(self)@.with_fpscr(v),
    {
        self.fpscr = v;
    }

    /// The thread identifier that user code can write.
    pub fn thread_id_rw(&self) -> (r: u32)
        ensures
            r == self@.tpidrurw,
    {
        self.cp15_tpidrurw
    }

    /// Sets the thread identifier that user code can write.
    pub fn set_thread_id_rw(&mut self, v: u32)
        ensures
            final(self)@ == (CpuState { tpidrurw: v, ..old(self)@ }),
    {
        self.cp15_tpidrurw = v;
    }

    /// The thread identifier that user code can only read.
    pub fn thread_id_ro(&self) -> (r: u32)
        ensures
            r == self@.tpidruro,
    {
        self.cp15_tpidruro
    }

    /// Sets the thread identifier that user code can only read.
    pub fn set_thread_id_ro(&mut self, v: u32)
        ensures
            final(self)@ == (CpuState { tpidruro: v, ..old(self)@ }),
    {
        self.cp15_tpidruro = v;
    }

    /// The virtual counter that guest code reads.
    pub fn cp15_virtual_counter(&self) -> (r: u64)
        ensures
            r == self@.counter,
    {
        self.core.cp15_virtual_counter
    }

    /// Sets the virtual counter.
    pub fn set_cp15_virtual_counter(&mut self, v: u64)
        ensures
            final(self)@ == (CpuState { counter: v, ..old(self)@ }),
    {
        self.core.cp15_virtual_counter = v;
    }

    pub(crate) fn take_bl_prefix(&mut self) -> (r: Option<u32>)
        ensures
            r == old(self)@.bl_prefix,
            final(self)@ == old(self)@.with_bl_prefix(None),
    {
        let r = self.core.thumb_bl_prefix;
        self.core.thumb_bl_prefix = None;
        r
    }

    pub(crate) fn set_bl_prefix(&mut self, p: Option<u32>)
        ensures
            final(self)@ == old(self)@.with_bl_prefix(p),
    {
        self.core.thumb_bl_prefix = p;
    }

    pub(crate) fn set_it(&mut self, it: Vec<u32>)
        ensures
            final(self)@ == old(self)@.with_it(it@),
    {
        self.core.thumb_it = it;
    }

    /// Takes the next pending IT condition, if there is one.
    pub(crate) fn consume_thumb_it_condition(&mut self) -> (r: Option<u32>)
        ensures
            old(self)@.it.len() == 0 ==> r is None && final(self)@ == old(self)@,
            old(self)@.it.len() > 0 ==> r == Some(old(self)@.it[0]) && final(self)@ == old(
                self,
            )@.with_it(old(self)@.it.drop_first()),
    {
        if self.core.thumb_it.len() == 0 {
            return None;
        }
        let cond = self.core.thumb_it.remove(0);
        assert(self@ =~= old(self)@.with_it(old(self)@.it.drop_first()));
        Some(cond)
    }

    pub(crate) fn reservation(&self) -> (r: Option<ExclusiveReservation>)
        ensures
            r == self@.reservation,
    {
        self.core.exclusive_reservation
    }

    pub(crate) fn set_reservation(&mut self, r: Option<ExclusiveReservation>)
        ensures
            final(self)@ == old(self)@.with_reservation(r),
    {
        self.core.exclusive_reservation = r;
    }

    pub(crate) fn clear_exclusive_if_store_overlaps(&mut self, addr: u32, size: u8)
        ensures
            final(self)@ == old(self)@.after_store(addr, size),
    {
        if let Some(reservation) = self.core.exclusive_reservation {
            let store_start = addr as u64;
            let store_end = store_start + size as u64;
            let res_start = reservation.addr as u64;
            let res_end = res_start + reservation.size as u64;
            if store_start < res_end && res_start < store_end {
                self.core.exclusive_reservation = None;
            }
        }
    }

    pub(crate) fn store8<M: Memory>(&mut self, mem: &mut M, addr: u32, value: u8) -> (r: Result<()>)
        ensures
            (final(self)@, final(mem).state(), seen(r)) == cpu_store8(
                old(self)@,
                old(mem).state(),
                addr,
                value,
            ),
    {
        mem.store8(addr, value)?;
        self.clear_exclusive_if_store_overlaps(addr, 1);
        Ok(())
    }

    pub(crate) fn store16<M: Memory>(&mut self, mem: &mut M, addr: u32, value: u16) -> (r: Result<
        (),
    >)
        ensures
            (final(self)@, final(mem).state(), seen(r)) == cpu_store16(
                old(self)@,
                old(mem).state(),
                addr,
                value,
            ),
    {
        mem.store16(addr, value)?;
        self.clear_exclusive_if_store_overlaps(addr, 2);
        Ok(())
    }

    pub(crate) fn store32<M: Memory>(&mut self, mem: &mut M, addr: u32, value: u32) -> (r: Result<
        (),
    >)
        ensures
            (final(self)@, final(mem).state(), seen(r)) == cpu_store32(
                old(self)@,
                old(mem).state(),
                addr,
                value,
            ),
    {
        mem.store32(addr, value)?;
        self.clear_exclusive_if_store_overlaps(addr, 4);
        Ok(())
    }

    pub(crate) fn arm_read_reg(&self, idx: usize, pc: u32) -> (r: u32)
        requires
            idx < 16,
        ensures
            r == self@.ra(idx, pc),
    {
        if idx == 15 {
            pc.wrapping_add(8)
        } else {
            self.core.regs[idx]
        }
    }

    pub(crate) fn thumb_read_reg(&self, idx: usize, pc: u32) -> (r: u32)
        requires
            idx < 16,
        ensures
            r == self@.rt(idx, pc),
    {
        if idx == 15 {
            pc.wrapping_add(4)
        } else {
            self.core.regs[idx]
        }
    }

    pub(crate) fn write_reg_arm(&mut self, idx: usize, value: u32)
        requires
            idx < 16,
        ensures
            final(self)@ == old(self)@.wa(idx, value),
    {
        if idx == 15 {
            self.branch_exchange(value);
        } else {
            self.core.regs[idx] = value;
        }
    }

    pub(crate) fn write_reg_thumb(&mut self, idx: usize, value: u32)
        requires
            idx < 16,
        ensures
            final(self)@ == old(self)@.wt(idx, value),
    {
        if idx == 15 {
            self.core.regs[15] = value & !1u32;
        } else {
            self.core.regs[idx] = value;
        }
    }
}

} // verus!
