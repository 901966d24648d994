//! The 16-bit Thumb instructions.

use super::alu::{
    add_with_carry, add_with_flags, condition_passed, diff3, holds, shift_operand, shifted,
    sub_with_flags, sum3, Shift, Shifted,
};
use super::arm_misc::{rev16, reverse_halves, reverse_signed_half, revsh};
use super::arm_transfer::{arm_load_list, arm_store_list};
use super::bits::{
    bit, bit_at, count_ones, field3, group_masks, low_mask, mask_of, ones_below, rev32, sext,
    sign_extend, swap_bytes, t3,
};
use super::cpu::{
    beside, cpu_store16, cpu_store32, cpu_store8, faulted, undefined_thumb, unpredictable, Cpu,
    CpuState, Seen,
};
use super::memory::{MemState, Memory};
use super::trap::{seen, Result, Trap, TrapView};
use vstd::prelude::*;

verus! {

broadcast use group_masks;

/// A result written with the negative and zero flags.
pub open spec fn put_nz(s: CpuState, rd: usize, v: u32) -> CpuState {
    let s1 = s.with_r(rd, v);
    s1.with_cpsr(s1.cpsr.nz(v))
}

/// A shift result written with its carry.
pub open spec fn put_shift(s: CpuState, rd: usize, v: Shifted) -> CpuState {
    let s1 = s.with_r(rd, v.value);
    s1.with_cpsr(s1.cpsr.nzc(v.value, v.carry))
}

/// A sum written with all four flags.
pub open spec fn put_sum(s: CpuState, rd: usize, v: (u32, bool, bool)) -> CpuState {
    let s1 = s.with_r(rd, v.0);
    s1.with_cpsr(s1.cpsr.nzcv(v.0, v.1, v.2))
}

/// The flags of a sum without the sum.
pub open spec fn only_flags(s: CpuState, v: (u32, bool, bool)) -> CpuState {
    s.with_cpsr(s.cpsr.nzcv(v.0, v.1, v.2))
}

/// A completed instruction.
pub open spec fn fin(s: CpuState) -> (CpuState, Seen<()>) {
    (s, Ok(()))
}

/// Shifts by an immediate, and three-operand additions and subtractions.
pub open spec fn thumb_shift_add_sub(s: CpuState, instr: u16) -> CpuState {
    let rs = s.r(t3(instr, 3));
    let rd = t3(instr, 0);
    if instr & 0x1800 == 0x1800 {
        let rhs = if instr & 0x0400 != 0 {
            t3(instr, 6) as u32
        } else {
            s.r(t3(instr, 6))
        };
        put_sum(
            s,
            rd,
            if instr & 0x0200 != 0 {
                diff3(rs, rhs)
            } else {
                sum3(rs, rhs, false)
            },
        )
    } else {
        let kind = (instr >> 11) & 3;
        let amount = ((instr >> 6) & 0x1f) as u32;
        let shift = if kind == 0 {
            Shift::Lsl
        } else if kind == 1 {
            Shift::Lsr
        } else {
            Shift::Asr
        };
        put_shift(s, rd, shifted(rs, shift, amount, s.cpsr.c, true))
    }
}

/// MOV, CMP, ADD and SUB with a byte.
pub open spec fn thumb_imm8(s: CpuState, instr: u16) -> CpuState {
    let op = (instr >> 11) & 3;
    let rd = t3(instr, 8);
    let imm = (instr & 0xff) as u32;
    if op == 0 {
        put_nz(s, rd, imm)
    } else if op == 1 {
        only_flags(s, diff3(s.r(rd), imm))
    } else if op == 2 {
        put_sum(s, rd, sum3(s.r(rd), imm, false))
    } else {
        put_sum(s, rd, diff3(s.r(rd), imm))
    }
}

/// The two-register operations.
pub open spec fn thumb_alu(s: CpuState, instr: u16) -> CpuState {
    let op = (instr >> 6) & 0xf;
    let rd = t3(instr, 0);
    let lhs = s.r(rd);
    let rhs = s.r(t3(instr, 3));
    let c = s.cpsr.c;
    if op == 0x0 {
        put_nz(s, rd, lhs & rhs)
    } else if op == 0x1 {
        put_nz(s, rd, lhs ^ rhs)
    } else if op == 0x2 {
        put_shift(s, rd, shifted(lhs, Shift::Lsl, rhs & 0xff, c, false))
    } else if op == 0x3 {
        put_shift(s, rd, shifted(lhs, Shift::Lsr, rhs & 0xff, c, false))
    } else if op == 0x4 {
        put_shift(s, rd, shifted(lhs, Shift::Asr, rhs & 0xff, c, false))
    } else if op == 0x5 {
        put_sum(s, rd, sum3(lhs, rhs, c))
    } else if op == 0x6 {
        put_sum(s, rd, sum3(lhs, !rhs, c))
    } else if op == 0x7 {
        put_shift(s, rd, shifted(lhs, Shift::Ror, rhs & 0xff, c, false))
    } else if op == 0x8 {
        s.with_cpsr(s.cpsr.nz(lhs & rhs))
    } else if op == 0x9 {
        put_sum(s, rd, diff3(0, rhs))
    } else if op == 0xa {
        only_flags(s, diff3(lhs, rhs))
    } else if op == 0xb {
        only_flags(s, sum3(lhs, rhs, false))
    } else if op == 0xc {
        put_nz(s, rd, lhs | rhs)
    } else if op == 0xd {
        put_nz(s, rd, lhs.wrapping_mul(rhs))
    } else if op == 0xe {
        put_nz(s, rd, lhs & !rhs)
    } else {
        put_nz(s, rd, !rhs)
    }
}

/// The full register number of a high-register operand.
pub open spec fn high_reg(low: usize, high: bool) -> usize {
    if high {
        (low + 8) as usize
    } else {
        low
    }
}

/// High-register additions, comparisons, moves and branches.
pub open spec fn thumb_high(s: CpuState, instr: u16, pc: u32) -> (CpuState, Seen<()>) {
    let op = (instr >> 8) & 3;
    let h1 = instr & 0x80 != 0;
    let rd = high_reg(t3(instr, 0), h1);
    let rm = high_reg(t3(instr, 3), instr & 0x40 != 0);
    let lhs = s.rt(rd, pc);
    let rhs = s.rt(rm, pc);
    if op == 0 {
        if rd == 15 && rm == 15 {
            unpredictable(s, "Thumb high-register ADD with PC operands"@)
        } else {
            fin(s.wt(rd, lhs.wrapping_add(rhs)))
        }
    } else if op == 1 {
        if (rd < 8 && rm < 8) || rd == 15 || rm == 15 {
            unpredictable(s, "Thumb high-register CMP with invalid registers"@)
        } else {
            fin(only_flags(s, diff3(lhs, rhs)))
        }
    } else if op == 2 {
        fin(s.wt(rd, rhs))
    } else if h1 {
        fin(s.with_r(14, pc.wrapping_add(2) | 1).jump(rhs))
    } else {
        fin(s.jump(rhs))
    }
}

/// A word loaded into a register.
pub open spec fn word_load(s: CpuState, m: MemState, addr: u32, rd: usize) -> (
    CpuState,
    MemState,
    Seen<()>,
) {
    match m.load32(addr) {
        Ok(v) => (s.with_r(rd, v), m, Ok(())),
        Err(t) => faulted(s, m, t),
    }
}

/// A halfword loaded into a register, sign-extended on request.
pub open spec fn half_load(s: CpuState, m: MemState, addr: u32, rd: usize, signed: bool) -> (
    CpuState,
    MemState,
    Seen<()>,
) {
    match m.load16(addr) {
        Ok(v) => (
            s.with_r(
                rd,
                if signed {
                    sext(v as u32, 16) as u32
                } else {
                    v as u32
                },
            ),
            m,
            Ok(()),
        ),
        Err(t) => faulted(s, m, t),
    }
}

/// A byte loaded into a register, sign-extended on request.
pub open spec fn byte_load(s: CpuState, m: MemState, addr: u32, rd: usize, signed: bool) -> (
    CpuState,
    MemState,
    Seen<()>,
) {
    match m.load8(addr) {
        Ok(v) => (
            s.with_r(
                rd,
                if signed {
                    sext(v as u32, 8) as u32
                } else {
                    v as u32
                },
            ),
            m,
            Ok(()),
        ),
        Err(t) => faulted(s, m, t),
    }
}

/// Loads and stores with a register offset.
pub open spec fn thumb_register_offset(s: CpuState, m: MemState, instr: u16) -> (
    CpuState,
    MemState,
    Seen<()>,
) {
    let op = (instr >> 9) & 7;
    let rd = t3(instr, 0);
    let addr = s.r(t3(instr, 3)).wrapping_add(s.r(t3(instr, 6)));
    if op == 0 {
        cpu_store32(s, m, addr, s.r(rd))
    } else if op == 1 {
        cpu_store16(s, m, addr, s.r(rd) as u16)
    } else if op == 2 {
        cpu_store8(s, m, addr, s.r(rd) as u8)
    } else if op == 3 {
        byte_load(s, m, addr, rd, true)
    } else if op == 4 {
        word_load(s, m, addr, rd)
    } else if op == 5 {
        half_load(s, m, addr, rd, false)
    } else if op == 6 {
        byte_load(s, m, addr, rd, false)
    } else {
        half_load(s, m, addr, rd, true)
    }
}

/// The Thumb loads and stores.
pub open spec fn thumb_load_store(s: CpuState, m: MemState, instr: u16, pc: u32) -> (
    CpuState,
    MemState,
    Seen<()>,
) {
    let imm5 = ((instr >> 6) & 0x1f) as u32;
    let load = instr & 0x0800 != 0;
    let low = t3(instr, 0);
    let base = s.r(t3(instr, 3));
    if instr & 0xf000 == 0x5000 {
        thumb_register_offset(s, m, instr)
    } else if instr & 0xe000 == 0x6000 {
        if instr & 0x1000 != 0 {
            let addr = base.wrapping_add(imm5);
            if load {
                byte_load(s, m, addr, low, false)
            } else {
                cpu_store8(s, m, addr, s.r(low) as u8)
            }
        } else {
            let addr = base.wrapping_add(imm5 << 2);
            if load {
                word_load(s, m, addr, low)
            } else {
                cpu_store32(s, m, addr, s.r(low))
            }
        }
    } else if instr & 0xf000 == 0x8000 {
        let addr = base.wrapping_add(imm5 << 1);
        if load {
            half_load(s, m, addr, low, false)
        } else {
            cpu_store16(s, m, addr, s.r(low) as u16)
        }
    } else if instr & 0xf000 == 0x9000 {
        let rd = t3(instr, 8);
        let addr = s.r(13).wrapping_add(((instr & 0xff) as u32) << 2);
        if load {
            word_load(s, m, addr, rd)
        } else {
            cpu_store32(s, m, addr, s.r(rd))
        }
    } else {
        beside(undefined_thumb(s, pc, instr), m)
    }
}

/// Register operations, literal loads and register-offset transfers.
pub open spec fn thumb_alu_space(s: CpuState, m: MemState, instr: u16, pc: u32) -> (
    CpuState,
    MemState,
    Seen<()>,
) {
    if instr & 0xf800 == 0x4800 {
        let addr = (pc.wrapping_add(4) & !3u32).wrapping_add(((instr & 0xff) as u32) << 2);
        word_load(s, m, addr, t3(instr, 8))
    } else if instr & 0xfc00 == 0x4000 {
        beside(fin(thumb_alu(s, instr)), m)
    } else if instr & 0xfc00 == 0x4400 {
        beside(thumb_high(s, instr, pc), m)
    } else if instr & 0xf000 == 0x5000 {
        thumb_load_store(s, m, instr, pc)
    } else {
        beside(undefined_thumb(s, pc, instr), m)
    }
}

/// How many instructions an IT mask covers: up to its lowest set bit.
pub open spec fn it_len(mask: u16) -> nat {
    if mask & 1 != 0 {
        4
    } else if mask & 2 != 0 {
        3
    } else if mask & 4 != 0 {
        2
    } else {
        1
    }
}

/// The condition of instruction `i` in an IT block: a mask bit equal to the
/// lowest condition bit repeats the condition, another one inverts it.
pub open spec fn it_cond(cond: u32, mask: u16, i: int) -> u32 {
    if i == 0 || ((mask >> ((4 - i) as u16)) & 1 != 0) == (cond & 1 != 0) {
        cond
    } else {
        cond ^ 1
    }
}

/// The conditions of an IT block.
pub open spec fn it_conds(cond: u32, mask: u16) -> Seq<u32> {
    Seq::new(it_len(mask), |i: int| it_cond(cond, mask, i))
}

/// IT.
pub open spec fn thumb_it(s: CpuState, cond: u32, mask: u16, pc: u32, instr: u16) -> (
    CpuState,
    Seen<()>,
) {
    if cond == 0xf || mask == 0 {
        undefined_thumb(s, pc, instr)
    } else {
        fin(s.with_it(it_conds(cond, mask)))
    }
}

/// The low registers of a list popped one after another, from `reg` on.
pub open spec fn pop_list(s: CpuState, m: MemState, list: u32, reg: usize) -> (
    CpuState,
    MemState,
    Seen<()>,
)
    decreases 8 - reg,
{
    if reg >= 8 {
        (s, m, Ok(()))
    } else if !bit(list, reg as u32) {
        pop_list(s, m, list, (reg + 1) as usize)
    } else {
        match m.load32(s.r(13)) {
            Ok(v) => {
                let s1 = s.with_r(reg, v);
                pop_list(s1.with_r(13, s1.r(13).wrapping_add(4)), m, list, (reg + 1) as usize)
            },
            Err(t) => faulted(s, m, t),
        }
    }
}

/// POP.
pub open spec fn thumb_pop(s: CpuState, m: MemState, instr: u16) -> (
    CpuState,
    MemState,
    Seen<()>,
) {
    match pop_list(s, m, (instr & 0xff) as u32, 0) {
        (s1, m1, Ok(_)) => if instr & 0x0100 == 0 {
            (s1, m1, Ok(()))
        } else {
            match m1.load32(s1.r(13)) {
                Ok(v) => (s1.with_r(13, s1.r(13).wrapping_add(4)).jump(v), m1, Ok(())),
                Err(t) => faulted(s1, m1, t),
            }
        },
        (s1, m1, Err(t)) => (s1, m1, Err(t)),
    }
}

/// PUSH: the link register counts as the last of the list.
pub open spec fn thumb_push(s: CpuState, m: MemState, instr: u16, pc: u32) -> (
    CpuState,
    MemState,
    Seen<()>,
) {
    let list = pushed_list(instr);
    let sp = s.r(13).wrapping_sub((4 * ones_below(list, 16)) as u32);
    arm_store_list(s.with_r(13, sp), m, list, 0, sp, pc)
}

/// The registers that a PUSH stores.
pub open spec fn pushed_list(instr: u16) -> u32 {
    ((instr & 0xff) as u32) | (if instr & 0x0100 != 0 {
        0x4000u32
    } else {
        0
    })
}

/// The miscellaneous Thumb space without the stack transfers.
pub open spec fn thumb_misc_plain(s: CpuState, instr: u16, pc: u32) -> (CpuState, Seen<()>) {
    let op = (instr >> 6) & 3;
    let rd = t3(instr, 0);
    let v = s.r(t3(instr, 3));
    if instr & 0xff00 == 0xb200 {
        fin(
            s.with_r(
                rd,
                if op == 0 {
                    sext(v & 0xffff, 16) as u32
                } else if op == 1 {
                    sext(v & 0xff, 8) as u32
                } else if op == 2 {
                    v & 0xffff
                } else {
                    v & 0xff
                },
            ),
        )
    } else if instr & 0xff00 == 0xba00 {
        if op == 0 {
            fin(s.with_r(rd, rev32(v)))
        } else if op == 1 {
            fin(s.with_r(rd, rev16(v)))
        } else if op == 3 {
            fin(s.with_r(rd, revsh(v)))
        } else {
            undefined_thumb(s, pc, instr)
        }
    } else if instr & 0xff00 == 0xbf00 {
        if instr & 0xf == 0 {
            fin(s)
        } else {
            thumb_it(s, ((instr >> 4) & 0xf) as u32, instr & 0xf, pc, instr)
        }
    } else if instr & 0xff00 == 0xbe00 {
        (s, Err(TrapView::Breakpoint { pc, comment: (instr & 0xff) as u32 }))
    } else if instr & 0xfff7 == 0xb650 {
        if instr & 8 != 0 {
            unpredictable(s, "SETEND big-endian mode unsupported"@)
        } else {
            fin(s)
        }
    } else if instr & 0xffe8 == 0xb660 {
        (s, Err(TrapView::Privileged { pc, instr: instr as u32, operation: "CPS"@ }))
    } else if instr & 0xf000 == 0xa000 {
        let base = if instr & 0x0800 != 0 {
            s.r(13)
        } else {
            pc.wrapping_add(4) & !3u32
        };
        fin(s.with_r(t3(instr, 8), base.wrapping_add(((instr & 0xff) as u32) << 2)))
    } else if instr & 0xf500 == 0xb100 {
        let offset = ((((instr >> 9) & 1) as u32) << 6) | ((((instr >> 3) & 0x1f) as u32) << 1);
        if (s.r(rd) != 0) == (instr & 0x0800 != 0) {
            fin(s.with_r(15, pc.wrapping_add(4).wrapping_add(offset)))
        } else {
            fin(s)
        }
    } else {
        let offset = ((instr & 0x7f) as u32) << 2;
        if instr & 0x80 != 0 {
            fin(s.with_r(13, s.r(13).wrapping_sub(offset)))
        } else {
            fin(s.with_r(13, s.r(13).wrapping_add(offset)))
        }
    }
}

/// Whether a halfword belongs to the plain miscellaneous instructions.
pub open spec fn is_misc_plain(instr: u16) -> bool {
    let top = instr & 0xff00;
    top == 0xb200 || top == 0xba00 || top == 0xbf00 || top == 0xbe00 || instr & 0xfff7 == 0xb650
        || instr & 0xffe8 == 0xb660 || instr & 0xf000 == 0xa000 || instr & 0xf500 == 0xb100 || top
        == 0xb000
}

/// The miscellaneous Thumb space.
pub open spec fn thumb_misc(s: CpuState, m: MemState, instr: u16, pc: u32) -> (
    CpuState,
    MemState,
    Seen<()>,
) {
    if is_misc_plain(instr) {
        beside(thumb_misc_plain(s, instr, pc), m)
    } else if instr & 0xf600 == 0xb400 {
        if instr & 0xff == 0 && instr & 0x0100 == 0 {
            beside(unpredictable(s, "empty Thumb push/pop register list"@), m)
        } else if instr & 0x0800 != 0 {
            thumb_pop(s, m, instr)
        } else {
            thumb_push(s, m, instr, pc)
        }
    } else {
        beside(undefined_thumb(s, pc, instr), m)
    }
}

/// LDMIA and STMIA on low registers.
pub open spec fn thumb_multiple(s: CpuState, m: MemState, instr: u16, pc: u32) -> (
    CpuState,
    MemState,
    Seen<()>,
) {
    let load = instr & 0x0800 != 0;
    let rb = t3(instr, 8);
    let list = (instr & 0xff) as u32;
    let base = s.r(rb);
    let listed = bit(list, rb as u32);
    if list == 0 {
        beside(unpredictable(s, "empty Thumb load/store multiple list"@), m)
    } else if !load && listed && list & low_mask(rb as u32) != 0 {
        beside(unpredictable(s, "Thumb STM writeback base not first in register list"@), m)
    } else {
        let end = base.wrapping_add((4 * ones_below(list, 16)) as u32);
        let out = if load {
            arm_load_list(s, m, list, 0, base)
        } else {
            arm_store_list(s, m, list, 0, base, pc)
        };
        match out {
            (s1, m1, Ok(_)) => (
                if !load || !listed {
                    s1.with_r(rb, end)
                } else {
                    s1
                },
                m1,
                Ok(()),
            ),
            (s1, m1, Err(t)) => (s1, m1, Err(t)),
        }
    }
}

/// Multiple transfers, conditional branches and supervisor calls.
pub open spec fn thumb_multi_or_branch(s: CpuState, m: MemState, instr: u16, pc: u32) -> (
    CpuState,
    MemState,
    Seen<()>,
) {
    let cond = ((instr >> 8) & 0xf) as u32;
    if instr & 0xf000 == 0xc000 {
        thumb_multiple(s, m, instr, pc)
    } else if instr & 0xf000 == 0xd000 {
        if cond == 0xf {
            (s, m, Err(TrapView::SoftwareInterrupt { pc, comment: (instr & 0xff) as u32 }))
        } else if cond == 0xe {
            beside(undefined_thumb(s, pc, instr), m)
        } else if holds(cond, s.cpsr) {
            let offset = sext(((instr & 0xff) as u32) << 1, 9) as u32;
            (s.with_r(15, pc.wrapping_add(4).wrapping_add(offset)), m, Ok(()))
        } else {
            (s, m, Ok(()))
        }
    } else {
        beside(undefined_thumb(s, pc, instr), m)
    }
}

/// Unconditional branches and the two halves of BL and BLX.
pub open spec fn thumb_branch_long(s: CpuState, instr: u16, pc: u32) -> (CpuState, Seen<()>) {
    let top = instr & 0xf800;
    let imm = (instr & 0x7ff) as u32;
    let taken = s.with_bl_prefix(None);
    let linked = taken.with_r(14, pc.wrapping_add(2) | 1);
    if top == 0xe000 {
        fin(s.with_r(15, pc.wrapping_add(4).wrapping_add(sext(imm << 1, 12) as u32)))
    } else if top == 0xe800 {
        match s.bl_prefix {
            None => unpredictable(taken, "Thumb BLX suffix without prefix"@),
            Some(prefix) => fin(linked.jump(prefix.wrapping_add(imm << 1) & !3u32)),
        }
    } else if top == 0xf000 {
        fin(
            s.with_bl_prefix(Some(pc.wrapping_add(4).wrapping_add(sext(imm << 12, 23) as u32))),
        )
    } else if top == 0xf800 {
        match s.bl_prefix {
            None => unpredictable(taken, "Thumb BL suffix without prefix"@),
            Some(prefix) => fin(linked.with_r(15, prefix.wrapping_add(imm << 1))),
        }
    } else {
        undefined_thumb(s, pc, instr)
    }
}

/// What a 16-bit Thumb instruction does.
pub open spec fn thumb(s: CpuState, m: MemState, instr: u16, pc: u32) -> (
    CpuState,
    MemState,
    Seen<()>,
) {
    let op = instr >> 13;
    if op == 0 {
        beside(fin(thumb_shift_add_sub(s, instr)), m)
    } else if op == 1 {
        beside(fin(thumb_imm8(s, instr)), m)
    } else if op == 2 {
        thumb_alu_space(s, m, instr, pc)
    } else if op == 3 || op == 4 {
        thumb_load_store(s, m, instr, pc)
    } else if op == 5 {
        thumb_misc(s, m, instr, pc)
    } else if op == 6 {
        thumb_multi_or_branch(s, m, instr, pc)
    } else {
        beside(thumb_branch_long(s, instr, pc), m)
    }
}

impl Cpu {
    /// Executes a 16-bit Thumb instruction that was fetched from `pc`.
    pub fn execute_thumb<M: Memory>(&mut self, instr: u16, pc: u32, mem: &mut M) -> (r: Result<()>)
        ensures
            (final(self)@, final(mem).state(), seen(r)) == thumb(
                old(self)@,
                old(mem).state(),
                instr,
                pc,
            ),
    {
        match instr >> 13 {
            0 => self.exec_thumb_shift_add_sub(instr),
            1 => self.exec_thumb_imm(instr),
            2 => self.exec_thumb_alu_hi_bx_load_literal(instr, pc, mem),
            3 | 4 => self.exec_thumb_load_store(instr, pc, mem),
            5 => self.exec_thumb_misc(instr, pc, mem),
            6 => self.exec_thumb_multi_or_branch(instr, pc, mem),
            _ => self.exec_thumb_branch_long(instr, pc),
        }
    }

    pub(crate) fn put_nz(&mut self, rd: usize, v: u32)
        requires
            rd < 16,
        ensures
            final(self)@ == put_nz(old(self)@, rd, v),
    {
        self.set_reg(rd, v);
        self.set_nz(v);
    }

    pub(crate) fn put_shift(&mut self, rd: usize, v: Shifted)
        requires
            rd < 16,
        ensures
            final(self)@ == put_shift(old(self)@, rd, v),
    {
        self.set_reg(rd, v.value);
        self.set_nzc(v.value, v.carry);
    }

    pub(crate) fn put_sum(&mut self, rd: usize, v: (u32, bool, bool))
        requires
            rd < 16,
        ensures
            final(self)@ == put_sum(old(self)@, rd, v),
    {
        self.set_reg(rd, v.0);
        self.set_nzcv(v.0, v.1, v.2);
    }

    pub(crate) fn only_flags(&mut self, v: (u32, bool, bool))
        ensures
            final(self)@ == only_flags(old(self)@, v),
    {
        self.set_nzcv(v.0, v.1, v.2);
    }

    fn exec_thumb_shift_add_sub(&mut self, instr: u16) -> (r: Result<()>)
        requires
            instr >> 13 == 0,
        ensures
            r is Ok,
            final(self)@ == thumb_shift_add_sub(old(self)@, instr),
    {
        let rs = self.reg(field3(instr, 3));
        let rd = field3(instr, 0);
        if instr & 0x1800 == 0x1800 {
            let rhs = if instr & 0x0400 != 0 {
                field3(instr, 6) as u32
            } else {
                self.reg(field3(instr, 6))
            };
            let sum = if instr & 0x0200 != 0 {
                sub_with_flags(rs, rhs)
            } else {
                add_with_flags(rs, rhs)
            };
            self.put_sum(rd, sum);
            return Ok(());
        }
        let amount = ((instr >> 6) & 0x1f) as u32;
        let shift = match (instr >> 11) & 3 {
            0 => Shift::Lsl,
            1 => Shift::Lsr,
            _ => Shift::Asr,
        };
        let value = shift_operand(rs, shift, amount, self.flags().c, true);
        self.put_shift(rd, value);
        Ok(())
    }

    fn exec_thumb_imm(&mut self, instr: u16) -> (r: Result<()>)
        ensures
            r is Ok,
            final(self)@ == thumb_imm8(old(self)@, instr),
    {
        let rd = field3(instr, 8);
        let imm = (instr & 0xff) as u32;
        let old = self.reg(rd);
        match (instr >> 11) & 3 {
            0 => self.put_nz(rd, imm),
            1 => self.only_flags(sub_with_flags(old, imm)),
            2 => self.put_sum(rd, add_with_flags(old, imm)),
            _ => self.put_sum(rd, sub_with_flags(old, imm)),
        }
        Ok(())
    }

    fn exec_thumb_alu(&mut self, instr: u16)
        ensures
            final(self)@ == thumb_alu(old(self)@, instr),
    {
        let rd = field3(instr, 0);
        let lhs = self.reg(rd);
        let rhs = self.reg(field3(instr, 3));
        let c = self.flags().c;
        match (instr >> 6) & 0xf {
            0x0 => self.put_nz(rd, lhs & rhs),
            0x1 => self.put_nz(rd, lhs ^ rhs),
            0x2 => self.put_shift(rd, shift_operand(lhs, Shift::Lsl, rhs & 0xff, c, false)),
            0x3 => self.put_shift(rd, shift_operand(lhs, Shift::Lsr, rhs & 0xff, c, false)),
            0x4 => self.put_shift(rd, shift_operand(lhs, Shift::Asr, rhs & 0xff, c, false)),
            0x5 => self.put_sum(rd, add_with_carry(lhs, rhs, c)),
            0x6 => self.put_sum(rd, add_with_carry(lhs, !rhs, c)),
            0x7 => self.put_shift(rd, shift_operand(lhs, Shift::Ror, rhs & 0xff, c, false)),
            0x8 => self.set_nz(lhs & rhs),
            0x9 => self.put_sum(rd, sub_with_flags(0, rhs)),
            0xa => self.only_flags(sub_with_flags(lhs, rhs)),
            0xb => self.only_flags(add_with_flags(lhs, rhs)),
            0xc => self.put_nz(rd, lhs | rhs),
            0xd => self.put_nz(rd, lhs.wrapping_mul(rhs)),
            0xe => self.put_nz(rd, lhs & !rhs),
            _ => self.put_nz(rd, !rhs),
        }
    }

    fn exec_thumb_high(&mut self, instr: u16, pc: u32) -> (r: Result<()>)
        ensures
            (final(self)@, seen(r)) == thumb_high(old(self)@, instr, pc),
    {
        let h1 = instr & 0x80 != 0;
        let h2 = instr & 0x40 != 0;
        let rd = if h1 {
            field3(instr, 0) + 8
        } else {
            field3(instr, 0)
        };
        let rm = if h2 {
            field3(instr, 3) + 8
        } else {
            field3(instr, 3)
        };
        let lhs = self.thumb_read_reg(rd, pc);
        let rhs = self.thumb_read_reg(rm, pc);
        match (instr >> 8) & 3 {
            0 => {
                if rd == 15 && rm == 15 {
                    return Err(Trap::Unpredictable("Thumb high-register ADD with PC operands"));
                }
                self.write_reg_thumb(rd, lhs.wrapping_add(rhs));
            },
            1 => {
                if (rd < 8 && rm < 8) || rd == 15 || rm == 15 {
                    return Err(
                        Trap::Unpredictable("Thumb high-register CMP with invalid registers"),
                    );
                }
                self.only_flags(sub_with_flags(lhs, rhs));
            },
            2 => self.write_reg_thumb(rd, rhs),
            _ => {
                if h1 {
                    self.set_reg(14, pc.wrapping_add(2) | 1);
                }
                self.branch_exchange(rhs);
            },
        }
        Ok(())
    }

    fn exec_thumb_alu_hi_bx_load_literal<M: Memory>(
        &mut self,
        instr: u16,
        pc: u32,
        mem: &mut M,
    ) -> (r: Result<()>)
        ensures
            (final(self)@, final(mem).state(), seen(r)) == thumb_alu_space(
                old(self)@,
                old(mem).state(),
                instr,
                pc,
            ),
    {
        if instr & 0xf800 == 0x4800 {
            let rd = field3(instr, 8);
            let addr = pc.wrapping_add(4) & !3u32;
            let value = mem.load32(addr.wrapping_add(((instr & 0xff) as u32) << 2))?;
            self.set_reg(rd, value);
            return Ok(());
        }
        if instr & 0xfc00 == 0x4000 {
            self.exec_thumb_alu(instr);
            return Ok(());
        }
        if instr & 0xfc00 == 0x4400 {
            return self.exec_thumb_high(instr, pc);
        }
        if instr & 0xf000 == 0x5000 {
            return self.exec_thumb_load_store(instr, pc, mem);
        }
        Err(Trap::UndefinedThumb { pc, instr })
    }

    fn exec_thumb_register_offset<M: Memory>(&mut self, instr: u16, mem: &mut M) -> (r: Result<()>)
        ensures
            (final(self)@, final(mem).state(), seen(r)) == thumb_register_offset(
                old(self)@,
                old(mem).state(),
                instr,
            ),
    {
        let rd = field3(instr, 0);
        let addr = self.reg(field3(instr, 3)).wrapping_add(self.reg(field3(instr, 6)));
        let stored = self.reg(rd);
        match (instr >> 9) & 7 {
            0 => self.store32(mem, addr, stored)?,
            1 => self.store16(mem, addr, stored as u16)?,
            2 => self.store8(mem, addr, stored as u8)?,
            3 => {
                let v = mem.load8(addr)?;
                self.set_reg(rd, sign_extend(v as u32, 8) as u32);
            },
            4 => {
                let v = mem.load32(addr)?;
                self.set_reg(rd, v);
            },
            5 => {
                let v = mem.load16(addr)?;
                self.set_reg(rd, v as u32);
            },
            6 => {
                let v = mem.load8(addr)?;
                self.set_reg(rd, v as u32);
            },
            _ => {
                let v = mem.load16(addr)?;
                self.set_reg(rd, sign_extend(v as u32, 16) as u32);
            },
        }
        Ok(())
    }

    fn exec_thumb_load_store<M: Memory>(&mut self, instr: u16, pc: u32, mem: &mut M) -> (r: Result<
        (),
    >)
        ensures
            (final(self)@, final(mem).state(), seen(r)) == thumb_load_store(
                old(self)@,
                old(mem).state(),
                instr,
                pc,
            ),
    {
        if instr & 0xf000 == 0x5000 {
            return self.exec_thumb_register_offset(instr, mem);
        }
        let load = instr & 0x0800 != 0;
        let imm5 = ((instr >> 6) & 0x1f) as u32;
        let base = self.reg(field3(instr, 3));
        let low = field3(instr, 0);
        let stored = self.reg(low);
        if instr & 0xe000 == 0x6000 {
            if instr & 0x1000 != 0 {
                let addr = base.wrapping_add(imm5);
                if load {
                    let v = mem.load8(addr)?;
                    self.set_reg(low, v as u32);
                } else {
                    self.store8(mem, addr, stored as u8)?;
                }
            } else {
                let addr = base.wrapping_add(imm5 << 2);
                if load {
                    let v = mem.load32(addr)?;
                    self.set_reg(low, v);
                } else {
                    self.store32(mem, addr, stored)?;
                }
            }
            return Ok(());
        }
        if instr & 0xf000 == 0x8000 {
            let addr = base.wrapping_add(imm5 << 1);
            if load {
                let v = mem.load16(addr)?;
                self.set_reg(low, v as u32);
            } else {
                self.store16(mem, addr, stored as u16)?;
            }
            return Ok(());
        }
        if instr & 0xf000 == 0x9000 {
            let rd = field3(instr, 8);
            let addr = self.reg(13).wrapping_add(((instr & 0xff) as u32) << 2);
            if load {
                let v = mem.load32(addr)?;
                self.set_reg(rd, v);
            } else {
                let stored = self.reg(rd);
                self.store32(mem, addr, stored)?;
            }
            return Ok(());
        }
        Err(Trap::UndefinedThumb { pc, instr })
    }

    fn start_thumb_it(&mut self, cond: u32, mask: u16, pc: u32, instr: u16) -> (r: Result<()>)
        ensures
            (final(self)@, seen(r)) == thumb_it(old(self)@, cond, mask, pc, instr),
    {
        if cond == 0xf || mask == 0 {
            return Err(Trap::UndefinedThumb { pc, instr });
        }
        let len: usize = if mask & 1 != 0 {
            4
        } else if mask & 2 != 0 {
            3
        } else if mask & 4 != 0 {
            2
        } else {
            1
        };
        let mut conds: Vec<u32> = Vec::new();
        conds.push(cond);
        let mut idx: usize = 1;
        while idx < len
            invariant
                1 <= idx <= len <= 4,
                conds@.len() == idx,
                forall|i: int| 0 <= i < idx ==> conds@[i] == it_cond(cond, mask, i),
            decreases len - idx,
        {
            let mask_bit = (mask >> ((4 - idx) as u16)) & 1 != 0;
            let same_cond = mask_bit == (cond & 1 != 0);
            conds.push(
                if same_cond {
                    cond
                } else {
                    cond ^ 1
                },
            );
            idx += 1;
        }
        assert(conds@ =~= it_conds(cond, mask));
        self.set_it(conds);
        Ok(())
    }

    fn exec_thumb_misc_plain(&mut self, instr: u16, pc: u32) -> (r: Result<()>)
        requires
            is_misc_plain(instr),
        ensures
            (final(self)@, seen(r)) == thumb_misc_plain(old(self)@, instr, pc),
    {
        let op = (instr >> 6) & 3;
        let rd = field3(instr, 0);
        let value = self.reg(field3(instr, 3));
        if instr & 0xff00 == 0xb200 {
            let result = match op {
                0 => sign_extend(value & 0xffff, 16) as u32,
                1 => sign_extend(value & 0xff, 8) as u32,
                2 => value & 0xffff,
                _ => value & 0xff,
            };
            self.set_reg(rd, result);
            return Ok(());
        }
        if instr & 0xff00 == 0xba00 {
            let result = match op {
                0 => swap_bytes(value),
                1 => reverse_halves(value),
                3 => reverse_signed_half(value),
                _ => return Err(Trap::UndefinedThumb { pc, instr }),
            };
            self.set_reg(rd, result);
            return Ok(());
        }
        if instr & 0xff00 == 0xbf00 {
            let mask = instr & 0xf;
            if mask == 0 {
                return Ok(());
            }
            let cond = ((instr >> 4) & 0xf) as u32;
            return self.start_thumb_it(cond, mask, pc, instr);
        }
        if instr & 0xff00 == 0xbe00 {
            return Err(Trap::Breakpoint { pc, comment: (instr & 0xff) as u32 });
        }
        if instr & 0xfff7 == 0xb650 {
            if instr & 8 != 0 {
                return Err(Trap::Unpredictable("SETEND big-endian mode unsupported"));
            }
            return Ok(());
        }
        if instr & 0xffe8 == 0xb660 {
            return Err(Trap::Privileged { pc, instr: instr as u32, operation: "CPS" });
        }
        if instr & 0xf000 == 0xa000 {
            let base = if instr & 0x0800 != 0 {
                self.reg(13)
            } else {
                pc.wrapping_add(4) & !3u32
            };
            self.set_reg(field3(instr, 8), base.wrapping_add(((instr & 0xff) as u32) << 2));
            return Ok(());
        }
        if instr & 0xf500 == 0xb100 {
            let nonzero = instr & 0x0800 != 0;
            let imm = ((((instr >> 9) & 1) as u32) << 6) | ((((instr >> 3) & 0x1f) as u32) << 1);
            if (self.reg(rd) != 0) == nonzero {
                self.set_reg(15, pc.wrapping_add(4).wrapping_add(imm));
            }
            return Ok(());
        }
        let offset = ((instr & 0x7f) as u32) << 2;
        let sp = self.reg(13);
        if instr & 0x80 != 0 {
            self.set_reg(13, sp.wrapping_sub(offset));
        } else {
            self.set_reg(13, sp.wrapping_add(offset));
        }
        Ok(())
    }

    fn exec_thumb_pop<M: Memory>(&mut self, instr: u16, mem: &mut M) -> (r: Result<()>)
        ensures
            (final(self)@, final(mem).state(), seen(r)) == thumb_pop(
                old(self)@,
                old(mem).state(),
                instr,
            ),
    {
        let list = (instr & 0xff) as u32;
        let mut reg: usize = 0;
        while reg < 8
            invariant
                reg <= 8,
                list == (instr & 0xff) as u32,
                pop_list(old(self)@, old(mem).state(), list, 0) == pop_list(
                    self@,
                    mem.state(),
                    list,
                    reg,
                ),
            decreases 8 - reg,
        {
            if bit_at(list, reg as u32) {
                let value = mem.load32(self.reg(13))?;
                self.set_reg(reg, value);
                let sp = self.reg(13);
                self.set_reg(13, sp.wrapping_add(4));
            }
            reg += 1;
        }
        if instr & 0x0100 != 0 {
            let target = mem.load32(self.reg(13))?;
            let sp = self.reg(13);
            self.set_reg(13, sp.wrapping_add(4));
            self.branch_exchange(target);
        }
        Ok(())
    }

    fn exec_thumb_push<M: Memory>(&mut self, instr: u16, pc: u32, mem: &mut M) -> (r: Result<()>)
        ensures
            (final(self)@, final(mem).state(), seen(r)) == thumb_push(
                old(self)@,
                old(mem).state(),
                instr,
                pc,
            ),
    {
        let list = ((instr & 0xff) as u32) | (if instr & 0x0100 != 0 {
            0x4000u32
        } else {
            0
        });
        let count = count_ones(list, 16);
        let sp = self.reg(13).wrapping_sub(4 * count);
        self.set_reg(13, sp);
        self.store_register_list(list, sp, pc, mem)
    }

    /// The miscellaneous Thumb space.
    pub fn exec_thumb_misc<M: Memory>(&mut self, instr: u16, pc: u32, mem: &mut M) -> (r: Result<()>)
        ensures
            (final(self)@, final(mem).state(), seen(r)) == thumb_misc(
                old(self)@,
                old(mem).state(),
                instr,
                pc,
            ),
    {
        let top = instr & 0xff00;
        if top == 0xb200 || top == 0xba00 || top == 0xbf00 || top == 0xbe00 || instr & 0xfff7
            == 0xb650 || instr & 0xffe8 == 0xb660 || instr & 0xf000 == 0xa000 || instr & 0xf500
            == 0xb100 || top == 0xb000 {
            return self.exec_thumb_misc_plain(instr, pc);
        }
        if instr & 0xf600 == 0xb400 {
            if instr & 0xff == 0 && instr & 0x0100 == 0 {
                return Err(Trap::Unpredictable("empty Thumb push/pop register list"));
            }
            return if instr & 0x0800 != 0 {
                self.exec_thumb_pop(instr, mem)
            } else {
                self.exec_thumb_push(instr, pc, mem)
            };
        }
        Err(Trap::UndefinedThumb { pc, instr })
    }

    fn exec_thumb_multiple<M: Memory>(&mut self, instr: u16, pc: u32, mem: &mut M) -> (r: Result<
        (),
    >)
        ensures
            (final(self)@, final(mem).state(), seen(r)) == thumb_multiple(
                old(self)@,
                old(mem).state(),
                instr,
                pc,
            ),
    {
        let load = instr & 0x0800 != 0;
        let rb = field3(instr, 8);
        let list = (instr & 0xff) as u32;
        let base = self.reg(rb);
        if list == 0 {
            return Err(Trap::Unpredictable("empty Thumb load/store multiple list"));
        }
        let listed = bit_at(list, rb as u32);
        if !load && listed && list & mask_of(rb as u32) != 0 {
            return Err(Trap::Unpredictable("Thumb STM writeback base not first in register list"));
        }
        let end = base.wrapping_add(4 * count_ones(list, 16));
        if load {
            self.load_register_list(list, base, mem)?;
        } else {
            self.store_register_list(list, base, pc, mem)?;
        }
        if !load || !listed {
            self.set_reg(rb, end);
        }
        Ok(())
    }

    fn exec_thumb_multi_or_branch<M: Memory>(&mut self, instr: u16, pc: u32, mem: &mut M) -> (r:
        Result<()>)
        ensures
            (final(self)@, final(mem).state(), seen(r)) == thumb_multi_or_branch(
                old(self)@,
                old(mem).state(),
                instr,
                pc,
            ),
    {
        if instr & 0xf000 == 0xc000 {
            return self.exec_thumb_multiple(instr, pc, mem);
        }
        if instr & 0xf000 == 0xd000 {
            let cond = ((instr >> 8) & 0xf) as u32;
            if cond == 0xf {
                return Err(Trap::SoftwareInterrupt { pc, comment: (instr & 0xff) as u32 });
            }
            if cond == 0xe {
                return Err(Trap::UndefinedThumb { pc, instr });
            }
            if condition_passed(cond, self.flags()) {
                let off = sign_extend(((instr & 0xff) as u32) << 1, 9);
                self.set_reg(15, pc.wrapping_add(4).wrapping_add(off as u32));
            }
            return Ok(());
        }
        Err(Trap::UndefinedThumb { pc, instr })
    }

    fn exec_thumb_branch_long(&mut self, instr: u16, pc: u32) -> (r: Result<()>)
        ensures
            (final(self)@, seen(r)) == thumb_branch_long(old(self)@, instr, pc),
    {
        let top = instr & 0xf800;
        let imm = (instr & 0x7ff) as u32;
        if top == 0xe000 {
            let off = sign_extend(imm << 1, 12);
            self.set_reg(15, pc.wrapping_add(4).wrapping_add(off as u32));
            return Ok(());
        }
        if top == 0xe800 {
            let prefix = match self.take_bl_prefix() {
                Some(prefix) => prefix,
                None => return Err(Trap::Unpredictable("Thumb BLX suffix without prefix")),
            };
            self.set_reg(14, pc.wrapping_add(2) | 1);
            let target = prefix.wrapping_add(imm << 1) & !3u32;
            self.branch_exchange(target);
            return Ok(());
        }
        if top == 0xf000 {
            let off = sign_extend(imm << 12, 23);
            self.set_bl_prefix(Some(pc.wrapping_add(4).wrapping_add(off as u32)));
            return Ok(());
        }
        if top == 0xf800 {
            let prefix = match self.take_bl_prefix() {
                Some(prefix) => prefix,
                None => return Err(Trap::Unpredictable("Thumb BL suffix without prefix")),
            };
            self.set_reg(14, pc.wrapping_add(2) | 1);
            self.set_reg(15, prefix.wrapping_add(imm << 1));
            return Ok(());
        }
        Err(Trap::UndefinedThumb { pc, instr })
    }
}

} // verus!
