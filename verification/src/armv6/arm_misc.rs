//! A32 moves, bit fields, status access, byte reversal, swaps and exclusives.

use super::alu::{
    arm_expand_imm, arm_imm, is_unsupported_a32_newer_than_armv6, newer_encoding,
};
use super::arm_data::cpsr_write;
use super::arm_media::arm_media;
use super::bits::{
    bit, bit_at, f4, field4, group_masks, low_mask, mask_of, rev32, sext, sign_extend, swap_bytes,
};
use super::cpu::{
    beside, cpu_store32, cpu_store8, faulted, passed, privileged, took, undefined, unpredictable,
    Cpu, CpuState, ExclusiveReservation, Seen,
};
use super::memory::{MemState, Memory};
use super::trap::{seen, Result, Trap};
use vstd::prelude::*;

verus! {

broadcast use group_masks;

/// MOVW and MOVT.
pub open spec fn arm_move_half(s: CpuState, instr: u32) -> (CpuState, Seen<bool>) {
    let rd = f4(instr, 12);
    let imm = (((instr >> 16) & 0xf) << 12) | (instr & 0xfff);
    if rd == 15 {
        unpredictable(s, "MOVW/MOVT with PC destination"@)
    } else if bit(instr, 22) {
        took(s.wa(rd, (s.r(rd) & 0x0000_ffff) | (imm << 16)))
    } else {
        took(s.wa(rd, imm))
    }
}

/// SBFX and UBFX.
pub open spec fn arm_extract(s: CpuState, instr: u32, pc: u32) -> (CpuState, Seen<bool>) {
    let (rd, rn) = (f4(instr, 12), f4(instr, 0));
    let lsb = (instr >> 7) & 0x1f;
    let widthm1 = (instr >> 16) & 0x1f;
    if rd == 15 || rn == 15 {
        unpredictable(s, "bitfield extract with PC register"@)
    } else if lsb + widthm1 >= 32 {
        unpredictable(s, "bitfield extract range"@)
    } else {
        let width = (widthm1 + 1) as u32;
        let raw = s.ra(rn, pc) >> lsb;
        took(
            s.wa(
                rd,
                if instr & 0x0fe0_0070 == 0x07a0_0050 {
                    sext(raw, width) as u32
                } else {
                    raw & low_mask(width)
                },
            ),
        )
    }
}

/// The bits from `lsb` to `msb` of `old` replaced by the low bits of `source`.
pub open spec fn inserted(old: u32, source: u32, lsb: u32, msb: u32) -> u32 {
    let mask = low_mask((msb - lsb + 1) as u32) << lsb;
    (old & !mask) | ((source << lsb) & mask)
}

pub(crate) fn insert_bits(old: u32, source: u32, lsb: u32, msb: u32) -> (r: u32)
    requires
        lsb <= msb < 32,
    ensures
        r == inserted(old, source, lsb, msb),
{
    let mask = mask_of(msb - lsb + 1) << lsb;
    (old & !mask) | ((source << lsb) & mask)
}

/// BFI and BFC.
pub open spec fn arm_insert(s: CpuState, instr: u32, pc: u32) -> (CpuState, Seen<bool>) {
    let (rd, rn) = (f4(instr, 12), f4(instr, 0));
    let lsb = (instr >> 7) & 0x1f;
    let msb = (instr >> 16) & 0x1f;
    if rd == 15 {
        unpredictable(s, "bitfield insert with PC destination"@)
    } else if msb < lsb {
        unpredictable(s, "bitfield insert range"@)
    } else {
        let source = if rn == 15 {
            0
        } else {
            s.ra(rn, pc)
        };
        took(s.wa(rd, inserted(s.ra(rd, pc), source, lsb, msb)))
    }
}

/// The moves and bit fields that later architectures added and this machine
/// handles.
pub open spec fn arm_fields(s: CpuState, instr: u32, pc: u32) -> (CpuState, Seen<bool>) {
    let key = instr & 0x0fe0_0070;
    if instr & 0x0ff0_0000 == 0x0300_0000 || instr & 0x0ff0_0000 == 0x0340_0000 {
        arm_move_half(s, instr)
    } else if key == 0x07a0_0050 || key == 0x07e0_0050 {
        arm_extract(s, instr, pc)
    } else if key == 0x07c0_0010 {
        arm_insert(s, instr, pc)
    } else if newer_encoding(instr) {
        undefined(s, pc, instr)
    } else {
        passed(s)
    }
}

/// MRS and MSR.
pub open spec fn arm_status(s: CpuState, instr: u32, pc: u32) -> (CpuState, Seen<bool>) {
    let rd = f4(instr, 12);
    let rm = f4(instr, 0);
    let mask = (instr >> 16) & 0xf;
    if instr & 0x0fff_0fff == 0x014f_0000 {
        privileged(s, pc, instr, "MRS SPSR"@)
    } else if instr & 0x0fff_0fff == 0x010f_0000 {
        if rd == 15 {
            unpredictable(s, "status register access with PC register"@)
        } else {
            took(s.wa(rd, s.cpsr.word()))
        }
    } else if instr & 0x0ff0_fff0 == 0x0160_f000 || instr & 0x0ff0_f000 == 0x0360_f000 {
        privileged(s, pc, instr, "MSR SPSR"@)
    } else if instr & 0x0ff0_fff0 == 0x0120_f000 {
        if rm == 15 {
            unpredictable(s, "status register access with PC register"@)
        } else if mask == 0 {
            unpredictable(s, "status register access with empty mask"@)
        } else {
            done_if_ok(cpsr_write(s, s.ra(rm, pc), mask, pc, instr))
        }
    } else if instr & 0x0ff0_f000 == 0x0320_f000 {
        done_if_ok(cpsr_write(s, arm_imm(instr & 0xfff).0, mask, pc, instr))
    } else {
        passed(s)
    }
}

/// Success of a part is success of the instruction.
pub open spec fn done_if_ok(out: (CpuState, Seen<()>)) -> (CpuState, Seen<bool>) {
    match out.1 {
        Ok(_) => (out.0, Ok(true)),
        Err(t) => (out.0, Err(t)),
    }
}

/// The bytes of each half swapped.
pub open spec fn rev16(v: u32) -> u32 {
    ((v & 0x00ff_00ff) << 8) | ((v & 0xff00_ff00) >> 8)
}

/// The bytes of the low half swapped and sign-extended.
pub open spec fn revsh(v: u32) -> u32 {
    sext(((v & 0xff) << 8) | ((v >> 8) & 0xff), 16) as u32
}

pub(crate) fn reverse_halves(v: u32) -> (r: u32)
    ensures
        r == rev16(v),
{
    ((v & 0x00ff_00ff) << 8) | ((v & 0xff00_ff00) >> 8)
}

pub(crate) fn reverse_signed_half(v: u32) -> (r: u32)
    ensures
        r == revsh(v),
{
    sign_extend(((v & 0xff) << 8) | ((v >> 8) & 0xff), 16) as u32
}

/// CLZ, REV, REV16 and REVSH.
pub open spec fn arm_unary(s: CpuState, instr: u32, pc: u32) -> (CpuState, Seen<bool>) {
    let key = instr & 0x0fff_0ff0;
    let (rd, rm) = (f4(instr, 12), f4(instr, 0));
    let v = s.ra(rm, pc);
    if rd == 15 || rm == 15 {
        unpredictable(s, "misc instruction with PC register"@)
    } else if key == 0x016f_0f10 {
        took(s.wa(rd, v.leading_zeros()))
    } else if key == 0x06bf_0f30 {
        took(s.wa(rd, rev32(v)))
    } else if key == 0x06bf_0fb0 {
        took(s.wa(rd, rev16(v)))
    } else {
        took(s.wa(rd, revsh(v)))
    }
}

/// SWP and SWPB.
pub open spec fn arm_swap(s: CpuState, m: MemState, instr: u32, pc: u32) -> (
    CpuState,
    MemState,
    Seen<bool>,
) {
    let byte = instr & 0x0ff0_0ff0 == 0x0140_0090;
    let (rn, rd, rm) = (f4(instr, 16), f4(instr, 12), f4(instr, 0));
    if rn == 15 || rd == 15 || rm == 15 || rn == rd || rn == rm {
        beside(unpredictable(s, "SWP with invalid register form"@), m)
    } else {
        let addr = s.ra(rn, pc);
        let new = s.ra(rm, pc);
        let loaded = if byte {
            match m.load8(addr) {
                Ok(v) => Ok(v as u32),
                Err(t) => Err(t),
            }
        } else {
            m.load32(addr)
        };
        match loaded {
            Err(t) => faulted(s, m, t),
            Ok(v) => match if byte {
                cpu_store8(s, m, addr, new as u8)
            } else {
                cpu_store32(s, m, addr, new)
            } {
                (s1, m1, Ok(_)) => (s1.wa(rd, v), m1, Ok(true)),
                (s1, m1, Err(t)) => (s1, m1, Err(t)),
            },
        }
    }
}

/// A claim on `size` bytes at `addr`.
pub open spec fn claim(s: CpuState, addr: u32, size: u8) -> CpuState {
    s.with_reservation(Some(ExclusiveReservation { addr, size }))
}

/// LDREX, LDREXD, LDREXB and LDREXH.
pub open spec fn arm_load_exclusive(s: CpuState, m: MemState, instr: u32, pc: u32) -> (
    CpuState,
    MemState,
    Seen<bool>,
) {
    let key = instr & 0x0ff0_0fff;
    let (rn, rd) = (f4(instr, 16), f4(instr, 12));
    let addr = s.ra(rn, pc);
    if rn == 15 || rd == 15 {
        beside(unpredictable(s, "exclusive load with PC register"@), m)
    } else if key == 0x0190_0f9f {
        match m.load32(addr) {
            Ok(v) => (claim(s.wa(rd, v), addr, 4), m, Ok(true)),
            Err(t) => faulted(s, m, t),
        }
    } else if key == 0x01b0_0f9f {
        if rd >= 14 {
            beside(unpredictable(s, "LDREXD with invalid register pair"@), m)
        } else {
            match (m.load32(addr), m.load32(addr.wrapping_add(4))) {
                (Err(t), _) => faulted(s, m, t),
                (_, Err(t)) => faulted(s, m, t),
                (Ok(lo), Ok(hi)) => (
                    claim(s.wa(rd, lo).wa((rd + 1) as usize, hi), addr, 8),
                    m,
                    Ok(true),
                ),
            }
        }
    } else if key == 0x01d0_0f9f {
        match m.load8(addr) {
            Ok(v) => (claim(s.wa(rd, v as u32), addr, 1), m, Ok(true)),
            Err(t) => faulted(s, m, t),
        }
    } else {
        match m.load16(addr) {
            Ok(v) => (claim(s.wa(rd, v as u32), addr, 2), m, Ok(true)),
            Err(t) => faulted(s, m, t),
        }
    }
}

/// The memory after the store of an exclusive store that goes through.
pub open spec fn exclusive_write(s: CpuState, m: MemState, instr: u32, pc: u32) -> (
    MemState,
    Seen<()>,
) {
    let key = instr & 0x0ff0_0ff0;
    let rm = f4(instr, 0);
    let addr = s.ra(f4(instr, 16), pc);
    let v = s.ra(rm, pc);
    if key == 0x0180_0f90 {
        m.store32(addr, v)
    } else if key == 0x01a0_0f90 {
        match m.store32(addr, v) {
            (m1, Ok(_)) => m1.store32(addr.wrapping_add(4), s.ra((rm + 1) as usize, pc)),
            (m1, Err(t)) => (m1, Err(t)),
        }
    } else if key == 0x01c0_0f90 {
        m.store8(addr, v as u8)
    } else {
        m.store16(addr, v as u16)
    }
}

/// STREX, STREXD, STREXB and STREXH: the store goes through only where the
/// claim still stands, and ends the claim.
pub open spec fn arm_store_exclusive(s: CpuState, m: MemState, instr: u32, pc: u32) -> (
    CpuState,
    MemState,
    Seen<bool>,
) {
    let double = instr & 0x0ff0_0ff0 == 0x01a0_0f90;
    let (rn, rd, rm) = (f4(instr, 16), f4(instr, 12), f4(instr, 0));
    if rn == 15 || rd == 15 || rm == 15 {
        beside(unpredictable(s, "exclusive store with PC register"@), m)
    } else if rd == rn || rd == rm {
        beside(unpredictable(s, "exclusive store status register overlaps operand"@), m)
    } else if double && (rm >= 14 || rm % 2 != 0) {
        beside(unpredictable(s, "STREXD with invalid register pair"@), m)
    } else if double && rd == rm + 1 {
        beside(unpredictable(s, "exclusive store status register overlaps operand"@), m)
    } else if s.reservation is Some && s.reservation->0.addr == s.ra(rn, pc) {
        match exclusive_write(s, m, instr, pc) {
            (m1, Ok(_)) => (s.wa(rd, 0).with_reservation(None), m1, Ok(true)),
            (m1, Err(t)) => faulted(s, m1, t),
        }
    } else {
        (s.wa(rd, 1).with_reservation(None), m, Ok(true))
    }
}

/// The keys of the exclusive loads.
pub open spec fn is_load_exclusive(instr: u32) -> bool {
    let key = instr & 0x0ff0_0fff;
    key == 0x0190_0f9f || key == 0x01b0_0f9f || key == 0x01d0_0f9f || key == 0x01f0_0f9f
}

/// The keys of the exclusive stores.
pub open spec fn is_store_exclusive(instr: u32) -> bool {
    let key = instr & 0x0ff0_0ff0;
    key == 0x0180_0f90 || key == 0x01a0_0f90 || key == 0x01c0_0f90 || key == 0x01e0_0f90
}

/// The keys of CLZ and the byte reversals.
pub open spec fn is_unary(instr: u32) -> bool {
    let key = instr & 0x0fff_0ff0;
    key == 0x016f_0f10 || key == 0x06bf_0f30 || key == 0x06bf_0fb0 || key == 0x06ff_0fb0
}

/// Swaps and exclusives.
pub open spec fn arm_sync(s: CpuState, m: MemState, instr: u32, pc: u32) -> (
    CpuState,
    MemState,
    Seen<bool>,
) {
    if instr & 0x0ff0_0ff0 == 0x0100_0090 || instr & 0x0ff0_0ff0 == 0x0140_0090 {
        arm_swap(s, m, instr, pc)
    } else if is_load_exclusive(instr) {
        arm_load_exclusive(s, m, instr, pc)
    } else if is_store_exclusive(instr) {
        arm_store_exclusive(s, m, instr, pc)
    } else {
        beside(passed(s), m)
    }
}

/// What an A32 word does in the miscellaneous space, if it lies there.
#[verifier::opaque]
pub open spec fn arm_misc(s: CpuState, m: MemState, instr: u32, pc: u32) -> (
    CpuState,
    MemState,
    Seen<bool>,
) {
    if arm_fields(s, instr, pc) != passed(s) {
        beside(arm_fields(s, instr, pc), m)
    } else if is_unary(instr) {
        beside(arm_unary(s, instr, pc), m)
    } else if arm_status(s, instr, pc) != passed(s) {
        beside(arm_status(s, instr, pc), m)
    } else if arm_media(s, instr, pc) != passed(s) {
        beside(arm_media(s, instr, pc), m)
    } else {
        arm_sync(s, m, instr, pc)
    }
}

impl Cpu {
    fn exec_arm_fields(&mut self, instr: u32, pc: u32) -> (r: Result<bool>)
        ensures
            (final(self)@, seen(r)) == arm_fields(old(self)@, instr, pc),
            r == Ok::<bool, Trap>(false) ==> final(self)@ == old(self)@,
    {
        if instr & 0x0ff0_0000 == 0x0300_0000 || instr & 0x0ff0_0000 == 0x0340_0000 {
            let rd = field4(instr, 12);
            if rd == 15 {
                return Err(Trap::Unpredictable("MOVW/MOVT with PC destination"));
            }
            let imm16 = (((instr >> 16) & 0xf) << 12) | (instr & 0xfff);
            if bit_at(instr, 22) {
                let low = self.reg(rd) & 0x0000_ffff;
                self.write_reg_arm(rd, low | (imm16 << 16));
            } else {
                self.write_reg_arm(rd, imm16);
            }
            return Ok(true);
        }
        let key = instr & 0x0fe0_0070;
        let rn = field4(instr, 0);
        let rd = field4(instr, 12);
        let high = (instr >> 16) & 0x1f;
        let lsb = (instr >> 7) & 0x1f;
        if key == 0x07a0_0050 || key == 0x07e0_0050 {
            if rd == 15 || rn == 15 {
                return Err(Trap::Unpredictable("bitfield extract with PC register"));
            }
            if lsb + high >= 32 {
                return Err(Trap::Unpredictable("bitfield extract range"));
            }
            let width = high + 1;
            let raw = self.arm_read_reg(rn, pc) >> lsb;
            let value = if key == 0x07a0_0050 {
                sign_extend(raw, width) as u32
            } else {
                raw & mask_of(width)
            };
            self.write_reg_arm(rd, value);
            return Ok(true);
        }
        if key == 0x07c0_0010 {
            if rd == 15 {
                return Err(Trap::Unpredictable("bitfield insert with PC destination"));
            }
            if high < lsb {
                return Err(Trap::Unpredictable("bitfield insert range"));
            }
            let source = if rn == 15 {
                0
            } else {
                self.arm_read_reg(rn, pc)
            };
            let value = insert_bits(self.arm_read_reg(rd, pc), source, lsb, high);
            self.write_reg_arm(rd, value);
            return Ok(true);
        }
        if is_unsupported_a32_newer_than_armv6(instr) {
            return Err(Trap::UndefinedArm { pc, instr });
        }
        Ok(false)
    }

    fn exec_arm_status(&mut self, instr: u32, pc: u32) -> (r: Result<bool>)
        ensures
            (final(self)@, seen(r)) == arm_status(old(self)@, instr, pc),
            r == Ok::<bool, Trap>(false) ==> final(self)@ == old(self)@,
    {
        if instr & 0x0fff_0fff == 0x014f_0000 {
            return Err(Trap::Privileged { pc, instr, operation: "MRS SPSR" });
        }
        if instr & 0x0fff_0fff == 0x010f_0000 {
            let rd = field4(instr, 12);
            if rd == 15 {
                return Err(Trap::Unpredictable("status register access with PC register"));
            }
            let word = self.flags().to_u32();
            self.write_reg_arm(rd, word);
            return Ok(true);
        }
        if instr & 0x0ff0_fff0 == 0x0160_f000 {
            return Err(Trap::Privileged { pc, instr, operation: "MSR SPSR" });
        }
        if instr & 0x0ff0_f000 == 0x0360_f000 {
            return Err(Trap::Privileged { pc, instr, operation: "MSR SPSR" });
        }
        let field_mask = (instr >> 16) & 0xf;
        if instr & 0x0ff0_fff0 == 0x0120_f000 {
            let rm = field4(instr, 0);
            if rm == 15 {
                return Err(Trap::Unpredictable("status register access with PC register"));
            }
            if field_mask == 0 {
                return Err(Trap::Unpredictable("status register access with empty mask"));
            }
            let value = self.arm_read_reg(rm, pc);
            self.write_cpsr_fields(value, field_mask, pc, instr)?;
            return Ok(true);
        }
        if instr & 0x0ff0_f000 == 0x0320_f000 {
            let (value, _) = arm_expand_imm(instr & 0xfff);
            self.write_cpsr_fields(value, field_mask, pc, instr)?;
            return Ok(true);
        }
        Ok(false)
    }

    fn exec_arm_unary(&mut self, instr: u32, pc: u32) -> (r: Result<bool>)
        ensures
            (final(self)@, seen(r)) == arm_unary(old(self)@, instr, pc),
    {
        let rd = field4(instr, 12);
        let rm = field4(instr, 0);
        if rd == 15 || rm == 15 {
            return Err(Trap::Unpredictable("misc instruction with PC register"));
        }
        let value = self.arm_read_reg(rm, pc);
        let result = match instr & 0x0fff_0ff0 {
            0x016f_0f10 => value.leading_zeros(),
            0x06bf_0f30 => swap_bytes(value),
            0x06bf_0fb0 => reverse_halves(value),
            _ => reverse_signed_half(value),
        };
        self.write_reg_arm(rd, result);
        Ok(true)
    }

    fn exec_arm_swap<M: Memory>(&mut self, instr: u32, pc: u32, mem: &mut M) -> (r: Result<bool>)
        ensures
            (final(self)@, final(mem).state(), seen(r)) == arm_swap(
                old(self)@,
                old(mem).state(),
                instr,
                pc,
            ),
    {
        let byte = instr & 0x0ff0_0ff0 == 0x0140_0090;
        let rn = field4(instr, 16);
        let rd = field4(instr, 12);
        let rm = field4(instr, 0);
        if rn == 15 || rd == 15 || rm == 15 || rn == rd || rn == rm {
            return Err(Trap::Unpredictable("SWP with invalid register form"));
        }
        let addr = self.arm_read_reg(rn, pc);
        let new = self.arm_read_reg(rm, pc);
        let loaded = if byte {
            mem.load8(addr)? as u32
        } else {
            mem.load32(addr)?
        };
        if byte {
            self.store8(mem, addr, new as u8)?;
        } else {
            self.store32(mem, addr, new)?;
        }
        self.write_reg_arm(rd, loaded);
        Ok(true)
    }

    fn exec_arm_load_exclusive<M: Memory>(&mut self, instr: u32, pc: u32, mem: &mut M) -> (r:
        Result<bool>)
        ensures
            (final(self)@, final(mem).state(), seen(r)) == arm_load_exclusive(
                old(self)@,
                old(mem).state(),
                instr,
                pc,
            ),
    {
        let rn = field4(instr, 16);
        let rd = field4(instr, 12);
        if rn == 15 || rd == 15 {
            return Err(Trap::Unpredictable("exclusive load with PC register"));
        }
        let addr = self.arm_read_reg(rn, pc);
        let size: u8 = match instr & 0x0ff0_0fff {
            0x0190_0f9f => {
                let value = mem.load32(addr)?;
                self.write_reg_arm(rd, value);
                4
            },
            0x01b0_0f9f => {
                if rd >= 14 {
                    return Err(Trap::Unpredictable("LDREXD with invalid register pair"));
                }
                let lo = mem.load32(addr)?;
                let hi = mem.load32(addr.wrapping_add(4))?;
                self.write_reg_arm(rd, lo);
                self.write_reg_arm(rd + 1, hi);
                8
            },
            0x01d0_0f9f => {
                let value = mem.load8(addr)? as u32;
                self.write_reg_arm(rd, value);
                1
            },
            _ => {
                let value = mem.load16(addr)? as u32;
                self.write_reg_arm(rd, value);
                2
            },
        };
        self.set_reservation(Some(ExclusiveReservation { addr, size }));
        Ok(true)
    }

    fn exec_arm_store_exclusive<M: Memory>(&mut self, instr: u32, pc: u32, mem: &mut M) -> (r:
        Result<bool>)
        ensures
            (final(self)@, final(mem).state(), seen(r)) == arm_store_exclusive(
                old(self)@,
                old(mem).state(),
                instr,
                pc,
            ),
    {
        let key = instr & 0x0ff0_0ff0;
        let rn = field4(instr, 16);
        let rd = field4(instr, 12);
        let rm = field4(instr, 0);
        if rn == 15 || rd == 15 || rm == 15 {
            return Err(Trap::Unpredictable("exclusive store with PC register"));
        }
        if rd == rn || rd == rm {
            return Err(Trap::Unpredictable("exclusive store status register overlaps operand"));
        }
        if key == 0x01a0_0f90 {
            if rm >= 14 || rm % 2 != 0 {
                return Err(Trap::Unpredictable("STREXD with invalid register pair"));
            }
            if rd == rm + 1 {
                return Err(Trap::Unpredictable("exclusive store status register overlaps operand"));
            }
        }
        let addr = self.arm_read_reg(rn, pc);
        let claimed = match self.reservation() {
            Some(reservation) => reservation.addr == addr,
            None => false,
        };
        if claimed {
            let value = self.arm_read_reg(rm, pc);
            match key {
                0x0180_0f90 => mem.store32(addr, value)?,
                0x01a0_0f90 => {
                    mem.store32(addr, value)?;
                    mem.store32(addr.wrapping_add(4), self.arm_read_reg(rm + 1, pc))?;
                },
                0x01c0_0f90 => mem.store8(addr, value as u8)?,
                _ => mem.store16(addr, value as u16)?,
            }
            self.write_reg_arm(rd, 0);
        } else {
            self.write_reg_arm(rd, 1);
        }
        self.set_reservation(None);
        Ok(true)
    }

    pub(crate) fn exec_arm_misc<M: Memory>(&mut self, instr: u32, pc: u32, mem: &mut M) -> (r:
        Result<bool>)
        ensures
            (final(self)@, final(mem).state(), seen(r)) == arm_misc(
                old(self)@,
                old(mem).state(),
                instr,
                pc,
            ),
    {
        reveal(arm_misc);
        if self.exec_arm_fields(instr, pc)? {
            return Ok(true);
        }
        let unary = instr & 0x0fff_0ff0;
        if unary == 0x016f_0f10 || unary == 0x06bf_0f30 || unary == 0x06bf_0fb0 || unary
            == 0x06ff_0fb0 {
            return self.exec_arm_unary(instr, pc);
        }
        if self.exec_arm_status(instr, pc)? {
            return Ok(true);
        }
        if self.exec_arm_media(instr, pc)? {
            return Ok(true);
        }
        let swp_key = instr & 0x0ff0_0ff0;
        if swp_key == 0x0100_0090 || swp_key == 0x0140_0090 {
            return self.exec_arm_swap(instr, pc, mem);
        }
        let load_key = instr & 0x0ff0_0fff;
        if load_key == 0x0190_0f9f || load_key == 0x01b0_0f9f || load_key == 0x01d0_0f9f
            || load_key == 0x01f0_0f9f {
            return self.exec_arm_load_exclusive(instr, pc, mem);
        }
        if swp_key == 0x0180_0f90 || swp_key == 0x01a0_0f90 || swp_key == 0x01c0_0f90 || swp_key
            == 0x01e0_0f90 {
            return self.exec_arm_store_exclusive(instr, pc, mem);
        }
        Ok(false)
    }
}

} // verus!
