//! A32 loads and stores.

use super::alu::{decode_arm_shift, shift_kind, shift_operand, shifted};
use super::bits::{bit, bit_at, count_ones, f4, field4, group_masks, ones_below, sext, sign_extend};
use super::cpu::{
    beside, cpu_store16, cpu_store32, cpu_store8, faulted, passed, undefined, unpredictable, Cpu,
    CpuState, Seen,
};
use super::memory::{MemState, Memory};
use super::trap::{seen, Result, Trap};
use vstd::prelude::*;

verus! {

broadcast use group_masks;

/// Up or down from a base address.
pub open spec fn displaced(base: u32, offset: u32, up: bool) -> u32 {
    if up {
        base.wrapping_add(offset)
    } else {
        base.wrapping_sub(offset)
    }
}

pub(crate) fn displace(base: u32, offset: u32, up: bool) -> (r: u32)
    ensures
        r == displaced(base, offset, up),
{
    if up {
        base.wrapping_add(offset)
    } else {
        base.wrapping_sub(offset)
    }
}

/// Two words stored one after the other.
pub open spec fn store_pair(s: CpuState, m: MemState, addr: u32, lo: u32, hi: u32) -> (
    CpuState,
    MemState,
    Seen<()>,
) {
    match cpu_store32(s, m, addr, lo) {
        (s1, m1, Ok(_)) => cpu_store32(s1, m1, addr.wrapping_add(4), hi),
        (s1, m1, Err(t)) => (s1, m1, Err(t)),
    }
}

/// Which register combinations of a halfword, signed or doubleword transfer
/// are unpredictable.
pub open spec fn halfword_refusal(instr: u32) -> Option<Seq<char>> {
    let op = (instr >> 5) & 3;
    let (p, i, w, l) = (bit(instr, 24), bit(instr, 22), bit(instr, 21), bit(instr, 20));
    let (rn, rd, rm) = (f4(instr, 16), f4(instr, 12), f4(instr, 0));
    let wback = !p || w;
    if !i && rm == 15 {
        Some("halfword transfer with PC offset register"@)
    } else if l {
        if rd == 15 {
            Some("halfword load with PC destination register"@)
        } else if wback && (rn == 15 || rn == rd) {
            Some("halfword load writeback with invalid base register"@)
        } else {
            None
        }
    } else if op == 1 {
        if rd == 15 {
            Some("halfword store with PC source register"@)
        } else if wback && (rn == 15 || rn == rd) {
            Some("halfword store writeback with invalid base register"@)
        } else {
            None
        }
    } else if !p && w {
        Some("doubleword transfer with invalid post-index form"@)
    } else if rd >= 14 || rd % 2 != 0 {
        Some(
            if op == 2 {
                "LDRD with invalid register pair"@
            } else {
                "STRD with invalid register pair"@
            },
        )
    } else if wback && (rn == 15 || rn == rd || rn == rd + 1) {
        Some("doubleword transfer writeback with invalid base register"@)
    } else if !i && op == 2 && (rm == rd || rm == rd + 1) {
        Some("LDRD register offset overlaps destination"@)
    } else {
        None
    }
}

/// The access of a halfword, signed or doubleword transfer.
pub open spec fn halfword_access(s: CpuState, m: MemState, instr: u32, pc: u32, addr: u32) -> (
    CpuState,
    MemState,
    Seen<()>,
) {
    let op = (instr >> 5) & 3;
    let rd = f4(instr, 12);
    if bit(instr, 20) {
        if op == 2 {
            match m.load8(addr) {
                Ok(v) => (s.wa(rd, sext(v as u32, 8) as u32), m, Ok(())),
                Err(t) => faulted(s, m, t),
            }
        } else {
            match m.load16(addr) {
                Ok(v) => (
                    s.wa(
                        rd,
                        if op == 1 {
                            v as u32
                        } else {
                            sext(v as u32, 16) as u32
                        },
                    ),
                    m,
                    Ok(()),
                ),
                Err(t) => faulted(s, m, t),
            }
        }
    } else if op == 1 {
        cpu_store16(s, m, addr, s.ra(rd, pc) as u16)
    } else if op == 2 {
        match (m.load32(addr), m.load32(addr.wrapping_add(4))) {
            (Err(t), _) => faulted(s, m, t),
            (_, Err(t)) => faulted(s, m, t),
            (Ok(lo), Ok(hi)) => (s.wa(rd, lo).wa((rd + 1) as usize, hi), m, Ok(())),
        }
    } else {
        store_pair(s, m, addr, s.ra(rd, pc), s.ra((rd + 1) as usize, pc))
    }
}

/// What an A32 word does as a halfword, signed or doubleword transfer, if it is
/// one.
#[verifier::opaque]
pub open spec fn arm_halfword_transfer(s: CpuState, m: MemState, instr: u32, pc: u32) -> (
    CpuState,
    MemState,
    Seen<bool>,
) {
    if instr & 0x90 != 0x90 || (instr >> 25) & 7 != 0 || (instr >> 5) & 3 == 0 {
        beside(passed(s), m)
    } else if let Some(what) = halfword_refusal(instr) {
        beside(unpredictable(s, what), m)
    } else {
        let rn = f4(instr, 16);
        let offset = if bit(instr, 22) {
            ((instr >> 4) & 0xf0) | (instr & 0xf)
        } else {
            s.ra(f4(instr, 0), pc)
        };
        let base = s.ra(rn, pc);
        let moved = displaced(base, offset, bit(instr, 23));
        let addr = if bit(instr, 24) {
            moved
        } else {
            base
        };
        match halfword_access(s, m, instr, pc, addr) {
            (s1, m1, Err(t)) => (s1, m1, Err(t)),
            (s1, m1, Ok(_)) => (
                if !bit(instr, 24) || bit(instr, 21) {
                    s1.wa(rn, moved)
                } else {
                    s1
                },
                m1,
                Ok(true),
            ),
        }
    }
}

/// A byte or word loaded into a register.
pub open spec fn arm_load(s: CpuState, m: MemState, addr: u32, rd: usize, byte: bool) -> (
    CpuState,
    MemState,
    Seen<()>,
) {
    if byte {
        match m.load8(addr) {
            Ok(v) => (s.wa(rd, v as u32), m, Ok(())),
            Err(t) => faulted(s, m, t),
        }
    } else {
        match m.load32(addr) {
            Ok(v) => (s.wa(rd, v), m, Ok(())),
            Err(t) => faulted(s, m, t),
        }
    }
}

/// What an A32 LDR, LDRB, STR or STRB does.
pub open spec fn arm_single_transfer(s: CpuState, m: MemState, instr: u32, pc: u32) -> (
    CpuState,
    MemState,
    Seen<()>,
) {
    let (i, p, b, w, l) = (
        bit(instr, 25),
        bit(instr, 24),
        bit(instr, 22),
        bit(instr, 21),
        bit(instr, 20),
    );
    let (rn, rd, rm) = (f4(instr, 16), f4(instr, 12), f4(instr, 0));
    let wback = !p || w;
    if (instr >> 25) & 7 == 3 && bit(instr, 4) {
        beside(undefined(s, pc, instr), m)
    } else if i && rm == 15 {
        beside(unpredictable(s, "single transfer with PC offset register"@), m)
    } else if b && rd == 15 {
        beside(unpredictable(s, "byte transfer with PC destination/source register"@), m)
    } else if wback && rn == 15 {
        beside(unpredictable(s, "single transfer writeback with PC base register"@), m)
    } else if wback && rn == rd {
        beside(unpredictable(s, "single transfer writeback overlaps transferred register"@), m)
    } else {
        let base = s.ra(rn, pc);
        let offset = if i {
            shifted(
                s.ra(rm, pc),
                shift_kind((instr >> 5) & 3),
                (instr >> 7) & 0x1f,
                s.cpsr.c,
                true,
            ).value
        } else {
            instr & 0xfff
        };
        let moved = displaced(base, offset, bit(instr, 23));
        let addr = if p {
            moved
        } else {
            base
        };
        let out = if l {
            arm_load(s, m, addr, rd, b)
        } else if b {
            cpu_store8(s, m, addr, s.ra(rd, pc) as u8)
        } else {
            cpu_store32(s, m, addr, s.ra(rd, pc))
        };
        match out {
            (s1, m1, Err(t)) => (s1, m1, Err(t)),
            (s1, m1, Ok(_)) => (
                if wback {
                    s1.wa(rn, moved)
                } else {
                    s1
                },
                m1,
                Ok(()),
            ),
        }
    }
}

/// The registers of a list loaded from ascending words, from register `reg` on.
pub open spec fn arm_load_list(s: CpuState, m: MemState, list: u32, reg: usize, addr: u32) -> (
    CpuState,
    MemState,
    Seen<()>,
)
    decreases 16 - reg,
{
    if reg >= 16 {
        (s, m, Ok(()))
    } else if !bit(list, reg as u32) {
        arm_load_list(s, m, list, (reg + 1) as usize, addr)
    } else {
        match m.load32(addr) {
            Ok(v) => arm_load_list(s.wa(reg, v), m, list, (reg + 1) as usize, addr.wrapping_add(4)),
            Err(t) => faulted(s, m, t),
        }
    }
}

/// The registers of a list stored to ascending words, from register `reg` on.
pub open spec fn arm_store_list(
    s: CpuState,
    m: MemState,
    list: u32,
    reg: usize,
    addr: u32,
    pc: u32,
) -> (CpuState, MemState, Seen<()>)
    decreases 16 - reg,
{
    if reg >= 16 {
        (s, m, Ok(()))
    } else if !bit(list, reg as u32) {
        arm_store_list(s, m, list, (reg + 1) as usize, addr, pc)
    } else {
        match cpu_store32(s, m, addr, s.ra(reg, pc)) {
            (s1, m1, Ok(_)) => arm_store_list(
                s1,
                m1,
                list,
                (reg + 1) as usize,
                addr.wrapping_add(4),
                pc,
            ),
            (s1, m1, Err(t)) => (s1, m1, Err(t)),
        }
    }
}

/// What an A32 LDM or STM does.
pub open spec fn arm_block_transfer(s: CpuState, m: MemState, instr: u32, pc: u32) -> (
    CpuState,
    MemState,
    Seen<()>,
) {
    let (p, u, w, l) = (bit(instr, 24), bit(instr, 23), bit(instr, 21), bit(instr, 20));
    let rn = f4(instr, 16);
    let list = instr & 0xffff;
    if rn == 15 {
        beside(unpredictable(s, "block transfer with PC base register"@), m)
    } else if bit(instr, 22) {
        beside(unpredictable(s, "block transfer user-mode/S bit"@), m)
    } else if list == 0 {
        beside(unpredictable(s, "empty block transfer register list"@), m)
    } else if l && w && bit(list, rn as u32) {
        beside(unpredictable(s, "LDM writeback with base in register list"@), m)
    } else {
        let size = (4 * ones_below(list, 16)) as u32;
        let base = s.ra(rn, pc);
        let end = displaced(base, size, u);
        let low = if u {
            base
        } else {
            end
        };
        let start = if p == u {
            low.wrapping_add(4)
        } else {
            low
        };
        let out = if l {
            arm_load_list(s, m, list, 0, start)
        } else {
            arm_store_list(s, m, list, 0, start, pc)
        };
        match out {
            (s1, m1, Err(t)) => (s1, m1, Err(t)),
            (s1, m1, Ok(_)) => (
                if w {
                    s1.wa(rn, end)
                } else {
                    s1
                },
                m1,
                Ok(()),
            ),
        }
    }
}

impl Cpu {
    pub(crate) fn store_pair<M: Memory>(&mut self, mem: &mut M, addr: u32, lo: u32, hi: u32) -> (r:
        Result<()>)
        ensures
            (final(self)@, final(mem).state(), seen(r)) == store_pair(
                old(self)@,
                old(mem).state(),
                addr,
                lo,
                hi,
            ),
    {
        self.store32(mem, addr, lo)?;
        self.store32(mem, addr.wrapping_add(4), hi)
    }

    fn check_halfword_transfer(instr: u32) -> (r: Result<()>)
        requires
            (instr >> 5) & 3 != 0,
        ensures
            match r {
                Ok(_) => halfword_refusal(instr) is None,
                Err(t) => halfword_refusal(instr) is Some && t@
                    == super::trap::TrapView::Unpredictable(halfword_refusal(instr)->0),
            },
    {
        let op = (instr >> 5) & 3;
        let p = bit_at(instr, 24);
        let i = bit_at(instr, 22);
        let w = bit_at(instr, 21);
        let rn = field4(instr, 16);
        let rd = field4(instr, 12);
        let rm = field4(instr, 0);
        let wback = !p || w;
        if !i && rm == 15 {
            return Err(Trap::Unpredictable("halfword transfer with PC offset register"));
        }
        if bit_at(instr, 20) {
            if rd == 15 {
                return Err(Trap::Unpredictable("halfword load with PC destination register"));
            }
            if wback && (rn == 15 || rn == rd) {
                return Err(
                    Trap::Unpredictable("halfword load writeback with invalid base register"),
                );
            }
        } else if op == 1 {
            if rd == 15 {
                return Err(Trap::Unpredictable("halfword store with PC source register"));
            }
            if wback && (rn == 15 || rn == rd) {
                return Err(
                    Trap::Unpredictable("halfword store writeback with invalid base register"),
                );
            }
        } else {
            if !p && w {
                return Err(Trap::Unpredictable("doubleword transfer with invalid post-index form"));
            }
            if rd >= 14 || rd % 2 != 0 {
                return Err(
                    Trap::Unpredictable(
                        if op == 2 {
                            "LDRD with invalid register pair"
                        } else {
                            "STRD with invalid register pair"
                        },
                    ),
                );
            }
            if wback && (rn == 15 || rn == rd || rn == rd + 1) {
                return Err(
                    Trap::Unpredictable("doubleword transfer writeback with invalid base register"),
                );
            }
            if !i && op == 2 && (rm == rd || rm == rd + 1) {
                return Err(Trap::Unpredictable("LDRD register offset overlaps destination"));
            }
        }
        Ok(())
    }

    fn access_halfword<M: Memory>(&mut self, instr: u32, pc: u32, addr: u32, mem: &mut M) -> (r:
        Result<()>)
        requires
            (instr >> 5) & 3 != 0,
            halfword_refusal(instr) is None,
        ensures
            (final(self)@, final(mem).state(), seen(r)) == halfword_access(
                old(self)@,
                old(mem).state(),
                instr,
                pc,
                addr,
            ),
    {
        let op = (instr >> 5) & 3;
        let rd = field4(instr, 12);
        if bit_at(instr, 20) {
            let value = if op == 1 {
                mem.load16(addr)? as u32
            } else if op == 2 {
                sign_extend(mem.load8(addr)? as u32, 8) as u32
            } else {
                sign_extend(mem.load16(addr)? as u32, 16) as u32
            };
            self.write_reg_arm(rd, value);
            Ok(())
        } else if op == 1 {
            let value = self.arm_read_reg(rd, pc) as u16;
            self.store16(mem, addr, value)
        } else if op == 2 {
            let lo = mem.load32(addr)?;
            let hi = mem.load32(addr.wrapping_add(4))?;
            self.write_reg_arm(rd, lo);
            self.write_reg_arm(rd + 1, hi);
            Ok(())
        } else {
            let lo = self.arm_read_reg(rd, pc);
            let hi = self.arm_read_reg(rd + 1, pc);
            self.store_pair(mem, addr, lo, hi)
        }
    }

    pub(crate) fn exec_arm_halfword_transfer<M: Memory>(
        &mut self,
        instr: u32,
        pc: u32,
        mem: &mut M,
    ) -> (r: Result<bool>)
        ensures
            (final(self)@, final(mem).state(), seen(r)) == arm_halfword_transfer(
                old(self)@,
                old(mem).state(),
                instr,
                pc,
            ),
    {
        reveal(arm_halfword_transfer);
        if instr & 0x90 != 0x90 || (instr >> 25) & 7 != 0 {
            return Ok(false);
        }
        if (instr >> 5) & 3 == 0 {
            return Ok(false);
        }
        Cpu::check_halfword_transfer(instr)?;
        let rn = field4(instr, 16);
        let offset = if bit_at(instr, 22) {
            ((instr >> 4) & 0xf0) | (instr & 0xf)
        } else {
            self.arm_read_reg(field4(instr, 0), pc)
        };
        let base = self.arm_read_reg(rn, pc);
        let off_addr = displace(base, offset, bit_at(instr, 23));
        let p = bit_at(instr, 24);
        let addr = if p {
            off_addr
        } else {
            base
        };
        self.access_halfword(instr, pc, addr, mem)?;
        if !p || bit_at(instr, 21) {
            self.write_reg_arm(rn, off_addr);
        }
        Ok(true)
    }

    pub(crate) fn exec_arm_single_transfer<M: Memory>(
        &mut self,
        instr: u32,
        pc: u32,
        mem: &mut M,
    ) -> (r: Result<()>)
        ensures
            (final(self)@, final(mem).state(), seen(r)) == arm_single_transfer(
                old(self)@,
                old(mem).state(),
                instr,
                pc,
            ),
    {
        if (instr >> 25) & 7 == 3 && bit_at(instr, 4) {
            return Err(Trap::UndefinedArm { pc, instr });
        }
        let i = bit_at(instr, 25);
        let p = bit_at(instr, 24);
        let b = bit_at(instr, 22);
        let w = bit_at(instr, 21);
        let l = bit_at(instr, 20);
        let rn = field4(instr, 16);
        let rd = field4(instr, 12);
        let rm = field4(instr, 0);
        let wback = !p || w;
        if i && rm == 15 {
            return Err(Trap::Unpredictable("single transfer with PC offset register"));
        }
        if b && rd == 15 {
            return Err(Trap::Unpredictable("byte transfer with PC destination/source register"));
        }
        if wback && rn == 15 {
            return Err(Trap::Unpredictable("single transfer writeback with PC base register"));
        }
        if wback && rn == rd {
            return Err(
                Trap::Unpredictable("single transfer writeback overlaps transferred register"),
            );
        }
        let base = self.arm_read_reg(rn, pc);
        let offset = if i {
            let shift = decode_arm_shift((instr >> 5) & 3);
            shift_operand(
                self.arm_read_reg(rm, pc),
                shift,
                (instr >> 7) & 0x1f,
                self.flags().c,
                true,
            ).value
        } else {
            instr & 0xfff
        };
        let off_addr = displace(base, offset, bit_at(instr, 23));
        let addr = if p {
            off_addr
        } else {
            base
        };
        if l {
            let value = if b {
                mem.load8(addr)? as u32
            } else {
                mem.load32(addr)?
            };
            self.write_reg_arm(rd, value);
        } else if b {
            let value = self.arm_read_reg(rd, pc) as u8;
            self.store8(mem, addr, value)?;
        } else {
            let value = self.arm_read_reg(rd, pc);
            self.store32(mem, addr, value)?;
        }
        if wback {
            self.write_reg_arm(rn, off_addr);
        }
        Ok(())
    }

    pub(crate) fn load_register_list<M: Memory>(&mut self, list: u32, start: u32, mem: &mut M) -> (r: Result<
        (),
    >)
        ensures
            (final(self)@, final(mem).state(), seen(r)) == arm_load_list(
                old(self)@,
                old(mem).state(),
                list,
                0,
                start,
            ),
    {
        let mut addr = start;
        let mut reg: usize = 0;
        while reg < 16
            invariant
                reg <= 16,
                mem.state() == old(mem).state(),
                arm_load_list(old(self)@, old(mem).state(), list, 0, start) == arm_load_list(
                    self@,
                    mem.state(),
                    list,
                    reg,
                    addr,
                ),
            decreases 16 - reg,
        {
            if bit_at(list, reg as u32) {
                let value = mem.load32(addr)?;
                self.write_reg_arm(reg, value);
                addr = addr.wrapping_add(4);
            }
            reg += 1;
        }
        Ok(())
    }

    pub(crate) fn store_register_list<M: Memory>(&mut self, list: u32, start: u32, pc: u32, mem: &mut M) -> (r:
        Result<()>)
        ensures
            (final(self)@, final(mem).state(), seen(r)) == arm_store_list(
                old(self)@,
                old(mem).state(),
                list,
                0,
                start,
                pc,
            ),
    {
        let mut addr = start;
        let mut reg: usize = 0;
        while reg < 16
            invariant
                reg <= 16,
                arm_store_list(old(self)@, old(mem).state(), list, 0, start, pc)
                    == arm_store_list(self@, mem.state(), list, reg, addr, pc),
            decreases 16 - reg,
        {
            if bit_at(list, reg as u32) {
                let value = self.arm_read_reg(reg, pc);
                self.store32(mem, addr, value)?;
                addr = addr.wrapping_add(4);
            }
            reg += 1;
        }
        Ok(())
    }

    pub(crate) fn exec_arm_block_transfer<M: Memory>(
        &mut self,
        instr: u32,
        pc: u32,
        mem: &mut M,
    ) -> (r: Result<()>)
        ensures
            (final(self)@, final(mem).state(), seen(r)) == arm_block_transfer(
                old(self)@,
                old(mem).state(),
                instr,
                pc,
            ),
    {
        let p = bit_at(instr, 24);
        let u = bit_at(instr, 23);
        let w = bit_at(instr, 21);
        let l = bit_at(instr, 20);
        let rn = field4(instr, 16);
        let reglist = instr & 0xffff;
        if rn == 15 {
            return Err(Trap::Unpredictable("block transfer with PC base register"));
        }
        if bit_at(instr, 22) {
            return Err(Trap::Unpredictable("block transfer user-mode/S bit"));
        }
        if reglist == 0 {
            return Err(Trap::Unpredictable("empty block transfer register list"));
        }
        if l && w && bit_at(reglist, rn as u32) {
            return Err(Trap::Unpredictable("LDM writeback with base in register list"));
        }
        let size = 4 * count_ones(reglist, 16);
        let base = self.arm_read_reg(rn, pc);
        let final_base = displace(base, size, u);
        let low = if u {
            base
        } else {
            final_base
        };
        let start = if p == u {
            low.wrapping_add(4)
        } else {
            low
        };
        if l {
            self.load_register_list(reglist, start, mem)?;
        } else {
            self.store_register_list(reglist, start, pc, mem)?;
        }
        if w {
            self.write_reg_arm(rn, final_base);
        }
        Ok(())
    }
}

} // verus!
