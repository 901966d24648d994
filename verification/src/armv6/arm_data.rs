//! A32 data processing, branches and status access.

use super::alu::{
    add_with_carry, add_with_flags, arm_expand_imm, arm_imm, decode_arm_shift, diff3, shift_kind,
    shift_operand, shifted, sub_with_flags, sum3, Shifted,
};
use super::bits::{bit, bit_at, f4, field4, group_masks, sext, sign_extend};
use super::cpu::{
    passed, privileged, took, undefined, unpredictable, Cpsr, Cpu, CpuState, Seen,
};
use super::trap::{seen, Result, Trap};
use vstd::prelude::*;

verus! {

broadcast use group_masks;

/// The second operand of a data-processing word.
pub open spec fn operand2(s: CpuState, instr: u32, pc: u32) -> Shifted {
    let rm = s.ra(f4(instr, 0), pc);
    let kind = shift_kind((instr >> 5) & 3);
    if bit(instr, 25) {
        let (value, carry) = arm_imm(instr & 0xfff);
        Shifted {
            value,
            carry: match carry {
                Some(c) => c,
                None => s.cpsr.c,
            },
        }
    } else if bit(instr, 4) {
        shifted(rm, kind, s.ra(f4(instr, 8), pc) & 0xff, s.cpsr.c, false)
    } else {
        shifted(rm, kind, (instr >> 7) & 0x1f, s.cpsr.c, true)
    }
}

/// Whether an opcode only sets flags.
pub open spec fn compares(opcode: u32) -> bool {
    8 <= opcode <= 11
}

/// Whether an opcode is a bitwise operation, whose carry comes from the shift
/// and which leaves the overflow flag alone.
pub open spec fn bitwise(opcode: u32) -> bool {
    opcode == 0 || opcode == 1 || opcode == 8 || opcode == 9 || opcode >= 12
}

/// Result, carry and overflow of a data-processing opcode.
pub open spec fn arm_alu(opcode: u32, lhs: u32, op2: Shifted, c: Cpsr) -> (u32, bool, bool) {
    if opcode == 0 || opcode == 8 {
        (lhs & op2.value, op2.carry, c.v)
    } else if opcode == 1 || opcode == 9 {
        (lhs ^ op2.value, op2.carry, c.v)
    } else if opcode == 2 || opcode == 10 {
        diff3(lhs, op2.value)
    } else if opcode == 3 {
        diff3(op2.value, lhs)
    } else if opcode == 4 || opcode == 11 {
        sum3(lhs, op2.value, false)
    } else if opcode == 5 {
        sum3(lhs, op2.value, c.c)
    } else if opcode == 6 {
        sum3(lhs, !op2.value, c.c)
    } else if opcode == 7 {
        sum3(op2.value, !lhs, c.c)
    } else if opcode == 12 {
        (lhs | op2.value, op2.carry, c.v)
    } else if opcode == 13 {
        (op2.value, op2.carry, c.v)
    } else if opcode == 14 {
        (lhs & !op2.value, op2.carry, c.v)
    } else {
        (!op2.value, op2.carry, c.v)
    }
}

/// What an A32 data-processing word does.
pub open spec fn arm_data_processing(s: CpuState, instr: u32, pc: u32) -> (CpuState, Seen<()>) {
    let opcode = (instr >> 21) & 0xf;
    let set_flags = bit(instr, 20);
    let rn = f4(instr, 16);
    let rd = f4(instr, 12);
    let writes = !compares(opcode);
    if !bit(instr, 25) && bit(instr, 4) && (rn == 15 || f4(instr, 0) == 15 || f4(instr, 8) == 15 || (
    writes && rd == 15)) {
        unpredictable(s, "data-processing register shift with PC register"@)
    } else if writes && rd == 15 && set_flags {
        privileged(s, pc, instr, "data-processing exception return"@)
    } else {
        let (v, carry, overflow) = arm_alu(opcode, s.ra(rn, pc), operand2(s, instr, pc), s.cpsr);
        let s1 = if writes {
            s.wa(rd, v)
        } else {
            s
        };
        let s2 = if !set_flags && writes {
            s1
        } else if bitwise(opcode) {
            s1.with_cpsr(s1.cpsr.nzc(v, carry))
        } else {
            s1.with_cpsr(s1.cpsr.nzcv(v, carry, overflow))
        };
        (s2, Ok(()))
    }
}

/// B and BL.
pub open spec fn arm_branch(s: CpuState, instr: u32, pc: u32) -> CpuState {
    let offset = sext((instr & 0x00ff_ffff) << 2, 26) as u32;
    let s1 = if bit(instr, 24) {
        s.with_r(14, pc.wrapping_add(4))
    } else {
        s
    };
    s1.with_r(15, pc.wrapping_add(8).wrapping_add(offset))
}

/// BLX with an immediate: always enters Thumb state.
pub open spec fn arm_blx(s: CpuState, instr: u32, pc: u32) -> CpuState {
    let offset = sext(((instr & 0x00ff_ffff) << 2) | (((instr >> 24) & 1) << 1), 26) as u32;
    let s1 = s.with_r(14, pc.wrapping_add(4));
    s1.with_cpsr(Cpsr { t: true, ..s1.cpsr }).with_r(15, pc.wrapping_add(8).wrapping_add(offset))
}

/// The unconditional words that are not vector instructions.
pub open spec fn arm_unconditional(s: CpuState, instr: u32, pc: u32) -> (CpuState, Seen<bool>) {
    if instr & 0x0fff_f000 == 0x0320_f000 || instr & 0xff70_f000 == 0xf550_f000 || instr
        & 0xff70_f010 == 0xf750_f000 {
        took(s)
    } else if instr & 0xffff_fdff == 0xf101_0000 {
        if bit(instr, 9) {
            unpredictable(s, "SETEND big-endian mode unsupported"@)
        } else {
            took(s)
        }
    } else if instr & 0xfff1_fe20 == 0xf100_0000 {
        privileged(s, pc, instr, "CPS"@)
    } else if instr & 0xfe50_ffff == 0xf810_0a00 {
        privileged(s, pc, instr, "RFE"@)
    } else if instr & 0xfe5f_ffe0 == 0xf84d_0500 {
        privileged(s, pc, instr, "SRS"@)
    } else {
        passed(s)
    }
}

/// A write to fields of the status register: user code reaches the flags and
/// the GE bits, the control fields are privileged.
pub open spec fn cpsr_write(s: CpuState, value: u32, mask: u32, pc: u32, instr: u32) -> (
    CpuState,
    Seen<()>,
) {
    if mask & 3 != 0 {
        privileged(s, pc, instr, "MSR CPSR control"@)
    } else {
        let new = Cpsr::of_word(value);
        let c1 = if mask & 8 != 0 {
            Cpsr { ge: s.cpsr.ge, t: s.cpsr.t, ..new }
        } else {
            s.cpsr
        };
        let c2 = if mask & 4 != 0 {
            Cpsr { ge: new.ge, ..c1 }
        } else {
            c1
        };
        (s.with_cpsr(c2), Ok(()))
    }
}

/// The coprocessor transfers that user code may make.
#[verifier::opaque]
pub open spec fn arm_coprocessor(s: CpuState, instr: u32, pc: u32) -> (CpuState, Seen<bool>) {
    let rt = f4(instr, 12);
    let load = bit(instr, 20);
    let coproc = (instr >> 8) & 0xf;
    let crm = instr & 0xf;
    if instr & 0x0ff0_0000 == 0x0c50_0000 || instr & 0x0ff0_0000 == 0x0c40_0000 {
        let rt2 = f4(instr, 16);
        if coproc == 15 && (instr >> 4) & 0xf == 1 && crm == 14 {
            if rt == 15 || rt2 == 15 || (load && rt == rt2) {
                unpredictable(s, "CP15 MRRC/MCRR invalid core registers"@)
            } else if !load {
                privileged(s, pc, instr, "MCRR CP15 timer"@)
            } else {
                let s1 = CpuState { counter: s.counter.wrapping_add(1000), ..s };
                took(s1.wa(rt, s.counter as u32).wa(rt2, (s.counter >> 32) as u32))
            }
        } else {
            passed(s)
        }
    } else if instr & 0x0e00_0010 != 0x0e00_0010 {
        passed(s)
    } else {
        let opc1 = (instr >> 21) & 7;
        let opc2 = (instr >> 5) & 7;
        let crn = (instr >> 16) & 0xf;
        if coproc == 15 && !load && opc1 == 0 && crn == 7 && ((crm == 10 && (opc2 == 4 || opc2
            == 5)) || (crm == 5 && opc2 == 4)) {
            if rt == 15 {
                unpredictable(s, "CP15 barrier MCR from PC"@)
            } else {
                took(s)
            }
        } else if coproc == 15 && opc1 == 0 && crn == 13 && crm == 0 && (opc2 == 2 || opc2 == 3) {
            if rt == 15 {
                unpredictable(
                    s,
                    if load {
                        "CP15 TLS MRC to PC"@
                    } else {
                        "CP15 TLS MCR from PC"@
                    },
                )
            } else if load {
                took(
                    s.wa(
                        rt,
                        if opc2 == 2 {
                            s.tpidrurw
                        } else {
                            s.tpidruro
                        },
                    ),
                )
            } else if opc2 == 3 {
                privileged(s, pc, instr, "MCR TPIDRURO"@)
            } else {
                took(CpuState { tpidrurw: s.ra(rt, pc), ..s })
            }
        } else {
            undefined(s, pc, instr)
        }
    }
}

impl Cpu {
    pub(crate) fn exec_arm_branch(&mut self, instr: u32, pc: u32) -> (r: Result<()>)
        ensures
            r is Ok,
            final(self)@ == arm_branch(old(self)@, instr, pc),
    {
        let imm = sign_extend((instr & 0x00ff_ffff) << 2, 26);
        if bit_at(instr, 24) {
            self.set_reg(14, pc.wrapping_add(4));
        }
        self.set_reg(15, pc.wrapping_add(8).wrapping_add(imm as u32));
        Ok(())
    }

    pub(crate) fn exec_arm_unconditional(&mut self, instr: u32, pc: u32) -> (r: Result<bool>)
        ensures
            (final(self)@, seen(r)) == arm_unconditional(old(self)@, instr, pc),
    {
        if instr & 0x0fff_f000 == 0x0320_f000 {
            return Ok(true);
        }
        if instr & 0xff70_f000 == 0xf550_f000 || instr & 0xff70_f010 == 0xf750_f000 {
            return Ok(true);
        }
        if instr & 0xffff_fdff == 0xf101_0000 {
            if bit_at(instr, 9) {
                return Err(Trap::Unpredictable("SETEND big-endian mode unsupported"));
            }
            return Ok(true);
        }
        if instr & 0xfff1_fe20 == 0xf100_0000 {
            return Err(Trap::Privileged { pc, instr, operation: "CPS" });
        }
        if instr & 0xfe50_ffff == 0xf810_0a00 {
            return Err(Trap::Privileged { pc, instr, operation: "RFE" });
        }
        if instr & 0xfe5f_ffe0 == 0xf84d_0500 {
            return Err(Trap::Privileged { pc, instr, operation: "SRS" });
        }
        Ok(false)
    }

    pub(crate) fn exec_arm_blx_immediate(&mut self, instr: u32, pc: u32) -> (r: Result<()>)
        ensures
            r is Ok,
            final(self)@ == arm_blx(old(self)@, instr, pc),
    {
        let h = (instr >> 24) & 1;
        let imm = sign_extend(((instr & 0x00ff_ffff) << 2) | (h << 1), 26);
        self.set_reg(14, pc.wrapping_add(4));
        let mut c = self.flags();
        c.t = true;
        self.set_flags(c);
        self.set_reg(15, pc.wrapping_add(8).wrapping_add(imm as u32));
        Ok(())
    }

    pub(crate) fn exec_arm_coprocessor(&mut self, instr: u32, pc: u32) -> (r: Result<bool>)
        ensures
            (final(self)@, seen(r)) == arm_coprocessor(old(self)@, instr, pc),
    {
        reveal(arm_coprocessor);
        let load = bit_at(instr, 20);
        let rt = field4(instr, 12);
        let coproc = (instr >> 8) & 0xf;
        let crm = instr & 0xf;
        if instr & 0x0ff0_0000 == 0x0c50_0000 || instr & 0x0ff0_0000 == 0x0c40_0000 {
            let rt2 = field4(instr, 16);
            let opc1 = (instr >> 4) & 0xf;
            if coproc == 15 && opc1 == 1 && crm == 14 {
                if rt == 15 || rt2 == 15 || (load && rt == rt2) {
                    return Err(Trap::Unpredictable("CP15 MRRC/MCRR invalid core registers"));
                }
                if !load {
                    return Err(Trap::Privileged { pc, instr, operation: "MCRR CP15 timer" });
                }
                let value = self.cp15_virtual_counter();
                self.set_cp15_virtual_counter(value.wrapping_add(1000));
                self.write_reg_arm(rt, value as u32);
                self.write_reg_arm(rt2, (value >> 32) as u32);
                return Ok(true);
            }
            return Ok(false);
        }
        if instr & 0x0e00_0010 != 0x0e00_0010 {
            return Ok(false);
        }
        let opc1 = (instr >> 21) & 0x7;
        let crn = (instr >> 16) & 0xf;
        let opc2 = (instr >> 5) & 0x7;
        if coproc == 15 && !load && opc1 == 0 && crn == 7 && ((crm == 10 && (opc2 == 4 || opc2
            == 5)) || (crm == 5 && opc2 == 4)) {
            if rt == 15 {
                return Err(Trap::Unpredictable("CP15 barrier MCR from PC"));
            }
            return Ok(true);
        }
        if coproc == 15 && opc1 == 0 && crn == 13 && crm == 0 && (opc2 == 2 || opc2 == 3) {
            if load {
                if rt == 15 {
                    return Err(Trap::Unpredictable("CP15 TLS MRC to PC"));
                }
                let value = if opc2 == 2 {
                    self.thread_id_rw()
                } else {
                    self.thread_id_ro()
                };
                self.write_reg_arm(rt, value);
            } else {
                if rt == 15 {
                    return Err(Trap::Unpredictable("CP15 TLS MCR from PC"));
                }
                if opc2 == 3 {
                    return Err(Trap::Privileged { pc, instr, operation: "MCR TPIDRURO" });
                }
                let value = self.arm_read_reg(rt, pc);
                self.set_thread_id_rw(value);
            }
            return Ok(true);
        }
        Err(Trap::UndefinedArm { pc, instr })
    }

    pub(crate) fn write_cpsr_fields(
        &mut self,
        value: u32,
        field_mask: u32,
        pc: u32,
        instr: u32,
    ) -> (r: Result<()>)
        ensures
            (final(self)@, seen(r)) == cpsr_write(old(self)@, value, field_mask, pc, instr),
    {
        if field_mask & 3 != 0 {
            return Err(Trap::Privileged { pc, instr, operation: "MSR CPSR control" });
        }
        let new = Cpsr::from_u32(value);
        let mut c = self.flags();
        if field_mask & 8 != 0 {
            c.n = new.n;
            c.z = new.z;
            c.c = new.c;
            c.v = new.v;
            c.q = new.q;
        }
        if field_mask & 4 != 0 {
            c.ge = new.ge;
        }
        self.set_flags(c);
        Ok(())
    }

    fn arm_operand2(&self, instr: u32, pc: u32) -> (r: Shifted)
        ensures
            r == operand2(self@, instr, pc),
    {
        let c = self.flags().c;
        if bit_at(instr, 25) {
            let (value, carry) = arm_expand_imm(instr & 0xfff);
            Shifted {
                value,
                carry: match carry {
                    Some(carry) => carry,
                    None => c,
                },
            }
        } else {
            let rm = self.arm_read_reg(field4(instr, 0), pc);
            let shift = decode_arm_shift((instr >> 5) & 3);
            if bit_at(instr, 4) {
                let amount = self.arm_read_reg(field4(instr, 8), pc) & 0xff;
                shift_operand(rm, shift, amount, c, false)
            } else {
                shift_operand(rm, shift, (instr >> 7) & 0x1f, c, true)
            }
        }
    }

    pub(crate) fn exec_arm_data_processing(&mut self, instr: u32, pc: u32) -> (r: Result<()>)
        ensures
            (final(self)@, seen(r)) == arm_data_processing(old(self)@, instr, pc),
    {
        let immediate = bit_at(instr, 25);
        let opcode = (instr >> 21) & 0xf;
        let set_flags = bit_at(instr, 20);
        let rn = field4(instr, 16);
        let rd = field4(instr, 12);
        let write_result = !(opcode >= 8 && opcode <= 11);
        if !immediate && bit_at(instr, 4) {
            let rm = field4(instr, 0);
            let rs = field4(instr, 8);
            if rn == 15 || rm == 15 || rs == 15 || (write_result && rd == 15) {
                return Err(Trap::Unpredictable("data-processing register shift with PC register"));
            }
        }
        if write_result && rd == 15 && set_flags {
            return Err(
                Trap::Privileged { pc, instr, operation: "data-processing exception return" },
            );
        }
        let lhs = self.arm_read_reg(rn, pc);
        let op2 = self.arm_operand2(instr, pc);
        let (result, carry, overflow) = compute(opcode, lhs, op2, self.flags());
        if write_result {
            self.write_reg_arm(rd, result);
        }
        if set_flags || !write_result {
            if opcode <= 1 || opcode == 8 || opcode == 9 || opcode >= 12 {
                self.set_nzc(result, carry);
            } else {
                self.set_nzcv(result, carry, overflow);
            }
        }
        Ok(())
    }
}

fn compute(opcode: u32, lhs: u32, op2: Shifted, c: Cpsr) -> (r: (u32, bool, bool))
    ensures
        r == arm_alu(opcode, lhs, op2, c),
{
    match opcode {
        0x0 | 0x8 => (lhs & op2.value, op2.carry, c.v),
        0x1 | 0x9 => (lhs ^ op2.value, op2.carry, c.v),
        0x2 | 0xa => sub_with_flags(lhs, op2.value),
        0x3 => sub_with_flags(op2.value, lhs),
        0x4 | 0xb => add_with_flags(lhs, op2.value),
        0x5 => add_with_carry(lhs, op2.value, c.c),
        0x6 => add_with_carry(lhs, !op2.value, c.c),
        0x7 => add_with_carry(op2.value, !lhs, c.c),
        0xc => (lhs | op2.value, op2.carry, c.v),
        0xd => (op2.value, op2.carry, c.v),
        0xe => (lhs & !op2.value, op2.carry, c.v),
        _ => (!op2.value, op2.carry, c.v),
    }
}

/// A comparison is the subtraction without its result: the flags agree and the
/// registers stay.
pub proof fn compare_sets_the_flags_of_subtract(
    lhs: u32,
    op2: Shifted,
    c: Cpsr,
)
    ensures
        arm_alu(10, lhs, op2, c) == arm_alu(2, lhs, op2, c),
        arm_alu(11, lhs, op2, c) == arm_alu(4, lhs, op2, c),
        arm_alu(8, lhs, op2, c) == arm_alu(0, lhs, op2, c),
        arm_alu(9, lhs, op2, c) == arm_alu(1, lhs, op2, c),
{
}

} // verus!
