//! The vector instruction space.

use super::bits::group_masks;
use super::cpu::{beside, passed, Cpu, CpuState, Seen};
use super::memory::{MemState, Memory};
use super::neon_float::{neon_3same_f32, neon_scalar};
use super::neon_mem::{neon_all_lanes, neon_multiple, neon_one_lane};
use super::neon_misc::neon_misc;
use super::neon_three::{neon_3diff, neon_3same_plain};
use super::neon_two::{
    neon_2reg_shift, neon_duplicate, neon_extract, neon_immediate, neon_table,
};
use super::trap::{seen, Result};
use vstd::prelude::*;

verus! {

broadcast use group_masks;

/// The operations on three vectors of one element size.
pub open spec fn neon_3same(s: CpuState, instr: u32, pc: u32) -> (CpuState, Seen<bool>) {
    if (instr >> 8) & 0xf >= 12 {
        neon_3same_f32(s, instr, pc)
    } else {
        neon_3same_plain(s, instr, pc)
    }
}

/// The vector instructions on registers.
pub open spec fn neon_registers(s: CpuState, instr: u32, pc: u32) -> (CpuState, Seen<bool>) {
    if instr & 0x0e80_0000 == 0x0200_0000 {
        neon_3same(s, instr, pc)
    } else if instr & 0x0e80_0050 == 0x0280_0000 && neon_3diff(s, instr, pc) != passed(s) {
        neon_3diff(s, instr, pc)
    } else if instr & 0xfeb8_0090 == 0xf280_0010 {
        neon_immediate(s, instr, pc)
    } else if instr & 0xfe80_0010 == 0xf280_0010 {
        neon_2reg_shift(s, instr, pc)
    } else if instr & 0xffb0_0010 == 0xf2b0_0000 {
        neon_extract(s, instr, pc)
    } else if instr & 0xffb0_0c10 == 0xf3b0_0800 {
        neon_table(s, instr)
    } else if instr & 0xffb0_0f90 == 0xf3b0_0c00 {
        neon_duplicate(s, instr, pc)
    } else if instr & 0xffb0_0810 == 0xf3b0_0000 {
        neon_misc(s, instr, pc)
    } else if instr & 0xfe80_0050 == 0xf280_0040 {
        neon_scalar(s, instr, pc)
    } else {
        passed(s)
    }
}

/// What a word does as a vector instruction, if it is one.
#[verifier::opaque]
pub open spec fn neon(s: CpuState, m: MemState, instr: u32, pc: u32) -> (
    CpuState,
    MemState,
    Seen<bool>,
) {
    if instr & 0xff90_0000 == 0xf400_0000 {
        neon_multiple(s, m, instr, pc)
    } else if instr & 0xffb0_0c00 == 0xf4a0_0c00 {
        neon_all_lanes(s, m, instr, pc)
    } else if instr & 0xff90_0000 == 0xf480_0000 {
        neon_one_lane(s, m, instr, pc)
    } else {
        beside(neon_registers(s, instr, pc), m)
    }
}

impl Cpu {
    fn exec_arm_neon_3same(&mut self, instr: u32, pc: u32) -> (r: Result<bool>)
        ensures
            (final(self)@, seen(r)) == neon_3same(old(self)@, instr, pc),
    {
        if (instr >> 8) & 0xf >= 12 {
            self.exec_arm_neon_3same_f32(instr, pc)
        } else {
            self.exec_arm_neon_3same_plain(instr, pc)
        }
    }

    fn exec_arm_neon_registers(&mut self, instr: u32, pc: u32) -> (r: Result<bool>)
        ensures
            (final(self)@, seen(r)) == neon_registers(old(self)@, instr, pc),
    {
        if instr & 0x0e80_0000 == 0x0200_0000 {
            return self.exec_arm_neon_3same(instr, pc);
        }
        if instr & 0x0e80_0050 == 0x0280_0000 {
            if self.exec_arm_neon_3diff(instr, pc)? {
                return Ok(true);
            }
        }
        if instr & 0xfeb8_0090 == 0xf280_0010 {
            return self.exec_arm_neon_modified_immediate(instr, pc);
        }
        if instr & 0xfe80_0010 == 0xf280_0010 {
            return self.exec_arm_neon_2reg_shift(instr, pc);
        }
        if instr & 0xffb0_0010 == 0xf2b0_0000 {
            return self.exec_arm_neon_vext(instr, pc);
        }
        if instr & 0xffb0_0c10 == 0xf3b0_0800 {
            return self.exec_arm_neon_table_lookup(instr);
        }
        if instr & 0xffb0_0f90 == 0xf3b0_0c00 {
            return self.exec_arm_neon_vdup_scalar(instr, pc);
        }
        if instr & 0xffb0_0810 == 0xf3b0_0000 {
            return self.exec_arm_neon_2reg_misc(instr, pc);
        }
        if instr & 0xfe80_0050 == 0xf280_0040 {
            return self.exec_arm_neon_2reg_scalar(instr, pc);
        }
        Ok(false)
    }

    pub(crate) fn exec_arm_neon<M: Memory>(&mut self, instr: u32, pc: u32, mem: &mut M) -> (r:
        Result<bool>)
        ensures
            (final(self)@, final(mem).state(), seen(r)) == neon(
                old(self)@,
                old(mem).state(),
                instr,
                pc,
            ),
    {
        reveal(neon);
        if instr & 0xff90_0000 == 0xf400_0000 {
            return self.exec_arm_neon_load_store_multiple(instr, pc, mem);
        }
        if instr & 0xffb0_0c00 == 0xf4a0_0c00 {
            return self.exec_arm_neon_load_all_lanes(instr, pc, mem);
        }
        if instr & 0xff90_0000 == 0xf480_0000 {
            return self.exec_arm_neon_load_store_single(instr, pc, mem);
        }
        self.exec_arm_neon_registers(instr, pc)
    }
}

} // verus!
