//! A32 multiplications.

use super::alu::{
    dual, fits_i32, half, half_product_bounds, high_word, pair64, select_i16, signed_dual_products,
    signed_high_word, unsigned_product_bounds, word_half_product_bounds, word_product_bounds,
};
use super::bits::{bit, bit_at, f4, field4};
use super::cpu::{passed, took, unpredictable, Cpu, CpuState, Seen};
use super::trap::{seen, Result, Trap};
use vstd::prelude::*;

verus! {

/// A doubleword written to two registers.
pub open spec fn write_pair(s: CpuState, lo: usize, hi: usize, v: u64) -> CpuState {
    s.with_r(lo, v as u32).with_r(hi, (v >> 32) as u32)
}

/// A number written to a register modulo 2^32; leaving the signed word range
/// sets the sticky flag.
pub open spec fn write_sticky(s: CpuState, rd: usize, v: int) -> CpuState {
    s.sticky(!fits_i32(v)).wa(rd, ((v as i64) as i32) as u32)
}

/// A signed doubleword held in two registers, plus `v` modulo 2^64.
pub open spec fn accumulate_pair(s: CpuState, lo: usize, hi: usize, v: int) -> CpuState {
    let sum = (pair64(s.r(hi), s.r(lo)) as i64).wrapping_add(v as i64);
    s.with_r(lo, sum as u32).with_r(hi, (sum >> 32) as u32)
}

/// UMAAL: the product plus both destination registers.
pub open spec fn umaal(s: CpuState, instr: u32, pc: u32) -> (CpuState, Seen<bool>) {
    let (hi, lo, rm, rn) = (f4(instr, 16), f4(instr, 12), f4(instr, 8), f4(instr, 0));
    if hi == 15 || lo == 15 || rm == 15 || rn == 15 {
        unpredictable(s, "multiply with PC register"@)
    } else if hi == lo {
        unpredictable(s, "UMAAL with same high/low register"@)
    } else {
        let v = s.r(rn) * s.r(rm) + s.r(hi) + s.r(lo);
        took(write_pair(s, lo, hi, v as u64))
    }
}

/// SMLAD, SMLSD, SMLALD and SMLSLD, with or without swapped halves.
pub open spec fn dual_multiply(s: CpuState, instr: u32, pc: u32) -> (CpuState, Seen<bool>) {
    let (rd, ra, rm, rn) = (f4(instr, 16), f4(instr, 12), f4(instr, 8), f4(instr, 0));
    let long = instr & 0x0ff0_00d0 & 0x0040_0000 != 0;
    let (lo, hi) = dual(s.ra(rn, pc), s.ra(rm, pc), bit(instr, 5));
    let product = if instr & 0x0ff0_00d0 & 0x40 == 0 {
        lo + hi
    } else {
        lo - hi
    };
    if rd == 15 || rm == 15 || rn == 15 || (long && ra == 15) {
        unpredictable(s, "multiply with PC register"@)
    } else if long {
        if rd == ra {
            unpredictable(s, "dual long multiply with same high/low register"@)
        } else {
            took(accumulate_pair(s, ra, rd, product))
        }
    } else if ra == 15 {
        took(write_sticky(s, rd, product))
    } else {
        took(write_sticky(s, rd, product + (s.ra(ra, pc) as i32)))
    }
}

/// SMMUL, SMMLA and SMMLS: the high word of a signed product.
pub open spec fn high_multiply(s: CpuState, instr: u32, pc: u32) -> (CpuState, Seen<bool>) {
    let (rd, ra, rm, rn) = (f4(instr, 16), f4(instr, 12), f4(instr, 8), f4(instr, 0));
    let plus = instr & 0x0ff0_00d0 == 0x0750_0010;
    let product = ((s.ra(rn, pc) as i32) * (s.ra(rm, pc) as i32)) as i64;
    let addend = ((s.ra(ra, pc) as u64) << 32) as i64;
    if rd == 15 || rm == 15 || rn == 15 || (!plus && ra == 15) {
        unpredictable(s, "multiply with PC register"@)
    } else if ra == 15 {
        took(s.wa(rd, high_word(product, bit(instr, 5))))
    } else if plus {
        took(s.wa(rd, high_word(addend.wrapping_add(product), bit(instr, 5))))
    } else {
        took(s.wa(rd, high_word(addend.wrapping_sub(product), bit(instr, 5))))
    }
}

/// The five signed halfword multiplications.
pub open spec fn half_multiply(s: CpuState, instr: u32, pc: u32) -> (CpuState, Seen<bool>) {
    let (rd, rn, rs, rm) = (f4(instr, 16), f4(instr, 12), f4(instr, 8), f4(instr, 0));
    let y = half(s.ra(rs, pc), bit(instr, 6));
    let x = half(s.ra(rm, pc), bit(instr, 5));
    let any_pc = rd == 15 || rs == 15 || rm == 15;
    if instr & 0x0ff0_0090 == 0x0100_0080 {
        if any_pc || rn == 15 {
            unpredictable(s, "multiply with PC register"@)
        } else {
            took(write_sticky(s, rd, x * y + (s.ra(rn, pc) as i32)))
        }
    } else if instr & 0x0ff0_0090 == 0x0140_0080 {
        if any_pc || rn == 15 {
            unpredictable(s, "multiply with PC register"@)
        } else if rd == rn {
            unpredictable(s, "dual long multiply with same high/low register"@)
        } else {
            took(accumulate_pair(s, rn, rd, x * y))
        }
    } else if instr & 0x0ff0_00b0 == 0x0120_0080 {
        if any_pc || rn == 15 {
            unpredictable(s, "multiply with PC register"@)
        } else {
            let wide = ((s.ra(rm, pc) as i32) * y) as i64;
            took(write_sticky(s, rd, (wide >> 16) + (s.ra(rn, pc) as i32)))
        }
    } else if instr & 0x0ff0_00b0 == 0x0120_00a0 {
        if any_pc {
            unpredictable(s, "multiply with PC register"@)
        } else {
            let wide = ((s.ra(rm, pc) as i32) * y) as i64;
            took(s.wa(rd, ((wide >> 16) as i32) as u32))
        }
    } else if instr & 0x0ff0_0090 == 0x0160_0080 {
        if any_pc {
            unpredictable(s, "multiply with PC register"@)
        } else {
            took(s.wa(rd, ((x * y) as i32) as u32))
        }
    } else {
        passed(s)
    }
}

/// The doubleword product of two words, signed or unsigned.
pub open spec fn long_product(a: u32, b: u32, signed: bool) -> u64 {
    if signed {
        (((a as i32) * (b as i32)) as i64) as u64
    } else {
        (a * b) as u64
    }
}

/// UMULL, UMLAL, SMULL and SMLAL.
pub open spec fn long_multiply(s: CpuState, instr: u32, pc: u32) -> (CpuState, Seen<bool>) {
    let (hi, lo, rs, rm) = (f4(instr, 16), f4(instr, 12), f4(instr, 8), f4(instr, 0));
    if hi == 15 || lo == 15 || rs == 15 || rm == 15 {
        unpredictable(s, "multiply with PC register"@)
    } else if hi == lo {
        unpredictable(s, "long multiply with same high/low register"@)
    } else {
        let product = long_product(s.ra(rm, pc), s.ra(rs, pc), bit(instr, 22));
        let acc = if bit(instr, 21) {
            pair64(s.r(hi), s.r(lo))
        } else {
            0
        };
        let v = product.wrapping_add(acc);
        let s1 = write_pair(s, lo, hi, v);
        took(
            if bit(instr, 20) {
                s1.with_cpsr(
                    super::cpu::Cpsr { n: v & (1u64 << 63) != 0, z: v == 0, ..s1.cpsr },
                )
            } else {
                s1
            },
        )
    }
}

/// MUL and MLA.
pub open spec fn short_multiply(s: CpuState, instr: u32, pc: u32) -> (CpuState, Seen<bool>) {
    let (rd, rn, rs, rm) = (f4(instr, 16), f4(instr, 12), f4(instr, 8), f4(instr, 0));
    if rd == 15 || rs == 15 || rm == 15 || (bit(instr, 21) && rn == 15) {
        unpredictable(s, "multiply with PC register"@)
    } else {
        let product = s.ra(rm, pc).wrapping_mul(s.ra(rs, pc));
        let v = if bit(instr, 21) {
            product.wrapping_add(s.ra(rn, pc))
        } else {
            product
        };
        let s1 = s.wa(rd, v);
        took(
            if bit(instr, 20) {
                s1.with_cpsr(s1.cpsr.nz(v))
            } else {
                s1
            },
        )
    }
}

/// What an A32 word does as a multiplication, if it is one.
#[verifier::opaque]
pub open spec fn arm_multiply(s: CpuState, instr: u32, pc: u32) -> (CpuState, Seen<bool>) {
    let key = instr & 0x0ff0_00d0;
    if instr & 0x0ff0_00f0 == 0x0040_0090 {
        umaal(s, instr, pc)
    } else if key == 0x0700_0010 || key == 0x0700_0050 || key == 0x0740_0010 || key
        == 0x0740_0050 {
        dual_multiply(s, instr, pc)
    } else if key == 0x0750_0010 || key == 0x0750_00d0 {
        high_multiply(s, instr, pc)
    } else if half_multiply(s, instr, pc) != passed(s) {
        half_multiply(s, instr, pc)
    } else if instr & 0x0f80_00f0 == 0x0080_0090 {
        long_multiply(s, instr, pc)
    } else if instr & 0x0fc0_00f0 == 0x0000_0090 {
        short_multiply(s, instr, pc)
    } else {
        passed(s)
    }
}

impl Cpu {
    fn exec_arm_umaal(&mut self, instr: u32, pc: u32) -> (r: Result<bool>)
        ensures
            (final(self)@, seen(r)) == umaal(old(self)@, instr, pc),
    {
        let rd_hi = field4(instr, 16);
        let rd_lo = field4(instr, 12);
        let rm = field4(instr, 8);
        let rn = field4(instr, 0);
        if rd_hi == 15 || rd_lo == 15 || rm == 15 || rn == 15 {
            return Err(Trap::Unpredictable("multiply with PC register"));
        }
        if rd_hi == rd_lo {
            return Err(Trap::Unpredictable("UMAAL with same high/low register"));
        }
        let a = self.reg(rn);
        let b = self.reg(rm);
        proof {
            unsigned_product_bounds(a, b);
        }
        let result = a as u64 * b as u64 + self.reg(rd_hi) as u64 + self.reg(rd_lo) as u64;
        self.write_pair_regs(rd_lo, rd_hi, result);
        Ok(true)
    }

    pub(crate) fn write_pair_regs(&mut self, lo: usize, hi: usize, v: u64)
        requires
            lo < 16,
            hi < 16,
        ensures
            final(self)@ == write_pair(old(self)@, lo, hi, v),
    {
        self.set_reg(lo, v as u32);
        self.set_reg(hi, (v >> 32) as u32);
    }

    pub(crate) fn accumulate_pair_regs(&mut self, lo: usize, hi: usize, v: i64)
        requires
            lo < 16,
            hi < 16,
        ensures
            final(self)@ == accumulate_pair(old(self)@, lo, hi, v as int),
    {
        let acc = (((self.reg(hi) as u64) << 32) | (self.reg(lo) as u64)) as i64;
        let sum = acc.wrapping_add(v);
        self.set_reg(lo, sum as u32);
        self.set_reg(hi, (sum >> 32) as u32);
    }

    pub(crate) fn write_sticky_reg(&mut self, rd: usize, v: i64)
        requires
            rd < 16,
        ensures
            final(self)@ == write_sticky(old(self)@, rd, v as int),
    {
        self.saturated(v > i32::MAX as i64 || v < i32::MIN as i64);
        self.write_reg_arm(rd, v as i32 as u32);
    }

    fn exec_arm_dual_multiply(&mut self, instr: u32, pc: u32) -> (r: Result<bool>)
        ensures
            (final(self)@, seen(r)) == dual_multiply(old(self)@, instr, pc),
    {
        let dual_key = instr & 0x0ff0_00d0;
        let rd_or_hi = field4(instr, 16);
        let ra_or_lo = field4(instr, 12);
        let rm = field4(instr, 8);
        let rn = field4(instr, 0);
        let long = dual_key & 0x0040_0000 != 0;
        if rd_or_hi == 15 || rm == 15 || rn == 15 || (long && ra_or_lo == 15) {
            return Err(Trap::Unpredictable("multiply with PC register"));
        }
        let (lo, hi) = signed_dual_products(
            self.arm_read_reg(rn, pc),
            self.arm_read_reg(rm, pc),
            bit_at(instr, 5),
        );
        let product = if dual_key & 0x40 == 0 {
            lo as i64 + hi as i64
        } else {
            lo as i64 - hi as i64
        };
        if long {
            if rd_or_hi == ra_or_lo {
                return Err(Trap::Unpredictable("dual long multiply with same high/low register"));
            }
            self.accumulate_pair_regs(ra_or_lo, rd_or_hi, product);
        } else if ra_or_lo == 15 {
            self.write_sticky_reg(rd_or_hi, product);
        } else {
            let addend = self.arm_read_reg(ra_or_lo, pc) as i32 as i64;
            self.write_sticky_reg(rd_or_hi, product + addend);
        }
        Ok(true)
    }

    fn exec_arm_high_multiply(&mut self, instr: u32, pc: u32) -> (r: Result<bool>)
        requires
            instr & 0x0ff0_00d0 == 0x0750_0010 || instr & 0x0ff0_00d0 == 0x0750_00d0,
        ensures
            (final(self)@, seen(r)) == high_multiply(old(self)@, instr, pc),
    {
        let key = instr & 0x0ff0_00d0;
        let rd = field4(instr, 16);
        let ra = field4(instr, 12);
        let rm = field4(instr, 8);
        let rn = field4(instr, 0);
        let round = bit_at(instr, 5);
        if rd == 15 || rm == 15 || rn == 15 || (key == 0x0750_00d0 && ra == 15) {
            return Err(Trap::Unpredictable("multiply with PC register"));
        }
        let a = self.arm_read_reg(rn, pc) as i32;
        let b = self.arm_read_reg(rm, pc) as i32;
        proof {
            word_product_bounds(a, b);
        }
        let product = a as i64 * b as i64;
        let result = if ra == 15 {
            signed_high_word(product, round)
        } else {
            let addend = ((self.arm_read_reg(ra, pc) as u64) << 32) as i64;
            let temp = if key == 0x0750_0010 {
                addend.wrapping_add(product)
            } else {
                addend.wrapping_sub(product)
            };
            signed_high_word(temp, round)
        };
        self.write_reg_arm(rd, result);
        Ok(true)
    }

    fn exec_arm_half_multiply(&mut self, instr: u32, pc: u32) -> (r: Result<bool>)
        ensures
            (final(self)@, seen(r)) == half_multiply(old(self)@, instr, pc),
            r == Ok::<bool, Trap>(false) ==> final(self)@ == old(self)@,
    {
        let rd = field4(instr, 16);
        let rn = field4(instr, 12);
        let rs = field4(instr, 8);
        let rm = field4(instr, 0);
        let any_pc = rd == 15 || rs == 15 || rm == 15;
        let rm_value = self.arm_read_reg(rm, pc);
        let acc = self.arm_read_reg(rn, pc) as i32 as i64;
        let x = select_i16(rm_value, bit_at(instr, 5));
        let y = select_i16(self.arm_read_reg(rs, pc), bit_at(instr, 6));
        proof {
            half_product_bounds(x, y);
            word_half_product_bounds(rm_value as i32, y);
        }
        let product = x as i64 * y as i64;
        let wide = rm_value as i32 as i64 * y as i64;
        proof {
            shift16_bounds(wide);
        }
        if instr & 0x0ff0_0090 == 0x0100_0080 {
            if any_pc || rn == 15 {
                return Err(Trap::Unpredictable("multiply with PC register"));
            }
            self.write_sticky_reg(rd, product + acc);
            return Ok(true);
        }
        if instr & 0x0ff0_0090 == 0x0140_0080 {
            if any_pc || rn == 15 {
                return Err(Trap::Unpredictable("multiply with PC register"));
            }
            if rd == rn {
                return Err(Trap::Unpredictable("dual long multiply with same high/low register"));
            }
            self.accumulate_pair_regs(rn, rd, product);
            return Ok(true);
        }
        if instr & 0x0ff0_00b0 == 0x0120_0080 {
            if any_pc || rn == 15 {
                return Err(Trap::Unpredictable("multiply with PC register"));
            }
            self.write_sticky_reg(rd, (wide >> 16) + acc);
            return Ok(true);
        }
        if instr & 0x0ff0_00b0 == 0x0120_00a0 {
            if any_pc {
                return Err(Trap::Unpredictable("multiply with PC register"));
            }
            self.write_reg_arm(rd, (wide >> 16) as i32 as u32);
            return Ok(true);
        }
        if instr & 0x0ff0_0090 == 0x0160_0080 {
            if any_pc {
                return Err(Trap::Unpredictable("multiply with PC register"));
            }
            self.write_reg_arm(rd, product as i32 as u32);
            return Ok(true);
        }
        Ok(false)
    }

    fn exec_arm_long_multiply(&mut self, instr: u32, pc: u32) -> (r: Result<bool>)
        ensures
            (final(self)@, seen(r)) == long_multiply(old(self)@, instr, pc),
    {
        let rd_hi = field4(instr, 16);
        let rd_lo = field4(instr, 12);
        let rs = field4(instr, 8);
        let rm = field4(instr, 0);
        if rd_hi == 15 || rd_lo == 15 || rs == 15 || rm == 15 {
            return Err(Trap::Unpredictable("multiply with PC register"));
        }
        if rd_hi == rd_lo {
            return Err(Trap::Unpredictable("long multiply with same high/low register"));
        }
        let product = multiply_long(
            self.arm_read_reg(rm, pc),
            self.arm_read_reg(rs, pc),
            bit_at(instr, 22),
        );
        let acc: u64 = if bit_at(instr, 21) {
            ((self.reg(rd_hi) as u64) << 32) | (self.reg(rd_lo) as u64)
        } else {
            0
        };
        let result = product.wrapping_add(acc);
        self.write_pair_regs(rd_lo, rd_hi, result);
        if bit_at(instr, 20) {
            let mut c = self.flags();
            c.n = result & (1u64 << 63) != 0;
            c.z = result == 0;
            self.set_flags(c);
        }
        Ok(true)
    }

    fn exec_arm_short_multiply(&mut self, instr: u32, pc: u32) -> (r: Result<bool>)
        ensures
            (final(self)@, seen(r)) == short_multiply(old(self)@, instr, pc),
    {
        let accumulate = bit_at(instr, 21);
        let rd = field4(instr, 16);
        let rn = field4(instr, 12);
        let rs = field4(instr, 8);
        let rm = field4(instr, 0);
        if rd == 15 || rs == 15 || rm == 15 || (accumulate && rn == 15) {
            return Err(Trap::Unpredictable("multiply with PC register"));
        }
        let mut result = self.arm_read_reg(rm, pc).wrapping_mul(self.arm_read_reg(rs, pc));
        if accumulate {
            result = result.wrapping_add(self.arm_read_reg(rn, pc));
        }
        self.write_reg_arm(rd, result);
        if bit_at(instr, 20) {
            self.set_nz(result);
        }
        Ok(true)
    }

    pub(crate) fn exec_arm_multiply(&mut self, instr: u32, pc: u32) -> (r: Result<bool>)
        ensures
            (final(self)@, seen(r)) == arm_multiply(old(self)@, instr, pc),
    {
        reveal(arm_multiply);
        if instr & 0x0ff0_00f0 == 0x0040_0090 {
            return self.exec_arm_umaal(instr, pc);
        }
        let key = instr & 0x0ff0_00d0;
        if key == 0x0700_0010 || key == 0x0700_0050 || key == 0x0740_0010 || key == 0x0740_0050 {
            return self.exec_arm_dual_multiply(instr, pc);
        }
        if key == 0x0750_0010 || key == 0x0750_00d0 {
            return self.exec_arm_high_multiply(instr, pc);
        }
        if self.exec_arm_half_multiply(instr, pc)? {
            return Ok(true);
        }
        if instr & 0x0f80_00f0 == 0x0080_0090 {
            return self.exec_arm_long_multiply(instr, pc);
        }
        if instr & 0x0fc0_00f0 == 0x0000_0090 {
            return self.exec_arm_short_multiply(instr, pc);
        }
        Ok(false)
    }
}

/// The doubleword product of two words.
pub(crate) fn multiply_long(a: u32, b: u32, signed: bool) -> (r: u64)
    ensures
        r == long_product(a, b, signed),
{
    proof {
        unsigned_product_bounds(a, b);
        word_product_bounds(a as i32, b as i32);
    }
    if signed {
        ((a as i32) as i64 * (b as i32) as i64) as u64
    } else {
        a as u64 * b as u64
    }
}

/// A 48-bit product shifted down by half a word.
pub proof fn shift16_bounds(v: i64)
    requires
        -0x4000_0000_0000 <= v <= 0x4000_0000_0000,
    ensures
        -0x4000_0000 <= v >> 16 <= 0x4000_0000,
{
    assert(-0x4000_0000 <= v >> 16 && v >> 16 <= 0x4000_0000) by (bit_vector)
        requires
            -0x4000_0000_0000 <= v,
            v <= 0x4000_0000_0000,
    ;
}

} // verus!
