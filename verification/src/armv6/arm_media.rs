//! A32 media instructions: extension, packing, selection, parallel arithmetic
//! and saturation.

use super::alu::{
    byte_distances, extend16, extend_add_16, fits_i32, ge16, ge8, par16, par8, parallel_ge16,
    parallel_ge8, parallel_lane16, parallel_lane8, sat32, sat_signed, sat_unsigned, saturate_i32,
    saturate_u32, saturating_add_i32, saturating_sub_i32, shift_operand, shifted, sum_of_distances,
    Shift,
};
use super::bits::{bit, bit_at, f4, field4, group_masks, ror32, rotate_right, sext, sign_extend};
use super::cpu::{passed, took, unpredictable, Cpsr, Cpu, CpuState, Seen};
use super::trap::{seen, Result, Trap};
use vstd::prelude::*;

verus! {

broadcast use group_masks;

/// A register as an addend, where the program counter stands for zero.
pub open spec fn addend(s: CpuState, r: usize, pc: u32) -> u32 {
    if r == 15 {
        0
    } else {
        s.ra(r, pc)
    }
}

/// The key of the extend-and-add instructions.
pub open spec fn is_extend(key: u32) -> bool {
    key == 0x0680_0070 || key == 0x06a0_0070 || key == 0x06b0_0070 || key == 0x06c0_0070 || key
        == 0x06e0_0070 || key == 0x06f0_0070
}

/// An operand extended from bytes or halfwords and added to `base`.
pub open spec fn extended(key: u32, base: u32, rotated: u32) -> u32 {
    if key == 0x0680_0070 {
        extend16(base, rotated, true)
    } else if key == 0x06a0_0070 {
        base.wrapping_add(sext(rotated & 0xff, 8) as u32)
    } else if key == 0x06b0_0070 {
        base.wrapping_add(sext(rotated & 0xffff, 16) as u32)
    } else if key == 0x06c0_0070 {
        extend16(base, rotated, false)
    } else if key == 0x06e0_0070 {
        base.wrapping_add(rotated & 0xff)
    } else {
        base.wrapping_add(rotated & 0xffff)
    }
}

/// SXTAB16, SXTAB, SXTAH, UXTAB16, UXTAB and UXTAH.
pub open spec fn arm_extend(s: CpuState, instr: u32, pc: u32) -> (CpuState, Seen<bool>) {
    let (rn, rd, rm) = (f4(instr, 16), f4(instr, 12), f4(instr, 0));
    if rd == 15 || rm == 15 {
        unpredictable(s, "extend with PC register"@)
    } else {
        let rotated = ror32(s.ra(rm, pc), (((instr >> 10) & 3) * 8) as u32);
        took(s.wa(rd, extended(instr & 0x0ff0_0070, addend(s, rn, pc), rotated)))
    }
}

/// USAD8 and USADA8.
pub open spec fn arm_distances(s: CpuState, instr: u32, pc: u32) -> (CpuState, Seen<bool>) {
    let (rd, rn, rs, rm) = (f4(instr, 16), f4(instr, 12), f4(instr, 8), f4(instr, 0));
    if rd == 15 || rs == 15 || rm == 15 {
        unpredictable(s, "USAD8 with PC register"@)
    } else {
        let sum = byte_distances(s.ra(rm, pc), s.ra(rs, pc)) as u32;
        took(s.wa(rd, addend(s, rn, pc).wrapping_add(sum)))
    }
}

/// The packed halves of PKHBT and PKHTB. An arithmetic shift by zero stands
/// for a shift by thirty-two.
pub open spec fn packed(instr: u32, n: u32, m: u32) -> u32 {
    let shift = (instr >> 7) & 0x1f;
    if instr & (1u32 << 6) == 0 {
        (n & 0x0000_ffff) | (m.wrapping_shl(shift) & 0xffff_0000)
    } else {
        (n & 0xffff_0000) | (shifted(m, Shift::Asr, shift, false, true).value & 0x0000_ffff)
    }
}

/// PKHBT and PKHTB.
pub open spec fn arm_pack(s: CpuState, instr: u32, pc: u32) -> (CpuState, Seen<bool>) {
    let (rn, rd, rm) = (f4(instr, 16), f4(instr, 12), f4(instr, 0));
    if rn == 15 || rd == 15 || rm == 15 {
        unpredictable(s, "packing with PC register"@)
    } else {
        took(s.wa(rd, packed(instr, s.ra(rn, pc), s.ra(rm, pc))))
    }
}

/// One byte of a selection.
pub open spec fn pick(ge: u8, lane: u8, n: u32, m: u32) -> u32 {
    (if ge & (1u8 << lane) != 0 {
        n
    } else {
        m
    }) & (0xffu32 << ((8 * lane) as u32))
}

/// Each byte from the first word where its GE flag is set, else from the second.
pub open spec fn select(ge: u8, n: u32, m: u32) -> u32 {
    pick(ge, 0, n, m) | pick(ge, 1, n, m) | pick(ge, 2, n, m) | pick(ge, 3, n, m)
}

/// SEL.
pub open spec fn arm_select(s: CpuState, instr: u32, pc: u32) -> (CpuState, Seen<bool>) {
    let (rn, rd, rm) = (f4(instr, 16), f4(instr, 12), f4(instr, 0));
    if rn == 15 || rd == 15 || rm == 15 {
        unpredictable(s, "SEL with PC register"@)
    } else {
        took(s.wa(rd, select(s.cpsr.ge, s.ra(rn, pc), s.ra(rm, pc))))
    }
}

/// Whether a family and an operation name a parallel instruction.
pub open spec fn is_parallel(family: u32, op: u32) -> bool {
    family != 0 && family != 4 && op != 5 && op != 6
}

/// The two halfword results of a parallel operation: straight addition, the
/// two exchanged forms, straight subtraction.
pub open spec fn parallel_halves(family: u32, op: u32, n: u32, m: u32) -> u32 {
    let (uns, sat, half) = (family >= 5, family == 2 || family == 6, family == 3 || family == 7);
    let (nl, nh, ml, mh) = (n as u16, (n >> 16) as u16, m as u16, (m >> 16) as u16);
    let crossed = op == 1 || op == 2;
    let lo = par16(
        nl,
        if crossed {
            mh
        } else {
            ml
        },
        op == 0 || op == 2,
        uns,
        sat,
        half,
    );
    let hi = par16(
        nh,
        if crossed {
            ml
        } else {
            mh
        },
        op == 0 || op == 1,
        uns,
        sat,
        half,
    );
    (lo as u32) | ((hi as u32) << 16)
}

/// The GE flags of a parallel halfword operation.
pub open spec fn parallel_half_flags(family: u32, op: u32, n: u32, m: u32) -> u8 {
    let uns = family >= 5;
    let (nl, nh, ml, mh) = (n as u16, (n >> 16) as u16, m as u16, (m >> 16) as u16);
    let crossed = op == 1 || op == 2;
    let lo = ge16(
        nl,
        if crossed {
            mh
        } else {
            ml
        },
        op == 0 || op == 2,
        uns,
    );
    let hi = ge16(
        nh,
        if crossed {
            ml
        } else {
            mh
        },
        op == 0 || op == 1,
        uns,
    );
    (if lo {
        3u8
    } else {
        0
    }) | (if hi {
        12u8
    } else {
        0
    })
}

/// Byte `lane` of a word.
pub open spec fn byte_of(v: u32, lane: u32) -> u8 {
    ((v >> ((8 * lane) as u32)) & 0xff) as u8
}

/// Byte lane of a parallel operation, at its place in the result.
pub open spec fn parallel_byte(family: u32, plus: bool, n: u32, m: u32, lane: u32) -> u32 {
    (par8(
        byte_of(n, lane),
        byte_of(m, lane),
        plus,
        family >= 5,
        family == 2 || family == 6,
        family == 3 || family == 7,
    ) as u32) << ((8 * lane) as u32)
}

/// The GE flag of a byte lane, at its place.
pub open spec fn parallel_byte_flag(family: u32, plus: bool, n: u32, m: u32, lane: u32) -> u8 {
    if ge8(byte_of(n, lane), byte_of(m, lane), plus, family >= 5) {
        1u8 << lane
    } else {
        0
    }
}

/// The result of a parallel addition or subtraction.
pub open spec fn parallel_result(family: u32, op: u32, n: u32, m: u32) -> u32 {
    if op <= 3 {
        parallel_halves(family, op, n, m)
    } else {
        parallel_byte(family, op == 4, n, m, 0) | parallel_byte(family, op == 4, n, m, 1)
            | parallel_byte(family, op == 4, n, m, 2) | parallel_byte(family, op == 4, n, m, 3)
    }
}

/// The GE flags of a parallel addition or subtraction.
pub open spec fn parallel_flags(family: u32, op: u32, n: u32, m: u32) -> u8 {
    if op <= 3 {
        parallel_half_flags(family, op, n, m)
    } else {
        parallel_byte_flag(family, op == 4, n, m, 0) | parallel_byte_flag(family, op == 4, n, m, 1)
            | parallel_byte_flag(family, op == 4, n, m, 2) | parallel_byte_flag(
            family,
            op == 4,
            n,
            m,
            3,
        )
    }
}

/// The flags after a parallel operation: only the plain modular families set
/// the GE bits.
pub open spec fn after_parallel(s: CpuState, family: u32, op: u32, n: u32, m: u32) -> CpuState {
    if family == 1 || family == 5 {
        s.with_cpsr(Cpsr { ge: parallel_flags(family, op, n, m), ..s.cpsr })
    } else {
        s
    }
}

/// The parallel additions and subtractions.
pub open spec fn arm_parallel(s: CpuState, instr: u32, pc: u32) -> (CpuState, Seen<bool>) {
    let family = (instr >> 20) & 7;
    let op = (instr >> 5) & 7;
    let (rn, rd, rm) = (f4(instr, 16), f4(instr, 12), f4(instr, 0));
    if rn == 15 || rd == 15 || rm == 15 {
        unpredictable(s, "parallel media with PC register"@)
    } else {
        let (n, m) = (s.ra(rn, pc), s.ra(rm, pc));
        took(after_parallel(s, family, op, n, m).wa(rd, parallel_result(family, op, n, m)))
    }
}

/// QADD, QSUB, QDADD and QDSUB: the doubling saturates on its own.
pub open spec fn arm_saturating(s: CpuState, instr: u32, pc: u32) -> (CpuState, Seen<bool>) {
    let op = (instr >> 21) & 3;
    let (rn, rd, rm) = (f4(instr, 16), f4(instr, 12), f4(instr, 0));
    if rn == 15 || rd == 15 || rm == 15 {
        unpredictable(s, "saturating arithmetic with PC register"@)
    } else {
        let n = s.ra(rn, pc) as i32;
        let m = s.ra(rm, pc) as i32;
        let doubles = op >= 2;
        let operand = if doubles {
            sat32(n + n)
        } else {
            n
        };
        let wide = if op == 0 || op == 2 {
            m + operand
        } else {
            m - operand
        };
        took(
            s.with_cpsr(
                s.cpsr.sticky(doubles && !fits_i32(n + n)).sticky(!fits_i32(wide)),
            ).wa(rd, sat32(wide) as u32),
        )
    }
}

/// One halfword of SSAT16 or USAT16.
pub open spec fn sat_half(v: i32, bits: u32, unsigned: bool) -> u32 {
    (if unsigned {
        sat_unsigned(v, bits)
    } else {
        sat_signed(v, bits) as u32
    }) & 0xffff
}

/// Whether a halfword saturates.
pub open spec fn half_saturates(v: i32, bits: u32, unsigned: bool) -> bool {
    if unsigned {
        sat_unsigned(v, bits) != v
    } else {
        sat_signed(v, bits) != v
    }
}

/// SSAT16 and USAT16.
pub open spec fn arm_saturate16(s: CpuState, instr: u32, pc: u32) -> (CpuState, Seen<bool>) {
    let unsigned = instr & 0x0ff0_0ff0 == 0x06e0_0f30;
    let (rd, rn) = (f4(instr, 12), f4(instr, 0));
    if rd == 15 || rn == 15 {
        unpredictable(s, "saturation with PC register"@)
    } else {
        let field = (instr >> 16) & 0xf;
        let bits = if unsigned {
            field
        } else {
            (field + 1) as u32
        };
        let v = s.ra(rn, pc);
        let lo = ((v as u16) as i16) as i32;
        let hi = (((v >> 16) as u16) as i16) as i32;
        took(
            s.with_cpsr(
                s.cpsr.sticky(half_saturates(lo, bits, unsigned)).sticky(
                    half_saturates(hi, bits, unsigned),
                ),
            ).wa(rd, sat_half(lo, bits, unsigned) | (sat_half(hi, bits, unsigned) << 16)),
        )
    }
}

/// SSAT and USAT on a shifted operand.
pub open spec fn arm_saturate(s: CpuState, instr: u32, pc: u32) -> (CpuState, Seen<bool>) {
    let unsigned = instr & 0x0fe0_0030 == 0x06e0_0010;
    let (rd, rn) = (f4(instr, 12), f4(instr, 0));
    if rd == 15 || rn == 15 {
        unpredictable(s, "saturation with PC register"@)
    } else {
        let amount = (instr >> 7) & 0x1f;
        let field = (instr >> 16) & 0x1f;
        let v = (if bit(instr, 6) {
            shifted(s.ra(rn, pc), Shift::Asr, amount, s.cpsr.c, true).value
        } else {
            s.ra(rn, pc).wrapping_shl(amount)
        }) as i32;
        if unsigned {
            took(
                s.with_cpsr(s.cpsr.sticky(sat_unsigned(v, field) != v)).wa(
                    rd,
                    sat_unsigned(v, field),
                ),
            )
        } else {
            let bits = (field + 1) as u32;
            took(
                s.with_cpsr(s.cpsr.sticky(sat_signed(v, bits) != v)).wa(
                    rd,
                    sat_signed(v, bits) as u32,
                ),
            )
        }
    }
}

/// What an A32 word does as a media instruction, if it is one.
pub open spec fn arm_media(s: CpuState, instr: u32, pc: u32) -> (CpuState, Seen<bool>) {
    if is_extend(instr & 0x0ff0_0070) {
        arm_extend(s, instr, pc)
    } else if instr & 0x0ff0_00f0 == 0x0780_0010 {
        arm_distances(s, instr, pc)
    } else if instr & 0x0ff0_0090 == 0x0680_0010 {
        arm_pack(s, instr, pc)
    } else if instr & 0x0ff0_0ff0 == 0x0680_0fb0 {
        arm_select(s, instr, pc)
    } else if instr & 0x0f80_0f10 == 0x0600_0f10 && is_parallel((instr >> 20) & 7, (instr >> 5) & 7) {
        arm_parallel(s, instr, pc)
    } else if instr & 0x0f90_0ff0 == 0x0100_0050 {
        arm_saturating(s, instr, pc)
    } else if instr & 0x0ff0_0ff0 == 0x06a0_0f30 || instr & 0x0ff0_0ff0 == 0x06e0_0f30 {
        arm_saturate16(s, instr, pc)
    } else if instr & 0x0fe0_0030 == 0x06a0_0010 || instr & 0x0fe0_0030 == 0x06e0_0010 {
        arm_saturate(s, instr, pc)
    } else {
        passed(s)
    }
}

fn extend_operand(key: u32, base: u32, rotated: u32) -> (r: u32)
    ensures
        r == extended(key, base, rotated),
{
    match key {
        0x0680_0070 => extend_add_16(base, rotated, true),
        0x06a0_0070 => base.wrapping_add(sign_extend(rotated & 0xff, 8) as u32),
        0x06b0_0070 => base.wrapping_add(sign_extend(rotated & 0xffff, 16) as u32),
        0x06c0_0070 => extend_add_16(base, rotated, false),
        0x06e0_0070 => base.wrapping_add(rotated & 0xff),
        _ => base.wrapping_add(rotated & 0xffff),
    }
}

fn pack_halves(instr: u32, n: u32, m: u32) -> (r: u32)
    ensures
        r == packed(instr, n, m),
{
    let shift = (instr >> 7) & 0x1f;
    if instr & (1u32 << 6) == 0 {
        (n & 0x0000_ffff) | (m.wrapping_shl(shift) & 0xffff_0000)
    } else {
        (n & 0xffff_0000) | (shift_operand(m, Shift::Asr, shift, false, true).value & 0x0000_ffff)
    }
}

fn pick_byte(ge: u8, lane: u8, n: u32, m: u32) -> (r: u32)
    requires
        lane < 4,
    ensures
        r == pick(ge, lane, n, m),
{
    (if ge & (1u8 << lane) != 0 {
        n
    } else {
        m
    }) & (0xffu32 << ((8 * lane) as u32))
}

fn saturate_half(v: i32, bits: u32, unsigned: bool, c: &mut Cpsr) -> (r: u32)
    requires
        bits < 32,
        unsigned || 1 <= bits,
    ensures
        r == sat_half(v, bits, unsigned),
        *final(c) == old(c).sticky(half_saturates(v, bits, unsigned)),
{
    (if unsigned {
        saturate_u32(v, bits, c)
    } else {
        saturate_i32(v, bits, c) as u32
    }) & 0xffff
}

fn byte_at(v: u32, lane: u32) -> (r: u8)
    requires
        lane < 4,
    ensures
        r == byte_of(v, lane),
{
    ((v >> (8 * lane)) & 0xff) as u8
}

fn byte_lane(family: u32, plus: bool, n: u32, m: u32, lane: u32) -> (r: u32)
    requires
        lane < 4,
    ensures
        r == parallel_byte(family, plus, n, m, lane),
{
    (parallel_lane8(
        byte_at(n, lane),
        byte_at(m, lane),
        plus,
        family >= 5,
        family == 2 || family == 6,
        family == 3 || family == 7,
    ) as u32) << (8 * lane)
}

fn byte_flag(family: u32, plus: bool, n: u32, m: u32, lane: u32) -> (r: u8)
    requires
        lane < 4,
    ensures
        r == parallel_byte_flag(family, plus, n, m, lane),
{
    if parallel_ge8(byte_at(n, lane), byte_at(m, lane), plus, family >= 5) {
        1u8 << lane
    } else {
        0
    }
}

impl Cpu {
    fn addend_reg(&self, r: usize, pc: u32) -> (v: u32)
        requires
            r < 16,
        ensures
            v == addend(self@, r, pc),
    {
        if r == 15 {
            0
        } else {
            self.arm_read_reg(r, pc)
        }
    }

    fn exec_arm_extend(&mut self, instr: u32, pc: u32) -> (r: Result<bool>)
        ensures
            (final(self)@, seen(r)) == arm_extend(old(self)@, instr, pc),
    {
        let rn = field4(instr, 16);
        let rd = field4(instr, 12);
        let rm = field4(instr, 0);
        if rd == 15 || rm == 15 {
            return Err(Trap::Unpredictable("extend with PC register"));
        }
        let rotated = rotate_right(self.arm_read_reg(rm, pc), ((instr >> 10) & 0x3) * 8);
        let base = self.addend_reg(rn, pc);
        self.write_reg_arm(rd, extend_operand(instr & 0x0ff0_0070, base, rotated));
        Ok(true)
    }

    fn exec_arm_distances(&mut self, instr: u32, pc: u32) -> (r: Result<bool>)
        ensures
            (final(self)@, seen(r)) == arm_distances(old(self)@, instr, pc),
    {
        let rd = field4(instr, 16);
        let rn = field4(instr, 12);
        let rs = field4(instr, 8);
        let rm = field4(instr, 0);
        if rd == 15 || rs == 15 || rm == 15 {
            return Err(Trap::Unpredictable("USAD8 with PC register"));
        }
        let sum = sum_of_distances(self.arm_read_reg(rm, pc), self.arm_read_reg(rs, pc));
        let base = self.addend_reg(rn, pc);
        self.write_reg_arm(rd, base.wrapping_add(sum));
        Ok(true)
    }

    fn exec_arm_pack(&mut self, instr: u32, pc: u32) -> (r: Result<bool>)
        ensures
            (final(self)@, seen(r)) == arm_pack(old(self)@, instr, pc),
    {
        let rn = field4(instr, 16);
        let rd = field4(instr, 12);
        let rm = field4(instr, 0);
        if rn == 15 || rd == 15 || rm == 15 {
            return Err(Trap::Unpredictable("packing with PC register"));
        }
        let value = pack_halves(instr, self.arm_read_reg(rn, pc), self.arm_read_reg(rm, pc));
        self.write_reg_arm(rd, value);
        Ok(true)
    }

    fn exec_arm_select(&mut self, instr: u32, pc: u32) -> (r: Result<bool>)
        ensures
            (final(self)@, seen(r)) == arm_select(old(self)@, instr, pc),
    {
        let rn = field4(instr, 16);
        let rd = field4(instr, 12);
        let rm = field4(instr, 0);
        if rn == 15 || rd == 15 || rm == 15 {
            return Err(Trap::Unpredictable("SEL with PC register"));
        }
        let n = self.arm_read_reg(rn, pc);
        let m = self.arm_read_reg(rm, pc);
        let ge = self.flags().ge;
        let out = pick_byte(ge, 0, n, m) | pick_byte(ge, 1, n, m) | pick_byte(ge, 2, n, m)
            | pick_byte(ge, 3, n, m);
        self.write_reg_arm(rd, out);
        Ok(true)
    }

    fn exec_arm_parallel_op(&mut self, family: u32, op: u32, rn: u32, rm: u32) -> (r: u32)
        requires
            family < 8,
            op < 8,
            is_parallel(family, op),
        ensures
            r == parallel_result(family, op, rn, rm),
            final(self)@ == after_parallel(old(self)@, family, op, rn, rm),
    {
        let unsigned = family >= 5;
        let saturating = family == 2 || family == 6;
        let halving = family == 3 || family == 7;
        let (result, ge) = if op <= 3 {
            let rn_lo = rn as u16;
            let rn_hi = (rn >> 16) as u16;
            let rm_lo = rm as u16;
            let rm_hi = (rm >> 16) as u16;
            let crossed = op == 1 || op == 2;
            let (with_lo, with_hi) = if crossed {
                (rm_hi, rm_lo)
            } else {
                (rm_lo, rm_hi)
            };
            let plus_lo = op == 0 || op == 2;
            let plus_hi = op == 0 || op == 1;
            let lo = parallel_lane16(rn_lo, with_lo, plus_lo, unsigned, saturating, halving);
            let hi = parallel_lane16(rn_hi, with_hi, plus_hi, unsigned, saturating, halving);
            let ge_lo = parallel_ge16(rn_lo, with_lo, plus_lo, unsigned);
            let ge_hi = parallel_ge16(rn_hi, with_hi, plus_hi, unsigned);
            (
                (lo as u32) | ((hi as u32) << 16),
                (if ge_lo {
                    3u8
                } else {
                    0
                }) | (if ge_hi {
                    12u8
                } else {
                    0
                }),
            )
        } else {
            let plus = op == 4;
            (
                byte_lane(family, plus, rn, rm, 0) | byte_lane(family, plus, rn, rm, 1)
                    | byte_lane(family, plus, rn, rm, 2) | byte_lane(family, plus, rn, rm, 3),
                byte_flag(family, plus, rn, rm, 0) | byte_flag(family, plus, rn, rm, 1)
                    | byte_flag(family, plus, rn, rm, 2) | byte_flag(family, plus, rn, rm, 3),
            )
        };
        if !saturating && !halving {
            let mut c = self.flags();
            c.ge = ge;
            self.set_flags(c);
        }
        result
    }

    fn exec_arm_parallel(&mut self, instr: u32, pc: u32) -> (r: Result<bool>)
        requires
            is_parallel((instr >> 20) & 7, (instr >> 5) & 7),
        ensures
            (final(self)@, seen(r)) == arm_parallel(old(self)@, instr, pc),
    {
        let family = (instr >> 20) & 7;
        let op = (instr >> 5) & 7;
        let rn = field4(instr, 16);
        let rd = field4(instr, 12);
        let rm = field4(instr, 0);
        if rn == 15 || rd == 15 || rm == 15 {
            return Err(Trap::Unpredictable("parallel media with PC register"));
        }
        let n = self.arm_read_reg(rn, pc);
        let m = self.arm_read_reg(rm, pc);
        let value = self.exec_arm_parallel_op(family, op, n, m);
        self.write_reg_arm(rd, value);
        Ok(true)
    }

    fn exec_arm_saturating(&mut self, instr: u32, pc: u32) -> (r: Result<bool>)
        ensures
            (final(self)@, seen(r)) == arm_saturating(old(self)@, instr, pc),
    {
        let op = (instr >> 21) & 3;
        let rn = field4(instr, 16);
        let rd = field4(instr, 12);
        let rm = field4(instr, 0);
        if rn == 15 || rd == 15 || rm == 15 {
            return Err(Trap::Unpredictable("saturating arithmetic with PC register"));
        }
        let n = self.arm_read_reg(rn, pc) as i32;
        let m = self.arm_read_reg(rm, pc) as i32;
        let mut c = self.flags();
        let value = match op {
            0 => saturating_add_i32(m, n, &mut c),
            1 => saturating_sub_i32(m, n, &mut c),
            2 => {
                let doubled = saturating_add_i32(n, n, &mut c);
                saturating_add_i32(m, doubled, &mut c)
            },
            _ => {
                let doubled = saturating_add_i32(n, n, &mut c);
                saturating_sub_i32(m, doubled, &mut c)
            },
        };
        self.set_flags(c);
        self.write_reg_arm(rd, value as u32);
        Ok(true)
    }

    fn exec_arm_saturate16(&mut self, instr: u32, pc: u32) -> (r: Result<bool>)
        ensures
            (final(self)@, seen(r)) == arm_saturate16(old(self)@, instr, pc),
    {
        let unsigned = instr & 0x0ff0_0ff0 == 0x06e0_0f30;
        let rd = field4(instr, 12);
        let rn = field4(instr, 0);
        if rd == 15 || rn == 15 {
            return Err(Trap::Unpredictable("saturation with PC register"));
        }
        let field = (instr >> 16) & 0xf;
        let bits = if unsigned {
            field
        } else {
            field + 1
        };
        let value = self.arm_read_reg(rn, pc);
        let mut c = self.flags();
        let lo = saturate_half(value as u16 as i16 as i32, bits, unsigned, &mut c);
        let hi = saturate_half((value >> 16) as u16 as i16 as i32, bits, unsigned, &mut c);
        self.set_flags(c);
        self.write_reg_arm(rd, lo | (hi << 16));
        Ok(true)
    }

    fn exec_arm_saturate(&mut self, instr: u32, pc: u32) -> (r: Result<bool>)
        ensures
            (final(self)@, seen(r)) == arm_saturate(old(self)@, instr, pc),
    {
        let unsigned = instr & 0x0fe0_0030 == 0x06e0_0010;
        let rd = field4(instr, 12);
        let rn = field4(instr, 0);
        if rd == 15 || rn == 15 {
            return Err(Trap::Unpredictable("saturation with PC register"));
        }
        let amount = (instr >> 7) & 0x1f;
        let mut c = self.flags();
        let value = if bit_at(instr, 6) {
            shift_operand(self.arm_read_reg(rn, pc), Shift::Asr, amount, c.c, true).value
        } else {
            self.arm_read_reg(rn, pc).wrapping_shl(amount)
        };
        let field = (instr >> 16) & 0x1f;
        let saturated = if unsigned {
            saturate_u32(value as i32, field, &mut c)
        } else {
            saturate_i32(value as i32, field + 1, &mut c) as u32
        };
        self.set_flags(c);
        self.write_reg_arm(rd, saturated);
        Ok(true)
    }

    pub(crate) fn exec_arm_media(&mut self, instr: u32, pc: u32) -> (r: Result<bool>)
        ensures
            (final(self)@, seen(r)) == arm_media(old(self)@, instr, pc),
    {
        let key = instr & 0x0ff0_0070;
        if key == 0x0680_0070 || key == 0x06a0_0070 || key == 0x06b0_0070 || key == 0x06c0_0070
            || key == 0x06e0_0070 || key == 0x06f0_0070 {
            return self.exec_arm_extend(instr, pc);
        }
        if instr & 0x0ff0_00f0 == 0x0780_0010 {
            return self.exec_arm_distances(instr, pc);
        }
        if instr & 0x0ff0_0090 == 0x0680_0010 {
            return self.exec_arm_pack(instr, pc);
        }
        if instr & 0x0ff0_0ff0 == 0x0680_0fb0 {
            return self.exec_arm_select(instr, pc);
        }
        if instr & 0x0f80_0f10 == 0x0600_0f10 {
            let family = (instr >> 20) & 7;
            let op = (instr >> 5) & 7;
            if family != 0 && family != 4 && op != 5 && op != 6 {
                return self.exec_arm_parallel(instr, pc);
            }
        }
        if instr & 0x0f90_0ff0 == 0x0100_0050 {
            return self.exec_arm_saturating(instr, pc);
        }
        let sat16_key = instr & 0x0ff0_0ff0;
        if sat16_key == 0x06a0_0f30 || sat16_key == 0x06e0_0f30 {
            return self.exec_arm_saturate16(instr, pc);
        }
        if instr & 0x0fe0_0030 == 0x06a0_0010 || instr & 0x0fe0_0030 == 0x06e0_0010 {
            return self.exec_arm_saturate(instr, pc);
        }
        Ok(false)
    }
}

} // verus!
