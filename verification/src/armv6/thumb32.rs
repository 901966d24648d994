//! The 32-bit Thumb instructions of the core instruction set.

use super::alu::{
    add_with_carry, add_with_flags, byte_distances, condition_passed, decode_arm_shift, diff3,
    dual, half, half_product_bounds, high_word, holds, pair64, select_i16, shift_kind,
    shift_operand, shifted, signed_dual_products, signed_high_word, sub_with_flags, sum3,
    sum_of_distances, thumb_expand_imm, thumb_imm, unsigned_product_bounds,
    word_half_product_bounds, word_product_bounds, Shifted,
};
use super::arm_misc::{claim, insert_bits, inserted};
use super::arm_multiply::{
    accumulate_pair, long_product, multiply_long, shift16_bounds, write_pair, write_sticky,
};
use super::arm_transfer::{
    arm_load_list, arm_store_list, displace, displaced, store_pair,
};
use super::bits::{
    bit, bit_at, bith, bith_at, count_ones, field4h, group_masks, low_mask, mask_of, ones_below,
    sext, sign_extend, t4,
};
use super::cpu::{
    beside, cpu_store16, cpu_store32, cpu_store8, faulted, passed, took, undefined_thumb,
    unpredictable, Cpu, CpuState, ExclusiveReservation, Seen,
};
use super::memory::{MemState, Memory};
use super::thumb::{fin, only_flags, put_shift, put_sum};
use super::trap::{seen, Result, Trap};
use vstd::prelude::*;

verus! {

broadcast use group_masks;

/// Hints and barriers; CLREX drops the reservation.
pub open spec fn t32_hint(s: CpuState, first: u16, second: u16) -> (CpuState, Seen<bool>) {
    let key = second & 0xfff0;
    if first == 0xf3af && key == 0x8000 {
        took(s)
    } else if first == 0xf3bf && key == 0x8f20 {
        took(s.with_reservation(None))
    } else if first == 0xf3bf && (key == 0x8f40 || key == 0x8f50 || key == 0x8f60) {
        took(s)
    } else {
        passed(s)
    }
}

/// Shifts by a register.
pub open spec fn t32_register_shift(s: CpuState, first: u16, second: u16) -> (CpuState, Seen<()>) {
    let (rm, rd, rs) = (t4(first, 0), t4(second, 8), t4(second, 0));
    if rd == 15 || rm == 15 || rs == 15 {
        unpredictable(s, "Thumb register shift with PC register"@)
    } else {
        let v = shifted(
            s.r(rm),
            shift_kind(((first >> 5) & 3) as u32),
            s.r(rs) & 0xff,
            s.cpsr.c,
            false,
        );
        fin(
            if bith(first, 4) {
                put_shift(s, rd, v)
            } else {
                s.with_r(rd, v.value)
            },
        )
    }
}

/// The bitwise operations of the data-processing space.
pub open spec fn t32_bitwise(op: u16, lhs: u32, rhs: u32) -> u32 {
    if op == 0 {
        lhs & rhs
    } else if op == 1 {
        lhs & !rhs
    } else if op == 2 {
        lhs | rhs
    } else if op == 3 {
        lhs | !rhs
    } else {
        lhs ^ rhs
    }
}

/// The additions and subtractions of the data-processing space.
pub open spec fn t32_sum(op: u16, lhs: u32, rhs: u32, c: bool) -> (u32, bool, bool) {
    if op == 8 {
        sum3(lhs, rhs, false)
    } else if op == 10 {
        sum3(lhs, rhs, c)
    } else if op == 11 {
        sum3(lhs, !rhs, c)
    } else if op == 13 {
        diff3(lhs, rhs)
    } else {
        diff3(rhs, lhs)
    }
}

/// A data-processing operation on two operands. A destination of fifteen turns
/// the operation into the comparison that it has.
pub open spec fn t32_operate(
    s: CpuState,
    first: u16,
    rd: usize,
    lhs: u32,
    rhs: Shifted,
    pc: u32,
) -> (CpuState, Seen<()>) {
    let op = (first >> 5) & 0xf;
    if op <= 4 {
        let v = Shifted { value: t32_bitwise(op, lhs, rhs.value), carry: rhs.carry };
        if rd == 15 && op != 0 && op != 4 {
            undefined_thumb(s, pc, first)
        } else if rd == 15 {
            fin(s.with_cpsr(s.cpsr.nzc(v.value, v.carry)))
        } else if bith(first, 4) {
            fin(put_shift(s, rd, v))
        } else {
            fin(s.with_r(rd, v.value))
        }
    } else if op == 8 || op == 10 || op == 11 || op == 13 || op == 14 {
        let v = t32_sum(op, lhs, rhs.value, s.cpsr.c);
        if rd == 15 && op != 8 && op != 13 {
            undefined_thumb(s, pc, first)
        } else if rd == 15 {
            fin(only_flags(s, v))
        } else if bith(first, 4) {
            fin(put_sum(s, rd, v))
        } else {
            fin(s.with_r(rd, v.0))
        }
    } else {
        undefined_thumb(s, pc, first)
    }
}

/// Data processing on a shifted register.
pub open spec fn t32_shifted_register(s: CpuState, first: u16, second: u16, pc: u32) -> (
    CpuState,
    Seen<()>,
) {
    let op = (first >> 5) & 0xf;
    let (rn, rd, rm) = (t4(first, 0), t4(second, 8), t4(second, 0));
    let amount = ((((second >> 12) & 7) as u32) << 2) | (((second >> 6) & 3) as u32);
    if rm == 15 {
        unpredictable(s, "Thumb shifted register with PC operand"@)
    } else {
        let rhs = shifted(
            s.r(rm),
            shift_kind(((second >> 4) & 3) as u32),
            amount,
            s.cpsr.c,
            true,
        );
        let lhs = if rn != 15 {
            s.r(rn)
        } else if op == 8 || op == 13 || op == 14 {
            pc.wrapping_add(4) & !3u32
        } else {
            0
        };
        t32_operate(s, first, rd, lhs, rhs, pc)
    }
}

/// The twelve immediate bits of a 32-bit instruction.
pub open spec fn t32_imm12(first: u16, second: u16) -> u32 {
    ((((first >> 10) & 1) as u32) << 11) | ((((second >> 12) & 7) as u32) << 8) | ((second
        & 0xff) as u32)
}

/// Data processing with a modified immediate.
pub open spec fn t32_modified_immediate(s: CpuState, first: u16, second: u16, pc: u32) -> (
    CpuState,
    Seen<()>,
) {
    let op = (first >> 5) & 0xf;
    let (rn, rd) = (t4(first, 0), t4(second, 8));
    let (imm, carry) = thumb_imm(t32_imm12(first, second), s.cpsr.c);
    let lhs = if rn != 15 {
        s.r(rn)
    } else if op <= 4 {
        0
    } else {
        pc.wrapping_add(4) & !3u32
    };
    t32_operate(s, first, rd, lhs, Shifted { value: imm, carry }, pc)
}

/// ADDW, SUBW, MOVW and MOVT.
pub open spec fn t32_plain_immediate(s: CpuState, first: u16, second: u16, pc: u32) -> (
    CpuState,
    Seen<bool>,
) {
    let (rn, rd) = (t4(first, 0), t4(second, 8));
    let imm12 = t32_imm12(first, second);
    let imm16 = (((first & 0xf) as u32) << 12) | imm12;
    let lhs = if rn == 15 {
        pc.wrapping_add(4) & !3u32
    } else {
        s.r(rn)
    };
    let key = first & 0xfbf0;
    if rd == 15 {
        unpredictable(s, "Thumb plain immediate with PC destination"@)
    } else if key == 0xf200 {
        took(s.with_r(rd, lhs.wrapping_add(imm12)))
    } else if key == 0xf2a0 {
        took(s.with_r(rd, lhs.wrapping_sub(imm12)))
    } else if key == 0xf240 {
        took(s.with_r(rd, imm16))
    } else if key == 0xf2c0 {
        took(s.with_r(rd, (s.r(rd) & 0x0000_ffff) | (imm16 << 16)))
    } else {
        passed(s)
    }
}

/// SBFX, UBFX, BFI and BFC.
pub open spec fn t32_bitfield(s: CpuState, first: u16, second: u16, pc: u32) -> (
    CpuState,
    Seen<()>,
) {
    let (rn, rd) = (t4(first, 0), t4(second, 8));
    let lsb = ((((second >> 12) & 7) as u32) << 2) | (((second >> 6) & 3) as u32);
    let high = (second & 0x1f) as u32;
    let key = first & 0xfff0;
    if rd == 15 {
        unpredictable(s, "Thumb bitfield instruction with PC destination"@)
    } else if key == 0xf340 || key == 0xf3c0 {
        if rn == 15 {
            unpredictable(s, "Thumb bitfield extract with PC source"@)
        } else if lsb + high >= 32 {
            undefined_thumb(s, pc, first)
        } else {
            let width = (high + 1) as u32;
            let raw = (s.r(rn) >> lsb) & low_mask(width);
            fin(
                s.with_r(
                    rd,
                    if key == 0xf340 {
                        sext(raw, width) as u32
                    } else {
                        raw
                    },
                ),
            )
        }
    } else if key == 0xf360 {
        if high < lsb {
            undefined_thumb(s, pc, first)
        } else {
            let source = if rn == 15 {
                0
            } else {
                s.r(rn)
            };
            fin(s.with_r(rd, inserted(s.r(rd), source, lsb, high)))
        }
    } else {
        undefined_thumb(s, pc, first)
    }
}

/// Branches.
pub open spec fn t32_branch(s: CpuState, first: u16, second: u16, pc: u32) -> (
    CpuState,
    Seen<()>,
) {
    let sign = ((first >> 10) & 1) as u32;
    let j1 = ((second >> 13) & 1) as u32;
    let j2 = ((second >> 11) & 1) as u32;
    let imm11 = (second & 0x7ff) as u32;
    let kind = (second >> 14) & 3;
    let next = pc.wrapping_add(4);
    if kind == 2 && !bith(second, 12) {
        let cond = ((first >> 6) & 0xf) as u32;
        let imm6 = (first & 0x3f) as u32;
        let offset = sext(
            (sign << 20) | (j2 << 19) | (j1 << 18) | (imm6 << 12) | (imm11 << 1),
            21,
        ) as u32;
        if cond >= 0xe {
            undefined_thumb(s, pc, first)
        } else if holds(cond, s.cpsr) {
            fin(s.with_r(15, next.wrapping_add(offset)))
        } else {
            fin(s)
        }
    } else {
        let imm10 = (first & 0x3ff) as u32;
        let i1: u32 = if j1 ^ sign == 0 {
            1
        } else {
            0
        };
        let i2: u32 = if j2 ^ sign == 0 {
            1
        } else {
            0
        };
        let offset = sext(
            (sign << 24) | (i1 << 23) | (i2 << 22) | (imm10 << 12) | (imm11 << 1),
            25,
        ) as u32;
        if kind == 2 {
            fin(s.with_r(15, next.wrapping_add(offset)))
        } else if kind == 3 && !bith(second, 12) {
            fin(s.with_r(14, next | 1).jump((next & !3u32).wrapping_add(offset) & !3u32))
        } else if kind == 3 {
            fin(s.with_r(14, next | 1).with_r(15, next.wrapping_add(offset)))
        } else {
            undefined_thumb(s, pc, first)
        }
    }
}

/// A quotient rounded towards zero; a divisor of zero gives zero.
pub open spec fn quotient(a: u32, b: u32, signed: bool) -> u32 {
    if b == 0 {
        0
    } else if signed {
        let q = (magnitude(a) / magnitude(b)) as u32;
        if ((a as i32) < 0) != ((b as i32) < 0) {
            0u32.wrapping_sub(q)
        } else {
            q
        }
    } else {
        a / b
    }
}

/// The absolute value of a signed word.
pub open spec fn magnitude(a: u32) -> int {
    if (a as i32) < 0 {
        -(a as i32)
    } else {
        (a as i32) as int
    }
}

fn magnitude_of(a: u32) -> (r: u32)
    ensures
        r == magnitude(a),
        r == 0 ==> a == 0,
{
    let v = a as i32 as i64;
    assert(a as i32 == 0 ==> a == 0) by (bit_vector);
    if v < 0 {
        (-v) as u32
    } else {
        v as u32
    }
}

fn divide(a: u32, b: u32, signed: bool) -> (r: u32)
    ensures
        r == quotient(a, b, signed),
{
    if b == 0 {
        0
    } else if signed {
        let d = magnitude_of(b);
        let q = magnitude_of(a) / d;
        if ((a as i32) < 0) != ((b as i32) < 0) {
            0u32.wrapping_sub(q)
        } else {
            q
        }
    } else {
        a / b
    }
}

/// The signed product that a 32-bit multiply-accumulate adds.
pub open spec fn t32_product(op1: u16, op2: u16, n: u32, m: u32) -> int {
    let (lo, hi) = dual(n, m, op2 & 1 != 0);
    if op1 == 1 {
        half(n, op2 & 2 != 0) * half(m, op2 & 1 != 0)
    } else if op1 == 2 {
        lo + hi
    } else if op1 == 4 {
        lo - hi
    } else {
        ((((n as i32) * half(m, op2 & 1 != 0)) as i64) >> 16) as int
    }
}

/// Whether an operation pair is one of the signed multiply-accumulates.
pub open spec fn is_t32_product(op1: u16, op2: u16) -> bool {
    (op1 == 1 && op2 <= 3) || ((op1 == 2 || op1 == 3 || op1 == 4) && op2 <= 1)
}

/// The doubleword product that a long multiply-accumulate adds.
pub open spec fn t32_long_product(op1: u16, op2: u16, n: u32, m: u32) -> int {
    let (lo, hi) = dual(n, m, op2 & 1 != 0);
    if op2 < 12 {
        half(n, op2 & 2 != 0) * half(m, op2 & 1 != 0)
    } else if op1 == 13 {
        lo - hi
    } else {
        lo + hi
    }
}

/// Multiplications, sums of distances and divisions.
pub open spec fn t32_multiply(s: CpuState, first: u16, second: u16) -> (CpuState, Seen<bool>) {
    let op1 = (first >> 4) & 0xf;
    let op2 = (second >> 4) & 0xf;
    let (rn, ra, rd, rm) = (t4(first, 0), t4(second, 12), t4(second, 8), t4(second, 0));
    let any_pc = rd == 15 || rn == 15 || rm == 15;
    let n = s.r(rn);
    let m = s.r(rm);
    if op1 == 0 && op2 == 0 {
        if any_pc {
            unpredictable(s, "Thumb multiply with PC register"@)
        } else {
            took(
                s.with_r(
                    rd,
                    if ra == 15 {
                        n.wrapping_mul(m)
                    } else {
                        n.wrapping_mul(m).wrapping_add(s.r(ra))
                    },
                ),
            )
        }
    } else if op1 == 0 && op2 == 1 {
        if any_pc || ra == 15 {
            unpredictable(s, "Thumb multiply with PC register"@)
        } else {
            took(s.with_r(rd, s.r(ra).wrapping_sub(n.wrapping_mul(m))))
        }
    } else if is_t32_product(op1, op2) {
        let product = t32_product(op1, op2, n, m);
        if any_pc {
            unpredictable(s, "Thumb multiply with PC register"@)
        } else if ra == 15 {
            took(write_sticky(s, rd, product))
        } else {
            took(write_sticky(s, rd, product + (s.r(ra) as i32)))
        }
    } else if (op1 == 5 || op1 == 6) && op2 <= 1 {
        let product = ((n as i32) * (m as i32)) as i64;
        let addend = ((s.r(ra) as u64) << 32) as i64;
        let round = op2 & 1 != 0;
        if any_pc || (op1 == 6 && ra == 15) {
            unpredictable(s, "Thumb multiply with PC register"@)
        } else if ra == 15 {
            took(s.with_r(rd, high_word(product, round)))
        } else if op1 == 5 {
            took(s.with_r(rd, high_word(addend.wrapping_add(product), round)))
        } else {
            took(s.with_r(rd, high_word(addend.wrapping_sub(product), round)))
        }
    } else if op1 == 7 && op2 == 0 {
        let sum = byte_distances(n, m) as u32;
        if any_pc {
            unpredictable(s, "Thumb multiply with PC register"@)
        } else if ra == 15 {
            took(s.with_r(rd, sum))
        } else {
            took(s.with_r(rd, sum.wrapping_add(s.r(ra))))
        }
    } else if (op1 == 9 || op1 == 11) && op2 == 15 && ra == 15 {
        if any_pc {
            unpredictable(s, "Thumb divide with PC register"@)
        } else {
            took(s.with_r(rd, quotient(n, m, op1 == 9)))
        }
    } else {
        t32_long_multiply(s, first, second)
    }
}

/// The multiplications with a doubleword result.
pub open spec fn t32_long_multiply(s: CpuState, first: u16, second: u16) -> (CpuState, Seen<bool>) {
    let op1 = (first >> 4) & 0xf;
    let op2 = (second >> 4) & 0xf;
    let (rn, lo, hi, rm) = (t4(first, 0), t4(second, 12), t4(second, 8), t4(second, 0));
    let n = s.r(rn);
    let m = s.r(rm);
    let plain = (op1 == 8 || op1 == 10 || op1 == 12 || op1 == 14) && op2 == 0;
    let halves = (op1 == 12 && 8 <= op2 <= 13) || (op1 == 13 && (op2 == 12 || op2 == 13));
    let umaal = op1 == 14 && op2 == 6;
    if !plain && !halves && !umaal {
        passed(s)
    } else if lo == 15 || hi == 15 || rn == 15 || rm == 15 {
        unpredictable(s, "Thumb multiply with PC register"@)
    } else if lo == hi {
        unpredictable(s, "Thumb long multiply with same high/low register"@)
    } else if plain {
        let acc = if op1 == 12 || op1 == 14 {
            pair64(s.r(hi), s.r(lo))
        } else {
            0
        };
        took(
            write_pair(
                s,
                lo,
                hi,
                long_product(n, m, op1 == 8 || op1 == 12).wrapping_add(acc),
            ),
        )
    } else if halves {
        took(accumulate_pair(s, lo, hi, t32_long_product(op1, op2, n, m)))
    } else {
        took(write_pair(s, lo, hi, (n * m + s.r(lo) + s.r(hi)) as u64))
    }
}

/// An exclusive store by a 32-bit instruction: size and address must be those
/// of the claim.
pub open spec fn t32_store_exclusive(
    s: CpuState,
    m: MemState,
    rn: usize,
    rt: usize,
    rd: usize,
    addr: u32,
    size: u8,
) -> (CpuState, MemState, Seen<bool>) {
    let v = s.r(rt);
    if rn == 15 || rd == 15 || rt == 15 {
        beside(unpredictable(s, "Thumb STREX with PC register"@), m)
    } else if rd == rn || rd == rt {
        beside(unpredictable(s, "Thumb STREX status register overlaps operand"@), m)
    } else if s.reservation == Some(ExclusiveReservation { addr, size }) {
        match if size == 1 {
            m.store8(addr, v as u8)
        } else if size == 2 {
            m.store16(addr, v as u16)
        } else {
            m.store32(addr, v)
        } {
            (m1, Ok(_)) => (s.with_r(rd, 0).with_reservation(None), m1, Ok(true)),
            (m1, Err(t)) => faulted(s, m1, t),
        }
    } else {
        (s.with_r(rd, 1).with_reservation(None), m, Ok(true))
    }
}

/// An exclusive load by a 32-bit instruction.
pub open spec fn t32_load_exclusive(
    s: CpuState,
    m: MemState,
    rn: usize,
    rt: usize,
    addr: u32,
    size: u8,
) -> (CpuState, MemState, Seen<bool>) {
    let loaded = if size == 1 {
        match m.load8(addr) {
            Ok(v) => Ok(v as u32),
            Err(t) => Err(t),
        }
    } else if size == 2 {
        match m.load16(addr) {
            Ok(v) => Ok(v as u32),
            Err(t) => Err(t),
        }
    } else {
        m.load32(addr)
    };
    if rn == 15 || rt == 15 {
        beside(unpredictable(s, "Thumb LDREX with PC register"@), m)
    } else {
        match loaded {
            Ok(v) => (claim(s.with_r(rt, v), addr, size), m, Ok(true)),
            Err(t) => faulted(s, m, t),
        }
    }
}

/// The exclusive loads and stores.
pub open spec fn t32_exclusive(s: CpuState, m: MemState, first: u16, second: u16) -> (
    CpuState,
    MemState,
    Seen<bool>,
) {
    let key = first & 0xfff0;
    let rn = t4(first, 0);
    let rt = t4(second, 12);
    let narrow = (second >> 4) & 0xf;
    let size: u8 = if second & 0xf0 == 0x40 {
        1
    } else {
        2
    };
    let word_addr = s.r(rn).wrapping_add(((second & 0xff) as u32) << 2);
    if key == 0xe8d0 && second & 0x0f0f == 0x0f0f && (narrow == 4 || narrow == 5) {
        t32_load_exclusive(s, m, rn, rt, s.r(rn), size)
    } else if key == 0xe850 && second & 0x0f00 == 0x0f00 {
        t32_load_exclusive(s, m, rn, rt, word_addr, 4)
    } else if key == 0xe8c0 && second & 0x0f00 == 0x0f00 && (narrow == 4 || narrow == 5) {
        t32_store_exclusive(s, m, rn, rt, t4(second, 0), s.r(rn), size)
    } else if key == 0xe840 {
        t32_store_exclusive(s, m, rn, rt, t4(second, 8), word_addr, 4)
    } else {
        beside(passed(s), m)
    }
}

/// POP with a full register list.
pub open spec fn t32_pop(s: CpuState, m: MemState, second: u16, pc: u32) -> (
    CpuState,
    MemState,
    Seen<()>,
) {
    let list = second as u32;
    if list == 0 {
        beside(unpredictable(s, "empty Thumb pop register list"@), m)
    } else {
        match arm_load_list(s, m, list, 0, s.r(13)) {
            (s1, m1, Ok(_)) => {
                let s2 = s1.with_r(13, s.r(13).wrapping_add((4 * ones_below(list, 16)) as u32));
                (
                    if bit(list, 15) {
                        s2
                    } else {
                        s2.with_r(15, pc.wrapping_add(4))
                    },
                    m1,
                    Ok(()),
                )
            },
            (s1, m1, Err(t)) => (s1, m1, Err(t)),
        }
    }
}

/// TBB and TBH.
pub open spec fn t32_table_branch(s: CpuState, m: MemState, first: u16, second: u16, pc: u32) -> (
    CpuState,
    MemState,
    Seen<()>,
) {
    let (rn, rm) = (t4(first, 0), t4(second, 0));
    let base = s.rt(rn, pc);
    let index = s.r(rm);
    let entry = if bith(second, 4) {
        match m.load16(base.wrapping_add(index.wrapping_mul(2))) {
            Ok(v) => Ok(v as u32),
            Err(t) => Err(t),
        }
    } else {
        match m.load8(base.wrapping_add(index)) {
            Ok(v) => Ok(v as u32),
            Err(t) => Err(t),
        }
    };
    if rm == 15 {
        beside(unpredictable(s, "Thumb table branch with PC index register"@), m)
    } else {
        match entry {
            Ok(v) => (s.with_r(15, pc.wrapping_add(4).wrapping_add(v << 1)), m, Ok(())),
            Err(t) => faulted(s, m, t),
        }
    }
}

/// LDM and STM.
pub open spec fn t32_block(s: CpuState, m: MemState, first: u16, second: u16, pc: u32) -> (
    CpuState,
    MemState,
    Seen<()>,
) {
    let rn = t4(first, 0);
    let list = second as u32;
    let load = bith(first, 4);
    let wback = bith(first, 5);
    let listed = bit(list, rn as u32);
    if list == 0 {
        beside(unpredictable(s, "empty Thumb load/store multiple list"@), m)
    } else if rn == 15 {
        beside(unpredictable(s, "Thumb load/store multiple with PC base register"@), m)
    } else if !load && bit(list, 15) {
        beside(unpredictable(s, "Thumb store multiple with PC register"@), m)
    } else if load && wback && listed {
        beside(unpredictable(s, "Thumb load multiple writeback with base in list"@), m)
    } else if !load && wback && listed && list & low_mask(rn as u32) != 0 {
        beside(
            unpredictable(s, "Thumb store multiple writeback base not first in register list"@),
            m,
        )
    } else {
        let down = first & 0xffc0 == 0xe900;
        let end = displaced(s.r(rn), (4 * ones_below(list, 16)) as u32, !down);
        let start = if down {
            end
        } else {
            s.r(rn)
        };
        match if load {
            arm_load_list(s, m, list, 0, start)
        } else {
            arm_store_list(s, m, list, 0, start, pc)
        } {
            (s1, m1, Ok(_)) => (
                if wback {
                    s1.with_r(rn, end)
                } else {
                    s1
                },
                m1,
                Ok(()),
            ),
            (s1, m1, Err(t)) => (s1, m1, Err(t)),
        }
    }
}

/// LDRD and STRD.
pub open spec fn t32_doubleword(s: CpuState, m: MemState, first: u16, second: u16) -> (
    CpuState,
    MemState,
    Seen<()>,
) {
    let (rn, rt, rt2) = (t4(first, 0), t4(second, 12), t4(second, 8));
    let load = bith(first, 4);
    let wback = bith(first, 5);
    if rn == 15 || rt == 15 || rt2 == 15 {
        beside(unpredictable(s, "Thumb doubleword transfer with PC register"@), m)
    } else if rt == rt2 {
        beside(unpredictable(s, "Thumb doubleword transfer with duplicate destination"@), m)
    } else if load && wback && (rn == rt || rn == rt2) {
        beside(unpredictable(s, "Thumb LDRD writeback with base as destination"@), m)
    } else {
        let base = s.r(rn);
        let moved = displaced(base, ((second & 0xff) as u32) << 2, bith(first, 7));
        let addr = if bith(first, 8) {
            moved
        } else {
            base
        };
        let out = if load {
            match m.load32(addr) {
                Err(t) => faulted(s, m, t),
                Ok(lo) => match m.load32(addr.wrapping_add(4)) {
                    Err(t) => faulted(s.with_r(rt, lo), m, t),
                    Ok(hi) => (s.with_r(rt, lo).with_r(rt2, hi), m, Ok(())),
                },
            }
        } else {
            store_pair(s, m, addr, s.r(rt), s.r(rt2))
        };
        match out {
            (s1, m1, Ok(_)) => (
                if wback {
                    s1.with_r(rn, moved)
                } else {
                    s1
                },
                m1,
                Ok(()),
            ),
            (s1, m1, Err(t)) => (s1, m1, Err(t)),
        }
    }
}

/// Whether a single transfer sign-extends.
pub open spec fn is_signed_load(op: u16) -> bool {
    op == 0xf910 || op == 0xf930 || op == 0xf990 || op == 0xf9b0
}

/// Whether a single transfer is a load.
pub open spec fn is_load(op: u16) -> bool {
    is_signed_load(op) || op == 0xf810 || op == 0xf830 || op == 0xf850 || op == 0xf890 || op
        == 0xf8b0 || op == 0xf8d0
}

/// Whether a single transfer has a twelve-bit offset.
pub open spec fn has_imm12(op: u16) -> bool {
    op == 0xf880 || op == 0xf890 || op == 0xf8a0 || op == 0xf8b0 || op == 0xf8c0 || op == 0xf8d0
        || op == 0xf990 || op == 0xf9b0
}

/// How many bytes a single transfer moves.
pub open spec fn width_of(op: u16) -> u8 {
    if op == 0xf800 || op == 0xf810 || op == 0xf880 || op == 0xf890 || op == 0xf910 || op
        == 0xf990 {
        1
    } else if op == 0xf820 || op == 0xf830 || op == 0xf8a0 || op == 0xf8b0 || op == 0xf930 || op
        == 0xf9b0 {
        2
    } else {
        4
    }
}

/// The keys of the single transfers.
pub open spec fn is_single(op: u16) -> bool {
    is_load(op) || op == 0xf800 || op == 0xf820 || op == 0xf840 || op == 0xf880 || op == 0xf8a0
        || op == 0xf8c0
}

/// A base register update, if there is one.
pub open spec fn written_back(s: CpuState, rn: usize, back: Option<u32>) -> CpuState {
    match back {
        Some(v) => s.with_r(rn, v),
        None => s,
    }
}

/// A load by a single transfer. Only words may be loaded into the program
/// counter; the base is updated before the register is written.
pub open spec fn t32_load(
    s: CpuState,
    m: MemState,
    op: u16,
    addr: u32,
    rt: usize,
    rn: usize,
    back: Option<u32>,
) -> (CpuState, MemState, Seen<()>) {
    let s1 = written_back(s, rn, back);
    if width_of(op) == 1 {
        if rt == 15 {
            beside(unpredictable(s, "Thumb byte load with PC destination"@), m)
        } else {
            match m.load8(addr) {
                Ok(v) => (
                    s1.with_r(
                        rt,
                        if is_signed_load(op) {
                            sext(v as u32, 8) as u32
                        } else {
                            v as u32
                        },
                    ),
                    m,
                    Ok(()),
                ),
                Err(t) => faulted(s, m, t),
            }
        }
    } else if width_of(op) == 2 {
        if rt == 15 {
            beside(unpredictable(s, "Thumb halfword load with PC destination"@), m)
        } else {
            match m.load16(addr) {
                Ok(v) => (
                    s1.with_r(
                        rt,
                        if is_signed_load(op) {
                            sext(v as u32, 16) as u32
                        } else {
                            v as u32
                        },
                    ),
                    m,
                    Ok(()),
                ),
                Err(t) => faulted(s, m, t),
            }
        }
    } else {
        match m.load32(addr) {
            Ok(v) => (s1.wa(rt, v), m, Ok(())),
            Err(t) => faulted(s, m, t),
        }
    }
}

/// A store by a single transfer.
pub open spec fn t32_store(s: CpuState, m: MemState, op: u16, addr: u32, v: u32) -> (
    CpuState,
    MemState,
    Seen<()>,
) {
    if width_of(op) == 1 {
        cpu_store8(s, m, addr, v as u8)
    } else if width_of(op) == 2 {
        cpu_store16(s, m, addr, v as u16)
    } else {
        cpu_store32(s, m, addr, v)
    }
}

/// The single transfers: literal, register offset, and immediate offset with
/// or without an update of the base.
pub open spec fn t32_single(s: CpuState, m: MemState, first: u16, second: u16, pc: u32) -> (
    CpuState,
    MemState,
    Seen<()>,
) {
    let op = first & 0xfff0;
    let rn = t4(first, 0);
    let rt = t4(second, 12);
    let rm = t4(second, 0);
    if rn == 15 {
        if !is_load(op) {
            beside(unpredictable(s, "Thumb immediate store with PC base register"@), m)
        } else {
            let addr = displaced(
                pc.wrapping_add(4) & !3u32,
                (second & 0xfff) as u32,
                bith(first, 7),
            );
            t32_load(s, m, op, addr, rt, rn, None)
        }
    } else if !has_imm12(op) && !bith(second, 11) {
        if second & 0x0fc0 != 0 {
            beside(undefined_thumb(s, pc, first), m)
        } else if rm == 15 {
            beside(unpredictable(s, "Thumb register transfer with PC offset register"@), m)
        } else {
            let addr = s.r(rn).wrapping_add(s.r(rm) << (((second >> 4) & 3) as u32));
            if is_load(op) {
                t32_load(s, m, op, addr, rt, rn, None)
            } else if rt == 15 {
                beside(unpredictable(s, "Thumb register store with PC source register"@), m)
            } else {
                t32_store(s, m, op, addr, s.r(rt))
            }
        }
    } else if has_imm12(op) {
        t32_immediate(s, m, op, s.r(rn).wrapping_add((second & 0xfff) as u32), rt, rn, None)
    } else {
        let pre = bith(second, 10);
        let wback = bith(second, 8);
        let moved = displaced(s.r(rn), (second & 0xff) as u32, bith(second, 9));
        if !pre && !wback {
            beside(undefined_thumb(s, pc, first), m)
        } else {
            t32_immediate(
                s,
                m,
                op,
                if pre {
                    moved
                } else {
                    s.r(rn)
                },
                rt,
                rn,
                if wback {
                    Some(moved)
                } else {
                    None
                },
            )
        }
    }
}

/// A single transfer at a computed address.
pub open spec fn t32_immediate(
    s: CpuState,
    m: MemState,
    op: u16,
    addr: u32,
    rt: usize,
    rn: usize,
    back: Option<u32>,
) -> (CpuState, MemState, Seen<()>) {
    if is_load(op) {
        if back is Some && rn == rt {
            beside(unpredictable(s, "Thumb immediate load writeback overlaps destination"@), m)
        } else {
            t32_load(s, m, op, addr, rt, rn, back)
        }
    } else if rt == 15 {
        beside(unpredictable(s, "Thumb immediate store with PC source register"@), m)
    } else {
        match t32_store(s, m, op, addr, s.r(rt)) {
            (s1, m1, Ok(_)) => (written_back(s1, rn, back), m1, Ok(())),
            (s1, m1, Err(t)) => (s1, m1, Err(t)),
        }
    }
}

/// CLZ; both source fields must agree.
pub open spec fn t32_clz(s: CpuState, first: u16, second: u16, pc: u32) -> (CpuState, Seen<()>) {
    let (rn, rd, rm) = (t4(first, 0), t4(second, 8), t4(second, 0));
    if rn != rm || rd == 15 || rm == 15 {
        undefined_thumb(s, pc, first)
    } else {
        fin(s.with_r(rd, s.r(rm).leading_zeros()))
    }
}

/// The core instruction space behind hints and exclusives.
pub open spec fn t32_core(s: CpuState, m: MemState, first: u16, second: u16, pc: u32) -> (
    CpuState,
    MemState,
    Seen<()>,
) {
    let key = first & 0xfff0;
    if first & 0xfe00 == 0xea00 && second & 0x8000 == 0 {
        beside(t32_shifted_register(s, first, second, pc), m)
    } else if (key == 0xf340 || key == 0xf360 || key == 0xf3c0) && second & 0x8020 == 0 {
        beside(t32_bitfield(s, first, second, pc), m)
    } else if first & 0xf800 == 0xf000 && second & 0x8000 != 0 {
        beside(t32_branch(s, first, second, pc), m)
    } else if first & 0xfa00 == 0xf200 && second & 0x8000 == 0 && t32_plain_immediate(
        s,
        first,
        second,
        pc,
    ) != passed(s) {
        let out = t32_plain_immediate(s, first, second, pc);
        (out.0, m, without_value(out.1))
    } else if first & 0xfa00 == 0xf000 && second & 0x8000 == 0 {
        beside(t32_modified_immediate(s, first, second, pc), m)
    } else if first & 0xff00 == 0xfb00 && t32_multiply(s, first, second) != passed(s) {
        let out = t32_multiply(s, first, second);
        (out.0, m, without_value(out.1))
    } else if key == 0xfab0 && second & 0xf0f0 == 0xf080 {
        beside(t32_clz(s, first, second, pc), m)
    } else if first & 0xff80 == 0xfa00 && second & 0xf0f0 == 0xf000 {
        beside(t32_register_shift(s, first, second), m)
    } else if first == 0xe8bd {
        t32_pop(s, m, second, pc)
    } else if key == 0xe8d0 && second & 0xffe0 == 0xf000 {
        t32_table_branch(s, m, first, second, pc)
    } else if first & 0xffc0 == 0xe880 || first & 0xffc0 == 0xe900 {
        t32_block(s, m, first, second, pc)
    } else if first & 0xfe40 == 0xe840 && first & 0x0120 != 0 {
        t32_doubleword(s, m, first, second)
    } else if is_single(key) {
        t32_single(s, m, first, second, pc)
    } else {
        beside(undefined_thumb(s, pc, first), m)
    }
}

/// A result without its value.
pub open spec fn without_value(r: Seen<bool>) -> Seen<()> {
    match r {
        Ok(_) => Ok(()),
        Err(t) => Err(t),
    }
}

impl Cpu {
    pub(crate) fn exec_thumb32_hint(&mut self, first: u16, second: u16) -> (r: Result<bool>)
        ensures
            (final(self)@, seen(r)) == t32_hint(old(self)@, first, second),
            r == Ok::<bool, Trap>(false) ==> final(self)@ == old(self)@,
    {
        let key = second & 0xfff0;
        if first == 0xf3af && key == 0x8000 {
            return Ok(true);
        }
        if first == 0xf3bf && key == 0x8f20 {
            self.set_reservation(None);
            return Ok(true);
        }
        if first == 0xf3bf && (key == 0x8f40 || key == 0x8f50 || key == 0x8f60) {
            return Ok(true);
        }
        Ok(false)
    }

    fn exec_thumb32_register_shift(&mut self, first: u16, second: u16) -> (r: Result<()>)
        ensures
            (final(self)@, seen(r)) == t32_register_shift(old(self)@, first, second),
    {
        let rm = field4h(first, 0);
        let rd = field4h(second, 8);
        let rs = field4h(second, 0);
        if rd == 15 || rm == 15 || rs == 15 {
            return Err(Trap::Unpredictable("Thumb register shift with PC register"));
        }
        let shift = decode_arm_shift(((first >> 5) & 3) as u32);
        let value = shift_operand(
            self.reg(rm),
            shift,
            self.reg(rs) & 0xff,
            self.flags().c,
            false,
        );
        if bith_at(first, 4) {
            self.put_shift(rd, value);
        } else {
            self.set_reg(rd, value.value);
        }
        Ok(())
    }

    fn operate_thumb32(&mut self, first: u16, rd: usize, lhs: u32, rhs: Shifted, pc: u32) -> (r:
        Result<()>)
        requires
            rd < 16,
        ensures
            (final(self)@, seen(r)) == t32_operate(old(self)@, first, rd, lhs, rhs, pc),
    {
        let op = (first >> 5) & 0xf;
        let set_flags = bith_at(first, 4);
        match op {
            0 | 1 | 2 | 3 | 4 => {
                if rd == 15 && op != 0 && op != 4 {
                    return Err(Trap::UndefinedThumb { pc, instr: first });
                }
                let value = match op {
                    0 => lhs & rhs.value,
                    1 => lhs & !rhs.value,
                    2 => lhs | rhs.value,
                    3 => lhs | !rhs.value,
                    _ => lhs ^ rhs.value,
                };
                if rd == 15 {
                    self.set_nzc(value, rhs.carry);
                } else if set_flags {
                    self.put_shift(rd, Shifted { value, carry: rhs.carry });
                } else {
                    self.set_reg(rd, value);
                }
                Ok(())
            },
            8 | 10 | 11 | 13 | 14 => {
                if rd == 15 && op != 8 && op != 13 {
                    return Err(Trap::UndefinedThumb { pc, instr: first });
                }
                let c = self.flags().c;
                let sum = match op {
                    8 => add_with_flags(lhs, rhs.value),
                    10 => add_with_carry(lhs, rhs.value, c),
                    11 => add_with_carry(lhs, !rhs.value, c),
                    13 => sub_with_flags(lhs, rhs.value),
                    _ => sub_with_flags(rhs.value, lhs),
                };
                if rd == 15 {
                    self.only_flags(sum);
                } else if set_flags {
                    self.put_sum(rd, sum);
                } else {
                    self.set_reg(rd, sum.0);
                }
                Ok(())
            },
            _ => Err(Trap::UndefinedThumb { pc, instr: first }),
        }
    }

    fn exec_thumb32_shifted_register(&mut self, first: u16, second: u16, pc: u32) -> (r: Result<()>)
        ensures
            (final(self)@, seen(r)) == t32_shifted_register(old(self)@, first, second, pc),
    {
        let op = (first >> 5) & 0xf;
        let rn = field4h(first, 0);
        let rd = field4h(second, 8);
        let rm = field4h(second, 0);
        if rm == 15 {
            return Err(Trap::Unpredictable("Thumb shifted register with PC operand"));
        }
        let imm3 = ((second >> 12) & 7) as u32;
        let imm2 = ((second >> 6) & 3) as u32;
        let shift = decode_arm_shift(((second >> 4) & 3) as u32);
        let rhs = shift_operand(self.reg(rm), shift, (imm3 << 2) | imm2, self.flags().c, true);
        let lhs = if rn != 15 {
            self.reg(rn)
        } else if op == 8 || op == 13 || op == 14 {
            pc.wrapping_add(4) & !3u32
        } else {
            0
        };
        self.operate_thumb32(first, rd, lhs, rhs, pc)
    }

    fn exec_thumb32_modified_immediate(&mut self, first: u16, second: u16, pc: u32) -> (r: Result<
        (),
    >)
        ensures
            (final(self)@, seen(r)) == t32_modified_immediate(old(self)@, first, second, pc),
    {
        let op = (first >> 5) & 0xf;
        let rn = field4h(first, 0);
        let rd = field4h(second, 8);
        let (imm, carry) = thumb_expand_imm(immediate12(first, second), self.flags().c);
        let lhs = if rn != 15 {
            self.reg(rn)
        } else if op <= 4 {
            0
        } else {
            pc.wrapping_add(4) & !3u32
        };
        self.operate_thumb32(first, rd, lhs, Shifted { value: imm, carry }, pc)
    }

    fn exec_thumb32_multiply_accumulate(&mut self, first: u16, second: u16) -> (r: Result<bool>)
        requires
            is_t32_product((first >> 4) & 0xf, (second >> 4) & 0xf),
        ensures
            (final(self)@, seen(r)) == t32_multiply(old(self)@, first, second),
    {
        let op1 = (first >> 4) & 0xf;
        let op2 = (second >> 4) & 0xf;
        let rn = field4h(first, 0);
        let ra = field4h(second, 12);
        let rd = field4h(second, 8);
        let rm = field4h(second, 0);
        if rd == 15 || rn == 15 || rm == 15 {
            return Err(Trap::Unpredictable("Thumb multiply with PC register"));
        }
        let n = self.reg(rn);
        let m = self.reg(rm);
        let product: i64 = if op1 == 1 {
            let n_half = select_i16(n, op2 & 2 != 0);
            let m_half = select_i16(m, op2 & 1 != 0);
            proof {
                half_product_bounds(n_half, m_half);
            }
            n_half as i64 * m_half as i64
        } else if op1 == 3 {
            let m_half = select_i16(m, op2 & 1 != 0);
            proof {
                word_half_product_bounds(n as i32, m_half);
            }
            let wide = n as i32 as i64 * m_half as i64;
            proof {
                shift16_bounds(wide);
            }
            wide >> 16
        } else {
            let (lo, hi) = signed_dual_products(n, m, op2 & 1 != 0);
            if op1 == 2 {
                lo as i64 + hi as i64
            } else {
                lo as i64 - hi as i64
            }
        };
        if ra == 15 {
            self.write_sticky_reg(rd, product);
        } else {
            let addend = self.reg(ra) as i32 as i64;
            self.write_sticky_reg(rd, product + addend);
        }
        Ok(true)
    }

    fn exec_thumb32_long_multiply(&mut self, first: u16, second: u16) -> (r: Result<bool>)
        ensures
            (final(self)@, seen(r)) == t32_long_multiply(old(self)@, first, second),
    {
        let op1 = (first >> 4) & 0xf;
        let op2 = (second >> 4) & 0xf;
        let rn = field4h(first, 0);
        let rd_lo = field4h(second, 12);
        let rd_hi = field4h(second, 8);
        let rm = field4h(second, 0);
        let plain = (op1 == 8 || op1 == 10 || op1 == 12 || op1 == 14) && op2 == 0;
        let halves = (op1 == 12 && op2 >= 8 && op2 <= 13) || (op1 == 13 && (op2 == 12 || op2
            == 13));
        let umaal = op1 == 14 && op2 == 6;
        if !plain && !halves && !umaal {
            return Ok(false);
        }
        if rd_lo == 15 || rd_hi == 15 || rn == 15 || rm == 15 {
            return Err(Trap::Unpredictable("Thumb multiply with PC register"));
        }
        if rd_lo == rd_hi {
            return Err(Trap::Unpredictable("Thumb long multiply with same high/low register"));
        }
        let n = self.reg(rn);
        let m = self.reg(rm);
        if plain {
            let addend: u64 = if op1 == 12 || op1 == 14 {
                ((self.reg(rd_hi) as u64) << 32) | (self.reg(rd_lo) as u64)
            } else {
                0
            };
            let product = multiply_long(n, m, op1 == 8 || op1 == 12);
            self.write_pair_regs(rd_lo, rd_hi, product.wrapping_add(addend));
        } else if halves {
            let product: i64 = if op2 < 12 {
                let n_half = select_i16(n, op2 & 2 != 0);
                let m_half = select_i16(m, op2 & 1 != 0);
                proof {
                    half_product_bounds(n_half, m_half);
                }
                n_half as i64 * m_half as i64
            } else {
                let (lo, hi) = signed_dual_products(n, m, op2 & 1 != 0);
                if op1 == 13 {
                    lo as i64 - hi as i64
                } else {
                    lo as i64 + hi as i64
                }
            };
            self.accumulate_pair_regs(rd_lo, rd_hi, product);
        } else {
            proof {
                unsigned_product_bounds(n, m);
            }
            let result = n as u64 * m as u64 + self.reg(rd_lo) as u64 + self.reg(rd_hi) as u64;
            self.write_pair_regs(rd_lo, rd_hi, result);
        }
        Ok(true)
    }

    fn exec_thumb32_multiply(&mut self, first: u16, second: u16) -> (r: Result<bool>)
        ensures
            (final(self)@, seen(r)) == t32_multiply(old(self)@, first, second),
            r == Ok::<bool, Trap>(false) ==> final(self)@ == old(self)@,
    {
        let op1 = (first >> 4) & 0xf;
        let op2 = (second >> 4) & 0xf;
        let rn = field4h(first, 0);
        let ra = field4h(second, 12);
        let rd = field4h(second, 8);
        let rm = field4h(second, 0);
        let any_pc = rd == 15 || rn == 15 || rm == 15;
        let n = self.reg(rn);
        let m = self.reg(rm);
        let a = self.reg(ra);
        match (op1, op2) {
            (0, 0) => {
                if any_pc {
                    return Err(Trap::Unpredictable("Thumb multiply with PC register"));
                }
                let product = n.wrapping_mul(m);
                self.set_reg(
                    rd,
                    if ra == 15 {
                        product
                    } else {
                        product.wrapping_add(a)
                    },
                );
                Ok(true)
            },
            (0, 1) => {
                if any_pc || ra == 15 {
                    return Err(Trap::Unpredictable("Thumb multiply with PC register"));
                }
                self.set_reg(rd, a.wrapping_sub(n.wrapping_mul(m)));
                Ok(true)
            },
            (1, 0) | (1, 1) | (1, 2) | (1, 3) | (2, 0) | (2, 1) | (3, 0) | (3, 1) | (4, 0) | (
                4,
                1,
            ) => self.exec_thumb32_multiply_accumulate(first, second),
            (5, 0) | (5, 1) | (6, 0) | (6, 1) => {
                if any_pc || (op1 == 6 && ra == 15) {
                    return Err(Trap::Unpredictable("Thumb multiply with PC register"));
                }
                proof {
                    word_product_bounds(n as i32, m as i32);
                }
                let product = n as i32 as i64 * m as i32 as i64;
                let round = op2 & 1 != 0;
                let result = if ra == 15 {
                    signed_high_word(product, round)
                } else {
                    let addend = ((a as u64) << 32) as i64;
                    let value = if op1 == 5 {
                        addend.wrapping_add(product)
                    } else {
                        addend.wrapping_sub(product)
                    };
                    signed_high_word(value, round)
                };
                self.set_reg(rd, result);
                Ok(true)
            },
            (7, 0) => {
                if any_pc {
                    return Err(Trap::Unpredictable("Thumb multiply with PC register"));
                }
                let sum = sum_of_distances(n, m);
                self.set_reg(
                    rd,
                    if ra == 15 {
                        sum
                    } else {
                        sum.wrapping_add(a)
                    },
                );
                Ok(true)
            },
            (9, 15) | (11, 15) => {
                if ra != 15 {
                    return Ok(false);
                }
                if any_pc {
                    return Err(Trap::Unpredictable("Thumb divide with PC register"));
                }
                self.set_reg(rd, divide(n, m, op1 == 9));
                Ok(true)
            },
            _ => self.exec_thumb32_long_multiply(first, second),
        }
    }

    fn exec_thumb32_bitfield(&mut self, first: u16, second: u16, pc: u32) -> (r: Result<()>)
        ensures
            (final(self)@, seen(r)) == t32_bitfield(old(self)@, first, second, pc),
    {
        let rn = field4h(first, 0);
        let rd = field4h(second, 8);
        if rd == 15 {
            return Err(Trap::Unpredictable("Thumb bitfield instruction with PC destination"));
        }
        let imm3 = ((second >> 12) & 7) as u32;
        let imm2 = ((second >> 6) & 3) as u32;
        let lsb = (imm3 << 2) | imm2;
        assert((imm3 << 2) | imm2 < 32) by (bit_vector)
            requires
                imm3 <= 7,
                imm2 <= 3,
        ;
        let high = (second & 0x1f) as u32;
        let key = first & 0xfff0;
        if key == 0xf340 || key == 0xf3c0 {
            if rn == 15 {
                return Err(Trap::Unpredictable("Thumb bitfield extract with PC source"));
            }
            if lsb + high >= 32 {
                return Err(Trap::UndefinedThumb { pc, instr: first });
            }
            let width = high + 1;
            let raw = (self.reg(rn) >> lsb) & mask_of(width);
            self.set_reg(
                rd,
                if key == 0xf340 {
                    sign_extend(raw, width) as u32
                } else {
                    raw
                },
            );
            return Ok(());
        }
        if key == 0xf360 {
            if high < lsb {
                return Err(Trap::UndefinedThumb { pc, instr: first });
            }
            let source = if rn == 15 {
                0
            } else {
                self.reg(rn)
            };
            let value = insert_bits(self.reg(rd), source, lsb, high);
            self.set_reg(rd, value);
            return Ok(());
        }
        Err(Trap::UndefinedThumb { pc, instr: first })
    }

    fn load_exclusive_thumb32<M: Memory>(
        &mut self,
        rn: usize,
        rt: usize,
        addr: u32,
        size: u8,
        mem: &mut M,
    ) -> (r: Result<bool>)
        requires
            rn < 16,
            rt < 16,
        ensures
            (final(self)@, final(mem).state(), seen(r)) == t32_load_exclusive(
                old(self)@,
                old(mem).state(),
                rn,
                rt,
                addr,
                size,
            ),
    {
        if rn == 15 || rt == 15 {
            return Err(Trap::Unpredictable("Thumb LDREX with PC register"));
        }
        let value = match size {
            1 => mem.load8(addr)? as u32,
            2 => mem.load16(addr)? as u32,
            _ => mem.load32(addr)?,
        };
        self.set_reg(rt, value);
        self.set_reservation(Some(ExclusiveReservation { addr, size }));
        Ok(true)
    }

    fn store_exclusive_thumb32<M: Memory>(
        &mut self,
        rn: usize,
        rt: usize,
        rd: usize,
        addr: u32,
        size: u8,
        mem: &mut M,
    ) -> (r: Result<bool>)
        requires
            rn < 16,
            rt < 16,
            rd < 16,
        ensures
            (final(self)@, final(mem).state(), seen(r)) == t32_store_exclusive(
                old(self)@,
                old(mem).state(),
                rn,
                rt,
                rd,
                addr,
                size,
            ),
    {
        if rn == 15 || rd == 15 || rt == 15 {
            return Err(Trap::Unpredictable("Thumb STREX with PC register"));
        }
        if rd == rn || rd == rt {
            return Err(Trap::Unpredictable("Thumb STREX status register overlaps operand"));
        }
        let claimed = match self.reservation() {
            Some(reservation) => reservation.addr == addr && reservation.size == size,
            None => false,
        };
        if claimed {
            let value = self.reg(rt);
            match size {
                1 => mem.store8(addr, value as u8)?,
                2 => mem.store16(addr, value as u16)?,
                _ => mem.store32(addr, value)?,
            }
            self.set_reg(rd, 0);
        } else {
            self.set_reg(rd, 1);
        }
        self.set_reservation(None);
        Ok(true)
    }

    pub(crate) fn exec_thumb32_exclusive<M: Memory>(
        &mut self,
        first: u16,
        second: u16,
        mem: &mut M,
    ) -> (r: Result<bool>)
        ensures
            (final(self)@, final(mem).state(), seen(r)) == t32_exclusive(
                old(self)@,
                old(mem).state(),
                first,
                second,
            ),
    {
        let key = first & 0xfff0;
        let rn = field4h(first, 0);
        let rt = field4h(second, 12);
        let narrow = (second >> 4) & 0xf;
        let base = self.reg(rn);
        let size: u8 = if second & 0xf0 == 0x40 {
            1
        } else {
            2
        };
        let word_addr = base.wrapping_add(((second & 0xff) as u32) << 2);
        if key == 0xe8d0 && second & 0x0f0f == 0x0f0f && (narrow == 4 || narrow == 5) {
            return self.load_exclusive_thumb32(rn, rt, base, size, mem);
        }
        if key == 0xe850 && second & 0x0f00 == 0x0f00 {
            return self.load_exclusive_thumb32(rn, rt, word_addr, 4, mem);
        }
        if key == 0xe8c0 && second & 0x0f00 == 0x0f00 && (narrow == 4 || narrow == 5) {
            return self.store_exclusive_thumb32(rn, rt, field4h(second, 0), base, size, mem);
        }
        if key == 0xe840 {
            return self.store_exclusive_thumb32(rn, rt, field4h(second, 8), word_addr, 4, mem);
        }
        Ok(false)
    }

    fn exec_thumb32_plain_immediate(&mut self, first: u16, second: u16, pc: u32) -> (r: Result<
        bool,
    >)
        ensures
            (final(self)@, seen(r)) == t32_plain_immediate(old(self)@, first, second, pc),
            r == Ok::<bool, Trap>(false) ==> final(self)@ == old(self)@,
    {
        let rn = field4h(first, 0);
        let rd = field4h(second, 8);
        if rd == 15 {
            return Err(Trap::Unpredictable("Thumb plain immediate with PC destination"));
        }
        let imm12 = immediate12(first, second);
        let imm16 = (((first & 0xf) as u32) << 12) | imm12;
        let lhs = if rn == 15 {
            pc.wrapping_add(4) & !3u32
        } else {
            self.reg(rn)
        };
        let value = match first & 0xfbf0 {
            0xf200 => lhs.wrapping_add(imm12),
            0xf2a0 => lhs.wrapping_sub(imm12),
            0xf240 => imm16,
            0xf2c0 => (self.reg(rd) & 0x0000_ffff) | (imm16 << 16),
            _ => return Ok(false),
        };
        self.set_reg(rd, value);
        Ok(true)
    }

    fn exec_thumb32_branch(&mut self, first: u16, second: u16, pc: u32) -> (r: Result<()>)
        ensures
            (final(self)@, seen(r)) == t32_branch(old(self)@, first, second, pc),
    {
        let s = ((first >> 10) & 1) as u32;
        let j1 = ((second >> 13) & 1) as u32;
        let j2 = ((second >> 11) & 1) as u32;
        let imm11 = (second & 0x7ff) as u32;
        let kind = (second >> 14) & 3;
        let next = pc.wrapping_add(4);
        if kind == 2 && !bith_at(second, 12) {
            let cond = ((first >> 6) & 0xf) as u32;
            if cond >= 0xe {
                return Err(Trap::UndefinedThumb { pc, instr: first });
            }
            let imm6 = (first & 0x3f) as u32;
            let imm = sign_extend(
                (s << 20) | (j2 << 19) | (j1 << 18) | (imm6 << 12) | (imm11 << 1),
                21,
            );
            if condition_passed(cond, self.flags()) {
                self.set_reg(15, next.wrapping_add(imm as u32));
            }
            return Ok(());
        }
        let imm10 = (first & 0x3ff) as u32;
        let i1: u32 = if j1 ^ s == 0 {
            1
        } else {
            0
        };
        let i2: u32 = if j2 ^ s == 0 {
            1
        } else {
            0
        };
        let imm = sign_extend(
            (s << 24) | (i1 << 23) | (i2 << 22) | (imm10 << 12) | (imm11 << 1),
            25,
        );
        if kind == 2 {
            self.set_reg(15, next.wrapping_add(imm as u32));
            Ok(())
        } else if kind == 3 && !bith_at(second, 12) {
            self.set_reg(14, next | 1);
            let target = (next & !3u32).wrapping_add(imm as u32) & !3u32;
            self.branch_exchange(target);
            Ok(())
        } else if kind == 3 {
            self.set_reg(14, next | 1);
            self.set_reg(15, next.wrapping_add(imm as u32));
            Ok(())
        } else {
            Err(Trap::UndefinedThumb { pc, instr: first })
        }
    }

    fn exec_thumb32_pop<M: Memory>(&mut self, reglist: u16, pc: u32, mem: &mut M) -> (r: Result<()>)
        ensures
            (final(self)@, final(mem).state(), seen(r)) == t32_pop(
                old(self)@,
                old(mem).state(),
                reglist,
                pc,
            ),
    {
        let list = reglist as u32;
        if list == 0 {
            return Err(Trap::Unpredictable("empty Thumb pop register list"));
        }
        let start = self.reg(13);
        let end = start.wrapping_add(4 * count_ones(list, 16));
        self.load_register_list(list, start, mem)?;
        self.set_reg(13, end);
        if !bit_at(list, 15) {
            self.set_reg(15, pc.wrapping_add(4));
        }
        Ok(())
    }

    fn exec_thumb32_table_branch<M: Memory>(
        &mut self,
        first: u16,
        second: u16,
        pc: u32,
        mem: &mut M,
    ) -> (r: Result<()>)
        ensures
            (final(self)@, final(mem).state(), seen(r)) == t32_table_branch(
                old(self)@,
                old(mem).state(),
                first,
                second,
                pc,
            ),
    {
        let rn = field4h(first, 0);
        let rm = field4h(second, 0);
        if rm == 15 {
            return Err(Trap::Unpredictable("Thumb table branch with PC index register"));
        }
        let base = self.thumb_read_reg(rn, pc);
        let index = self.reg(rm);
        let table_value = if bith_at(second, 4) {
            mem.load16(base.wrapping_add(index.wrapping_mul(2)))? as u32
        } else {
            mem.load8(base.wrapping_add(index))? as u32
        };
        self.set_reg(15, pc.wrapping_add(4).wrapping_add(table_value << 1));
        Ok(())
    }

    fn exec_thumb32_block_transfer<M: Memory>(
        &mut self,
        first: u16,
        reglist: u16,
        pc: u32,
        mem: &mut M,
    ) -> (r: Result<()>)
        ensures
            (final(self)@, final(mem).state(), seen(r)) == t32_block(
                old(self)@,
                old(mem).state(),
                first,
                reglist,
                pc,
            ),
    {
        let list = reglist as u32;
        if list == 0 {
            return Err(Trap::Unpredictable("empty Thumb load/store multiple list"));
        }
        let rn = field4h(first, 0);
        if rn == 15 {
            return Err(Trap::Unpredictable("Thumb load/store multiple with PC base register"));
        }
        let load = bith_at(first, 4);
        let writeback = bith_at(first, 5);
        let listed = bit_at(list, rn as u32);
        if !load && bit_at(list, 15) {
            return Err(Trap::Unpredictable("Thumb store multiple with PC register"));
        }
        if load && writeback && listed {
            return Err(Trap::Unpredictable("Thumb load multiple writeback with base in list"));
        }
        if !load && writeback && listed && list & mask_of(rn as u32) != 0 {
            return Err(
                Trap::Unpredictable(
                    "Thumb store multiple writeback base not first in register list",
                ),
            );
        }
        let down = first & 0xffc0 == 0xe900;
        let base = self.reg(rn);
        let end = displace(base, 4 * count_ones(list, 16), !down);
        let start = if down {
            end
        } else {
            base
        };
        if load {
            self.load_register_list(list, start, mem)?;
        } else {
            self.store_register_list(list, start, pc, mem)?;
        }
        if writeback {
            self.set_reg(rn, end);
        }
        Ok(())
    }

    fn exec_thumb32_doubleword_transfer<M: Memory>(
        &mut self,
        first: u16,
        second: u16,
        mem: &mut M,
    ) -> (r: Result<()>)
        ensures
            (final(self)@, final(mem).state(), seen(r)) == t32_doubleword(
                old(self)@,
                old(mem).state(),
                first,
                second,
            ),
    {
        let rn = field4h(first, 0);
        let rt = field4h(second, 12);
        let rt2 = field4h(second, 8);
        if rn == 15 || rt == 15 || rt2 == 15 {
            return Err(Trap::Unpredictable("Thumb doubleword transfer with PC register"));
        }
        if rt == rt2 {
            return Err(Trap::Unpredictable("Thumb doubleword transfer with duplicate destination"));
        }
        let load = bith_at(first, 4);
        let writeback = bith_at(first, 5);
        if load && writeback && (rn == rt || rn == rt2) {
            return Err(Trap::Unpredictable("Thumb LDRD writeback with base as destination"));
        }
        let base = self.reg(rn);
        let offset_addr = displace(base, ((second & 0xff) as u32) << 2, bith_at(first, 7));
        let addr = if bith_at(first, 8) {
            offset_addr
        } else {
            base
        };
        if load {
            let lo = mem.load32(addr)?;
            self.set_reg(rt, lo);
            let hi = mem.load32(addr.wrapping_add(4))?;
            self.set_reg(rt2, hi);
        } else {
            let lo = self.reg(rt);
            let hi = self.reg(rt2);
            self.store_pair(mem, addr, lo, hi)?;
        }
        if writeback {
            self.set_reg(rn, offset_addr);
        }
        Ok(())
    }

    fn load_thumb32<M: Memory>(
        &mut self,
        op: u16,
        addr: u32,
        rt: usize,
        rn: usize,
        back: Option<u32>,
        mem: &mut M,
    ) -> (r: Result<()>)
        requires
            rt < 16,
            rn < 16,
        ensures
            (final(self)@, final(mem).state(), seen(r)) == t32_load(
                old(self)@,
                old(mem).state(),
                op,
                addr,
                rt,
                rn,
                back,
            ),
    {
        let width = transfer_width(op);
        let signed_load = op == 0xf910 || op == 0xf930 || op == 0xf990 || op == 0xf9b0;
        if width == 1 && rt == 15 {
            return Err(Trap::Unpredictable("Thumb byte load with PC destination"));
        }
        if width == 2 && rt == 15 {
            return Err(Trap::Unpredictable("Thumb halfword load with PC destination"));
        }
        let value = match width {
            1 => {
                let v = mem.load8(addr)? as u32;
                if signed_load {
                    sign_extend(v, 8) as u32
                } else {
                    v
                }
            },
            2 => {
                let v = mem.load16(addr)? as u32;
                if signed_load {
                    sign_extend(v, 16) as u32
                } else {
                    v
                }
            },
            _ => mem.load32(addr)?,
        };
        if let Some(writeback_addr) = back {
            self.set_reg(rn, writeback_addr);
        }
        self.write_reg_arm(rt, value);
        Ok(())
    }

    fn store_thumb32<M: Memory>(&mut self, op: u16, addr: u32, value: u32, mem: &mut M) -> (r:
        Result<()>)
        ensures
            (final(self)@, final(mem).state(), seen(r)) == t32_store(
                old(self)@,
                old(mem).state(),
                op,
                addr,
                value,
            ),
    {
        match transfer_width(op) {
            1 => self.store8(mem, addr, value as u8),
            2 => self.store16(mem, addr, value as u16),
            _ => self.store32(mem, addr, value),
        }
    }

    fn transfer_thumb32<M: Memory>(
        &mut self,
        op: u16,
        addr: u32,
        rt: usize,
        rn: usize,
        back: Option<u32>,
        mem: &mut M,
    ) -> (r: Result<()>)
        requires
            rt < 16,
            rn < 16,
        ensures
            (final(self)@, final(mem).state(), seen(r)) == t32_immediate(
                old(self)@,
                old(mem).state(),
                op,
                addr,
                rt,
                rn,
                back,
            ),
    {
        if loads(op) {
            if back.is_some() && rn == rt {
                return Err(
                    Trap::Unpredictable("Thumb immediate load writeback overlaps destination"),
                );
            }
            self.load_thumb32(op, addr, rt, rn, back, mem)
        } else {
            if rt == 15 {
                return Err(Trap::Unpredictable("Thumb immediate store with PC source register"));
            }
            let value = self.reg(rt);
            self.store_thumb32(op, addr, value, mem)?;
            if let Some(writeback_addr) = back {
                self.set_reg(rn, writeback_addr);
            }
            Ok(())
        }
    }

    fn exec_thumb32_immediate_transfer<M: Memory>(
        &mut self,
        first: u16,
        second: u16,
        pc: u32,
        mem: &mut M,
    ) -> (r: Result<()>)
        ensures
            (final(self)@, final(mem).state(), seen(r)) == t32_single(
                old(self)@,
                old(mem).state(),
                first,
                second,
                pc,
            ),
    {
        let op = first & 0xfff0;
        let imm12_form = op == 0xf880 || op == 0xf890 || op == 0xf8a0 || op == 0xf8b0 || op
            == 0xf8c0 || op == 0xf8d0 || op == 0xf990 || op == 0xf9b0;
        let load = loads(op);
        let rn = field4h(first, 0);
        let rt = field4h(second, 12);
        if rn == 15 {
            if !load {
                return Err(Trap::Unpredictable("Thumb immediate store with PC base register"));
            }
            let base = pc.wrapping_add(4) & !3u32;
            let addr = displace(base, (second & 0xfff) as u32, bith_at(first, 7));
            return self.load_thumb32(op, addr, rt, rn, None, mem);
        }
        if !imm12_form && !bith_at(second, 11) {
            if second & 0x0fc0 != 0 {
                return Err(Trap::UndefinedThumb { pc, instr: first });
            }
            let rm = field4h(second, 0);
            if rm == 15 {
                return Err(Trap::Unpredictable("Thumb register transfer with PC offset register"));
            }
            let shift = ((second >> 4) & 3) as u32;
            let addr = self.reg(rn).wrapping_add(self.reg(rm) << shift);
            if load {
                return self.load_thumb32(op, addr, rt, rn, None, mem);
            }
            if rt == 15 {
                return Err(Trap::Unpredictable("Thumb register store with PC source register"));
            }
            let value = self.reg(rt);
            return self.store_thumb32(op, addr, value, mem);
        }
        if imm12_form {
            let addr = self.reg(rn).wrapping_add((second & 0xfff) as u32);
            return self.transfer_thumb32(op, addr, rt, rn, None, mem);
        }
        let pre_index = bith_at(second, 10);
        let writeback = bith_at(second, 8);
        if !pre_index && !writeback {
            return Err(Trap::UndefinedThumb { pc, instr: first });
        }
        let base = self.reg(rn);
        let offset_addr = displace(base, (second & 0xff) as u32, bith_at(second, 9));
        let addr = if pre_index {
            offset_addr
        } else {
            base
        };
        let back = if writeback {
            Some(offset_addr)
        } else {
            None
        };
        self.transfer_thumb32(op, addr, rt, rn, back, mem)
    }

    fn exec_thumb32_clz(&mut self, first: u16, second: u16, pc: u32) -> (r: Result<()>)
        ensures
            (final(self)@, seen(r)) == t32_clz(old(self)@, first, second, pc),
    {
        let rn = field4h(first, 0);
        let rd = field4h(second, 8);
        let rm = field4h(second, 0);
        if rn != rm || rd == 15 || rm == 15 {
            return Err(Trap::UndefinedThumb { pc, instr: first });
        }
        let value = self.reg(rm).leading_zeros();
        self.set_reg(rd, value);
        Ok(())
    }

    pub(crate) fn exec_thumb32_core<M: Memory>(
        &mut self,
        first: u16,
        second: u16,
        pc: u32,
        mem: &mut M,
    ) -> (r: Result<()>)
        ensures
            (final(self)@, final(mem).state(), seen(r)) == t32_core(
                old(self)@,
                old(mem).state(),
                first,
                second,
                pc,
            ),
    {
        let key = first & 0xfff0;
        if first & 0xfe00 == 0xea00 && second & 0x8000 == 0 {
            return self.exec_thumb32_shifted_register(first, second, pc);
        }
        if (key == 0xf340 || key == 0xf360 || key == 0xf3c0) && second & 0x8020 == 0 {
            return self.exec_thumb32_bitfield(first, second, pc);
        }
        if first & 0xf800 == 0xf000 && second & 0x8000 != 0 {
            return self.exec_thumb32_branch(first, second, pc);
        }
        if first & 0xfa00 == 0xf200 && second & 0x8000 == 0 {
            if self.exec_thumb32_plain_immediate(first, second, pc)? {
                return Ok(());
            }
        }
        if first & 0xfa00 == 0xf000 && second & 0x8000 == 0 {
            return self.exec_thumb32_modified_immediate(first, second, pc);
        }
        if first & 0xff00 == 0xfb00 {
            if self.exec_thumb32_multiply(first, second)? {
                return Ok(());
            }
        }
        if key == 0xfab0 && second & 0xf0f0 == 0xf080 {
            return self.exec_thumb32_clz(first, second, pc);
        }
        if first & 0xff80 == 0xfa00 && second & 0xf0f0 == 0xf000 {
            return self.exec_thumb32_register_shift(first, second);
        }
        if first == 0xe8bd {
            return self.exec_thumb32_pop(second, pc, mem);
        }
        if key == 0xe8d0 && second & 0xffe0 == 0xf000 {
            return self.exec_thumb32_table_branch(first, second, pc, mem);
        }
        if first & 0xffc0 == 0xe880 || first & 0xffc0 == 0xe900 {
            return self.exec_thumb32_block_transfer(first, second, pc, mem);
        }
        if first & 0xfe40 == 0xe840 && first & 0x0120 != 0 {
            return self.exec_thumb32_doubleword_transfer(first, second, mem);
        }
        if loads(key) || key == 0xf800 || key == 0xf820 || key == 0xf840 || key == 0xf880 || key
            == 0xf8a0 || key == 0xf8c0 {
            return self.exec_thumb32_immediate_transfer(first, second, pc, mem);
        }
        Err(Trap::UndefinedThumb { pc, instr: first })
    }
}

fn loads(op: u16) -> (r: bool)
    ensures
        r == is_load(op),
{
    op == 0xf910 || op == 0xf930 || op == 0xf990 || op == 0xf9b0 || op == 0xf810 || op == 0xf830
        || op == 0xf850 || op == 0xf890 || op == 0xf8b0 || op == 0xf8d0
}

fn transfer_width(op: u16) -> (r: u8)
    ensures
        r == width_of(op),
{
    match op {
        0xf800 | 0xf810 | 0xf880 | 0xf890 | 0xf910 | 0xf990 => 1,
        0xf820 | 0xf830 | 0xf8a0 | 0xf8b0 | 0xf930 | 0xf9b0 => 2,
        _ => 4,
    }
}

fn immediate12(first: u16, second: u16) -> (r: u32)
    ensures
        r == t32_imm12(first, second),
{
    ((((first >> 10) & 1) as u32) << 11) | ((((second >> 12) & 7) as u32) << 8) | ((second
        & 0xff) as u32)
}

} // verus!
