//! What the 32-bit Thumb data-processing, multiply, divide and branch instructions
//! compute.

use super::a32_laws::{differences, leaves_signed, one_if, same_but_register, sums};
use super::alu::{
    dual, half, half_product_bounds, holds, pair64, shift_kind, shifted, sum3,
    unsigned_product_bounds, word_half_product_bounds, word_product_bounds, Shifted,
};
use super::arm_multiply::long_product;
use super::bits::{and_le_u16, bit, bith, low_mask, sext, t4};
use super::cpu::{Cpsr, CpuState};
use super::media_laws::{bytes_apart, distances_by_bytes};
use super::multiply_laws::{
    accumulated, halves, high_words, same_but_pair, signed_half, split, written_sticky,
};
use super::numbers::{
    bit_by_bit, low_parts, pair_of, pairs, shifted_right_16, sign_casts, signed32,
};
use super::thumb32::{
    magnitude, quotient, t32_bitfield, t32_branch, t32_imm12, t32_long_multiply, t32_multiply,
    t32_operate, t32_plain_immediate, t32_product, t32_shifted_register,
};
use super::thumb_laws::{flags_are, rounded};
use super::trap::TrapView;
use super::word_parts::joined_halves;
use vstd::prelude::*;

verus! {

/// The fields of the two halfwords of an instruction as numbers.
#[verifier::opaque]
pub open spec fn shift_amount(second: u16) -> int {
    4 * (second as int / 0x1000 % 8) + second as int / 0x40 % 4
}

/// The twelve immediate bits.
#[verifier::opaque]
pub open spec fn imm12(first: u16, second: u16) -> int {
    0x800 * (first as int / 0x400 % 2) + 0x100 * (second as int / 0x1000 % 8) + second as int % 0x100
}

/// The offset of a conditional branch.
#[verifier::opaque]
pub open spec fn near_offset(f: u16, g: u16) -> int {
    2 * (g as int % 0x800) + 0x1000 * (f as int % 0x40) + 0x4_0000 * (g as int / 0x2000 % 2)
        + 0x8_0000 * (g as int / 0x800 % 2) - 0x10_0000 * (f as int / 0x400 % 2)
}

/// The offset of an unconditional branch: its two highest bits below the sign are
/// told by whether they are as the sign.
#[verifier::opaque]
pub open spec fn far_offset(f: u16, g: u16) -> int {
    let sign = f as int / 0x400 % 2;
    2 * (g as int % 0x800) + 0x1000 * (f as int % 0x400) + (if g as int / 0x800 % 2 == sign {
        0x40_0000int
    } else {
        0
    }) + (if g as int / 0x2000 % 2 == sign {
        0x80_0000int
    } else {
        0
    }) - 0x100_0000 * sign
}

proof fn wide_fields(f: u16, g: u16)
    ensures
        ((((g >> 12) & 7) as u32) << 2) | (((g >> 6) & 3) as u32) == 4 * (g / 0x1000 % 8) + g / 0x40
            % 4,
        ((((f >> 10) & 1) as u32) << 11) | ((((g >> 12) & 7) as u32) << 8) | ((g & 0xff) as u32)
            == 0x800 * (f / 0x400 % 2) + 0x100 * (g / 0x1000 % 8) + g % 0x100,
        (((f & 0xf) as u32) << 12) | (((((f >> 10) & 1) as u32) << 11) | ((((g >> 12) & 7) as u32)
            << 8) | ((g & 0xff) as u32)) == 0x1000 * (f % 16) + (0x800 * (f / 0x400 % 2) + 0x100 * (g
            / 0x1000 % 8) + g % 0x100),
        ({
            let (s, j1, j2) = (
                ((f >> 10) & 1) as u32,
                ((g >> 13) & 1) as u32,
                ((g >> 11) & 1) as u32,
            );
            let v = (s << 20) | (j2 << 19) | (j1 << 18) | (((f & 0x3f) as u32) << 12) | (((g & 0x7ff) as u32)
                << 1);
            ((v << 11u32) as i32) >> 11u32 == 2 * (g % 0x800) + 0x1000 * (f % 0x40) + 0x4_0000 * (g
                / 0x2000 % 2) + 0x8_0000 * (g / 0x800 % 2) - 0x10_0000 * (f / 0x400 % 2)
        }),
        ({
            let (s, j1, j2) = (
                ((f >> 10) & 1) as u32,
                ((g >> 13) & 1) as u32,
                ((g >> 11) & 1) as u32,
            );
            let i1: u32 = if j1 ^ s == 0 {
                1
            } else {
                0
            };
            let i2: u32 = if j2 ^ s == 0 {
                1
            } else {
                0
            };
            let v = (s << 24) | (i1 << 23) | (i2 << 22) | (((f & 0x3ff) as u32) << 12) | (((g & 0x7ff) as u32)
                << 1);
            ((v << 7u32) as i32) >> 7u32 == 2 * (g % 0x800) + 0x1000 * (f % 0x400) + (if g / 0x800 % 2
                == f / 0x400 % 2 {
                0x40_0000int
            } else {
                0
            }) + (if g / 0x2000 % 2 == f / 0x400 % 2 {
                0x80_0000int
            } else {
                0
            }) - 0x100_0000 * (f / 0x400 % 2)
        }),
        (g & 0x1f) as u32 == g % 32,
{
    assert(((((g >> 12) & 7) as u32) << 2) | (((g >> 6) & 3) as u32) == 4 * (g / 0x1000 % 8) + g / 0x40
        % 4 && ((((f >> 10) & 1) as u32) << 11) | ((((g >> 12) & 7) as u32) << 8) | ((g & 0xff) as u32)
        == 0x800 * (f / 0x400 % 2) + 0x100 * (g / 0x1000 % 8) + g % 0x100 && (((f & 0xf) as u32) << 12)
        | (((((f >> 10) & 1) as u32) << 11) | ((((g >> 12) & 7) as u32) << 8) | ((g & 0xff) as u32))
        == 0x1000 * (f % 16) + (0x800 * (f / 0x400 % 2) + 0x100 * (g / 0x1000 % 8) + g % 0x100) && ({
        let (s, j1, j2) = (((f >> 10) & 1) as u32, ((g >> 13) & 1) as u32, ((g >> 11) & 1) as u32);
        let v = (s << 20) | (j2 << 19) | (j1 << 18) | (((f & 0x3f) as u32) << 12) | (((g & 0x7ff) as u32)
            << 1);
        ((v << 11u32) as i32) >> 11u32 == 2 * (g % 0x800) + 0x1000 * (f % 0x40) + 0x4_0000 * (g
            / 0x2000 % 2) + 0x8_0000 * (g / 0x800 % 2) - 0x10_0000 * (f / 0x400 % 2)
    }) && ({
        let (s, j1, j2) = (((f >> 10) & 1) as u32, ((g >> 13) & 1) as u32, ((g >> 11) & 1) as u32);
        let i1: u32 = if j1 ^ s == 0 {
            1
        } else {
            0
        };
        let i2: u32 = if j2 ^ s == 0 {
            1
        } else {
            0
        };
        let v = (s << 24) | (i1 << 23) | (i2 << 22) | (((f & 0x3ff) as u32) << 12) | (((g & 0x7ff) as u32)
            << 1);
        ((v << 7u32) as i32) >> 7u32 == 2 * (g % 0x800) + 0x1000 * (f % 0x400) + (if g / 0x800 % 2 == f
            / 0x400 % 2 {
            0x40_0000int
        } else {
            0
        }) + (if g / 0x2000 % 2 == f / 0x400 % 2 {
            0x80_0000int
        } else {
            0
        }) - 0x100_0000 * (f / 0x400 % 2)
    }) && (g & 0x1f) as u32 == g % 32) by (bit_vector);
}

proof fn immediate_fields(first: u16, second: u16)
    ensures
        ((((second >> 12) & 7) as u32) << 2) | (((second >> 6) & 3) as u32) == shift_amount(second),
        t32_imm12(first, second) == imm12(first, second),
        (((first & 0xf) as u32) << 12) | t32_imm12(first, second) == 0x1000 * (first as int % 16)
            + imm12(first, second),
        0 <= imm12(first, second) < 0x1000,
        0 <= shift_amount(second) < 32,
        (second & 0x1f) as u32 == second as int % 32,
{
    reveal(imm12);
    reveal(shift_amount);
    wide_fields(first, second);
}

/// The bitwise operations, bit by bit: AND, BIC, ORR, ORN and EOR. The carry is that
/// of the second operand.
pub proof fn wide_logic(s: CpuState, first: u16, rd: usize, a: u32, b: Shifted, pc: u32, i: u32)
    requires
        s.wf(),
        rd < 15,
        (first >> 5) & 0xf <= 4,
        i < 32,
    ensures
        ({
            let op = (first >> 5) & 0xf;
            let (t, r) = t32_operate(s, first, rd, a, b, pc);
            let (x, y) = (bit(a, i), bit(b.value, i));
            &&& r is Ok
            &&& same_but_register(s, t, rd)
            &&& op == 0 ==> bit(t.r(rd), i) == (x && y)
            &&& op == 1 ==> bit(t.r(rd), i) == (x && !y)
            &&& op == 2 ==> bit(t.r(rd), i) == (x || y)
            &&& op == 3 ==> bit(t.r(rd), i) == (x || !y)
            &&& op == 4 ==> bit(t.r(rd), i) == (x != y)
            &&& !bith(first, 4) ==> t.cpsr == s.cpsr
            &&& bith(first, 4) ==> flags_are(s.cpsr, t.cpsr, t.r(rd), b.carry, s.cpsr.v)
        }),
{
    bit_by_bit(a, b.value, 0, i, 0, 0, 0);
    bit_by_bit(b.value, 0, 0, i, 0, 0, 0);
    bit_by_bit(a, !b.value, 0, i, 0, 0, 0);
    low_parts(t32_operate(s, first, rd, a, b, pc).0.r(rd), 0, 0);
}

/// Whether a state is another one with a word written, and with its flags on request.
pub open spec fn sets(
    s: CpuState,
    t: CpuState,
    rd: usize,
    r: int,
    flags: bool,
    carry: bool,
    overflow: bool,
) -> bool {
    &&& same_but_register(s, t, rd)
    &&& t.r(rd) == r
    &&& !flags ==> t.cpsr == s.cpsr
    &&& flags ==> flags_are(s.cpsr, t.cpsr, t.r(rd), carry, overflow)
}

/// ADD and ADC modulo 2^32, with their flags.
pub proof fn wide_sums(s: CpuState, first: u16, rd: usize, a: u32, b: Shifted, pc: u32)
    requires
        s.wf(),
        rd < 15,
        (first >> 5) & 0xf == 8 || (first >> 5) & 0xf == 10,
    ensures
        ({
            let op = (first >> 5) & 0xf;
            let (t, _) = t32_operate(s, first, rd, a, b, pc);
            let y = b.value;
            let (c, d) = (one_if(s.cpsr.c), one_if(!s.cpsr.c));
            let f = bith(first, 4);
            &&& op == 8 ==> sets(
                s,
                t,
                rd,
                (a + y) % 0x1_0000_0000,
                f,
                a + y >= 0x1_0000_0000,
                leaves_signed(signed32(a) + signed32(y)),
            )
            &&& op == 10 ==> sets(
                s,
                t,
                rd,
                (a + y + c) % 0x1_0000_0000,
                f,
                a + y + c >= 0x1_0000_0000,
                leaves_signed(signed32(a) + signed32(y) + c),
            )
        }),
{
    let op = (first >> 5) & 0xf;
    let y = b.value;
    low_parts(t32_operate(s, first, rd, a, b, pc).0.r(rd), 0, 0);
    if op == 8 {
        sums(a, y, false);
    } else {
        sums(a, y, s.cpsr.c);
    }
}

/// SBC modulo 2^32, with its flags.
pub proof fn wide_borrows(s: CpuState, first: u16, rd: usize, a: u32, b: Shifted, pc: u32)
    requires
        s.wf(),
        rd < 15,
        (first >> 5) & 0xf == 11,
    ensures
        ({
            let op = (first >> 5) & 0xf;
            let (t, _) = t32_operate(s, first, rd, a, b, pc);
            let y = b.value;
            let (c, d) = (one_if(s.cpsr.c), one_if(!s.cpsr.c));
            let f = bith(first, 4);
            &&& op == 11 ==> sets(
                s,
                t,
                rd,
                (a - y - d) % 0x1_0000_0000,
                f,
                a >= y + d,
                leaves_signed(signed32(a) - signed32(y) - d),
            )
        }),
{
    let op = (first >> 5) & 0xf;
    let y = b.value;
    low_parts(t32_operate(s, first, rd, a, b, pc).0.r(rd), 0, 0);
    differences(a, y, s.cpsr.c);
}

/// SUB and RSB modulo 2^32, with their flags.
pub proof fn wide_differences(s: CpuState, first: u16, rd: usize, a: u32, b: Shifted, pc: u32)
    requires
        s.wf(),
        rd < 15,
        (first >> 5) & 0xf == 13 || (first >> 5) & 0xf == 14,
    ensures
        ({
            let op = (first >> 5) & 0xf;
            let (t, _) = t32_operate(s, first, rd, a, b, pc);
            let y = b.value;
            let (c, d) = (one_if(s.cpsr.c), one_if(!s.cpsr.c));
            let f = bith(first, 4);
            &&& op == 13 ==> sets(
                s,
                t,
                rd,
                (a - y) % 0x1_0000_0000,
                f,
                a >= y,
                leaves_signed(signed32(a) - signed32(y)),
            )
            &&& op == 14 ==> sets(
                s,
                t,
                rd,
                (y - a) % 0x1_0000_0000,
                f,
                y >= a,
                leaves_signed(signed32(y) - signed32(a)),
            )
        }),
{
    let op = (first >> 5) & 0xf;
    let y = b.value;
    low_parts(t32_operate(s, first, rd, a, b, pc).0.r(rd), 0, 0);
    if op == 13 {
        differences(a, y, true);
    } else {
        differences(y, a, true);
    }
}

/// A destination of fifteen makes a comparison: TST, TEQ, CMN and CMP set the flags
/// of a result that is not written.
pub proof fn wide_comparisons(s: CpuState, first: u16, a: u32, b: Shifted, pc: u32)
    requires
        s.wf(),
    ensures
        ({
            let op = (first >> 5) & 0xf;
            let (t, r) = t32_operate(s, first, 15, a, b, pc);
            let y = b.value;
            &&& op == 0 ==> flags_are(s.cpsr, t.cpsr, a & y, b.carry, s.cpsr.v)
            &&& op == 4 ==> flags_are(s.cpsr, t.cpsr, a ^ y, b.carry, s.cpsr.v)
            &&& op == 8 ==> flags_are(
                s.cpsr,
                t.cpsr,
                ((a + y) % 0x1_0000_0000) as u32,
                a + y >= 0x1_0000_0000,
                leaves_signed(signed32(a) + signed32(y)),
            )
            &&& op == 13 ==> flags_are(
                s.cpsr,
                t.cpsr,
                ((a - y) % 0x1_0000_0000) as u32,
                a >= y,
                leaves_signed(signed32(a) - signed32(y)),
            )
            &&& t == s.with_cpsr(t.cpsr)
        }),
{
    let op = (first >> 5) & 0xf;
    let y = b.value;
    low_parts(a & y, 0, 0);
    low_parts(a ^ y, 0, 0);
    sums(a, y, false);
    differences(a, y, true);
    low_parts(sum3(a, y, false).0, 0, 0);
    low_parts(sum3(a, !y, true).0, 0, 0);
    let t = t32_operate(s, first, 15, a, b, pc).0;
    assert(t =~= s.with_cpsr(t.cpsr));
}

/// The second operand of the shifted-register form is a register shifted by an
/// amount in two parts; the first one is zero or the program counter where fifteen is
/// named.
pub proof fn wide_operands(s: CpuState, first: u16, second: u16, pc: u32)
    requires
        t4(second, 0) != 15,
        t4(first, 0) != 15,
    ensures
        t32_shifted_register(s, first, second, pc) == t32_operate(
            s,
            first,
            t4(second, 8),
            s.r(t4(first, 0)),
            shifted(
                s.r(t4(second, 0)),
                shift_kind(((second >> 4) & 3) as u32),
                shift_amount(second) as u32,
                s.cpsr.c,
                true,
            ),
            pc,
        ),
        t32_imm12(first, second) == imm12(first, second),
{
    immediate_fields(first, second);
}

/// ADDW, SUBW, MOVW and MOVT.
pub proof fn wide_immediates(s: CpuState, first: u16, second: u16, pc: u32)
    requires
        s.wf(),
        t32_plain_immediate(s, first, second, pc).1 == Ok::<bool, TrapView>(true),
    ensures
        ({
            let (rn, rd) = (t4(first, 0), t4(second, 8));
            let key = first & 0xfbf0;
            let here = (pc + 4) % 0x1_0000_0000;
            let base = if rn == 15 {
                here - here % 4
            } else {
                s.r(rn) as int
            };
            let wide = 0x1000 * (first as int % 16) + imm12(first, second);
            let t = t32_plain_immediate(s, first, second, pc).0;
            &&& same_but_register(s, t, rd) && t.cpsr == s.cpsr
            &&& key == 0xf200 ==> t.r(rd) == (base + imm12(first, second)) % 0x1_0000_0000
            &&& key == 0xf2a0 ==> t.r(rd) == (base - imm12(first, second)) % 0x1_0000_0000
            &&& key == 0xf240 ==> t.r(rd) == wide
            &&& key == 0xf2c0 ==> t.r(rd) == s.r(rd) as int % 0x1_0000 + 0x1_0000 * wide
        }),
{
    immediate_fields(first, second);
    rounded(pc.wrapping_add(4));
    and_le_u16(second >> 8, 0xf);
    and_le_u16(first >> 0, 0xf);
    let imm16 = (((first & 0xf) as u32) << 12) | t32_imm12(first, second);
    joined_halves(s.r(t4(second, 8)), imm16);
}

/// UBFX and SBFX of the Thumb instruction set.
pub proof fn wide_extracted_bits(s: CpuState, first: u16, second: u16, pc: u32, i: u32)
    requires
        s.wf(),
        first & 0xfff0 == 0xf340 || first & 0xfff0 == 0xf3c0,
        t32_bitfield(s, first, second, pc).1 is Ok,
        i < 32,
    ensures
        ({
            let rd = t4(second, 8);
            let v = s.r(t4(first, 0));
            let (lsb, top) = (shift_amount(second), second as int % 32);
            let t = t32_bitfield(s, first, second, pc).0;
            &&& lsb + top < 32
            &&& same_but_register(s, t, rd) && t.cpsr == s.cpsr
            &&& bit(t.r(rd), i) == if i <= top {
                bit(v, (lsb + i) as u32)
            } else {
                first & 0xfff0 == 0xf340 && bit(v, (lsb + top) as u32)
            }
        }),
{
    immediate_fields(first, second);
    and_le_u16(second >> 8, 0xf);
    let v = s.r(t4(first, 0));
    let lsb = shift_amount(second) as u32;
    let top = (second & 0x1f) as u32;
    if lsb + top < 32 {
        let width = (top + 1) as u32;
        let moved = v >> lsb;
        let raw = moved & low_mask(width);
        field_bits(v, lsb, width, i);
        field_bits(v, lsb, width, top);
        let n = (32 - width) as u32;
        let y = raw << n;
        bit_by_bit(y, 0, n, i, 0, 0, 0);
        if i + n < 32 {
            bit_by_bit(raw, 0, n, (i + n) as u32, 0, 0, 0);
        } else {
            bit_by_bit(raw, 0, n, 31, 0, 0, 0);
        }
    }
}

proof fn field_bits(v: u32, lsb: u32, width: u32, i: u32)
    requires
        i < 32,
        1 <= width,
        lsb + width <= 32,
    ensures
        bit((v >> lsb) & low_mask(width), i) == (i < width && bit(v, (lsb + i) as u32)),
{
    let moved = v >> lsb;
    bit_by_bit(v, 0, lsb, i, 0, 0, 0);
    if width < 32 {
        bit_by_bit(moved, low_mask(width), width, i, 0, 0, 0);
    } else {
        bit_by_bit(moved, low_mask(width), 0, i, 0, 0, 0);
    }
}

/// The branches: near ones on a condition, far ones always, BL with a link and BLX
/// to ARM code at a word.
pub proof fn wide_branches(s: CpuState, first: u16, second: u16, pc: u32)
    requires
        s.wf(),
        t32_branch(s, first, second, pc).1 is Ok,
    ensures
        ({
            let kind = (second >> 14) & 3;
            let next = (pc + 4) % 0x1_0000_0000;
            let t = t32_branch(s, first, second, pc).0;
            let to = next - next % 4 + far_offset(first, second);
            &&& forall|i: usize| i < 14 ==> #[trigger] t.r(i) == s.r(i)
            &&& kind == 2 ==> t == (CpuState { regs: t.regs, ..s }) && t.r(14) == s.r(14)
            &&& kind == 2 && !bith(second, 12) ==> t.r(15) == if holds(
                ((first >> 6) & 0xf) as u32,
                s.cpsr,
            ) {
                (next + near_offset(first, second)) % 0x1_0000_0000
            } else {
                s.r(15) as int
            }
            &&& kind == 2 && bith(second, 12) ==> t.r(15) == (next + far_offset(first, second))
                % 0x1_0000_0000
            &&& kind == 3 ==> t.r(14) == next - next % 2 + 1
            &&& kind == 3 && bith(second, 12) ==> t.r(15) == (next + far_offset(first, second))
                % 0x1_0000_0000 && t.cpsr == s.cpsr
            &&& kind == 3 && !bith(second, 12) ==> t.r(15) == to % 0x1_0000_0000 - (to
                % 0x1_0000_0000) % 4 && t.cpsr == (Cpsr { t: false, ..s.cpsr })
        }),
{
    offsets(first, second);
    let next = pc.wrapping_add(4);
    rounded(next);
    let to = (next & !3u32).wrapping_add(far_word(first, second));
    rounded(to);
    rounded(to & !3u32);
    sum_of(next, far_word(first, second), far_offset(first, second));
    sum_of(next, near_word(first, second), near_offset(first, second));
    sum_of(next & !3u32, far_word(first, second), far_offset(first, second));
}

proof fn sum_of(a: u32, w: u32, x: int)
    requires
        w == x % 0x1_0000_0000,
    ensures
        a.wrapping_add(w) == (a + x) % 0x1_0000_0000,
{
}

pub open spec fn near_word(f: u16, g: u16) -> u32 {
    let (sign, j1, j2) = (((f >> 10) & 1) as u32, ((g >> 13) & 1) as u32, ((g >> 11) & 1) as u32);
    sext(
        (sign << 20) | (j2 << 19) | (j1 << 18) | (((f & 0x3f) as u32) << 12) | (((g & 0x7ff) as u32)
            << 1),
        21,
    ) as u32
}

pub open spec fn far_word(f: u16, g: u16) -> u32 {
    let (sign, j1, j2) = (((f >> 10) & 1) as u32, ((g >> 13) & 1) as u32, ((g >> 11) & 1) as u32);
    let i1: u32 = if j1 ^ sign == 0 {
        1
    } else {
        0
    };
    let i2: u32 = if j2 ^ sign == 0 {
        1
    } else {
        0
    };
    sext(
        (sign << 24) | (i1 << 23) | (i2 << 22) | (((f & 0x3ff) as u32) << 12) | (((g & 0x7ff) as u32)
            << 1),
        25,
    ) as u32
}

proof fn offsets(f: u16, g: u16)
    ensures
        near_word(f, g) == near_offset(f, g) % 0x1_0000_0000,
        far_word(f, g) == far_offset(f, g) % 0x1_0000_0000,
{
    reveal(near_offset);
    reveal(far_offset);
    wide_fields(f, g);
    sign_casts(0, 0, 0, 0, near_offset(f, g) as i32, 0);
    sign_casts(0, 0, 0, 0, far_offset(f, g) as i32, 0);
}

/// UDIV and SDIV round towards zero: the dividend is the quotient times the divisor
/// and a rest that is nearer to zero than the divisor and has the sign of the
/// dividend. A divisor of zero gives zero.
pub proof fn quotients(a: u32, b: u32)
    ensures
        b == 0 ==> quotient(a, b, true) == 0 && quotient(a, b, false) == 0,
        b != 0 ==> exists|r: int|
            a == quotient(a, b, false) * b + r && 0 <= #[trigger] id(r) < b,
        b != 0 ==> exists|q: int, r: int|
            {
                let (x, y) = (signed32(a), signed32(b));
                &&& quotient(a, b, true) == #[trigger] id(q) % 0x1_0000_0000
                &&& x == q * y + r
                &&& (x >= 0 ==> 0 <= r) && (x < 0 ==> r <= 0)
                &&& (y > 0 ==> -y < r < y) && (y < 0 ==> y < #[trigger] id(r) < -y)
            },
{
    sign_casts(0, 0, a, 0, 0, 0);
    sign_casts(0, 0, b, 0, 0, 0);
    if b != 0 {
        vstd::arithmetic::div_mod::lemma_fundamental_div_mod(a as int, b as int);
        vstd::arithmetic::mul::lemma_mul_is_commutative(a as int / b as int, b as int);
        assert(a == quotient(a, b, false) * b + id(a as int % b as int));
        let (x, y) = (signed32(a), signed32(b));
        let (m, n) = (magnitude(a), magnitude(b));
        let (k, e) = (m / n, m % n);
        vstd::arithmetic::div_mod::lemma_fundamental_div_mod(m, n);
        assert(0 <= k <= m) by (nonlinear_arith)
            requires
                k == m / n,
                m >= 0,
                n >= 1,
        ;
        let q = if (x < 0) != (y < 0) {
            -k
        } else {
            k
        };
        let r = if x < 0 {
            -e
        } else {
            e
        };
        assert(k * n == n * k && (-k) * n == -(n * k) && k * (-n) == -(n * k) && (-k) * (-n) == n * k)
            by (nonlinear_arith);
        assert(x == q * y + r);
        assert(quotient(a, b, true) == id(q) % 0x1_0000_0000);
        assert(id(r) == r);
    }
}

pub open spec fn id(x: int) -> int {
    x
}

/// The operation fields of a multiplication.
pub open spec fn ops(first: u16, second: u16) -> (u16, u16) {
    ((first >> 4) & 0xf, (second >> 4) & 0xf)
}

proof fn four_bits(first: u16, second: u16)
    ensures
        t4(first, 0) < 16,
        t4(second, 0) < 16,
        t4(second, 8) < 16,
        t4(second, 12) < 16,
{
    and_le_u16(first >> 0, 0xf);
    and_le_u16(second >> 0, 0xf);
    and_le_u16(second >> 8, 0xf);
    and_le_u16(second >> 12, 0xf);
}

/// MUL, MLA and MLS modulo 2^32, and USAD8 and USADA8.
pub proof fn wide_products(s: CpuState, first: u16, second: u16)
    requires
        s.wf(),
        t32_multiply(s, first, second).1 == Ok::<bool, TrapView>(true),
    ensures
        ({
            let (op1, op2) = ops(first, second);
            let (rd, ra) = (t4(second, 8), t4(second, 12));
            let (n, m) = (s.r(t4(first, 0)), s.r(t4(second, 0)));
            let acc: int = if ra == 15 {
                0
            } else {
                s.r(ra) as int
            };
            let t = t32_multiply(s, first, second).0;
            &&& op1 == 0 && op2 == 0 ==> sets(s, t, rd, (n * m + acc) % 0x1_0000_0000, false, false, false)
            &&& op1 == 0 && op2 == 1 ==> sets(s, t, rd, (acc - n * m) % 0x1_0000_0000, false, false, false)
            &&& op1 == 7 && op2 == 0 ==> sets(
                s,
                t,
                rd,
                (acc + bytes_apart(n, m, 0) + bytes_apart(n, m, 1) + bytes_apart(n, m, 2)
                    + bytes_apart(n, m, 3)) % 0x1_0000_0000,
                false,
                false,
                false,
            )
        }),
{
    four_bits(first, second);
    let (n, m) = (s.r(t4(first, 0)), s.r(t4(second, 0)));
    distances_by_bytes(n, m);
    product_sums(n, m, s.r(t4(second, 12)));
}

proof fn product_sums(n: u32, m: u32, a: u32)
    ensures
        n.wrapping_mul(m) == (n * m) % 0x1_0000_0000,
        n.wrapping_mul(m).wrapping_add(a) == (n * m + a) % 0x1_0000_0000,
        a.wrapping_sub(n.wrapping_mul(m)) == (a - n * m) % 0x1_0000_0000,
{
    let p = n * m;
    assert(n.wrapping_mul(m) == p % 0x1_0000_0000);
}

/// UDIV and SDIV.
pub proof fn wide_quotients(s: CpuState, first: u16, second: u16)
    requires
        s.wf(),
        ops(first, second) == (9u16, 15u16) || ops(first, second) == (11u16, 15u16),
        t4(second, 12) == 15,
        t32_multiply(s, first, second).1 is Ok,
    ensures
        sets(
            s,
            t32_multiply(s, first, second).0,
            t4(second, 8),
            quotient(s.r(t4(first, 0)), s.r(t4(second, 0)), ops(first, second).0 == 9) as int,
            false,
            false,
            false,
        ),
{
    four_bits(first, second);
}

/// SMLAxy, SMLAD, SMLAWy and SMLSD: the product of halves, of a word and a half over
/// 2^16, or the sum or difference of two products of halves, plus a register; with the
/// sticky flag where the number leaves the signed words.
pub proof fn wide_half_products(s: CpuState, first: u16, second: u16)
    requires
        s.wf(),
        1 <= ops(first, second).0 <= 4,
        ops(first, second).1 <= if ops(first, second).0 == 1 {
            3u16
        } else {
            1u16
        },
        t32_multiply(s, first, second).1 == Ok::<bool, TrapView>(true),
    ensures
        ({
            let (op1, op2) = ops(first, second);
            let (rd, ra) = (t4(second, 8), t4(second, 12));
            let (n, m) = (s.r(t4(first, 0)), s.r(t4(second, 0)));
            let (x, y) = (op2 & 2 != 0, op2 & 1 != 0);
            let lo = signed_half(n, false) * signed_half(m, y);
            let hi = signed_half(n, true) * signed_half(m, !y);
            let v = if op1 == 1 {
                signed_half(n, x) * signed_half(m, y)
            } else if op1 == 2 {
                lo + hi
            } else if op1 == 3 {
                (signed32(n) * signed_half(m, y)) / 0x1_0000
            } else {
                lo - hi
            };
            let sum = if ra == 15 {
                v
            } else {
                v + signed32(s.r(ra))
            };
            let t = t32_multiply(s, first, second).0;
            &&& t.r(rd) == sum % 0x1_0000_0000
            &&& t.cpsr == (Cpsr { q: s.cpsr.q || leaves_signed(sum), ..s.cpsr })
            &&& same_but_register(s, t, rd)
        }),
{
    four_bits(first, second);
    let (op1, op2) = ops(first, second);
    let (rd, ra) = (t4(second, 8), t4(second, 12));
    let (n, m) = (s.r(t4(first, 0)), s.r(t4(second, 0)));
    let (x, y) = (op2 & 2 != 0, op2 & 1 != 0);
    half_products(n, m, x, y);
    sign_casts(0, 0, s.r(ra), 0, 0, 0);
    let v = t32_product(op1, op2, n, m);
    if rd != 15 {
        written_sticky(s, rd, v);
        written_sticky(s, rd, v + signed32(s.r(ra)));
    }
}

proof fn half_products(n: u32, m: u32, x: bool, y: bool)
    ensures
        half(n, x) * half(m, y) == signed_half(n, x) * signed_half(m, y),
        half(n, false) * half(m, y) == signed_half(n, false) * signed_half(m, y),
        half(n, true) * half(m, !y) == signed_half(n, true) * signed_half(m, !y),
        -0x4000_0000 <= half(n, x) * half(m, y) <= 0x4000_0000,
        -0x4000_0000 <= half(n, false) * half(m, y) <= 0x4000_0000,
        -0x4000_0000 <= half(n, true) * half(m, !y) <= 0x4000_0000,
        dual(n, m, y).0 == signed_half(n, false) * signed_half(m, y),
        dual(n, m, y).1 == signed_half(n, true) * signed_half(m, !y),
        ((((n as i32) * half(m, y)) as i64) >> 16) as int == (signed32(n) * signed_half(m, y))
            / 0x1_0000,
        -0x8000_0000 <= (signed32(n) * signed_half(m, y)) / 0x1_0000 <= 0x8000_0000,
{
    halves(n, x);
    halves(n, false);
    halves(n, true);
    halves(m, y);
    halves(m, !y);
    half_product_bounds(half(n, x), half(m, y));
    half_product_bounds(half(n, false), half(m, y));
    half_product_bounds(half(n, true), half(m, !y));
    sign_casts(0, 0, n, 0, 0, 0);
    word_half_product_bounds(n as i32, half(m, y));
    shifted_right_16((signed32(n) * signed_half(m, y)) as i64);
}

/// SMMUL, SMMLA and SMMLS: the high word of a product, of its sum with a register in
/// the high word or of the difference, rounded to nearest on request.
pub proof fn wide_high_products(s: CpuState, first: u16, second: u16)
    requires
        s.wf(),
        5 <= ops(first, second).0 <= 6,
        ops(first, second).1 <= 1,
        t32_multiply(s, first, second).1 == Ok::<bool, TrapView>(true),
    ensures
        ({
            let (op1, op2) = ops(first, second);
            let (rd, ra) = (t4(second, 8), t4(second, 12));
            let product = signed32(s.r(t4(first, 0))) * signed32(s.r(t4(second, 0)));
            let high = s.r(ra) * 0x1_0000_0000;
            let v = if ra == 15 {
                product
            } else if op1 == 5 {
                high + product
            } else {
                high - product
            };
            let round: int = if op2 & 1 != 0 {
                0x8000_0000
            } else {
                0
            };
            sets(
                s,
                t32_multiply(s, first, second).0,
                rd,
                ((v + round) / 0x1_0000_0000) % 0x1_0000_0000,
                false,
                false,
                false,
            )
        }),
{
    four_bits(first, second);
    let round = ops(first, second).1 & 1 != 0;
    let ra = t4(second, 12);
    let (a, b) = (s.r(t4(first, 0)), s.r(t4(second, 0)));
    sign_casts(0, 0, a, 0, 0, 0);
    sign_casts(0, 0, b, 0, 0, 0);
    word_product_bounds(a as i32, b as i32);
    let product = (signed32(a) * signed32(b)) as i64;
    let addend = ((s.r(ra) as u64) << 32) as i64;
    pairs(s.r(ra), 0, 0);
    sign_casts(0, 0, 0, (s.r(ra) as u64) << 32, 0, 0);
    high_words(product as int, product, round);
    high_words(s.r(ra) * 0x1_0000_0000 + product, addend.wrapping_add(product), round);
    high_words(s.r(ra) * 0x1_0000_0000 - product, addend.wrapping_sub(product), round);
}

/// The multiplications with a doubleword result, signed and unsigned, with and without
/// accumulation, UMAAL, and the products of halves added to a doubleword.
pub proof fn wide_long_products(s: CpuState, first: u16, second: u16)
    requires
        s.wf(),
        t32_long_multiply(s, first, second).1 == Ok::<bool, TrapView>(true),
    ensures
        ({
            let (op1, op2) = ops(first, second);
            let (lo, hi) = (t4(second, 12), t4(second, 8));
            let (n, m) = (s.r(t4(first, 0)), s.r(t4(second, 0)));
            let (x, y) = (op2 & 2 != 0, op2 & 1 != 0);
            let old = pair_of(s.r(hi), s.r(lo));
            let low = signed_half(n, false) * signed_half(m, y);
            let high = signed_half(n, true) * signed_half(m, !y);
            let v = if op2 == 0 && op1 == 8 {
                signed32(n) * signed32(m)
            } else if op2 == 0 && op1 == 10 {
                n * m
            } else if op2 == 0 && op1 == 12 {
                old + signed32(n) * signed32(m)
            } else if op2 == 0 {
                old + n * m
            } else if op2 == 6 {
                n * m + s.r(lo) + s.r(hi)
            } else if op2 < 12 {
                old + signed_half(n, x) * signed_half(m, y)
            } else if op1 == 13 {
                old + (low - high)
            } else {
                old + (low + high)
            };
            let t = t32_long_multiply(s, first, second).0;
            &&& pair_of(t.r(hi), t.r(lo)) == v % 0x1_0000_0000_0000_0000
            &&& same_but_pair(s, t, lo, hi)
            &&& t.cpsr == s.cpsr
        }),
{
    four_bits(first, second);
    let (op1, op2) = ops(first, second);
    let (lo, hi) = (t4(second, 12), t4(second, 8));
    let (n, m) = (s.r(t4(first, 0)), s.r(t4(second, 0)));
    let (x, y) = (op2 & 2 != 0, op2 & 1 != 0);
    if op2 == 0 {
        pairs(s.r(hi), s.r(lo), 0);
        let signed = op1 == 8 || op1 == 12;
        doubleword_products(n, m, signed);
        let acc = if op1 == 12 || op1 == 14 {
            pair64(s.r(hi), s.r(lo))
        } else {
            0
        };
        split(long_product(n, m, signed).wrapping_add(acc));
    } else if op2 == 6 {
        unsigned_product_bounds(n, m);
        split((n * m + s.r(lo) + s.r(hi)) as u64);
    } else {
        half_products(n, m, x, y);
        let low = signed_half(n, false) * signed_half(m, y);
        let high = signed_half(n, true) * signed_half(m, !y);
        if op2 < 12 {
            accumulated(s, lo, hi, signed_half(n, x) * signed_half(m, y));
        } else if op1 == 13 {
            accumulated(s, lo, hi, low - high);
        } else {
            accumulated(s, lo, hi, low + high);
        }
    }
}

proof fn doubleword_products(n: u32, m: u32, signed: bool)
    ensures
        long_product(n, m, signed) == (if signed {
            signed32(n) * signed32(m)
        } else {
            n * m
        }) % 0x1_0000_0000_0000_0000,
{
    sign_casts(0, 0, n, 0, 0, 0);
    sign_casts(0, 0, m, 0, 0, 0);
    word_product_bounds(n as i32, m as i32);
    unsigned_product_bounds(n, m);
    sign_casts(0, 0, 0, 0, 0, (signed32(n) * signed32(m)) as i64);
}

} // verus!
