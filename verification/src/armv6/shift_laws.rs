//! What the shifter and the immediates of the core instruction set give, bit by
//! bit.

use super::alu::{arm_imm, shift_kind, shifted, thumb_imm, Shift};
use super::arm_data::operand2;
use super::bits::{
    and_laws, and_le_u32, bit, f4, ror32, sext, small_extensions, thumb_immediate_fields,
};
use super::cpu::CpuState;
use super::numbers::{bit_by_bit, low_parts, sign_casts, signed16, signed8};
use vstd::prelude::*;

verus! {

/// Whether `r` is `value` shifted left by `n` places.
pub open spec fn moved_left(value: u32, n: int, r: u32) -> bool {
    forall|i: u32| i < 32 ==> (#[trigger] bit(r, i) <==> i >= n && bit(value, (i - n) as u32))
}

/// Whether `r` is `value` shifted right by `n` places, zeros coming in.
pub open spec fn moved_right(value: u32, n: int, r: u32) -> bool {
    forall|i: u32| i < 32 ==> (#[trigger] bit(r, i) <==> i + n < 32 && bit(value, (i + n) as u32))
}

/// Whether `r` is `value` shifted right by `n` places, copies of the sign coming
/// in.
pub open spec fn moved_right_signed(value: u32, n: int, r: u32) -> bool {
    forall|i: u32|
        i < 32 ==> (#[trigger] bit(r, i) <==> bit(
            value,
            if i + n < 32 {
                (i + n) as u32
            } else {
                31
            },
        ))
}

/// Whether `r` is `value` rotated right by `n` places.
pub open spec fn turned_right(value: u32, n: int, r: u32) -> bool {
    forall|i: u32| i < 32 ==> (#[trigger] bit(r, i) <==> bit(value, ((i + n) % 32) as u32))
}

/// Whether `r` is `value` moved right by one place with `top` coming in.
pub open spec fn moved_through(value: u32, top: bool, r: u32) -> bool {
    forall|i: u32|
        i < 32 ==> (#[trigger] bit(r, i) <==> if i == 31 {
            top
        } else {
            bit(value, (i + 1) as u32)
        })
}

proof fn bit_of_zero(i: u32)
    requires
        i < 32,
    ensures
        !bit(0, i),
        bit(0xffff_ffff, i),
{
    low_parts(0, 0, 0);
    and_laws(0, 1u32 << i);
    and_le_u32(1u32 << i, 0);
    bit_by_bit(0, 0, 0, i, 0, 0, 0);
}

proof fn rotated(value: u32, n: u32)
    ensures
        turned_right(value, n as int, ror32(value, n)),
{
    let r = ror32(value, n);
    let k = n % 32;
    assert forall|i: u32| i < 32 implies (#[trigger] bit(r, i) <==> bit(
        value,
        ((i + n) % 32) as u32,
    )) by {
        assert((i + n) % 32 == (i + k) % 32);
        if k != 0 {
            bit_by_bit(value, 0, k, i, 0, 0, 0);
            bit_by_bit(value, 0, (32 - k) as u32, i, 0, 0, 0);
            bit_by_bit(value >> k, value << ((32 - k) as u32), 0, i, 0, 0, 0);
        }
    }
}

/// A shift by an amount that is given in full: by zero places it leaves value
/// and carry alone, else the carry is the last bit that was moved out.
pub proof fn shift_by_amount(value: u32, kind: Shift, n: u32, carry: bool)
    ensures
        ({
            let out = shifted(value, kind, n, carry, false);
            &&& n == 0 ==> out.value == value && out.carry == carry
            &&& kind == Shift::Lsl ==> moved_left(value, n as int, out.value) && (n != 0
                ==> out.carry == (n <= 32 && bit(value, (32 - n) as u32)))
            &&& kind == Shift::Lsr ==> moved_right(value, n as int, out.value) && (n != 0
                ==> out.carry == (n <= 32 && bit(value, (n - 1) as u32)))
            &&& kind == Shift::Asr ==> moved_right_signed(value, n as int, out.value) && (n != 0
                ==> out.carry == bit(
                value,
                if n <= 32 {
                    (n - 1) as u32
                } else {
                    31
                },
            ))
            &&& kind == Shift::Ror ==> turned_right(value, n as int, out.value) && (n != 0
                ==> out.carry == bit(out.value, 31))
        }),
{
    let out = shifted(value, kind, n, carry, false);
    low_parts(value, 0, 0);
    low_parts(out.value, 0, 0);
    bit_by_bit(value, 0, 0, 31, 0, 0, 0);
    bit_by_bit(out.value, 0, 0, 31, 0, 0, 0);
    low_bit(value);
    rotated(value, n);
    assert forall|i: u32| i < 32 implies {
        &&& kind == Shift::Lsl ==> (#[trigger] bit(out.value, i) <==> i >= n && bit(
            value,
            (i - n) as u32,
        ))
        &&& kind == Shift::Lsr ==> (bit(out.value, i) <==> i + n < 32 && bit(
            value,
            (i + n) as u32,
        ))
        &&& kind == Shift::Asr ==> (bit(out.value, i) <==> bit(
            value,
            if i + n < 32 {
                (i + n) as u32
            } else {
                31
            },
        ))
    } by {
        bit_of_zero(i);
        if n < 32 {
            bit_by_bit(value, 0, n, i, 0, 0, 0);
        }
    }
}

proof fn low_bit(value: u32)
    ensures
        (value & 1 != 0) == bit(value, 0),
        1u32 << 0 == 1u32,
{
    and_laws(value, 1);
}

/// A shift by an immediate: zero stands for thirty-two in the right shifts, and
/// in the rotation for the rotation by one place through the carry.
pub proof fn shift_by_immediate(value: u32, kind: Shift, n: u32, carry: bool)
    requires
        n < 32,
    ensures
        n != 0 || kind == Shift::Lsl ==> shifted(value, kind, n, carry, true) == shifted(
            value,
            kind,
            n,
            carry,
            false,
        ),
        n == 0 && (kind == Shift::Lsr || kind == Shift::Asr) ==> shifted(
            value,
            kind,
            n,
            carry,
            true,
        ) == shifted(value, kind, 32, carry, false),
        n == 0 && kind == Shift::Ror ==> {
            let out = shifted(value, kind, n, carry, true);
            moved_through(value, carry, out.value) && out.carry == bit(value, 0)
        },
{
    low_bit(value);
    if n == 0 && kind == Shift::Ror {
        let out = shifted(value, kind, n, carry, true);
        assert forall|i: u32| i < 32 implies (#[trigger] bit(out.value, i) <==> if i == 31 {
            carry
        } else {
            bit(value, (i + 1) as u32)
        }) by {
            bit_of_zero(i);
            let top = if carry {
                1u32 << 31
            } else {
                0
            };
            bit_by_bit(value, 0, 1, i, 0, 0, 0);
            bit_by_bit(top, value >> 1, 0, i, 0, 0, 0);
            bit_by_bit(1, 0, 31, i, 0, 0, 0);
            low_bit(1);
            bit_by_bit(1, 0, 0, 0, 0, 0, 0);
        }
    }
}

/// The second operand of a data-processing word in its register forms: the
/// operand register shifted as bits 6 and 5 say, by the five bits at bit 7 or by
/// the low byte of the register at bit 8.
pub proof fn register_operand(s: CpuState, instr: u32, pc: u32)
    requires
        !bit(instr, 25),
    ensures
        ({
            let out = operand2(s, instr, pc);
            let value = s.ra(f4(instr, 0), pc);
            let field = (instr >> 5) & 3;
            let by_register = bit(instr, 4);
            let n = if by_register {
                s.ra(f4(instr, 8), pc) % 0x100
            } else {
                (instr >> 7) & 0x1f
            };
            &&& by_register && n == 0 ==> out.value == value && out.carry == s.cpsr.c
            &&& field == 0 ==> moved_left(value, n as int, out.value)
            &&& field == 1 ==> moved_right(
                value,
                if n == 0 && !by_register {
                    32
                } else {
                    n as int
                },
                out.value,
            )
            &&& field == 2 ==> moved_right_signed(
                value,
                if n == 0 && !by_register {
                    32
                } else {
                    n as int
                },
                out.value,
            )
            &&& field == 3 && (by_register || n != 0) ==> turned_right(
                value,
                n as int,
                out.value,
            )
            &&& field == 3 && !by_register && n == 0 ==> moved_through(
                value,
                s.cpsr.c,
                out.value,
            )
            &&& n != 0 && field == 0 ==> out.carry == (n <= 32 && bit(value, (32 - n) as u32))
            &&& n != 0 && field == 1 ==> out.carry == (n <= 32 && bit(value, (n - 1) as u32))
        }),
{
    let value = s.ra(f4(instr, 0), pc);
    let kind = shift_kind((instr >> 5) & 3);
    let amount = s.ra(f4(instr, 8), pc);
    and_le_u32(instr >> 5, 3);
    and_le_u32(instr >> 7, 0x1f);
    low_parts(amount, 0, 0);
    let n = if bit(instr, 4) {
        (amount % 0x100) as u32
    } else {
        (instr >> 7) & 0x1f
    };
    shift_by_amount(value, kind, n, s.cpsr.c);
    shift_by_amount(value, kind, 32, s.cpsr.c);
    if !bit(instr, 4) {
        shift_by_immediate(value, kind, n, s.cpsr.c);
    }
}

/// The second operand of a data-processing word in its immediate form: the low
/// byte rotated right by twice the four bits above it. A rotation sets the carry
/// to the top bit.
pub proof fn immediate_operand(s: CpuState, instr: u32, pc: u32)
    requires
        bit(instr, 25),
    ensures
        ({
            let out = operand2(s, instr, pc);
            let turn = 2 * ((instr % 0x1000) / 0x100);
            &&& turned_right((instr % 0x100) as u32, turn as int, out.value)
            &&& out.carry == if turn == 0 {
                s.cpsr.c
            } else {
                out.value >= 0x8000_0000
            }
        }),
{
    low_parts(instr, 0, 0);
    arm_immediates(instr & 0xfff);
    assert((instr % 0x1000) % 0x100 == instr % 0x100);
}

/// An A32 immediate.
pub proof fn arm_immediates(imm12: u32)
    requires
        imm12 < 0x1000,
    ensures
        turned_right((imm12 % 0x100) as u32, 2 * (imm12 as int / 0x100), arm_imm(imm12).0),
        arm_imm(imm12).1 == if imm12 / 0x100 == 0 {
            None
        } else {
            Some(arm_imm(imm12).0 >= 0x8000_0000)
        },
{
    low_parts(imm12, 0, 0);
    low_parts(arm_imm(imm12).0, 0, 0);
    and_laws(imm12 >> 8, 0xf);
    let rot = (((imm12 >> 8) & 0xf) * 2) as u32;
    assert(rot == 2 * (imm12 / 0x100));
    let b = imm12 & 0xff;
    rotated(b, rot);
    assert(ror32(b, 0) == b);
}

/// A Thumb modified immediate: a byte in one of four patterns, or a byte with
/// its top bit set, rotated right.
pub proof fn thumb_immediates(imm12: u32, carry: bool)
    requires
        imm12 < 0x1000,
    ensures
        ({
            let (v, c) = thumb_imm(imm12, carry);
            let b = imm12 % 0x100;
            let form = imm12 / 0x100;
            &&& form == 0 ==> v == b
            &&& form == 1 ==> v == b * 0x1_0001
            &&& form == 2 ==> v == b * 0x100_0100
            &&& form == 3 ==> v == b * 0x101_0101
            &&& form < 4 ==> c == carry
            &&& form >= 4 ==> turned_right(
                (0x80 + imm12 % 0x80) as u32,
                (imm12 / 0x80) as int,
                v,
            ) && c == (v >= 0x8000_0000)
        }),
{
    low_parts(thumb_imm(imm12, carry).0, 0, 0);
    thumb_immediate_fields(imm12);
    rotated((0x80 + imm12 % 0x80) as u32, (imm12 / 0x80) as u32);
}

/// The sign of the low bits of a word, extended, in numbers.
pub proof fn extensions(v: u32)
    ensures
        sext(v & 0xff, 8) == signed8((v % 0x100) as int),
        sext(v & 0xffff, 16) == signed16((v % 0x1_0000) as int),
        (sext(v & 0xff, 8) as u32) == signed8((v % 0x100) as int) % 0x1_0000_0000,
        (sext(v & 0xffff, 16) as u32) == signed16((v % 0x1_0000) as int) % 0x1_0000_0000,
{
    low_parts(v, 0, 0);
    small_extensions(v);
    sign_casts(0, 0, 0, 0, sext(v & 0xff, 8), 0);
    sign_casts(0, 0, 0, 0, sext(v & 0xffff, 16), 0);
}

/// Register fifteen reads two instructions ahead, in either instruction set.
pub proof fn the_program_counter_reads_ahead(s: CpuState, i: usize, pc: u32)
    requires
        s.wf(),
        i < 16,
    ensures
        s.ra(i, pc) == if i == 15 {
            ((pc + 8) % 0x1_0000_0000) as u32
        } else {
            s.regs[i as int]
        },
        s.rt(i, pc) == if i == 15 {
            ((pc + 4) % 0x1_0000_0000) as u32
        } else {
            s.regs[i as int]
        },
{
}

} // verus!
