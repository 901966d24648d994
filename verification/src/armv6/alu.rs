//! Arithmetic of the core instruction set: shifts, sums with flags, immediates,
//! saturation and the parallel lanes.

use super::bits::{group_masks, ror32, rotate_right, sext, sign_extend};
use super::cpu::Cpsr;
use vstd::prelude::*;

verus! {

broadcast use group_masks;

/// A shifted operand and the carry that the shift leaves.
#[derive(Debug, Clone, Copy, PartialEq, Eq, Structural)]
pub struct Shifted {
    pub value: u32,
    pub carry: bool,
}

/// The four shifts of the operand decoder.
#[derive(Debug, Clone, Copy, PartialEq, Eq, Structural)]
pub enum Shift {
    Lsl,
    Lsr,
    Asr,
    Ror,
}

/// The shift that a two-bit field selects.
pub open spec fn shift_kind(value: u32) -> Shift {
    if value == 0 {
        Shift::Lsl
    } else if value == 1 {
        Shift::Lsr
    } else if value == 2 {
        Shift::Asr
    } else {
        Shift::Ror
    }
}

pub(crate) fn decode_arm_shift(value: u32) -> (r: Shift)
    ensures
        r == shift_kind(value),
{
    match value {
        0 => Shift::Lsl,
        1 => Shift::Lsr,
        2 => Shift::Asr,
        _ => Shift::Ror,
    }
}

/// `value` shifted left by `amount`; the carry is the last bit shifted out.
pub open spec fn lsl_c(value: u32, amount: u32, carry_in: bool) -> Shifted {
    if amount == 0 {
        Shifted { value, carry: carry_in }
    } else if amount < 32 {
        Shifted { value: value << amount, carry: value & (1u32 << ((32 - amount) as u32)) != 0 }
    } else {
        Shifted { value: 0, carry: amount == 32 && value & 1 != 0 }
    }
}

/// `value` shifted right by `amount`, zeros coming in.
pub open spec fn lsr_c(value: u32, amount: u32, carry_in: bool) -> Shifted {
    if amount == 0 {
        Shifted { value, carry: carry_in }
    } else if amount < 32 {
        Shifted { value: value >> amount, carry: value & (1u32 << ((amount - 1) as u32)) != 0 }
    } else {
        Shifted { value: 0, carry: amount == 32 && value & 0x8000_0000 != 0 }
    }
}

/// `value` shifted right by `amount`, copies of the sign coming in.
pub open spec fn asr_c(value: u32, amount: u32, carry_in: bool) -> Shifted {
    if amount == 0 {
        Shifted { value, carry: carry_in }
    } else if amount < 32 {
        Shifted {
            value: ((value as i32) >> amount) as u32,
            carry: value & (1u32 << ((amount - 1) as u32)) != 0,
        }
    } else {
        let sign = value & 0x8000_0000 != 0;
        Shifted {
            value: if sign {
                0xffff_ffff
            } else {
                0
            },
            carry: sign,
        }
    }
}

/// `value` rotated right by `amount`; the carry is the new top bit.
pub open spec fn ror_c(value: u32, amount: u32, carry_in: bool) -> Shifted {
    if amount == 0 {
        Shifted { value, carry: carry_in }
    } else {
        let v = ror32(value, amount);
        Shifted { value: v, carry: v & 0x8000_0000 != 0 }
    }
}

/// The 33-bit rotation by one place through the carry.
pub open spec fn rrx(value: u32, carry_in: bool) -> Shifted {
    Shifted {
        value: (if carry_in {
            1u32 << 31
        } else {
            0
        }) | (value >> 1),
        carry: value & 1 != 0,
    }
}

/// The shifter operand. An immediate amount of zero stands for thirty-two in
/// the right shifts and for the rotation through the carry in the rotation.
pub open spec fn shifted(
    value: u32,
    shift: Shift,
    amount: u32,
    carry_in: bool,
    immediate: bool,
) -> Shifted {
    let far: u32 = if immediate && amount == 0 {
        32
    } else {
        amount
    };
    match shift {
        Shift::Lsl => lsl_c(value, amount, carry_in),
        Shift::Lsr => lsr_c(value, far, carry_in),
        Shift::Asr => asr_c(value, far, carry_in),
        Shift::Ror => if immediate && amount == 0 {
            rrx(value, carry_in)
        } else {
            ror_c(value, amount, carry_in)
        },
    }
}

pub(crate) fn shift_operand(
    value: u32,
    shift: Shift,
    amount: u32,
    carry_in: bool,
    immediate: bool,
) -> (r: Shifted)
    ensures
        r == shifted(value, shift, amount, carry_in, immediate),
{
    match shift {
        Shift::Lsl => {
            if amount == 0 {
                Shifted { value, carry: carry_in }
            } else if amount < 32 {
                Shifted { value: value << amount, carry: value & (1u32 << (32 - amount)) != 0 }
            } else if amount == 32 {
                Shifted { value: 0, carry: value & 1 != 0 }
            } else {
                Shifted { value: 0, carry: false }
            }
        },
        Shift::Lsr => {
            let amount: u32 = if immediate && amount == 0 {
                32
            } else {
                amount
            };
            if amount == 0 {
                Shifted { value, carry: carry_in }
            } else if amount < 32 {
                Shifted { value: value >> amount, carry: value & (1u32 << (amount - 1)) != 0 }
            } else if amount == 32 {
                Shifted { value: 0, carry: value & 0x8000_0000 != 0 }
            } else {
                Shifted { value: 0, carry: false }
            }
        },
        Shift::Asr => {
            let amount: u32 = if immediate && amount == 0 {
                32
            } else {
                amount
            };
            if amount == 0 {
                Shifted { value, carry: carry_in }
            } else if amount < 32 {
                Shifted {
                    value: ((value as i32) >> amount) as u32,
                    carry: value & (1u32 << (amount - 1)) != 0,
                }
            } else {
                let carry = value & 0x8000_0000 != 0;
                Shifted {
                    value: if carry {
                        0xffff_ffff
                    } else {
                        0
                    },
                    carry,
                }
            }
        },
        Shift::Ror => {
            if immediate && amount == 0 {
                let top: u32 = if carry_in {
                    1u32 << 31
                } else {
                    0
                };
                Shifted { value: top | (value >> 1), carry: value & 1 != 0 }
            } else if amount == 0 {
                Shifted { value, carry: carry_in }
            } else {
                let value = rotate_right(value, amount);
                Shifted { value, carry: value & 0x8000_0000 != 0 }
            }
        },
    }
}

/// An A32 immediate: eight bits rotated right by twice the four-bit field. An
/// unrotated one leaves the carry alone.
pub open spec fn arm_imm(imm12: u32) -> (u32, Option<bool>) {
    let rot = (((imm12 >> 8) & 0xf) * 2) as u32;
    if rot == 0 {
        (imm12 & 0xff, None)
    } else {
        let v = ror32(imm12 & 0xff, rot);
        (v, Some(v & 0x8000_0000 != 0))
    }
}

pub(crate) fn arm_expand_imm(imm12: u32) -> (r: (u32, Option<bool>))
    ensures
        r == arm_imm(imm12),
{
    let imm8 = imm12 & 0xff;
    let rot = ((imm12 >> 8) & 0xf) * 2;
    if rot == 0 {
        (imm8, None)
    } else {
        let value = rotate_right(imm8, rot);
        (value, Some(value & 0x8000_0000 != 0))
    }
}

/// A Thumb modified immediate: a byte repeated in one of four patterns, or a
/// byte with its top bit set, rotated.
pub open spec fn thumb_imm(imm12: u32, old_carry: bool) -> (u32, bool) {
    if imm12 & 0x0c00 == 0 {
        let b = imm12 & 0xff;
        let form = (imm12 >> 8) & 0x3;
        let v = if form == 0 {
            b
        } else if form == 1 {
            (b << 16) | b
        } else if form == 2 {
            (b << 24) | (b << 8)
        } else {
            (b << 24) | (b << 16) | (b << 8) | b
        };
        (v, old_carry)
    } else {
        let v = ror32(0x80 | (imm12 & 0x7f), (imm12 >> 7) & 0x1f);
        (v, v & 0x8000_0000 != 0)
    }
}

pub(crate) fn thumb_expand_imm(imm12: u32, old_carry: bool) -> (r: (u32, bool))
    ensures
        r == thumb_imm(imm12, old_carry),
{
    if imm12 & 0x0c00 == 0 {
        let imm8 = imm12 & 0xff;
        let value = match (imm12 >> 8) & 0x3 {
            0 => imm8,
            1 => (imm8 << 16) | imm8,
            2 => (imm8 << 24) | (imm8 << 8),
            _ => (imm8 << 24) | (imm8 << 16) | (imm8 << 8) | imm8,
        };
        (value, old_carry)
    } else {
        let unrotated = 0x80 | (imm12 & 0x7f);
        let rotation = (imm12 >> 7) & 0x1f;
        let value = rotate_right(unrotated, rotation);
        (value, value & 0x8000_0000 != 0)
    }
}

/// Whether a condition field holds for the flags.
pub open spec fn holds(cond: u32, c: Cpsr) -> bool {
    if cond == 0x0 {
        c.z
    } else if cond == 0x1 {
        !c.z
    } else if cond == 0x2 {
        c.c
    } else if cond == 0x3 {
        !c.c
    } else if cond == 0x4 {
        c.n
    } else if cond == 0x5 {
        !c.n
    } else if cond == 0x6 {
        c.v
    } else if cond == 0x7 {
        !c.v
    } else if cond == 0x8 {
        c.c && !c.z
    } else if cond == 0x9 {
        !c.c || c.z
    } else if cond == 0xa {
        c.n == c.v
    } else if cond == 0xb {
        c.n != c.v
    } else if cond == 0xc {
        !c.z && c.n == c.v
    } else if cond == 0xd {
        c.z || c.n != c.v
    } else {
        cond == 0xe
    }
}

pub(crate) fn condition_passed(cond: u32, cpsr: Cpsr) -> (r: bool)
    ensures
        r == holds(cond, cpsr),
{
    match cond {
        0x0 => cpsr.z,
        0x1 => !cpsr.z,
        0x2 => cpsr.c,
        0x3 => !cpsr.c,
        0x4 => cpsr.n,
        0x5 => !cpsr.n,
        0x6 => cpsr.v,
        0x7 => !cpsr.v,
        0x8 => cpsr.c && !cpsr.z,
        0x9 => !cpsr.c || cpsr.z,
        0xa => cpsr.n == cpsr.v,
        0xb => cpsr.n != cpsr.v,
        0xc => !cpsr.z && cpsr.n == cpsr.v,
        0xd => cpsr.z || cpsr.n != cpsr.v,
        0xe => true,
        _ => false,
    }
}

/// Of the fourteen conditions that can fail, each odd one is the opposite of
/// the even one before it.
pub proof fn conditions_come_in_opposites(cond: u32, c: Cpsr)
    requires
        cond < 14,
        cond % 2 == 0,
    ensures
        holds(cond, c) == !holds((cond + 1) as u32, c),
{
}

/// The sum of two words and a carry: the low word, whether the unsigned sum
/// leaves 32 bits, and whether the signed sum does.
pub open spec fn sum3(a: u32, b: u32, carry_in: bool) -> (u32, bool, bool) {
    let k: int = if carry_in {
        1
    } else {
        0
    };
    let unsigned = a + b + k;
    let signed = (a as i32) + (b as i32) + k;
    (
        (if unsigned >= 0x1_0000_0000 {
            unsigned - 0x1_0000_0000
        } else {
            unsigned
        }) as u32,
        unsigned >= 0x1_0000_0000,
        signed > i32::MAX || signed < i32::MIN,
    )
}

/// A subtraction is the sum with the complement and a carry.
pub open spec fn diff3(a: u32, b: u32) -> (u32, bool, bool) {
    sum3(a, !b, true)
}

pub(crate) fn add_with_carry(a: u32, b: u32, carry_in: bool) -> (r: (u32, bool, bool))
    ensures
        r == sum3(a, b, carry_in),
{
    let k: u64 = if carry_in {
        1
    } else {
        0
    };
    let unsigned = a as u64 + b as u64 + k;
    let signed = (a as i32) as i64 + (b as i32) as i64 + k as i64;
    let carry = unsigned > 0xffff_ffff;
    let result = if carry {
        (unsigned - 0x1_0000_0000) as u32
    } else {
        unsigned as u32
    };
    let overflow = signed > i32::MAX as i64 || signed < i32::MIN as i64;
    (result, carry, overflow)
}

pub(crate) fn add_with_flags(a: u32, b: u32) -> (r: (u32, bool, bool))
    ensures
        r == sum3(a, b, false),
{
    add_with_carry(a, b, false)
}

pub(crate) fn sub_with_flags(a: u32, b: u32) -> (r: (u32, bool, bool))
    ensures
        r == diff3(a, b),
{
    add_with_carry(a, !b, true)
}

/// A subtraction gives the difference modulo 2^32, its carry says that there
/// was no borrow, and its overflow that the signed difference is out of range.
pub proof fn diff3_is_difference(a: u32, b: u32)
    ensures
        diff3(a, b).0 == a.wrapping_sub(b),
        diff3(a, b).1 == (a >= b),
        diff3(a, b).2 == ((a as i32) - (b as i32) > i32::MAX || (a as i32) - (b as i32) < i32::MIN),
{
    assert(!b == 0xffff_ffff - b && (!b) as i32 == -1 - (b as i32)) by (bit_vector);
}

/// `v` moved into `lo..=hi`.
pub open spec fn clamp(v: int, lo: int, hi: int) -> int {
    if v < lo {
        lo
    } else if v > hi {
        hi
    } else {
        v
    }
}

/// Whether a number fits a signed word.
pub open spec fn fits_i32(v: int) -> bool {
    i32::MIN <= v <= i32::MAX
}

/// The nearest signed word.
pub open spec fn sat32(v: int) -> i32 {
    clamp(v, i32::MIN as int, i32::MAX as int) as i32
}

pub(crate) fn saturating_add_i32(a: i32, b: i32, cpsr: &mut Cpsr) -> (r: i32)
    ensures
        r == sat32(a + b),
        *final(cpsr) == old(cpsr).sticky(!fits_i32(a + b)),
{
    let wide = a as i64 + b as i64;
    if wide > i32::MAX as i64 {
        cpsr.q = true;
        i32::MAX
    } else if wide < i32::MIN as i64 {
        cpsr.q = true;
        i32::MIN
    } else {
        wide as i32
    }
}

pub(crate) fn saturating_sub_i32(a: i32, b: i32, cpsr: &mut Cpsr) -> (r: i32)
    ensures
        r == sat32(a - b),
        *final(cpsr) == old(cpsr).sticky(!fits_i32(a - b)),
{
    let wide = a as i64 - b as i64;
    if wide > i32::MAX as i64 {
        cpsr.q = true;
        i32::MAX
    } else if wide < i32::MIN as i64 {
        cpsr.q = true;
        i32::MIN
    } else {
        wide as i32
    }
}

/// The largest value of `bits` signed bits.
pub open spec fn signed_max(bits: u32) -> int {
    (1i64 << ((bits - 1) as u32)) - 1
}

/// The largest value of `bits` unsigned bits.
pub open spec fn unsigned_max(bits: u32) -> int {
    (1i64 << bits) - 1
}

pub(crate) proof fn one_shifted(bits: u32)
    requires
        bits < 32,
    ensures
        1 <= (1i64 << bits) <= 0x8000_0000,
        (1i64 << bits) == (1u64 << bits),
{
    assert(1 <= (1i64 << bits) && (1i64 << bits) <= 0x8000_0000 && (1i64 << bits) == (1u64 << bits)) by (bit_vector)
        requires
            bits < 32,
    ;
}

/// `value` moved into `bits` signed bits.
pub open spec fn sat_signed(value: i32, bits: u32) -> i32 {
    clamp(value as int, -signed_max(bits) - 1, signed_max(bits)) as i32
}

/// `value` moved into `bits` unsigned bits.
pub open spec fn sat_unsigned(value: i32, bits: u32) -> u32 {
    clamp(value as int, 0, unsigned_max(bits)) as u32
}

pub(crate) fn saturate_i32(value: i32, bits: u32, cpsr: &mut Cpsr) -> (r: i32)
    requires
        1 <= bits <= 32,
    ensures
        r == sat_signed(value, bits),
        *final(cpsr) == old(cpsr).sticky(sat_signed(value, bits) != value),
{
    proof {
        one_shifted((bits - 1) as u32);
    }
    let max = (1i64 << (bits - 1)) - 1;
    let min = -(1i64 << (bits - 1));
    let wide = value as i64;
    if wide > max {
        cpsr.q = true;
        max as i32
    } else if wide < min {
        cpsr.q = true;
        min as i32
    } else {
        value
    }
}

pub(crate) fn saturate_u32(value: i32, bits: u32, cpsr: &mut Cpsr) -> (r: u32)
    requires
        bits < 32,
    ensures
        r == sat_unsigned(value, bits),
        *final(cpsr) == old(cpsr).sticky(sat_unsigned(value, bits) != value),
{
    proof {
        one_shifted(bits);
    }
    let max = (1i64 << bits) - 1;
    if value < 0 {
        cpsr.q = true;
        0
    } else if value as i64 > max {
        cpsr.q = true;
        max as u32
    } else {
        value as u32
    }
}

/// Two byte lanes of `rotated` extended and added to the halves of `base`.
pub open spec fn extend16(base: u32, rotated: u32, signed: bool) -> u32 {
    let low = if signed {
        sext(rotated & 0xff, 8) as u32
    } else {
        rotated & 0xff
    };
    let high = if signed {
        sext((rotated >> 16) & 0xff, 8) as u32
    } else {
        (rotated >> 16) & 0xff
    };
    (((base >> 16).wrapping_add(high) & 0xffff) << 16) | (base.wrapping_add(low) & 0xffff)
}

pub(crate) fn extend_add_16(base: u32, rotated: u32, signed: bool) -> (r: u32)
    ensures
        r == extend16(base, rotated, signed),
{
    let low = if signed {
        sign_extend(rotated & 0xff, 8) as u32
    } else {
        rotated & 0xff
    };
    let high = if signed {
        sign_extend((rotated >> 16) & 0xff, 8) as u32
    } else {
        (rotated >> 16) & 0xff
    };
    let low = base.wrapping_add(low) & 0xffff;
    let high = ((base >> 16).wrapping_add(high) & 0xffff) << 16;
    high | low
}

/// A halfword lane as a number.
pub open spec fn lane16(x: u16, unsigned: bool) -> int {
    if unsigned {
        x as int
    } else {
        (x as i16) as int
    }
}

/// A byte lane as a number.
pub open spec fn lane8(x: u8, unsigned: bool) -> int {
    if unsigned {
        x as int
    } else {
        (x as i8) as int
    }
}

/// The sum or difference of two lanes.
pub open spec fn lane_sum(a: int, b: int, plus: bool) -> int {
    if plus {
        a + b
    } else {
        a - b
    }
}

/// One halfword lane of a parallel addition or subtraction.
pub open spec fn par16(a: u16, b: u16, plus: bool, unsigned: bool, sat: bool, half: bool) -> u16 {
    let v = lane_sum(lane16(a, unsigned), lane16(b, unsigned), plus);
    if sat {
        (if unsigned {
            clamp(v, 0, 0xffff)
        } else {
            clamp(v, -0x8000, 0x7fff)
        } as i32) as u16
    } else if half {
        ((v as i32) >> 1) as u16
    } else {
        (v as i32) as u16
    }
}

/// One byte lane of a parallel addition or subtraction.
pub open spec fn par8(a: u8, b: u8, plus: bool, unsigned: bool, sat: bool, half: bool) -> u8 {
    let v = lane_sum(lane8(a, unsigned), lane8(b, unsigned), plus);
    if sat {
        (if unsigned {
            clamp(v, 0, 0xff)
        } else {
            clamp(v, -0x80, 0x7f)
        } as i32) as u8
    } else if half {
        ((v as i32) >> 1) as u8
    } else {
        (v as i32) as u8
    }
}

/// The GE flag of a halfword lane: carry or no borrow when unsigned, a result
/// of at least zero when signed.
pub open spec fn ge16(a: u16, b: u16, plus: bool, unsigned: bool) -> bool {
    let v = lane_sum(lane16(a, unsigned), lane16(b, unsigned), plus);
    if unsigned && plus {
        v >= 0x1_0000
    } else {
        v >= 0
    }
}

/// The GE flag of a byte lane.
pub open spec fn ge8(a: u8, b: u8, plus: bool, unsigned: bool) -> bool {
    let v = lane_sum(lane8(a, unsigned), lane8(b, unsigned), plus);
    if unsigned && plus {
        v >= 0x100
    } else {
        v >= 0
    }
}

fn clamp_i32(v: i32, lo: i32, hi: i32) -> (r: i32)
    ensures
        r == clamp(v as int, lo as int, hi as int),
{
    if v < lo {
        lo
    } else if v > hi {
        hi
    } else {
        v
    }
}

fn sum16(a: u16, b: u16, plus: bool, unsigned: bool) -> (r: i32)
    ensures
        r == lane_sum(lane16(a, unsigned), lane16(b, unsigned), plus),
{
    let (av, bv) = if unsigned {
        (a as i32, b as i32)
    } else {
        (a as i16 as i32, b as i16 as i32)
    };
    if plus {
        av + bv
    } else {
        av - bv
    }
}

fn sum8(a: u8, b: u8, plus: bool, unsigned: bool) -> (r: i32)
    ensures
        r == lane_sum(lane8(a, unsigned), lane8(b, unsigned), plus),
{
    let (av, bv) = if unsigned {
        (a as i32, b as i32)
    } else {
        (a as i8 as i32, b as i8 as i32)
    };
    if plus {
        av + bv
    } else {
        av - bv
    }
}

pub(crate) fn parallel_lane16(
    a: u16,
    b: u16,
    plus: bool,
    unsigned: bool,
    saturating: bool,
    halving: bool,
) -> (r: u16)
    ensures
        r == par16(a, b, plus, unsigned, saturating, halving),
{
    let value = sum16(a, b, plus, unsigned);
    if saturating {
        (if unsigned {
            clamp_i32(value, 0, 0xffff)
        } else {
            clamp_i32(value, -0x8000, 0x7fff)
        }) as u16
    } else if halving {
        (value >> 1) as u16
    } else {
        value as u16
    }
}

pub(crate) fn parallel_lane8(
    a: u8,
    b: u8,
    plus: bool,
    unsigned: bool,
    saturating: bool,
    halving: bool,
) -> (r: u8)
    ensures
        r == par8(a, b, plus, unsigned, saturating, halving),
{
    let value = sum8(a, b, plus, unsigned);
    if saturating {
        (if unsigned {
            clamp_i32(value, 0, 0xff)
        } else {
            clamp_i32(value, -0x80, 0x7f)
        }) as u8
    } else if halving {
        (value >> 1) as u8
    } else {
        value as u8
    }
}

pub(crate) fn parallel_ge16(a: u16, b: u16, plus: bool, unsigned: bool) -> (r: bool)
    ensures
        r == ge16(a, b, plus, unsigned),
{
    let value = sum16(a, b, plus, unsigned);
    if unsigned && plus {
        value >= 0x1_0000
    } else {
        value >= 0
    }
}

pub(crate) fn parallel_ge8(a: u8, b: u8, plus: bool, unsigned: bool) -> (r: bool)
    ensures
        r == ge8(a, b, plus, unsigned),
{
    let value = sum8(a, b, plus, unsigned);
    if unsigned && plus {
        value >= 0x100
    } else {
        value >= 0
    }
}

/// One half of a word as a signed number.
pub open spec fn half(value: u32, top: bool) -> i16 {
    if top {
        ((value >> 16) as u16) as i16
    } else {
        (value as u16) as i16
    }
}

pub(crate) fn select_i16(value: u32, top: bool) -> (r: i16)
    ensures
        r == half(value, top),
{
    if top {
        (value >> 16) as u16 as i16
    } else {
        value as u16 as i16
    }
}

/// The product of two signed halfwords fits a word with room to spare.
pub proof fn half_product_bounds(a: i16, b: i16)
    ensures
        -0x4000_0000 <= a * b <= 0x4000_0000,
{
    assert(-0x4000_0000 <= a * b <= 0x4000_0000) by (nonlinear_arith)
        requires
            -0x8000 <= a <= 0x7fff,
            -0x8000 <= b <= 0x7fff,
    ;
}

/// The product of a signed word and a signed halfword.
pub proof fn word_half_product_bounds(a: i32, b: i16)
    ensures
        -0x4000_0000_0000 <= a * b <= 0x4000_0000_0000,
{
    assert(-0x4000_0000_0000 <= a * b <= 0x4000_0000_0000) by (nonlinear_arith)
        requires
            -0x8000_0000 <= a <= 0x7fff_ffff,
            -0x8000 <= b <= 0x7fff,
    ;
}

/// The product of two signed words.
pub proof fn word_product_bounds(a: i32, b: i32)
    ensures
        -0x4000_0000_0000_0000 <= a * b <= 0x4000_0000_0000_0000,
{
    assert(-0x4000_0000_0000_0000 <= a * b <= 0x4000_0000_0000_0000) by (nonlinear_arith)
        requires
            -0x8000_0000 <= a <= 0x7fff_ffff,
            -0x8000_0000 <= b <= 0x7fff_ffff,
    ;
}

/// The product of two words.
pub proof fn unsigned_product_bounds(a: u32, b: u32)
    ensures
        0 <= a * b <= 0xffff_fffe_0000_0001,
{
    assert(0 <= a * b <= 0xffff_fffe_0000_0001) by (nonlinear_arith)
        requires
            0 <= a <= 0xffff_ffff,
            0 <= b <= 0xffff_ffff,
    ;
}

/// The two products of a dual multiplication: low halves and high halves, the
/// halves of the second operand swapped on request.
pub open spec fn dual(rn: u32, rm: u32, swap: bool) -> (int, int) {
    (half(rn, false) * half(rm, swap), half(rn, true) * half(rm, !swap))
}

pub(crate) fn signed_dual_products(rn: u32, rm: u32, exchange_rm: bool) -> (r: (i32, i32))
    ensures
        (r.0 as int, r.1 as int) == dual(rn, rm, exchange_rm),
        -0x4000_0000 <= r.0 <= 0x4000_0000,
        -0x4000_0000 <= r.1 <= 0x4000_0000,
{
    let rn_lo = select_i16(rn, false);
    let rn_hi = select_i16(rn, true);
    let rm_lo = select_i16(rm, exchange_rm);
    let rm_hi = select_i16(rm, !exchange_rm);
    proof {
        half_product_bounds(rn_lo, rm_lo);
        half_product_bounds(rn_hi, rm_hi);
    }
    (rn_lo as i32 * rm_lo as i32, rn_hi as i32 * rm_hi as i32)
}

/// The high word of a 64-bit value, rounded to nearest on request.
pub open spec fn high_word(value: i64, round: bool) -> u32 {
    ((if round {
        value.wrapping_add(0x8000_0000)
    } else {
        value
    }) >> 32) as u32
}

pub(crate) fn signed_high_word(value: i64, round: bool) -> (r: u32)
    ensures
        r == high_word(value, round),
{
    let value = if round {
        value.wrapping_add(0x8000_0000)
    } else {
        value
    };
    (value >> 32) as u32
}

/// Two words as one doubleword.
pub open spec fn pair64(hi: u32, lo: u32) -> u64 {
    ((hi as u64) << 32) | (lo as u64)
}

/// The distance between two bytes.
pub open spec fn byte_distance(a: u32, b: u32, shift: u32) -> int {
    let x = (a >> shift) & 0xff;
    let y = (b >> shift) & 0xff;
    if x >= y {
        x - y
    } else {
        y - x
    }
}

/// The sum of the distances of the four byte lanes.
pub open spec fn byte_distances(a: u32, b: u32) -> int {
    byte_distance(a, b, 0) + byte_distance(a, b, 8) + byte_distance(a, b, 16) + byte_distance(
        a,
        b,
        24,
    )
}

fn one_byte_distance(a: u32, b: u32, shift: u32) -> (r: u32)
    requires
        shift < 32,
    ensures
        r == byte_distance(a, b, shift),
        r <= 255,
{
    let x = (a >> shift) & 0xff;
    let y = (b >> shift) & 0xff;
    if x >= y {
        x - y
    } else {
        y - x
    }
}

pub(crate) fn sum_of_distances(a: u32, b: u32) -> (r: u32)
    ensures
        r == byte_distances(a, b),
        r <= 1020,
{
    one_byte_distance(a, b, 0) + one_byte_distance(a, b, 8) + one_byte_distance(a, b, 16)
        + one_byte_distance(a, b, 24)
}

/// Whether an A32 word is one of the later encodings that this machine leaves
/// undefined wherever it does not handle them itself.
pub open spec fn newer_encoding(instr: u32) -> bool {
    ||| instr & 0x0fe0_007f == 0x07c0_001f
    ||| instr & 0x0fe0_0070 == 0x07c0_0010
    ||| instr & 0x0ff0_0000 == 0x0340_0000
    ||| instr & 0x0ff0_0000 == 0x0300_0000
    ||| instr & 0x0fe0_0070 == 0x07a0_0050
    ||| instr & 0x0fe0_0070 == 0x07e0_0050
    ||| instr & 0x0fff_0ff0 == 0x06ff_0f30
    ||| instr & 0x0ff0_f0f0 == 0x0710_f010
    ||| instr & 0x0ff0_f0f0 == 0x0730_f010
}

pub(crate) fn is_unsupported_a32_newer_than_armv6(instr: u32) -> (r: bool)
    ensures
        r == newer_encoding(instr),
{
    instr & 0x0fe0_007f == 0x07c0_001f || instr & 0x0fe0_0070 == 0x07c0_0010 || instr
        & 0x0ff0_0000 == 0x0340_0000 || instr & 0x0ff0_0000 == 0x0300_0000 || instr & 0x0fe0_0070
        == 0x07a0_0050 || instr & 0x0fe0_0070 == 0x07e0_0050 || instr & 0x0fff_0ff0 == 0x06ff_0f30
        || instr & 0x0ff0_f0f0 == 0x0710_f010 || instr & 0x0ff0_f0f0 == 0x0730_f010
}

/// Whether a Thumb halfword opens a 32-bit instruction.
pub open spec fn wide_prefix(instr: u16) -> bool {
    instr & 0xf800 == 0xe800 || instr & 0xf800 == 0xf000 || instr & 0xf800 == 0xf800
}

pub(crate) fn thumb_is_32bit_prefix(instr: u16) -> (r: bool)
    ensures
        r == wide_prefix(instr),
{
    let top = instr & 0xf800;
    top == 0xe800 || top == 0xf000 || top == 0xf800
}

} // verus!
