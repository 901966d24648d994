//! Arithmetic on single vector elements.

use super::alu::clamp;
use super::bits::{bit, group_masks};
use super::neon_lane::{elem_bits, elem_mask, neon_elem_bits, neon_elem_mask};
use vstd::prelude::*;

verus! {

broadcast use group_masks;

/// An element as a signed number.
pub open spec fn sx(v: u64, size: usize) -> i64 {
    if size == 0 {
        ((v as u8) as i8) as i64
    } else if size == 1 {
        ((v as u16) as i16) as i64
    } else if size == 2 {
        ((v as u32) as i32) as i64
    } else {
        v as i64
    }
}

/// The largest signed element.
pub open spec fn smax(size: usize) -> int {
    if size == 0 {
        0x7f
    } else if size == 1 {
        0x7fff
    } else if size == 2 {
        0x7fff_ffff
    } else {
        0x7fff_ffff_ffff_ffff
    }
}

/// The smallest signed element.
pub open spec fn smin(size: usize) -> int {
    -smax(size) - 1
}

fn signed_max(size: usize) -> (r: i128)
    ensures
        r == smax(size),
{
    match size {
        0 => 0x7f,
        1 => 0x7fff,
        2 => 0x7fff_ffff,
        _ => 0x7fff_ffff_ffff_ffff,
    }
}

/// A signed number as the bits of an element.
pub open spec fn to_elem(v: int, size: usize) -> u64 {
    ((v as i64) as u64) & elem_mask(size)
}

pub(crate) fn neon_sign_extend(v: u64, size: usize) -> (r: i64)
    ensures
        r == sx(v, size),
        size <= 3 ==> smin(size) <= r <= smax(size),
{
    match size {
        0 => v as u8 as i8 as i64,
        1 => v as u16 as i16 as i64,
        2 => v as u32 as i32 as i64,
        _ => v as i64,
    }
}

/// A number moved into the signed range of an element, and whether it moved.
pub open spec fn sat_elem(v: int, size: usize) -> (u64, bool) {
    (to_elem(clamp(v, smin(size), smax(size)), size), v < smin(size) || v > smax(size))
}

/// A number moved into the unsigned range of an element, and whether it moved.
pub open spec fn usat_elem(v: int, size: usize) -> (u64, bool) {
    (clamp(v, 0, elem_mask(size) as int) as u64, v < 0 || v > elem_mask(size))
}

fn saturate_elem(v: i128, size: usize) -> (r: (u64, bool))
    ensures
        r == sat_elem(v as int, size),
{
    let max = signed_max(size);
    let min = -max - 1;
    let mask = neon_elem_mask(size);
    if v < min {
        (((min as i64) as u64) & mask, true)
    } else if v > max {
        (((max as i64) as u64) & mask, true)
    } else {
        (((v as i64) as u64) & mask, false)
    }
}

fn saturate_unsigned_elem(v: i128, size: usize) -> (r: (u64, bool))
    ensures
        r == usat_elem(v as int, size),
{
    let mask = neon_elem_mask(size);
    if v < 0 {
        (0, true)
    } else if v > mask as i128 {
        (mask, true)
    } else {
        (v as u64, false)
    }
}

/// A saturating sum.
pub open spec fn qadd(a: u64, b: u64, size: usize, signed: bool) -> (u64, bool) {
    if signed {
        sat_elem(sx(a, size) + sx(b, size), size)
    } else {
        usat_elem(a + b, size)
    }
}

pub(crate) fn neon_saturating_add(a: u64, b: u64, size: usize, signed: bool) -> (r: (u64, bool))
    ensures
        r == qadd(a, b, size, signed),
{
    if signed {
        saturate_elem(neon_sign_extend(a, size) as i128 + neon_sign_extend(b, size) as i128, size)
    } else {
        saturate_unsigned_elem(a as i128 + b as i128, size)
    }
}

/// A saturating difference.
pub open spec fn qsub(a: u64, b: u64, size: usize, signed: bool) -> (u64, bool) {
    if signed {
        sat_elem(sx(a, size) - sx(b, size), size)
    } else {
        usat_elem(a - b, size)
    }
}

pub(crate) fn neon_saturating_sub(a: u64, b: u64, size: usize, signed: bool) -> (r: (u64, bool))
    ensures
        r == qsub(a, b, size, signed),
{
    if signed {
        saturate_elem(neon_sign_extend(a, size) as i128 - neon_sign_extend(b, size) as i128, size)
    } else {
        saturate_unsigned_elem(a as i128 - b as i128, size)
    }
}

/// The doubled product's high half, rounded on request.
pub open spec fn qdmulh(a: u64, b: u64, size: usize, rounding: bool) -> (u64, bool) {
    let round = if rounding {
        smax(size) + 1
    } else {
        0
    };
    let wide = (sx(a, size) * sx(b, size) * 2 + round) as i128;
    sat_elem((wide >> elem_bits(size)) as int, size)
}

pub proof fn word_products(a: int, b: int)
    requires
        -0x8000_0000 <= a <= 0x7fff_ffff,
        -0x8000_0000 <= b <= 0x7fff_ffff,
    ensures
        -0x4000_0000_0000_0000 <= a * b <= 0x4000_0000_0000_0000,
{
    assert(-0x4000_0000_0000_0000 <= a * b <= 0x4000_0000_0000_0000) by (nonlinear_arith)
        requires
            -0x8000_0000 <= a <= 0x7fff_ffff,
            -0x8000_0000 <= b <= 0x7fff_ffff,
    ;
}

pub(crate) fn neon_saturating_doubling_mul_high(
    a: u64,
    b: u64,
    size: usize,
    rounding: bool,
) -> (r: (u64, bool))
    requires
        size <= 2,
    ensures
        r == qdmulh(a, b, size, rounding),
{
    let av = neon_sign_extend(a, size) as i128;
    let bv = neon_sign_extend(b, size) as i128;
    proof {
        word_products(av as int, bv as int);
    }
    let round: i128 = if rounding {
        signed_max(size) + 1
    } else {
        0
    };
    saturate_elem((av * bv * 2 + round) >> neon_elem_bits(size), size)
}

/// The doubled product at twice the width.
pub open spec fn qdmull(a: u64, b: u64, size: usize) -> (u64, bool) {
    sat_elem(sx(a, size) * sx(b, size) * 2, (size + 1) as usize)
}

pub(crate) fn neon_saturating_doubling_mul_long(a: u64, b: u64, size: usize) -> (r: (u64, bool))
    requires
        size <= 2,
    ensures
        r == qdmull(a, b, size),
{
    let av = neon_sign_extend(a, size) as i128;
    let bv = neon_sign_extend(b, size) as i128;
    proof {
        word_products(av as int, bv as int);
    }
    saturate_elem(av * bv * 2, size + 1)
}

/// A saturating sum or difference of signed elements.
pub open spec fn qaddsub(a: u64, b: u64, size: usize, subtract: bool) -> (u64, bool) {
    if subtract {
        qsub(a, b, size, true)
    } else {
        qadd(a, b, size, true)
    }
}

pub(crate) fn neon_saturating_add_sub_wide(a: u64, b: u64, size: usize, subtract: bool) -> (r: (
    u64,
    bool,
))
    ensures
        r == qaddsub(a, b, size, subtract),
{
    if subtract {
        neon_saturating_sub(a, b, size, true)
    } else {
        neon_saturating_add(a, b, size, true)
    }
}

/// A right shift by `amount`, rounded to nearest on request. A signed element
/// shifted by more than its width leaves only its sign, an unsigned one
/// nothing.
pub open spec fn shr(v: u64, amount: u32, size: usize, signed: bool, rounding: bool) -> u64 {
    let bits = elem_bits(size);
    let mask = elem_mask(size);
    if amount == 0 {
        v & mask
    } else if signed {
        let input = sx(v, size) as i128;
        if amount > bits {
            if input < 0 {
                mask
            } else {
                0
            }
        } else {
            let round = if rounding {
                1i128 << ((amount - 1) as u32)
            } else {
                0
            };
            (((input + round) as i128 >> amount) as i64) as u64 & mask
        }
    } else if amount > bits {
        0
    } else if amount == bits {
        if rounding {
            (v >> ((bits - 1) as u32)) & 1
        } else {
            0
        }
    } else {
        let rounded = if rounding {
            v.wrapping_add(1u64 << ((amount - 1) as u32))
        } else {
            v
        };
        (rounded >> amount) & mask
    }
}

proof fn one_shifted(k: u32)
    requires
        k < 64,
    ensures
        0 < (1i128 << k) <= 0x8000_0000_0000_0000,
{
    assert(0 < (1i128 << k) && (1i128 << k) <= 0x8000_0000_0000_0000) by (bit_vector)
        requires
            k < 64,
    ;
}

pub(crate) fn neon_shift_right(v: u64, amount: u32, size: usize, signed: bool, rounding: bool) -> (r:
    u64)
    ensures
        r == shr(v, amount, size, signed, rounding),
{
    let bits = neon_elem_bits(size);
    let mask = neon_elem_mask(size);
    if amount == 0 {
        return v & mask;
    }
    if signed {
        let input = neon_sign_extend(v, size) as i128;
        if amount > bits {
            return if input < 0 {
                mask
            } else {
                0
            };
        }
        proof {
            one_shifted((amount - 1) as u32);
        }
        let rounded = if rounding {
            input + (1i128 << (amount - 1))
        } else {
            input
        };
        ((rounded >> amount) as i64 as u64) & mask
    } else if amount > bits {
        0
    } else if amount == bits {
        if rounding {
            (v >> (bits - 1)) & 1
        } else {
            0
        }
    } else {
        let rounded = if rounding {
            v.wrapping_add(1u64 << (amount - 1))
        } else {
            v
        };
        (rounded >> amount) & mask
    }
}

/// A left shift by a positive amount that saturates.
pub open spec fn qshl(v: u64, amount: u32, size: usize, signed: bool) -> (u64, bool) {
    let bits = elem_bits(size);
    if signed {
        let input = sx(v, size) as i128;
        if amount < bits {
            sat_elem((input << amount) as int, size)
        } else if input == 0 {
            (0, false)
        } else if input > 0 {
            (to_elem(smax(size), size), true)
        } else {
            (to_elem(smin(size), size), true)
        }
    } else {
        let input = (v & elem_mask(size)) as i128;
        if amount < bits {
            usat_elem((input << amount) as int, size)
        } else {
            (
                if input == 0 {
                    0
                } else {
                    elem_mask(size)
                },
                input != 0,
            )
        }
    }
}

/// A shift by a signed amount: left when positive, right when negative.
pub open spec fn shift_by(
    v: u64,
    shift: i64,
    size: usize,
    signed: bool,
    saturating: bool,
    rounding: bool,
) -> (u64, bool) {
    let mask = elem_mask(size);
    if shift == 0 {
        (v & mask, false)
    } else if shift < 0 {
        (
            shr(
                v,
                if shift < -255 {
                    255
                } else {
                    (-shift) as u32
                },
                size,
                signed,
                rounding,
            ),
            false,
        )
    } else {
        let amount = if shift > 255 {
            255
        } else {
            shift as u32
        };
        if saturating {
            qshl(v, amount, size, signed)
        } else if amount >= elem_bits(size) {
            (0, false)
        } else {
            ((v << amount) & mask, false)
        }
    }
}

fn saturating_shift_left(v: u64, amount: u32, size: usize, signed: bool) -> (r: (u64, bool))
    ensures
        r == qshl(v, amount, size, signed),
{
    let bits = neon_elem_bits(size);
    let mask = neon_elem_mask(size);
    if signed {
        let input = neon_sign_extend(v, size) as i128;
        if amount < bits {
            saturate_elem(input << amount, size)
        } else if input == 0 {
            (0, false)
        } else {
            let max = signed_max(size);
            let edge = if input > 0 {
                max
            } else {
                -max - 1
            };
            ((edge as i64 as u64) & mask, true)
        }
    } else {
        let input = (v & mask) as i128;
        if amount < bits {
            saturate_unsigned_elem(input << amount, size)
        } else if input == 0 {
            (0, false)
        } else {
            (mask, true)
        }
    }
}

pub(crate) fn neon_variable_shift(
    v: u64,
    shift: i64,
    size: usize,
    signed: bool,
    saturating: bool,
    rounding: bool,
) -> (r: (u64, bool))
    ensures
        r == shift_by(v, shift, size, signed, saturating, rounding),
{
    let bits = neon_elem_bits(size);
    let mask = neon_elem_mask(size);
    if shift == 0 {
        return (v & mask, false);
    }
    if shift < 0 {
        let amount: u32 = if shift < -255 {
            255
        } else {
            (-shift) as u32
        };
        return (neon_shift_right(v, amount, size, signed, rounding), false);
    }
    let amount: u32 = if shift > 255 {
        255
    } else {
        shift as u32
    };
    if saturating {
        saturating_shift_left(v, amount, size, signed)
    } else if amount >= bits {
        (0, false)
    } else {
        ((v << amount) & mask, false)
    }
}

/// A signed element shifted left into the unsigned range.
pub open spec fn qshlu(v: u64, size: usize, shift: u32) -> (u64, bool) {
    let input = sx(v, size) as i128;
    if input < 0 {
        (0, true)
    } else if shift < elem_bits(size) {
        usat_elem((input << shift) as int, size)
    } else {
        (
            if input == 0 {
                0
            } else {
                elem_mask(size)
            },
            input != 0,
        )
    }
}

pub(crate) fn neon_qshlu_immediate(v: u64, size: usize, shift: u32) -> (r: (u64, bool))
    ensures
        r == qshlu(v, size, shift),
{
    let input = neon_sign_extend(v, size) as i128;
    if input < 0 {
        (0, true)
    } else if shift < neon_elem_bits(size) {
        saturate_unsigned_elem(input << shift, size)
    } else if input == 0 {
        (0, false)
    } else {
        (neon_elem_mask(size), true)
    }
}

/// A wide element narrowed to the unsigned range.
pub open spec fn qmovun(v: u64, size: usize, signed_input: bool) -> (u64, bool) {
    usat_elem(
        if signed_input {
            sx(v, (size + 1) as usize) as int
        } else {
            v as int
        },
        size,
    )
}

pub(crate) fn neon_saturating_narrow_to_unsigned(v: u64, size: usize, signed_input: bool) -> (r: (
    u64,
    bool,
))
    requires
        size <= 2,
    ensures
        r == qmovun(v, size, signed_input),
{
    saturate_unsigned_elem(
        if signed_input {
            neon_sign_extend(v, size + 1) as i128
        } else {
            v as i128
        },
        size,
    )
}

/// A wide signed element narrowed to the signed range.
pub open spec fn qmovn(v: u64, size: usize) -> (u64, bool) {
    sat_elem(sx(v, (size + 1) as usize) as int, size)
}

pub(crate) fn neon_saturating_narrow_to_signed(v: u64, size: usize) -> (r: (u64, bool))
    requires
        size <= 2,
    ensures
        r == qmovn(v, size),
{
    saturate_elem(neon_sign_extend(v, size + 1) as i128, size)
}

/// A wide unsigned element narrowed to the signed range.
pub open spec fn qmovn_unsigned(v: u64, size: usize) -> (u64, bool) {
    let raw = v & elem_mask((size + 1) as usize);
    (
        (if raw > smax(size) {
            smax(size)
        } else {
            raw as int
        }) as u64,
        raw > smax(size),
    )
}

pub(crate) fn neon_saturating_narrow_unsigned_to_signed(v: u64, size: usize) -> (r: (u64, bool))
    requires
        size <= 2,
    ensures
        r == qmovn_unsigned(v, size),
{
    let raw = (v & neon_elem_mask(size + 1)) as i128;
    let max = signed_max(size);
    if raw > max {
        (max as u64, true)
    } else {
        (raw as u64, false)
    }
}

/// An element extended to twice its width.
pub open spec fn widen(v: u64, size: usize, signed: bool) -> u64 {
    if signed {
        (sx(v, size) as u64) & elem_mask((size + 1) as usize)
    } else {
        v & elem_mask(size)
    }
}

pub(crate) fn neon_extend_elem(v: u64, size: usize, signed: bool) -> (r: u64)
    requires
        size <= 2,
    ensures
        r == widen(v, size, signed),
{
    if signed {
        (neon_sign_extend(v, size) as u64) & neon_elem_mask(size + 1)
    } else {
        v & neon_elem_mask(size)
    }
}

/// The product of two elements at twice their width.
pub open spec fn mull(a: u64, b: u64, size: usize, signed: bool) -> u64 {
    let mask = elem_mask((size + 1) as usize);
    if signed {
        ((sx(a, size) * sx(b, size)) as i64) as u64 & mask
    } else {
        (((a & elem_mask(size)) * (b & elem_mask(size))) as u64) & mask
    }
}

pub(crate) fn neon_multiply_long(a: u64, b: u64, size: usize, signed: bool) -> (r: u64)
    requires
        size <= 2,
    ensures
        r == mull(a, b, size, signed),
{
    let mask = neon_elem_mask(size + 1);
    if signed {
        let x = neon_sign_extend(a, size);
        let y = neon_sign_extend(b, size);
        proof {
            word_products(x as int, y as int);
        }
        ((x * y) as u64) & mask
    } else {
        let x = a & neon_elem_mask(size);
        let y = b & neon_elem_mask(size);
        assert(x * y <= 0xffff_fffe_0000_0001) by (nonlinear_arith)
            requires
                0 <= x <= 0xffff_ffff,
                0 <= y <= 0xffff_ffff,
        ;
        (x * y) & mask
    }
}

/// The distance between two elements as numbers.
pub open spec fn distance(a: int, b: int) -> int {
    if a >= b {
        a - b
    } else {
        b - a
    }
}

/// The absolute difference of two elements, at their own width.
pub open spec fn abd(a: u64, b: u64, size: usize, signed: bool) -> u64 {
    (if signed {
        distance(sx(a, size) as int, sx(b, size) as int)
    } else {
        distance(a as int, b as int)
    } as u64) & elem_mask(size)
}

pub(crate) fn neon_abs_diff(a: u64, b: u64, size: usize, signed: bool) -> (r: u64)
    ensures
        r == abd(a, b, size, signed),
{
    let mask = neon_elem_mask(size);
    if signed {
        let x = neon_sign_extend(a, size) as i128;
        let y = neon_sign_extend(b, size) as i128;
        let d = if x >= y {
            x - y
        } else {
            y - x
        };
        (d as u64) & mask
    } else {
        let d = if a >= b {
            a - b
        } else {
            b - a
        };
        d & mask
    }
}

/// The absolute difference of two elements at twice their width.
pub open spec fn abdl(a: u64, b: u64, size: usize, signed: bool) -> u64 {
    (if signed {
        distance(sx(a, size) as int, sx(b, size) as int)
    } else {
        distance((a & elem_mask(size)) as int, (b & elem_mask(size)) as int)
    } as u64) & elem_mask((size + 1) as usize)
}

pub(crate) fn neon_abs_diff_long(a: u64, b: u64, size: usize, signed: bool) -> (r: u64)
    requires
        size <= 2,
    ensures
        r == abdl(a, b, size, signed),
{
    let mask = neon_elem_mask(size + 1);
    let (x, y) = if signed {
        (neon_sign_extend(a, size) as i128, neon_sign_extend(b, size) as i128)
    } else {
        ((a & neon_elem_mask(size)) as i128, (b & neon_elem_mask(size)) as i128)
    };
    let d = if x >= y {
        x - y
    } else {
        y - x
    };
    (d as u64) & mask
}

/// Half the sum of two elements, rounded down, or up on request.
pub open spec fn hadd(a: u64, b: u64, size: usize, signed: bool, rounding: bool) -> u64 {
    let round: int = if rounding {
        1
    } else {
        0
    };
    if signed {
        (((sx(a, size) + sx(b, size) + round) as i128 >> 1) as i64) as u64 & elem_mask(size)
    } else {
        ((a + b + round) as u128 >> 1) as u64
    }
}

pub(crate) fn neon_halving_add(a: u64, b: u64, size: usize, signed: bool, rounding: bool) -> (r: u64)
    ensures
        r == hadd(a, b, size, signed, rounding),
{
    if signed {
        let round: i128 = if rounding {
            1
        } else {
            0
        };
        (((neon_sign_extend(a, size) as i128 + neon_sign_extend(b, size) as i128 + round) >> 1)
            as i64 as u64) & neon_elem_mask(size)
    } else {
        let round: u128 = if rounding {
            1
        } else {
            0
        };
        ((a as u128 + b as u128 + round) >> 1) as u64
    }
}

/// Half the difference of two elements, rounded down.
pub open spec fn hsub(a: u64, b: u64, size: usize, signed: bool) -> u64 {
    let diff = if signed {
        sx(a, size) - sx(b, size)
    } else {
        a - b
    };
    (((diff as i128) >> 1) as i64) as u64 & elem_mask(size)
}

pub(crate) fn neon_halving_sub(a: u64, b: u64, size: usize, signed: bool) -> (r: u64)
    ensures
        r == hsub(a, b, size, signed),
{
    let diff = if signed {
        neon_sign_extend(a, size) as i128 - neon_sign_extend(b, size) as i128
    } else {
        a as i128 - b as i128
    };
    ((diff >> 1) as i64 as u64) & neon_elem_mask(size)
}

/// All bits set where a condition holds.
pub open spec fn mask_if(b: bool, size: usize) -> u64 {
    if b {
        elem_mask(size)
    } else {
        0
    }
}

pub(crate) fn neon_mask_if(b: bool, size: usize) -> (r: u64)
    ensures
        r == mask_if(b, size),
{
    if b {
        neon_elem_mask(size)
    } else {
        0
    }
}

/// Whether one element is greater than another.
pub open spec fn elem_gt(a: u64, b: u64, size: usize, signed: bool) -> bool {
    if signed {
        sx(a, size) > sx(b, size)
    } else {
        a > b
    }
}

pub(crate) fn neon_compare_gt(a: u64, b: u64, size: usize, signed: bool) -> (r: u64)
    ensures
        r == mask_if(elem_gt(a, b, size, signed), size),
{
    neon_mask_if(
        if signed {
            neon_sign_extend(a, size) > neon_sign_extend(b, size)
        } else {
            a > b
        },
        size,
    )
}

pub(crate) fn neon_compare_ge(a: u64, b: u64, size: usize, signed: bool) -> (r: u64)
    ensures
        r == mask_if(!elem_gt(b, a, size, signed), size),
{
    neon_mask_if(
        if signed {
            neon_sign_extend(a, size) >= neon_sign_extend(b, size)
        } else {
            a >= b
        },
        size,
    )
}

/// The greater or the smaller of two elements.
pub open spec fn minmax(a: u64, b: u64, size: usize, signed: bool, max: bool) -> u64 {
    let first = elem_gt(b, a, size, signed) != max;
    if signed {
        (if first {
            sx(a, size)
        } else {
            sx(b, size)
        } as u64) & elem_mask(size)
    } else if first {
        a
    } else {
        b
    }
}

pub(crate) fn neon_minmax(a: u64, b: u64, size: usize, signed: bool, max: bool) -> (r: u64)
    ensures
        r == minmax(a, b, size, signed, max),
{
    if signed {
        let av = neon_sign_extend(a, size);
        let bv = neon_sign_extend(b, size);
        let selected = if (av >= bv) == max {
            av
        } else {
            bv
        };
        (selected as u64) & neon_elem_mask(size)
    } else if (a >= b) == max {
        a
    } else {
        b
    }
}

/// The carry-less product of `a` and the lowest `n` bits of `b`.
pub open spec fn pmul(a: u8, b: u8, n: nat) -> u16
    decreases n,
{
    if n == 0 {
        0
    } else {
        pmul(a, b, (n - 1) as nat) ^ (if b & (1u8 << ((n - 1) as u8)) != 0 {
            (a as u16) << ((n - 1) as u16)
        } else {
            0
        })
    }
}

pub(crate) fn neon_polynomial_mul8(a: u8, b: u8) -> (r: u16)
    ensures
        r == pmul(a, b, 8),
{
    let mut result: u16 = 0;
    let mut k: u8 = 0;
    while k < 8
        invariant
            k <= 8,
            result == pmul(a, b, k as nat),
        decreases 8 - k,
    {
        let term: u16 = if b & (1u8 << k) != 0 {
            (a as u16) << (k as u16)
        } else {
            0
        };
        result = result ^ term;
        k += 1;
    }
    result
}

/// How many of the `bits` lowest bits of `v` are zero from the top down.
pub open spec fn leading(v: u64, bits: nat) -> nat
    decreases bits,
{
    if bits == 0 || v & (1u64 << ((bits - 1) as u64)) != 0 {
        0
    } else {
        1 + leading(v, (bits - 1) as nat)
    }
}

pub(crate) fn neon_leading(v: u64, bits: u32) -> (r: u32)
    requires
        bits <= 64,
    ensures
        r == leading(v, bits as nat),
{
    let mut left: u32 = bits;
    let mut r: u32 = 0;
    while left > 0 && v & (1u64 << ((left - 1) as u64)) == 0
        invariant
            left <= bits <= 64,
            r == bits - left,
            leading(v, bits as nat) == r + leading(v, left as nat),
        decreases left,
    {
        left -= 1;
        r += 1;
    }
    r
}

/// The reciprocal estimate of a nine-bit number from 256 on.
pub open spec fn recip9(input: u32) -> u32 {
    ((0x8_0000int / (input * 2 + 1) + 1) as u32) >> 1
}

fn neon_recip_estimate(input: u32) -> (r: u32)
    requires
        256 <= input < 512,
    ensures
        r == recip9(input),
{
    let a = input * 2 + 1;
    let b = 0x8_0000 / a;
    assert(0x8_0000int / (a as int) <= 0x8_0000) by (nonlinear_arith)
        requires
            a >= 1,
    ;
    (b + 1) >> 1
}

/// The first number from `b` on whose successor's square times `input` reaches
/// 2^28.
pub open spec fn rsqrt_search(input: nat, b: nat) -> nat
    decreases 0x4000 - b,
{
    if b < 0x4000 && input * ((b + 1) * (b + 1)) < 0x1000_0000 {
        rsqrt_search(input, b + 1)
    } else {
        b
    }
}

/// The operand of the reciprocal square root search.
pub open spec fn rsqrt_operand(input: u32) -> u32 {
    if input < 256 {
        (input * 2 + 1) as u32
    } else {
        ((((input >> 1) << 1) + 1) * 2) as u32
    }
}

/// The reciprocal square root estimate of a nine-bit number from 128 on.
pub open spec fn rsqrt9(input: u32) -> u32 {
    ((rsqrt_search(rsqrt_operand(input) as nat, 512) + 1) / 2) as u32
}

fn neon_recip_sqrt_estimate(input: u32) -> (r: u32)
    requires
        128 <= input < 512,
    ensures
        r == rsqrt9(input),
{
    assert((input >> 1) << 1 <= input && (input >> 1) << 1 >= 256 || input < 256) by (bit_vector);
    let x = if input < 256 {
        input * 2 + 1
    } else {
        (((input >> 1) << 1) + 1) * 2
    };
    let ghost start = rsqrt_search(x as nat, 512);
    let mut b: u64 = 512;
    proof {
        small_square(b, x);
    }
    while (x as u64) * ((b + 1) * (b + 1)) < 0x1000_0000
        invariant
            257 <= x <= 1024,
            b < 0x4000,
            (b + 1) * (b + 1) <= 0x1000_0000,
            x * ((b + 1) * (b + 1)) <= 0x40_0000_0000,
            start == rsqrt_search(x as nat, b as nat),
        decreases 0x4000 - b,
    {
        assert(b + 2 < 0x4000) by (nonlinear_arith)
            requires
                x >= 257,
                x * ((b + 1) * (b + 1)) < 0x1000_0000,
        ;
        b += 1;
        proof {
            small_square(b, x);
        }
    }
    ((b + 1) / 2) as u32
}

proof fn small_square(b: u64, x: u32)
    requires
        b < 0x3fff,
        x <= 1024,
    ensures
        (b + 1) * (b + 1) <= 0x1000_0000,
        x * ((b + 1) * (b + 1)) <= 0x40_0000_0000,
{
    assert((b + 1) * (b + 1) <= 0x1000_0000) by (nonlinear_arith)
        requires
            b < 0x3fff,
    ;
    let sq = (b + 1) * (b + 1);
    assert(x * sq <= 0x40_0000_0000) by (nonlinear_arith)
        requires
            0 <= x <= 1024,
            0 <= sq <= 0x1000_0000,
    ;
}

/// The reciprocal estimate of a fixed-point number in [1/2, 1).
pub open spec fn recpe(v: u32) -> u32 {
    if v & 0x8000_0000 == 0 {
        0xffff_ffff
    } else {
        recip9((v >> 23) & 0x1ff) << 23
    }
}

/// The reciprocal square root estimate of a fixed-point number in [1/4, 1).
pub open spec fn rsqrte(v: u32) -> u32 {
    if v & 0xc000_0000 == 0 {
        0xffff_ffff
    } else {
        rsqrt9((v >> 23) & 0x1ff) << 23
    }
}

pub(crate) fn neon_recpe_u32(v: u32) -> (r: u32)
    ensures
        r == recpe(v),
{
    if v & 0x8000_0000 == 0 {
        return 0xffff_ffff;
    }
    assert((v >> 23) & 0x1ff >= 256) by (bit_vector)
        requires
            v & 0x8000_0000 != 0,
    ;
    neon_recip_estimate((v >> 23) & 0x1ff) << 23
}

pub(crate) fn neon_rsqrte_u32(v: u32) -> (r: u32)
    ensures
        r == rsqrte(v),
{
    if v & 0xc000_0000 == 0 {
        return 0xffff_ffff;
    }
    assert((v >> 23) & 0x1ff >= 128) by (bit_vector)
        requires
            v & 0xc000_0000 != 0,
    ;
    neon_recip_sqrt_estimate((v >> 23) & 0x1ff) << 23
}

/// Byte `k` of a modified immediate that spreads each bit of a byte.
pub open spec fn spread(imm: u64, n: nat) -> u64
    decreases n,
{
    if n == 0 {
        0
    } else {
        spread(imm, (n - 1) as nat) | (if imm & (1u64 << ((n - 1) as u64)) != 0 {
            0xffu64 << ((8 * (n - 1)) as u64)
        } else {
            0
        })
    }
}

fn spread_bits(imm: u64) -> (r: u64)
    ensures
        r == spread(imm, 8),
{
    let mut r: u64 = 0;
    let mut k: u64 = 0;
    while k < 8
        invariant
            k <= 8,
            r == spread(imm, k as nat),
        decreases 8 - k,
    {
        let byte: u64 = if imm & (1u64 << k) != 0 {
            0xffu64 << (8 * k)
        } else {
            0
        };
        r = r | byte;
        k += 1;
    }
    r
}

/// The word that a modified immediate stands for in the 32-bit forms.
pub open spec fn imm_word(imm: u64, cmode: u32) -> u64 {
    if cmode <= 1 {
        imm
    } else if cmode <= 3 {
        imm << 8
    } else if cmode <= 5 {
        imm << 16
    } else if cmode <= 7 {
        imm << 24
    } else if cmode <= 9 {
        imm | (imm << 16)
    } else if cmode <= 11 {
        (imm << 8) | (imm << 24)
    } else if cmode == 12 {
        (imm << 8) | 0xff
    } else if cmode == 13 {
        (imm << 16) | 0xffff
    } else if cmode == 14 {
        imm | (imm << 8) | (imm << 16) | (imm << 24)
    } else {
        ((imm & 0x80) << 24) | ((imm & 0x3f) << 19) | (if imm & 0x40 != 0 {
            0x1fu64 << 25
        } else {
            1u64 << 30
        })
    }
}

/// The doubleword that a modified immediate stands for.
pub open spec fn imm_doubleword(imm: u64, cmode: u32, op: bool) -> u64 {
    if cmode == 14 && op {
        spread(imm, 8)
    } else {
        imm_word(imm, cmode) | (imm_word(imm, cmode) << 32)
    }
}

pub(crate) fn neon_expand_modified_imm(imm: u64, cmode: u32, op: bool) -> (r: u64)
    ensures
        r == imm_doubleword(imm, cmode, op),
{
    if cmode == 14 && op {
        return spread_bits(imm);
    }
    let imm32 = match cmode {
        0 | 1 => imm,
        2 | 3 => imm << 8,
        4 | 5 => imm << 16,
        6 | 7 => imm << 24,
        8 | 9 => imm | (imm << 16),
        10 | 11 => (imm << 8) | (imm << 24),
        12 => (imm << 8) | 0xff,
        13 => (imm << 16) | 0xffff,
        14 => imm | (imm << 8) | (imm << 16) | (imm << 24),
        _ => {
            let exponent: u64 = if imm & 0x40 != 0 {
                0x1fu64 << 25
            } else {
                1u64 << 30
            };
            ((imm & 0x80) << 24) | ((imm & 0x3f) << 19) | exponent
        },
    };
    imm32 | (imm32 << 32)
}

/// Element size and distance of an immediate shift: the position of the top
/// set bit of the six-bit field gives the size.
pub open spec fn shift_imm(right: bool, l: bool, imm6: u32) -> Option<(usize, u32)> {
    let decoded = if l {
        Some((3usize, 0u32))
    } else if imm6 >= 32 {
        Some((2usize, 32u32))
    } else if imm6 >= 16 {
        Some((1usize, 16u32))
    } else if imm6 >= 8 {
        Some((0usize, 8u32))
    } else {
        None
    };
    match decoded {
        None => None,
        Some((size, base)) => Some(
            (
                size,
                (if right {
                    (if l {
                        64
                    } else {
                        2 * base
                    }) - imm6
                } else {
                    imm6 - base
                }) as u32,
            ),
        ),
    }
}

pub(crate) fn neon_decode_shift_imm(right_shift: bool, l: bool, imm6: u32) -> (r: Option<
    (usize, u32),
>)
    requires
        imm6 < 64,
    ensures
        r == shift_imm(right_shift, l, imm6),
        match r {
            Some((size, shift)) => size <= 3 && (right_shift ==> 1 <= shift <= 64) && (!right_shift
                ==> shift < elem_bits(size)) && (!l ==> size <= 2 && shift <= elem_bits(size)),
            None => !l,
        },
{
    if l {
        return Some(
            (
                3,
                if right_shift {
                    64 - imm6
                } else {
                    imm6
                },
            ),
        );
    }
    let (size, bits): (usize, u32) = if imm6 >= 32 {
        (2, 32)
    } else if imm6 >= 16 {
        (1, 16)
    } else if imm6 >= 8 {
        (0, 8)
    } else {
        return None;
    };
    let shift = if right_shift {
        bits * 2 - imm6
    } else {
        imm6 - bits
    };
    Some((size, shift))
}

} // verus!
