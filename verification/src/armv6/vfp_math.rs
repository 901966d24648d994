//! Floating-point operations with their cumulative exception flags.

use super::cpu::{FPSCR_DZC, FPSCR_IOC, FPSCR_IXC, FPSCR_OFC, FPSCR_UFC};
use super::float::{
    equal, ex, fadd, fdiv, feq, finite, fits, flt, fmul, fneg, from_integer, fsqrt, fsub, infinite,
    is_finite, is_inf, is_nan, is_negative, is_snan, is_tiny, is_whole, is_zero, less, minus, nan,
    narrow, narrowed, neg, negate, of_int, over, plus, root, round_to_integer, sig, signaling_nan,
    times, tiny, to_int, widen, widened, zero, Rounding,
};
use super::float_round::power;
use vstd::arithmetic::div_mod::{lemma_fundamental_div_mod, lemma_fundamental_div_mod_converse};
use vstd::arithmetic::power2::{
    lemma2_to64_rest, lemma_pow2_adds, lemma_pow2_strictly_increases, pow2,
};
use vstd::prelude::*;

verus! {

/// The flags of a 32-bit result against the same operation in 64 bits.
pub open spec fn rounding_flags(result: u64, exact: u64) -> u32 {
    if !is_finite(exact, true) {
        0
    } else if is_inf(result, false) {
        FPSCR_OFC | FPSCR_IXC
    } else if feq(widened(result as u32), exact, true) {
        0
    } else if is_tiny(result, false) {
        FPSCR_IXC | FPSCR_UFC
    } else {
        FPSCR_IXC
    }
}

/// Whether `m1 * 2^e1 == m2 * 2^e2`.
pub open spec fn same_dyadic(m1: nat, e1: int, m2: nat, e2: int) -> bool {
    if e1 >= e2 {
        m1 * pow2((e1 - e2) as nat) == m2
    } else {
        m1 == m2 * pow2((e2 - e1) as nat)
    }
}

/// The flags of a 64-bit result that rounding may have changed.
pub open spec fn inexact_flags(result: u64, exact: bool) -> u32 {
    if is_inf(result, true) || exact {
        0
    } else if is_tiny(result, true) {
        FPSCR_IXC | FPSCR_UFC
    } else {
        FPSCR_IXC
    }
}

/// The flags of a 64-bit result that overflowed.
pub open spec fn overflow_flags(result: u64) -> u32 {
    if is_inf(result, true) {
        FPSCR_OFC | FPSCR_IXC
    } else {
        0
    }
}

/// The flags of a 64-bit sum that gives one operand back although the other
/// one is not zero.
pub open spec fn absorbed_flags(a: u64, b: u64, result: u64) -> u32 {
    if is_finite(result, true) && ((feq(result, a, true) && !is_zero(b, true)) || (feq(
        result,
        b,
        true,
    ) && !is_zero(a, true))) {
        FPSCR_IXC
    } else {
        0
    }
}

/// The flags of a sum or a difference.
pub open spec fn sum_flags(a: u64, b: u64, result: u64, subtract: bool, dbl: bool) -> u32 {
    if is_snan(a, dbl) || is_snan(b, dbl) || (is_inf(a, dbl) && is_inf(b, dbl) && (neg(a, dbl)
        != neg(b, dbl)) != subtract) {
        FPSCR_IOC
    } else if !is_finite(a, dbl) || !is_finite(b, dbl) {
        0
    } else if dbl {
        overflow_flags(result) | absorbed_flags(
            a,
            if subtract {
                fneg(b, true)
            } else {
                b
            },
            result,
        )
    } else {
        let (x, y) = (widened(a as u32), widened(b as u32));
        rounding_flags(
            result,
            if subtract {
                fsub(x, y, true)
            } else {
                fadd(x, y, true)
            },
        )
    }
}

/// The flags of a product.
pub open spec fn product_flags(a: u64, b: u64, result: u64, dbl: bool) -> u32 {
    if is_snan(a, dbl) || is_snan(b, dbl) || (is_zero(a, dbl) && is_inf(b, dbl)) || (is_zero(
        b,
        dbl,
    ) && is_inf(a, dbl)) {
        FPSCR_IOC
    } else if !is_finite(a, dbl) || !is_finite(b, dbl) {
        0
    } else if dbl {
        overflow_flags(result) | inexact_flags(
            result,
            is_finite(result, true) && same_dyadic(
                sig(a, true) * sig(b, true),
                ex(a, true) + ex(b, true),
                sig(result, true),
                ex(result, true),
            ),
        )
    } else {
        rounding_flags(result, fmul(widened(a as u32), widened(b as u32), true))
    }
}

/// The flags of a quotient.
pub open spec fn quotient_flags(a: u64, b: u64, result: u64, dbl: bool) -> u32 {
    if is_snan(a, dbl) || is_snan(b, dbl) || (is_zero(a, dbl) && is_zero(b, dbl)) || (is_inf(a, dbl)
        && is_inf(b, dbl)) {
        FPSCR_IOC
    } else if is_zero(b, dbl) {
        if is_finite(a, dbl) {
            FPSCR_DZC
        } else {
            0
        }
    } else if !is_finite(a, dbl) || !is_finite(b, dbl) {
        0
    } else if dbl {
        overflow_flags(result) | inexact_flags(
            result,
            is_finite(result, true) && same_dyadic(
                sig(a, true),
                ex(a, true),
                sig(b, true) * sig(result, true),
                ex(b, true) + ex(result, true),
            ),
        )
    } else {
        rounding_flags(result, fdiv(widened(a as u32), widened(b as u32), true))
    }
}

/// The flags of a square root.
pub open spec fn root_flags(a: u64, result: u64, dbl: bool) -> u32 {
    if is_snan(a, dbl) || flt(a, 0, dbl) {
        FPSCR_IOC
    } else if dbl || !is_finite(a, dbl) {
        0
    } else {
        rounding_flags(result, fsqrt(widened(a as u32), true))
    }
}

/// The two-operand operations, with an accumulator where the name has one.
#[derive(Debug, Clone, Copy, PartialEq, Eq, Structural)]
pub enum VfpBinaryOp {
    MulAdd,
    MulSub,
    NegMulSub,
    NegMulAdd,
    Mul,
    NegMul,
    Add,
    Sub,
    Div,
}

/// The one-operand operations.
#[derive(Debug, Clone, Copy, PartialEq, Eq, Structural)]
pub enum VfpUnaryOp {
    Mov,
    Neg,
    Abs,
    Sqrt,
}

impl VfpBinaryOp {
    /// Result and flags. A multiply-accumulate rounds twice, and shows the
    /// flags of both roundings.
    pub open spec fn value(self, dst: u64, lhs: u64, rhs: u64, dbl: bool) -> (u64, u32) {
        let p = fmul(lhs, rhs, dbl);
        let pf = product_flags(lhs, rhs, p, dbl);
        let nd = fneg(dst, dbl);
        match self {
            VfpBinaryOp::MulAdd => {
                let r = fadd(dst, p, dbl);
                (r, pf | sum_flags(dst, p, r, false, dbl))
            },
            VfpBinaryOp::MulSub => {
                let r = fsub(dst, p, dbl);
                (r, pf | sum_flags(dst, p, r, true, dbl))
            },
            VfpBinaryOp::NegMulSub => {
                let r = fadd(nd, p, dbl);
                (r, pf | sum_flags(nd, p, r, false, dbl))
            },
            VfpBinaryOp::NegMulAdd => {
                let r = fsub(nd, p, dbl);
                (r, pf | sum_flags(nd, p, r, true, dbl))
            },
            VfpBinaryOp::Mul => (p, pf),
            VfpBinaryOp::NegMul => (fneg(p, dbl), pf),
            VfpBinaryOp::Add => {
                let r = fadd(lhs, rhs, dbl);
                (r, sum_flags(lhs, rhs, r, false, dbl))
            },
            VfpBinaryOp::Sub => {
                let r = fsub(lhs, rhs, dbl);
                (r, sum_flags(lhs, rhs, r, true, dbl))
            },
            VfpBinaryOp::Div => {
                let r = fdiv(lhs, rhs, dbl);
                (r, quotient_flags(lhs, rhs, r, dbl))
            },
        }
    }

    /// Computes result and flags.
    pub(crate) fn eval_with_flags(self, dst: u64, lhs: u64, rhs: u64, dbl: bool) -> (r: (u64, u32))
        requires
            fits(dst, dbl),
            fits(lhs, dbl),
            fits(rhs, dbl),
        ensures
            r == self.value(dst, lhs, rhs, dbl),
            fits(r.0, dbl),
    {
        match self {
            VfpBinaryOp::MulAdd => {
                let p = times(lhs, rhs, dbl);
                let flags = product_exception_flags(lhs, rhs, p, dbl);
                let r = plus(dst, p, dbl);
                (r, flags | sum_exception_flags(dst, p, r, false, dbl))
            },
            VfpBinaryOp::MulSub => {
                let p = times(lhs, rhs, dbl);
                let flags = product_exception_flags(lhs, rhs, p, dbl);
                let r = minus(dst, p, dbl);
                (r, flags | sum_exception_flags(dst, p, r, true, dbl))
            },
            VfpBinaryOp::NegMulSub => {
                let p = times(lhs, rhs, dbl);
                let flags = product_exception_flags(lhs, rhs, p, dbl);
                let nd = negate(dst, dbl);
                let r = plus(nd, p, dbl);
                (r, flags | sum_exception_flags(nd, p, r, false, dbl))
            },
            VfpBinaryOp::NegMulAdd => {
                let p = times(lhs, rhs, dbl);
                let flags = product_exception_flags(lhs, rhs, p, dbl);
                let nd = negate(dst, dbl);
                let r = minus(nd, p, dbl);
                (r, flags | sum_exception_flags(nd, p, r, true, dbl))
            },
            VfpBinaryOp::Mul => {
                let p = times(lhs, rhs, dbl);
                (p, product_exception_flags(lhs, rhs, p, dbl))
            },
            VfpBinaryOp::NegMul => {
                let p = times(lhs, rhs, dbl);
                (negate(p, dbl), product_exception_flags(lhs, rhs, p, dbl))
            },
            VfpBinaryOp::Add => {
                let r = plus(lhs, rhs, dbl);
                (r, sum_exception_flags(lhs, rhs, r, false, dbl))
            },
            VfpBinaryOp::Sub => {
                let r = minus(lhs, rhs, dbl);
                (r, sum_exception_flags(lhs, rhs, r, true, dbl))
            },
            VfpBinaryOp::Div => {
                let r = over(lhs, rhs, dbl);
                (r, quotient_exception_flags(lhs, rhs, r, dbl))
            },
        }
    }
}

impl VfpUnaryOp {
    /// Result and flags.
    pub open spec fn value(self, v: u64, dbl: bool) -> (u64, u32) {
        match self {
            VfpUnaryOp::Mov => (v, 0),
            VfpUnaryOp::Neg => (
                if dbl {
                    v ^ 0x8000_0000_0000_0000
                } else {
                    ((v as u32) ^ 0x8000_0000) as u64
                },
                0,
            ),
            VfpUnaryOp::Abs => (
                if dbl {
                    v & 0x7fff_ffff_ffff_ffff
                } else {
                    ((v as u32) & 0x7fff_ffff) as u64
                },
                0,
            ),
            VfpUnaryOp::Sqrt => (fsqrt(v, dbl), root_flags(v, fsqrt(v, dbl), dbl)),
        }
    }

    /// Computes result and flags.
    pub(crate) fn eval_with_flags(self, v: u64, dbl: bool) -> (r: (u64, u32))
        requires
            fits(v, dbl),
        ensures
            r == self.value(v, dbl),
            fits(r.0, dbl),
    {
        match self {
            VfpUnaryOp::Mov => (v, 0),
            VfpUnaryOp::Neg => (
                if dbl {
                    v ^ 0x8000_0000_0000_0000
                } else {
                    ((v as u32) ^ 0x8000_0000) as u64
                },
                0,
            ),
            VfpUnaryOp::Abs => (
                if dbl {
                    v & 0x7fff_ffff_ffff_ffff
                } else {
                    ((v as u32) & 0x7fff_ffff) as u64
                },
                0,
            ),
            VfpUnaryOp::Sqrt => {
                let r = root(v, dbl);
                (r, root_exception_flags(v, r, dbl))
            },
        }
    }
}

fn rounded_exception_flags(result: u64, exact: u64) -> (r: u32)
    requires
        fits(result, false),
    ensures
        r == rounding_flags(result, exact),
{
    if !finite(exact, true) {
        0
    } else if infinite(result, false) {
        FPSCR_OFC | FPSCR_IXC
    } else if equal(widen(result as u32), exact, true) {
        0
    } else if tiny(result, false) {
        FPSCR_IXC | FPSCR_UFC
    } else {
        FPSCR_IXC
    }
}

fn scaled_magnitudes_equal(m1: u128, e1: i32, m2: u128, e2: i32) -> (r: bool)
    requires
        m1 < 0x8000_0000_0000_0000_0000_0000_0000_0000,
        m2 < 0x8000_0000_0000_0000_0000_0000_0000_0000,
        -6000 <= e1 <= 6000,
        -6000 <= e2 <= 6000,
    ensures
        r == same_dyadic(m1 as nat, e1 as int, m2 as nat, e2 as int),
{
    if e1 >= e2 {
        is_scaled(m1, (e1 - e2) as u32, m2)
    } else {
        is_scaled(m2, (e2 - e1) as u32, m1)
    }
}

fn is_scaled(m: u128, shift: u32, n: u128) -> (r: bool)
    requires
        n < 0x8000_0000_0000_0000_0000_0000_0000_0000,
    ensures
        r == (m as nat * pow2(shift as nat) == n as nat),
{
    if m == 0 {
        assert(0 * pow2(shift as nat) == 0);
        n == 0
    } else if shift >= 127 {
        proof {
            lemma2_to64_rest();
            lemma_pow2_adds(64, 63);
            assert(0x1_0000_0000_0000_0000 * 0x8000_0000_0000_0000
                == 0x8000_0000_0000_0000_0000_0000_0000_0000);
            if shift > 127 {
                lemma_pow2_strictly_increases(127, shift as nat);
            }
            assert(m * pow2(shift as nat) >= pow2(shift as nat)) by (nonlinear_arith)
                requires
                    m >= 1,
            ;
        }
        false
    } else {
        let p = power(shift);
        proof {
            lemma_fundamental_div_mod(n as int, p as int);
            if m * p == n {
                lemma_fundamental_div_mod_converse(n as int, p as int, m as int, 0);
            } else if n % p == 0 && n / p == m {
                assert(m * p == p * m) by (nonlinear_arith);
            }
        }
        n % p == 0 && n / p == m
    }
}

fn inexact_exception_flags(result: u64, exact: bool) -> (r: u32)
    ensures
        r == inexact_flags(result, exact),
{
    if infinite(result, true) || exact {
        0
    } else if tiny(result, true) {
        FPSCR_IXC | FPSCR_UFC
    } else {
        FPSCR_IXC
    }
}

fn overflow_exception_flags(result: u64) -> (r: u32)
    ensures
        r == overflow_flags(result),
{
    if infinite(result, true) {
        FPSCR_OFC | FPSCR_IXC
    } else {
        0
    }
}

fn absorbed_exception_flags(a: u64, b: u64, result: u64) -> (r: u32)
    ensures
        r == absorbed_flags(a, b, result),
{
    if finite(result, true) && ((equal(result, a, true) && !zero(b, true)) || (equal(
        result,
        b,
        true,
    ) && !zero(a, true))) {
        FPSCR_IXC
    } else {
        0
    }
}

fn sum_exception_flags(a: u64, b: u64, result: u64, subtract: bool, dbl: bool) -> (r: u32)
    requires
        fits(a, dbl),
        fits(b, dbl),
        fits(result, dbl),
    ensures
        r == sum_flags(a, b, result, subtract, dbl),
{
    if signaling_nan(a, dbl) || signaling_nan(b, dbl) || (infinite(a, dbl) && infinite(b, dbl) && (
    is_negative(a, dbl) != is_negative(b, dbl)) != subtract) {
        return FPSCR_IOC;
    }
    if !finite(a, dbl) || !finite(b, dbl) {
        return 0;
    }
    if dbl {
        let other = if subtract {
            negate(b, true)
        } else {
            b
        };
        overflow_exception_flags(result) | absorbed_exception_flags(a, other, result)
    } else {
        let x = widen(a as u32);
        let y = widen(b as u32);
        let exact = if subtract {
            minus(x, y, true)
        } else {
            plus(x, y, true)
        };
        rounded_exception_flags(result, exact)
    }
}

/// The significand and the exponent of a finite 64-bit number, for comparison.
fn finite_magnitude(b: u64) -> (r: (u128, i32))
    requires
        is_finite(b, true),
    ensures
        r.0 == sig(b, true),
        r.0 < 0x20_0000_0000_0000,
        r.1 == ex(b, true),
        -1074 <= r.1 <= 971,
{
    let m = b % 0x8000_0000_0000_0000;
    if m < 0x10_0000_0000_0000 {
        (m as u128, -1074)
    } else {
        (
            (m % 0x10_0000_0000_0000 + 0x10_0000_0000_0000) as u128,
            (m / 0x10_0000_0000_0000) as i32 - 1075,
        )
    }
}

fn product_exception_flags(a: u64, b: u64, result: u64, dbl: bool) -> (r: u32)
    requires
        fits(a, dbl),
        fits(b, dbl),
        fits(result, dbl),
    ensures
        r == product_flags(a, b, result, dbl),
{
    if signaling_nan(a, dbl) || signaling_nan(b, dbl) || (zero(a, dbl) && infinite(b, dbl)) || (
    zero(b, dbl) && infinite(a, dbl)) {
        return FPSCR_IOC;
    }
    if !finite(a, dbl) || !finite(b, dbl) {
        return 0;
    }
    if dbl {
        let exact = if finite(result, true) {
            let (ma, ea) = finite_magnitude(a);
            let (mb, eb) = finite_magnitude(b);
            let (mr, er) = finite_magnitude(result);
            proof {
                significand_product(ma, mb);
            }
            scaled_magnitudes_equal(ma * mb, ea + eb, mr, er)
        } else {
            false
        };
        overflow_exception_flags(result) | inexact_exception_flags(result, exact)
    } else {
        rounded_exception_flags(result, times(widen(a as u32), widen(b as u32), true))
    }
}

proof fn significand_product(a: u128, b: u128)
    requires
        a < 0x20_0000_0000_0000,
        b < 0x20_0000_0000_0000,
    ensures
        0 <= a * b < 0x400_0000_0000_0000_0000_0000_0000,
{
    assert(0 <= a * b < 0x400_0000_0000_0000_0000_0000_0000) by (nonlinear_arith)
        requires
            0 <= a < 0x20_0000_0000_0000,
            0 <= b < 0x20_0000_0000_0000,
    ;
}

fn quotient_exception_flags(a: u64, b: u64, result: u64, dbl: bool) -> (r: u32)
    requires
        fits(a, dbl),
        fits(b, dbl),
        fits(result, dbl),
    ensures
        r == quotient_flags(a, b, result, dbl),
{
    if signaling_nan(a, dbl) || signaling_nan(b, dbl) || (zero(a, dbl) && zero(b, dbl)) || (
    infinite(a, dbl) && infinite(b, dbl)) {
        return FPSCR_IOC;
    }
    if zero(b, dbl) {
        return if finite(a, dbl) {
            FPSCR_DZC
        } else {
            0
        };
    }
    if !finite(a, dbl) || !finite(b, dbl) {
        return 0;
    }
    if dbl {
        let exact = if finite(result, true) {
            let (ma, ea) = finite_magnitude(a);
            let (mb, eb) = finite_magnitude(b);
            let (mr, er) = finite_magnitude(result);
            proof {
                significand_product(mb, mr);
            }
            scaled_magnitudes_equal(ma, ea, mb * mr, eb + er)
        } else {
            false
        };
        overflow_exception_flags(result) | inexact_exception_flags(result, exact)
    } else {
        rounded_exception_flags(result, over(widen(a as u32), widen(b as u32), true))
    }
}

fn root_exception_flags(a: u64, result: u64, dbl: bool) -> (r: u32)
    requires
        fits(a, dbl),
        fits(result, dbl),
    ensures
        r == root_flags(a, result, dbl),
{
    if signaling_nan(a, dbl) || less(a, 0, dbl) {
        return FPSCR_IOC;
    }
    if dbl || !finite(a, dbl) {
        return 0;
    }
    rounded_exception_flags(result, root(widen(a as u32), true))
}

/// A number as a signed word, with its flags: out of range saturates.
pub open spec fn signed_word(b: u64, dbl: bool, mode: Rounding) -> (u32, u32) {
    let v = to_int(b, dbl, mode);
    if is_nan(b, dbl) {
        (0, FPSCR_IOC)
    } else if is_inf(b, dbl) {
        (
            if neg(b, dbl) {
                0x8000_0000
            } else {
                0x7fff_ffff
            },
            FPSCR_IOC,
        )
    } else if v > i32::MAX {
        (0x7fff_ffff, FPSCR_IOC)
    } else if v < i32::MIN {
        (0x8000_0000, FPSCR_IOC)
    } else {
        (
            (v as i32) as u32,
            if is_whole(b, dbl) {
                0
            } else {
                FPSCR_IXC
            },
        )
    }
}

/// A number as an unsigned word, with its flags: out of range saturates.
pub open spec fn unsigned_word(b: u64, dbl: bool, mode: Rounding) -> (u32, u32) {
    let v = to_int(b, dbl, mode);
    if is_nan(b, dbl) {
        (0, FPSCR_IOC)
    } else if is_inf(b, dbl) {
        (
            if neg(b, dbl) {
                0
            } else {
                0xffff_ffff
            },
            FPSCR_IOC,
        )
    } else if v < 0 {
        (0, FPSCR_IOC)
    } else if v > u32::MAX {
        (0xffff_ffff, FPSCR_IOC)
    } else {
        (
            v as u32,
            if is_whole(b, dbl) {
                0
            } else {
                FPSCR_IXC
            },
        )
    }
}

/// A number as a word.
pub open spec fn word_of_float(b: u64, dbl: bool, mode: Rounding, unsigned: bool) -> (u32, u32) {
    if unsigned {
        unsigned_word(b, dbl, mode)
    } else {
        signed_word(b, dbl, mode)
    }
}

/// Converts a number to a word.
pub(crate) fn float_to_word(b: u64, dbl: bool, mode: Rounding, unsigned: bool) -> (r: (u32, u32))
    ensures
        r == word_of_float(b, dbl, mode, unsigned),
{
    if nan(b, dbl) {
        return (0, FPSCR_IOC);
    }
    if infinite(b, dbl) {
        let bits: u32 = match (is_negative(b, dbl), unsigned) {
            (true, true) => 0,
            (true, false) => 0x8000_0000,
            (false, true) => 0xffff_ffff,
            (false, false) => 0x7fff_ffff,
        };
        return (bits, FPSCR_IOC);
    }
    let (v, exact) = round_to_integer(b, dbl, mode);
    let flags: u32 = if exact {
        0
    } else {
        FPSCR_IXC
    };
    if unsigned {
        if v < 0 {
            (0, FPSCR_IOC)
        } else if v > 0xffff_ffff {
            (0xffff_ffff, FPSCR_IOC)
        } else {
            (v as u32, flags)
        }
    } else if v > 0x7fff_ffff {
        (0x7fff_ffff, FPSCR_IOC)
    } else if v < -0x8000_0000 {
        (0x8000_0000, FPSCR_IOC)
    } else {
        (v as i32 as u32, flags)
    }
}

/// The rounding mode that the status register selects.
pub open spec fn mode_of(fpscr: u32) -> Rounding {
    let f = (fpscr >> 22) & 3;
    if f == 0 {
        Rounding::Nearest
    } else if f == 1 {
        Rounding::Up
    } else if f == 2 {
        Rounding::Down
    } else {
        Rounding::Zero
    }
}

pub(crate) fn rounding_mode(fpscr: u32) -> (r: Rounding)
    ensures
        r == mode_of(fpscr),
{
    match (fpscr >> 22) & 3 {
        0 => Rounding::Nearest,
        1 => Rounding::Up,
        2 => Rounding::Down,
        _ => Rounding::Zero,
    }
}

/// The value of a word that stands for a number.
pub open spec fn word_value(v: u32, unsigned: bool) -> int {
    if unsigned {
        v as int
    } else {
        (v as i32) as int
    }
}

/// A word as a 32-bit number, with its inexact flag.
pub open spec fn float_of_word(v: u32, unsigned: bool) -> (u32, u32) {
    let r = of_int(word_value(v, unsigned), false) as u32;
    (
        r,
        if feq(widened(r), of_int(word_value(v, unsigned), true), true) {
            0
        } else {
            FPSCR_IXC
        },
    )
}

pub(crate) fn word_to_float(v: u32, unsigned: bool) -> (r: (u32, u32))
    ensures
        r == float_of_word(v, unsigned),
{
    let x = if unsigned {
        v as i64
    } else {
        v as i32 as i64
    };
    let bits = from_integer(x, false) as u32;
    let exact = equal(widen(bits), from_integer(x, true), true);
    (
        bits,
        if exact {
            0
        } else {
            FPSCR_IXC
        },
    )
}

/// The flags of narrowing a 64-bit number.
pub open spec fn narrow_flags(a: u64) -> u32 {
    let r = narrowed(a);
    let invalid = if is_snan(a, true) {
        FPSCR_IOC
    } else {
        0
    };
    if !is_finite(a, true) {
        invalid
    } else if is_inf(r as u64, false) {
        invalid | (FPSCR_OFC | FPSCR_IXC)
    } else if feq(widened(r), a, true) {
        invalid
    } else if is_tiny(r as u64, false) {
        invalid | (FPSCR_IXC | FPSCR_UFC)
    } else {
        invalid | FPSCR_IXC
    }
}

pub(crate) fn f64_to_f32(a: u64) -> (r: (u32, u32))
    ensures
        r == (narrowed(a), narrow_flags(a)),
{
    let bits = narrow(a);
    let invalid: u32 = if signaling_nan(a, true) {
        FPSCR_IOC
    } else {
        0
    };
    let flags = if !finite(a, true) {
        invalid
    } else if infinite(bits as u64, false) {
        invalid | (FPSCR_OFC | FPSCR_IXC)
    } else if equal(widen(bits), a, true) {
        invalid
    } else if tiny(bits as u64, false) {
        invalid | (FPSCR_IXC | FPSCR_UFC)
    } else {
        invalid | FPSCR_IXC
    };
    (bits, flags)
}

/// The condition bits of a comparison: less, equal, greater, unordered.
pub open spec fn order_bits(a: u64, b: u64, dbl: bool) -> u32 {
    if flt(a, b, dbl) {
        0x8000_0000
    } else if feq(a, b, dbl) {
        0x6000_0000
    } else if flt(b, a, dbl) {
        0x2000_0000
    } else {
        0x3000_0000
    }
}

/// The status after a comparison. A not-a-number is an invalid operand where
/// it signals, or where the comparison takes none.
pub open spec fn compared(fpscr: u32, a: u64, b: u64, all_nans: bool, dbl: bool) -> u32 {
    let f = (fpscr & !0xf000_0000u32) | order_bits(a, b, dbl);
    if (is_nan(a, dbl) || is_nan(b, dbl)) && (all_nans || is_snan(a, dbl) || is_snan(b, dbl)) {
        f | FPSCR_IOC
    } else {
        f
    }
}

pub(crate) fn compare_status(fpscr: u32, a: u64, b: u64, all_nans: bool, dbl: bool) -> (r: u32)
    ensures
        r == compared(fpscr, a, b, all_nans, dbl),
{
    let order: u32 = if less(a, b, dbl) {
        0x8000_0000
    } else if equal(a, b, dbl) {
        0x6000_0000
    } else if less(b, a, dbl) {
        0x2000_0000
    } else {
        0x3000_0000
    };
    let f = (fpscr & !0xf000_0000u32) | order;
    if (nan(a, dbl) || nan(b, dbl)) && (all_nans || signaling_nan(a, dbl) || signaling_nan(
        b,
        dbl,
    )) {
        f | FPSCR_IOC
    } else {
        f
    }
}

} // verus!
