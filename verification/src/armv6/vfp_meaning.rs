//! What the scalar floating-point instructions compute, and the algebra of the
//! operations on patterns.

use super::cpu::CpuState;
use super::float::{
    default_nan, ex, fadd, fdiv, fmul, fneg, fsqrt, fsub, is_finite, is_inf, is_nan, is_zero, key,
    mag, neg, sig, signed, to_int, with_sign, Rounding,
};
use super::float_round::nearest;
use super::laws::doublewords_read_back;
use super::trap::TrapView;
use super::vfp::{binary_op, fp_arithmetic, fp_get, unary_op};
use super::vfp_math::{order_bits, word_of_float};
use super::vfp_regs::{dd, dm, dn, register_numbers, sd, sm, sn};
use vstd::arithmetic::power2::pow2;
use vstd::prelude::*;

verus! {

/// The destination, first and second operand registers of a word, of either width.
pub open spec fn registers(instr: u32, dbl: bool) -> (usize, usize, usize) {
    if dbl {
        (dd(instr), dn(instr), dm(instr))
    } else {
        (sd(instr), sn(instr), sm(instr))
    }
}

/// Whether the status register asks for single operations.
pub open spec fn scalar_mode(fpscr: u32) -> bool {
    (fpscr >> 16) & 7 == 0 && (fpscr >> 20) & 3 == 0
}

/// The two-operand instructions on single numbers: VADD, VSUB, VMUL, VNMUL, VDIV, and
/// VMLA, VMLS, VNMLS and VNMLA, which round the product and then the sum.
pub proof fn scalar_arithmetic(s: CpuState, instr: u32)
    requires
        s.wf(),
        scalar_mode(s.fpscr),
        unary_op(instr) is None,
        binary_op(instr) is Some,
    ensures
        ({
            let dbl = instr & 0x0fb0_0f40 & 0x100 != 0;
            let (vd, vn, vm) = registers(instr, dbl);
            let op = instr & 0x0fb0_0f40 & !0x100u32;
            let (d, a, b) = (fp_get(s, vd, dbl), fp_get(s, vn, dbl), fp_get(s, vm, dbl));
            let p = fmul(a, b, dbl);
            let (t, r) = fp_arithmetic(s, instr);
            let v = if op == 0x0e30_0a00 {
                fadd(a, b, dbl)
            } else if op == 0x0e30_0a40 {
                fsub(a, b, dbl)
            } else if op == 0x0e20_0a00 {
                p
            } else if op == 0x0e20_0a40 {
                fneg(p, dbl)
            } else if op == 0x0e80_0a00 {
                fdiv(a, b, dbl)
            } else if op == 0x0e00_0a00 {
                fadd(d, p, dbl)
            } else if op == 0x0e00_0a40 {
                fsub(d, p, dbl)
            } else if op == 0x0e10_0a00 {
                fadd(fneg(d, dbl), p, dbl)
            } else {
                fsub(fneg(d, dbl), p, dbl)
            };
            &&& r == Ok::<bool, TrapView>(true)
            &&& t == (CpuState { sregs: t.sregs, fpscr: t.fpscr, ..s })
            &&& dbl ==> t.d(vd) == v && forall|j: usize|
                j < 32 && j != vd ==> #[trigger] t.d(j) == s.d(j)
            &&& !dbl ==> t.s(vd) == v as u32 && forall|j: usize|
                j < 64 && j != vd ==> #[trigger] t.s(j) == s.s(j)
        }),
{
    register_numbers(instr);
    let dbl = instr & 0x0fb0_0f40 & 0x100 != 0;
    let (vd, vn, vm) = registers(instr, dbl);
    reveal_with_fuel(super::vfp::binary_lanes, 2);
    let op = binary_op(instr)->0;
    let v = op.value(fp_get(s, vd, dbl), fp_get(s, vn, dbl), fp_get(s, vm, dbl), dbl);
    let t = fp_arithmetic(s, instr).0;
    if dbl {
        doublewords_read_back(s, vd, vd, v.0);
        assert(t.sregs == s.with_d(vd, v.0).sregs);
        assert(t.d(vd) == s.with_d(vd, v.0).d(vd));
        assert forall|j: usize| j < 32 && j != vd implies #[trigger] t.d(j) == s.d(j) by {
            doublewords_read_back(s, vd, j, v.0);
            assert(s.with_d(vd, v.0).d(j) == s.d(j));
        }
    }
}

/// VMOV, VNEG, VABS and VSQRT on single numbers.
pub proof fn scalar_signs(s: CpuState, instr: u32)
    requires
        s.wf(),
        scalar_mode(s.fpscr),
        unary_op(instr) is Some,
    ensures
        ({
            let (_, dbl) = unary_op(instr)->0;
            let (vd, _, vm) = registers(instr, dbl);
            let a = fp_get(s, vm, dbl);
            let key = instr & 0x0fbf_0fc0;
            let (t, r) = fp_arithmetic(s, instr);
            let v = fp_get(t, vd, dbl);
            &&& r == Ok::<bool, TrapView>(true)
            &&& (key == 0x0eb0_0a40 || key == 0x0eb0_0b40) ==> v == a
            &&& (key == 0x0eb1_0a40 || key == 0x0eb1_0b40) ==> neg(v, dbl) == !neg(a, dbl) && mag(
                v,
                dbl,
            ) == mag(a, dbl)
            &&& (key == 0x0eb0_0ac0 || key == 0x0eb0_0bc0) ==> !neg(v, dbl) && mag(v, dbl) == mag(
                a,
                dbl,
            )
            &&& key == 0x0eb1_0bc0 ==> v == fsqrt(a, true)
            &&& key == 0x0eb1_0ac0 ==> v == fsqrt(a, false) as u32
        }),
{
    register_numbers(instr);
    let (op, dbl) = unary_op(instr)->0;
    let (vd, _, vm) = registers(instr, dbl);
    reveal_with_fuel(super::vfp::unary_lanes, 2);
    let a = fp_get(s, vm, dbl);
    let v = op.value(a, dbl);
    let t = fp_arithmetic(s, instr).0;
    super::numbers::sign_masks(a);
    if dbl {
        doublewords_read_back(s, vd, vd, v.0);
        assert(t.sregs == s.with_d(vd, v.0).sregs);
        assert(t.d(vd) == s.with_d(vd, v.0).d(vd));
    }
}

/// Sums and products do not depend on the order of their operands, where both are
/// numbers.
pub proof fn order_of_operands(a: u64, b: u64, dbl: bool)
    requires
        !is_nan(a, dbl),
        !is_nan(b, dbl),
    ensures
        is_finite(a, dbl) && is_finite(b, dbl) ==> fadd(a, b, dbl) == fadd(b, a, dbl),
        fmul(a, b, dbl) == fmul(b, a, dbl),
{
    assert(sig(a, dbl) * sig(b, dbl) == sig(b, dbl) * sig(a, dbl)) by (nonlinear_arith);
    vstd::arithmetic::power2::lemma2_to64();
    assert(sig(a, dbl) * 1 == sig(a, dbl) && sig(b, dbl) * 1 == sig(b, dbl));
}

/// A finite number less itself is zero without a sign, and plus itself with the other
/// sign too.
pub proof fn differences_vanish(a: u64, dbl: bool)
    requires
        is_finite(a, dbl),
        super::float::fits(a, dbl),
    ensures
        fsub(a, a, dbl) == 0,
        fadd(a, fneg(a, dbl), dbl) == 0,
{
    let b = fneg(a, dbl);
    assert(neg(b, dbl) == !neg(a, dbl) && mag(b, dbl) == mag(a, dbl)) by {
        super::numbers::sign_masks(a);
    }
    vstd::arithmetic::power2::lemma2_to64();
    assert(sig(a, dbl) * 1 == sig(a, dbl));
}

/// The sign of a product or quotient that is a number: negative where the operands'
/// signs differ.
pub proof fn signs_multiply(a: u64, b: u64, dbl: bool)
    requires
        !is_nan(a, dbl),
        !is_nan(b, dbl),
    ensures
        is_inf(a, dbl) && !is_zero(b, dbl) ==> fmul(a, b, dbl) == signed(
            neg(a, dbl) != neg(b, dbl),
            super::float_round::inf_bits(dbl),
            dbl,
        ),
        is_zero(a, dbl) && is_finite(b, dbl) ==> fmul(a, b, dbl) == signed(
            neg(a, dbl) != neg(b, dbl),
            0,
            dbl,
        ),
        is_zero(b, dbl) && is_finite(a, dbl) && !is_zero(a, dbl) ==> fdiv(a, b, dbl) == signed(
            neg(a, dbl) != neg(b, dbl),
            super::float_round::inf_bits(dbl),
            dbl,
        ),
        is_inf(a, dbl) && is_zero(b, dbl) ==> fmul(a, b, dbl) == default_nan(dbl),
        is_zero(a, dbl) && is_zero(b, dbl) ==> fdiv(a, b, dbl) == default_nan(dbl),
        is_inf(a, dbl) && is_inf(b, dbl) ==> fdiv(a, b, dbl) == default_nan(dbl),
{
}

/// A rounded quotient is a nearest whole number, the even one of two.
pub proof fn nearest_is_nearest(n: nat, d: nat)
    requires
        d > 0,
    ensures
        2 * (nearest(n, d) * d - n) <= d,
        2 * (n - nearest(n, d) * d) <= d,
        2 * (n - nearest(n, d) * d) == d || 2 * (nearest(n, d) * d - n) == d ==> nearest(n, d) % 2 == 0,
{
    vstd::arithmetic::div_mod::lemma_fundamental_div_mod(n as int, d as int);
    let (q, r) = (n / d, n % d);
    assert((q + 1) * d == q * d + d) by (nonlinear_arith);
    assert(d * q == q * d) by (nonlinear_arith);
}

/// The four flags of a comparison: less, equal, greater, and unordered where an operand
/// is not a number. Exactly one of the four holds.
pub proof fn comparison_flags(a: u64, b: u64, dbl: bool)
    ensures
        is_nan(a, dbl) || is_nan(b, dbl) ==> order_bits(a, b, dbl) == 0x3000_0000,
        !is_nan(a, dbl) && !is_nan(b, dbl) ==> {
            &&& key(a, dbl) < key(b, dbl) ==> order_bits(a, b, dbl) == 0x8000_0000
            &&& key(a, dbl) == key(b, dbl) ==> order_bits(a, b, dbl) == 0x6000_0000
            &&& key(a, dbl) > key(b, dbl) ==> order_bits(a, b, dbl) == 0x2000_0000
        },
{
}

/// A whole number of a float, in each rounding: at most one away from it on the side
/// that the rounding names.
pub proof fn whole_numbers(b: u64, dbl: bool, mode: Rounding)
    requires
        is_finite(b, dbl),
        ex(b, dbl) < 0,
    ensures
        ({
            let d = pow2((-ex(b, dbl)) as nat) as int;
            let x = with_sign(neg(b, dbl), sig(b, dbl));
            let v = to_int(b, dbl, mode);
            &&& d > 0
            &&& mode == Rounding::Down ==> v * d <= x < v * d + d
            &&& mode == Rounding::Up ==> v * d - d < x <= v * d
            &&& mode == Rounding::Zero && x >= 0 ==> v * d <= x < v * d + d
            &&& mode == Rounding::Zero && x <= 0 ==> v * d - d < x <= v * d
            &&& mode == Rounding::Nearest ==> -d <= 2 * (v * d - x) <= d
        }),
{
    let d = pow2((-ex(b, dbl)) as nat);
    vstd::arithmetic::power2::lemma_pow2_pos((-ex(b, dbl)) as nat);
    let m = sig(b, dbl);
    vstd::arithmetic::div_mod::lemma_fundamental_div_mod(m as int, d as int);
    nearest_is_nearest(m, d);
    let q = (m / d) as int;
    let v = to_int(b, dbl, mode);
    let k = nearest(m, d) as int;
    assert((-q) * d == -(q * d) && (-(q + 1)) * d == -(q * d) - d && (q + 1) * d == q * d + d && d * q
        == q * d && (-k) * d == -(k * d)) by (nonlinear_arith);
}

/// Out of range, a conversion to a word gives the word next to the number; not a number
/// gives zero.
pub proof fn words_of_floats(b: u64, dbl: bool, mode: Rounding)
    ensures
        is_nan(b, dbl) ==> word_of_float(b, dbl, mode, true).0 == 0 && word_of_float(
            b,
            dbl,
            mode,
            false,
        ).0 == 0,
        is_finite(b, dbl) ==> {
            let v = to_int(b, dbl, mode);
            &&& word_of_float(b, dbl, mode, true).0 == if v < 0 {
                0
            } else if v > 0xffff_ffff {
                0xffff_ffff
            } else {
                v
            }
            &&& word_of_float(b, dbl, mode, false).0 == (if v < -0x8000_0000 {
                -0x8000_0000
            } else if v > 0x7fff_ffff {
                0x7fff_ffff
            } else {
                v
            }) % 0x1_0000_0000
        },
{
    let v = to_int(b, dbl, mode);
    super::numbers::sign_casts(0, 0, 0, 0, v as i32, 0);
}

} // verus!
