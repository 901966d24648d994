//! Binary floating point on bit patterns: decoding, arithmetic, comparison and
//! conversion, rounded to nearest with ties to even.
//!
//! Both formats share one set of functions. A flag names the format: `true`
//! for 64 bits, `false` for 32, whose patterns stand in the low half.

use super::float_round::{
    bit_length, emin, inf_bits, mant, nearest, offset, power, round_pack, rounded, top, truncates,
    unit,
};
use vstd::arithmetic::div_mod::{lemma_fundamental_div_mod, lemma_fundamental_div_mod_converse};
use vstd::arithmetic::power2::{
    lemma2_to64, lemma2_to64_rest, lemma_pow2_adds, lemma_pow2_pos, lemma_pow2_strictly_increases,
    lemma_pow2_unfold, pow2,
};
use vstd::prelude::*;

verus! {

/// The weight of the sign bit.
pub open spec fn sign_bit(dbl: bool) -> nat {
    if dbl {
        0x8000_0000_0000_0000
    } else {
        0x8000_0000
    }
}

/// The weight of the lowest exponent bit.
pub open spec fn hidden(dbl: bool) -> nat {
    if dbl {
        0x10_0000_0000_0000
    } else {
        0x80_0000
    }
}

/// The weight of the bit that makes a not-a-number quiet.
pub open spec fn quiet_bit(dbl: bool) -> nat {
    if dbl {
        0x8_0000_0000_0000
    } else {
        0x40_0000
    }
}

/// The sign of a pattern.
pub open spec fn neg(b: u64, dbl: bool) -> bool {
    (b as nat / sign_bit(dbl)) % 2 == 1
}

/// A pattern without its sign.
pub open spec fn mag(b: u64, dbl: bool) -> nat {
    b as nat % sign_bit(dbl)
}

/// A magnitude with a sign.
pub open spec fn signed(n: bool, m: nat, dbl: bool) -> u64 {
    if n {
        (m + sign_bit(dbl)) as u64
    } else {
        m as u64
    }
}

/// Not a number.
pub open spec fn is_nan(b: u64, dbl: bool) -> bool {
    mag(b, dbl) > inf_bits(dbl)
}

/// An infinity.
pub open spec fn is_inf(b: u64, dbl: bool) -> bool {
    mag(b, dbl) == inf_bits(dbl)
}

/// A number that is no infinity.
pub open spec fn is_finite(b: u64, dbl: bool) -> bool {
    mag(b, dbl) < inf_bits(dbl)
}

/// A zero of either sign.
pub open spec fn is_zero(b: u64, dbl: bool) -> bool {
    mag(b, dbl) == 0
}

/// A zero, or a number below the normal range.
pub open spec fn is_tiny(b: u64, dbl: bool) -> bool {
    mag(b, dbl) < hidden(dbl)
}

/// A not-a-number that signals.
pub open spec fn is_snan(b: u64, dbl: bool) -> bool {
    is_nan(b, dbl) && (b as nat / quiet_bit(dbl)) % 2 == 0
}

/// A finite number is `sig * 2^ex`, up to its sign.
pub open spec fn sig(b: u64, dbl: bool) -> nat {
    let m = mag(b, dbl);
    if m < hidden(dbl) {
        m
    } else {
        m % hidden(dbl) + hidden(dbl)
    }
}

/// The exponent of a finite number.
pub open spec fn ex(b: u64, dbl: bool) -> int {
    let m = mag(b, dbl);
    if m < hidden(dbl) {
        emin(dbl)
    } else {
        emin(dbl) + m / hidden(dbl) - 1
    }
}

/// The quiet not-a-number that invalid operations give.
pub open spec fn default_nan(dbl: bool) -> u64 {
    (inf_bits(dbl) + quiet_bit(dbl)) as u64
}

/// A not-a-number made quiet.
pub open spec fn quieted(b: u64, dbl: bool) -> u64 {
    if is_snan(b, dbl) {
        (b + quiet_bit(dbl)) as u64
    } else {
        b
    }
}

/// The first not-a-number of two operands, made quiet.
pub open spec fn first_nan(a: u64, b: u64, dbl: bool) -> u64 {
    if is_nan(a, dbl) {
        quieted(a, dbl)
    } else {
        quieted(b, dbl)
    }
}

/// The place of a number on the number line: patterns of one sign are ordered
/// like the numbers that they stand for.
pub open spec fn key(b: u64, dbl: bool) -> int {
    if neg(b, dbl) {
        -(mag(b, dbl) as int)
    } else {
        mag(b, dbl) as int
    }
}

/// Numeric less-than; false where an operand is not a number.
pub open spec fn flt(a: u64, b: u64, dbl: bool) -> bool {
    !is_nan(a, dbl) && !is_nan(b, dbl) && key(a, dbl) < key(b, dbl)
}

/// Numeric equality; false where an operand is not a number.
pub open spec fn feq(a: u64, b: u64, dbl: bool) -> bool {
    !is_nan(a, dbl) && !is_nan(b, dbl) && key(a, dbl) == key(b, dbl)
}

/// The pattern with the other sign.
pub open spec fn fneg(b: u64, dbl: bool) -> u64 {
    signed(!neg(b, dbl), mag(b, dbl), dbl)
}

/// The pattern without a sign.
pub open spec fn fabs(b: u64, dbl: bool) -> u64 {
    mag(b, dbl) as u64
}

/// `n` with a sign.
pub open spec fn with_sign(n: bool, m: nat) -> int {
    if n {
        -(m as int)
    } else {
        m as int
    }
}

/// The exact sum of two signed dyadic numbers, in units of the smaller power.
pub open spec fn exact_sum(na: bool, ma: nat, ea: int, nb: bool, mb: nat, eb: int) -> int {
    if ea >= eb {
        with_sign(na, ma * pow2((ea - eb) as nat)) + with_sign(nb, mb)
    } else {
        with_sign(na, ma) + with_sign(nb, mb * pow2((eb - ea) as nat))
    }
}

/// The absolute value of a number.
pub open spec fn abs(v: int) -> nat {
    if v < 0 {
        (-v) as nat
    } else {
        v as nat
    }
}

/// The rounded sum of two signed dyadic numbers. A sum of zero is positive
/// unless both are negative.
pub open spec fn sum_of(na: bool, ma: nat, ea: int, nb: bool, mb: nat, eb: int, dbl: bool) -> u64 {
    let v = exact_sum(na, ma, ea, nb, mb, eb);
    let e = if ea >= eb {
        eb
    } else {
        ea
    };
    if v == 0 {
        signed(na && nb, 0, dbl)
    } else {
        signed(v < 0, rounded(abs(v), 1, e, dbl), dbl)
    }
}

/// Addition.
pub open spec fn fadd(a: u64, b: u64, dbl: bool) -> u64 {
    if is_nan(a, dbl) || is_nan(b, dbl) {
        first_nan(a, b, dbl)
    } else if is_inf(a, dbl) {
        if is_inf(b, dbl) && neg(a, dbl) != neg(b, dbl) {
            default_nan(dbl)
        } else {
            a
        }
    } else if is_inf(b, dbl) {
        b
    } else {
        sum_of(
            neg(a, dbl),
            sig(a, dbl),
            ex(a, dbl),
            neg(b, dbl),
            sig(b, dbl),
            ex(b, dbl),
            dbl,
        )
    }
}

/// Subtraction.
pub open spec fn fsub(a: u64, b: u64, dbl: bool) -> u64 {
    if is_nan(a, dbl) || is_nan(b, dbl) {
        first_nan(a, b, dbl)
    } else {
        fadd(a, fneg(b, dbl), dbl)
    }
}

/// Multiplication.
pub open spec fn fmul(a: u64, b: u64, dbl: bool) -> u64 {
    let n = neg(a, dbl) != neg(b, dbl);
    if is_nan(a, dbl) || is_nan(b, dbl) {
        first_nan(a, b, dbl)
    } else if is_inf(a, dbl) || is_inf(b, dbl) {
        if is_zero(a, dbl) || is_zero(b, dbl) {
            default_nan(dbl)
        } else {
            signed(n, inf_bits(dbl), dbl)
        }
    } else if is_zero(a, dbl) || is_zero(b, dbl) {
        signed(n, 0, dbl)
    } else {
        signed(
            n,
            rounded(sig(a, dbl) * sig(b, dbl), 1, ex(a, dbl) + ex(b, dbl), dbl),
            dbl,
        )
    }
}

/// Division.
pub open spec fn fdiv(a: u64, b: u64, dbl: bool) -> u64 {
    let n = neg(a, dbl) != neg(b, dbl);
    if is_nan(a, dbl) || is_nan(b, dbl) {
        first_nan(a, b, dbl)
    } else if is_inf(a, dbl) {
        if is_inf(b, dbl) {
            default_nan(dbl)
        } else {
            signed(n, inf_bits(dbl), dbl)
        }
    } else if is_inf(b, dbl) {
        signed(n, 0, dbl)
    } else if is_zero(b, dbl) {
        if is_zero(a, dbl) {
            default_nan(dbl)
        } else {
            signed(n, inf_bits(dbl), dbl)
        }
    } else if is_zero(a, dbl) {
        signed(n, 0, dbl)
    } else {
        signed(n, rounded(sig(a, dbl), sig(b, dbl), ex(a, dbl) - ex(b, dbl), dbl), dbl)
    }
}

/// Multiplication and addition with a single rounding.
pub open spec fn ffma(a: u64, b: u64, c: u64, dbl: bool) -> u64 {
    let n = neg(a, dbl) != neg(b, dbl);
    if is_nan(a, dbl) || is_nan(b, dbl) {
        first_nan(a, b, dbl)
    } else if is_nan(c, dbl) {
        quieted(c, dbl)
    } else if is_inf(a, dbl) || is_inf(b, dbl) {
        if is_zero(a, dbl) || is_zero(b, dbl) || (is_inf(c, dbl) && neg(c, dbl) != n) {
            default_nan(dbl)
        } else {
            signed(n, inf_bits(dbl), dbl)
        }
    } else if is_inf(c, dbl) {
        c
    } else {
        sum_of(
            n,
            sig(a, dbl) * sig(b, dbl),
            ex(a, dbl) + ex(b, dbl),
            neg(c, dbl),
            sig(c, dbl),
            ex(c, dbl),
            dbl,
        )
    }
}

/// The integer square root.
pub open spec fn is_root(y: nat, q: nat) -> bool {
    q * q <= y < (q + 1) * (q + 1)
}

/// Whether the square root of `m * 2^e` has `mant + 1` digits above `2^u`.
pub open spec fn is_root_ulp(m: nat, e: int, dbl: bool, u: int) -> bool {
    &&& e - 2 * u >= 0
    &&& pow2(2 * mant(dbl)) <= m * pow2((e - 2 * u) as nat) < pow2(2 * mant(dbl) + 2)
}

/// The encoding of the square root of `m * 2^e`, rounded to nearest: `q` units
/// fit under the root, and the root lies above their middle exactly where the
/// radicand exceeds `q^2 + q`.
pub open spec fn root_bits(m: nat, e: int, dbl: bool) -> nat {
    let u = choose|u: int| is_root_ulp(m, e, dbl, u);
    let y = m * pow2((e - 2 * u) as nat);
    let q = choose|q: nat| is_root(y, q);
    ((u - emin(dbl)) * hidden(dbl) + (if y > q * q + q {
        q + 1
    } else {
        q
    })) as nat
}

/// Square root.
pub open spec fn fsqrt(a: u64, dbl: bool) -> u64 {
    if is_nan(a, dbl) {
        quieted(a, dbl)
    } else if is_zero(a, dbl) {
        a
    } else if neg(a, dbl) {
        default_nan(dbl)
    } else if is_inf(a, dbl) {
        a
    } else {
        root_bits(sig(a, dbl), ex(a, dbl), dbl) as u64
    }
}

/// The greater of two numbers; the other operand where one is not a number.
pub open spec fn fmax(a: u64, b: u64, dbl: bool) -> u64 {
    if is_nan(a, dbl) {
        b
    } else if is_nan(b, dbl) || key(a, dbl) >= key(b, dbl) {
        a
    } else {
        b
    }
}

/// The smaller of two numbers; the other operand where one is not a number.
pub open spec fn fmin(a: u64, b: u64, dbl: bool) -> u64 {
    if is_nan(a, dbl) {
        b
    } else if is_nan(b, dbl) || key(a, dbl) <= key(b, dbl) {
        a
    } else {
        b
    }
}

/// An integer as a floating-point number.
pub open spec fn of_int(v: int, dbl: bool) -> u64 {
    if v == 0 {
        0
    } else {
        signed(v < 0, rounded(abs(v), 1, 0, dbl), dbl)
    }
}

/// A 32-bit number as a 64-bit one.
pub open spec fn widened(b: u32) -> u64 {
    let a = b as u64;
    let n = neg(a, false);
    if is_nan(a, false) {
        signed(
            n,
            (inf_bits(true) + quiet_bit(true) + ((mag(a, false) - inf_bits(false)) % 0x40_0000)
                * 0x2000_0000) as nat,
            true,
        )
    } else if is_inf(a, false) {
        signed(n, inf_bits(true), true)
    } else if is_zero(a, false) {
        signed(n, 0, true)
    } else {
        signed(n, rounded(sig(a, false), 1, ex(a, false), true), true)
    }
}

/// A 64-bit number as a 32-bit one.
pub open spec fn narrowed(a: u64) -> u32 {
    let n = neg(a, true);
    (if is_nan(a, true) {
        signed(
            n,
            (inf_bits(false) + quiet_bit(false) + ((mag(a, true) - inf_bits(true)) / 0x2000_0000)
                % 0x40_0000) as nat,
            false,
        )
    } else if is_inf(a, true) {
        signed(n, inf_bits(false), false)
    } else if is_zero(a, true) {
        signed(n, 0, false)
    } else {
        signed(n, rounded(sig(a, true), 1, ex(a, true), false), false)
    }) as u32
}

/// How a conversion to an integer rounds.
#[derive(Debug, Clone, Copy, PartialEq, Eq, Structural)]
pub enum Rounding {
    Nearest,
    Up,
    Down,
    Zero,
}

/// A finite number rounded to an integer.
pub open spec fn to_int(b: u64, dbl: bool, mode: Rounding) -> int {
    let m = sig(b, dbl);
    let n = neg(b, dbl);
    if ex(b, dbl) >= 0 {
        with_sign(n, m * pow2(ex(b, dbl) as nat))
    } else {
        let d = pow2((-ex(b, dbl)) as nat);
        let up = (m / d + (if m % d == 0 {
            0nat
        } else {
            1
        })) as nat;
        match mode {
            Rounding::Nearest => with_sign(n, nearest(m, d)),
            Rounding::Zero => with_sign(n, m / d),
            Rounding::Up => with_sign(
                n,
                if n {
                    m / d
                } else {
                    up
                },
            ),
            Rounding::Down => with_sign(
                n,
                if n {
                    up
                } else {
                    m / d
                },
            ),
        }
    }
}

/// Whether a finite number is an integer.
pub open spec fn is_whole(b: u64, dbl: bool) -> bool {
    ex(b, dbl) >= 0 || sig(b, dbl) % pow2((-ex(b, dbl)) as nat) == 0
}

fn format(dbl: bool) -> (r: (u64, u64, u64, u64))
    ensures
        r == (
            sign_bit(dbl) as u64,
            hidden(dbl) as u64,
            quiet_bit(dbl) as u64,
            inf_bits(dbl) as u64,
        ),
{
    if dbl {
        (0x8000_0000_0000_0000, 0x10_0000_0000_0000, 0x8_0000_0000_0000, 0x7ff0_0000_0000_0000)
    } else {
        (0x8000_0000, 0x80_0000, 0x40_0000, 0x7f80_0000)
    }
}

/// Whether a pattern fits its format.
pub open spec fn fits(b: u64, dbl: bool) -> bool {
    dbl || b <= 0xffff_ffff
}

pub(crate) fn is_negative(b: u64, dbl: bool) -> (r: bool)
    ensures
        r == neg(b, dbl),
{
    if dbl {
        (b / 0x8000_0000_0000_0000) % 2 == 1
    } else {
        (b / 0x8000_0000) % 2 == 1
    }
}

pub(crate) fn magnitude(b: u64, dbl: bool) -> (r: u64)
    ensures
        r == mag(b, dbl),
{
    if dbl {
        b % 0x8000_0000_0000_0000
    } else {
        b % 0x8000_0000
    }
}

fn apply_sign(n: bool, m: u64, dbl: bool) -> (r: u64)
    requires
        m < sign_bit(dbl),
    ensures
        r == signed(n, m as nat, dbl),
        fits(r, dbl),
{
    if n {
        if dbl {
            m + 0x8000_0000_0000_0000
        } else {
            m + 0x8000_0000
        }
    } else {
        m
    }
}

pub(crate) fn nan(b: u64, dbl: bool) -> (r: bool)
    ensures
        r == is_nan(b, dbl),
{
    magnitude(b, dbl) > format(dbl).3
}

pub(crate) fn infinite(b: u64, dbl: bool) -> (r: bool)
    ensures
        r == is_inf(b, dbl),
{
    magnitude(b, dbl) == format(dbl).3
}

pub(crate) fn finite(b: u64, dbl: bool) -> (r: bool)
    ensures
        r == is_finite(b, dbl),
{
    magnitude(b, dbl) < format(dbl).3
}

pub(crate) fn zero(b: u64, dbl: bool) -> (r: bool)
    ensures
        r == is_zero(b, dbl),
{
    magnitude(b, dbl) == 0
}

pub(crate) fn tiny(b: u64, dbl: bool) -> (r: bool)
    ensures
        r == is_tiny(b, dbl),
{
    magnitude(b, dbl) < format(dbl).1
}

pub(crate) fn signaling_nan(b: u64, dbl: bool) -> (r: bool)
    ensures
        r == is_snan(b, dbl),
{
    nan(b, dbl) && (if dbl {
        (b / 0x8_0000_0000_0000) % 2 == 0
    } else {
        (b / 0x40_0000) % 2 == 0
    })
}

fn quieten(b: u64, dbl: bool) -> (r: u64)
    requires
        fits(b, dbl),
    ensures
        r == quieted(b, dbl),
        fits(r, dbl),
{
    if signaling_nan(b, dbl) {
        if dbl {
            let high = b / 0x8_0000_0000_0000;
            assert(high <= 8190);
            b + 0x8_0000_0000_0000
        } else {
            b + 0x40_0000
        }
    } else {
        b
    }
}

fn choose_nan(a: u64, b: u64, dbl: bool) -> (r: u64)
    requires
        fits(a, dbl),
        fits(b, dbl),
    ensures
        r == first_nan(a, b, dbl),
        fits(r, dbl),
{
    if nan(a, dbl) {
        quieten(a, dbl)
    } else {
        quieten(b, dbl)
    }
}

fn invalid(dbl: bool) -> (r: u64)
    ensures
        r == default_nan(dbl),
        fits(r, dbl),
{
    if dbl {
        0x7ff8_0000_0000_0000
    } else {
        0x7fc0_0000
    }
}

fn infinity(n: bool, dbl: bool) -> (r: u64)
    ensures
        r == signed(n, inf_bits(dbl), dbl),
        fits(r, dbl),
{
    apply_sign(n, format(dbl).3, dbl)
}

pub(crate) fn negate(b: u64, dbl: bool) -> (r: u64)
    ensures
        r == fneg(b, dbl),
        fits(r, dbl),
{
    apply_sign(!is_negative(b, dbl), magnitude(b, dbl), dbl)
}

fn significand(b: u64, dbl: bool) -> (r: u64)
    ensures
        r == sig(b, dbl),
        r < 2 * hidden(dbl),
        r == 0 <==> is_zero(b, dbl),
{
    let m = magnitude(b, dbl);
    if dbl {
        if m < 0x10_0000_0000_0000 {
            m
        } else {
            m % 0x10_0000_0000_0000 + 0x10_0000_0000_0000
        }
    } else if m < 0x80_0000 {
        m
    } else {
        m % 0x80_0000 + 0x80_0000
    }
}

fn exponent(b: u64, dbl: bool) -> (r: i32)
    requires
        is_finite(b, dbl),
    ensures
        r == ex(b, dbl),
        -1074 <= r <= 971,
{
    let m = magnitude(b, dbl);
    if dbl {
        if m < 0x10_0000_0000_0000 {
            -1074
        } else {
            (m / 0x10_0000_0000_0000) as i32 - 1075
        }
    } else if m < 0x80_0000 {
        -149
    } else {
        (m / 0x80_0000) as i32 - 150
    }
}

fn order_key(b: u64, dbl: bool) -> (r: i128)
    ensures
        r == key(b, dbl),
{
    let m = magnitude(b, dbl) as i128;
    if is_negative(b, dbl) {
        -m
    } else {
        m
    }
}

pub(crate) fn less(a: u64, b: u64, dbl: bool) -> (r: bool)
    ensures
        r == flt(a, b, dbl),
{
    !nan(a, dbl) && !nan(b, dbl) && order_key(a, dbl) < order_key(b, dbl)
}

pub(crate) fn equal(a: u64, b: u64, dbl: bool) -> (r: bool)
    ensures
        r == feq(a, b, dbl),
{
    !nan(a, dbl) && !nan(b, dbl) && order_key(a, dbl) == order_key(b, dbl)
}

pub(crate) fn maximum(a: u64, b: u64, dbl: bool) -> (r: u64)
    ensures
        r == fmax(a, b, dbl),
{
    if nan(a, dbl) {
        b
    } else if nan(b, dbl) || order_key(a, dbl) >= order_key(b, dbl) {
        a
    } else {
        b
    }
}

pub(crate) fn minimum(a: u64, b: u64, dbl: bool) -> (r: u64)
    ensures
        r == fmin(a, b, dbl),
{
    if nan(a, dbl) {
        b
    } else if nan(b, dbl) || order_key(a, dbl) <= order_key(b, dbl) {
        a
    } else {
        b
    }
}

/// An exact dyadic value truncates to itself.
proof fn exact_truncates(m: nat, e: int)
    requires
        e + offset() >= 0,
    ensures
        truncates(m, 1, e, m, e, false),
{
    let p = pow2((e + offset()) as nat);
    lemma_pow2_pos((e + offset()) as nat);
    assert(1 * p == p);
    lemma_fundamental_div_mod_converse((m * p) as int, p as int, m as int, 0);
}

fn round_exact(m: u128, e: i32, dbl: bool) -> (r: u64)
    requires
        0 < m < 0x8000_0000_0000_0000_0000_0000_0000_0000,
        -6000 <= e <= 6000,
    ensures
        r == rounded(m as nat, 1, e as int, dbl),
        r <= inf_bits(dbl),
{
    proof {
        exact_truncates(m as nat, e as int);
    }
    round_pack(m, e, false, dbl, Ghost(m as nat), Ghost(1), Ghost(e as int))
}

/// How a value that lies far above another one truncates together with it.
proof fn far_sum(m1: nat, m2: nat, shift: nat, e2: int, plus: bool)
    requires
        m1 > 0,
        m2 > 0,
        shift > 70,
        m2 < pow2(shift),
        e2 + offset() >= 0,
    ensures
        ({
            let p = pow2((shift - 70) as nat);
            let v: int = if plus {
                (m1 * pow2(shift) + m2) as int
            } else {
                m1 * pow2(shift) - m2
            };
            let q = m2 / p;
            let r = m2 % p;
            let s: int = if plus {
                (m1 * pow2(70) + q) as int
            } else if r == 0 {
                m1 * pow2(70) - q
            } else {
                m1 * pow2(70) - q - 1
            };
            &&& v > 0
            &&& s >= 0
            &&& truncates(v as nat, 1, e2, s as nat, e2 + shift - 70, r != 0)
        }),
{
    let k = (shift - 70) as nat;
    let p = pow2(k);
    let q = m2 / p;
    let r = m2 % p;
    let c = pow2((e2 + offset()) as nat);
    let big = pow2(70);
    lemma_pow2_pos(k);
    lemma_pow2_pos((e2 + offset()) as nat);
    lemma_pow2_pos(70);
    lemma_pow2_adds(70, k);
    lemma_pow2_adds((e2 + offset()) as nat, k);
    lemma_fundamental_div_mod(m2 as int, p as int);
    let whole = m1 * pow2(shift);
    assert(whole == (m1 * big) * p) by (nonlinear_arith)
        requires
            whole == m1 * (big * p),
    ;
    assert(whole >= pow2(shift)) by (nonlinear_arith)
        requires
            whole == m1 * pow2(shift),
            m1 >= 1,
    ;
    assert(q < big) by (nonlinear_arith)
        requires
            m2 == p * q + r,
            r >= 0,
            m2 < big * p,
            p > 0,
    ;
    assert(m1 * big >= big) by (nonlinear_arith)
        requires
            m1 >= 1,
            big > 0,
    ;
    let v = if plus {
        whole + m2
    } else {
        (whole - m2) as nat
    };
    let s = if plus {
        m1 * big + q
    } else if r == 0 {
        (m1 * big - q) as nat
    } else {
        (m1 * big - q - 1) as nat
    };
    let rest = if plus || r == 0 {
        r
    } else {
        (p - r) as nat
    };
    assert(v == s * p + rest) by (nonlinear_arith)
        requires
            whole == (m1 * big) * p,
            m2 == p * q + r,
            v == (if plus {
                whole + m2
            } else {
                (whole - m2) as nat
            }),
            whole >= m2,
            s == (if plus {
                m1 * big + q
            } else if r == 0 {
                (m1 * big - q) as nat
            } else {
                (m1 * big - q - 1) as nat
            }),
            m1 * big >= q + 1,
            rest == (if plus || r == 0 {
                r
            } else {
                (p - r) as nat
            }),
            r < p,
    ;
    scaled_truncation(v, s, p, rest, c);
    assert(unit(1, e2 + shift - 70) == p * c) by (nonlinear_arith)
        requires
            unit(1, e2 + shift - 70) == 1 * pow2((e2 + shift - 70 + offset()) as nat),
            pow2((e2 + shift - 70 + offset()) as nat) == c * p,
    ;
    assert(top(v, e2) == v * c);
}

/// Division is not changed by a common factor.
proof fn scaled_truncation(v: nat, s: nat, p: nat, rest: nat, c: nat)
    requires
        c > 0,
        p > 0,
        rest < p,
        v == s * p + rest,
    ensures
        (v * c) / (p * c) == s,
        (v * c) % (p * c) == rest * c,
        (rest * c == 0) == (rest == 0),
{
    assert(v * c == s * (p * c) + rest * c) by (nonlinear_arith)
        requires
            v == s * p + rest,
    ;
    assert(0 <= rest * c < p * c) by (nonlinear_arith)
        requires
            0 <= rest < p,
            c > 0,
    ;
    assert((rest * c == 0) == (rest == 0)) by (nonlinear_arith)
        requires
            c > 0,
            rest >= 0,
    ;
    lemma_fundamental_div_mod_converse(
        (v * c) as int,
        (p * c) as int,
        s as int,
        (rest * c) as int,
    );
}

/// Adds two dyadic numbers, the first one with the greater exponent.
fn add_ordered(
    n1: bool,
    m1: u64,
    e1: i32,
    n2: bool,
    m2: u64,
    e2: i32,
    dbl: bool,
) -> (r: u64)
    requires
        m1 < 0x20_0000_0000_0000,
        m2 < 0x20_0000_0000_0000,
        -2200 <= e2 <= e1 <= 2000,
    ensures
        r == sum_of(n1, m1 as nat, e1 as int, n2, m2 as nat, e2 as int, dbl),
        fits(r, dbl),
{
    let shift = (e1 - e2) as u32;
    let ghost whole = m1 as nat * pow2(shift as nat);
    if shift <= 70 {
        proof {
            lemma_pow2_pos(shift as nat);
            lemma2_to64_rest();
            lemma_pow2_adds(64, 6);
            lemma2_to64();
            if shift < 70 {
                lemma_pow2_strictly_increases(shift as nat, 70);
            }
            assert(whole <= 0x20_0000_0000_0000 * 0x40_0000_0000_0000_0000) by (nonlinear_arith)
                requires
                    whole == m1 * pow2(shift as nat),
                    0 <= m1 <= 0x20_0000_0000_0000,
                    0 <= pow2(shift as nat) <= 0x40_0000_0000_0000_0000,
            ;
        }
        let big = (m1 as u128 * power(shift)) as i128;
        let small = m2 as i128;
        let v = (if n1 {
            -big
        } else {
            big
        }) + (if n2 {
            -small
        } else {
            small
        });
        if v == 0 {
            return apply_sign(n1 && n2, 0, dbl);
        }
        let a = (if v < 0 {
            -v
        } else {
            v
        }) as u128;
        let bits = round_exact(a, e2, dbl);
        return apply_sign(v < 0, bits, dbl);
    }
    if m1 == 0 {
        proof {
            assert(whole == 0) by (nonlinear_arith)
                requires
                    whole == 0 * pow2(shift as nat),
            ;
        }
        if m2 == 0 {
            return apply_sign(n1 && n2, 0, dbl);
        }
        let bits = round_exact(m2 as u128, e2, dbl);
        return apply_sign(n2, bits, dbl);
    }
    proof {
        lemma2_to64_rest();
        lemma_pow2_strictly_increases(64, shift as nat);
        assert(whole >= pow2(shift as nat)) by (nonlinear_arith)
            requires
                whole == m1 * pow2(shift as nat),
                m1 >= 1,
        ;
    }
    if m2 == 0 {
        proof {
            same_value(m1 as nat, shift as nat, e2 as int);
        }
        let bits = round_pack(
            m1 as u128,
            e1,
            false,
            dbl,
            Ghost(whole),
            Ghost(1),
            Ghost(e2 as int),
        );
        return apply_sign(n1, bits, dbl);
    }
    let k = shift - 70;
    let (q, exact) = if k >= 64 {
        proof {
            if k > 64 {
                lemma_pow2_strictly_increases(64, k as nat);
            }
            lemma_fundamental_div_mod_converse(
                m2 as int,
                pow2(k as nat) as int,
                0,
                m2 as int,
            );
        }
        (0u128, false)
    } else {
        let p = power(k);
        proof {
            lemma_fundamental_div_mod(m2 as int, p as int);
            lemma_pow2_pos(k as nat);
        }
        (m2 as u128 / p, m2 as u128 % p == 0)
    };
    let plus = n1 == n2;
    proof {
        far_sum(m1 as nat, m2 as nat, shift as nat, e2 as int, plus);
        lemma_pow2_adds(64, 6);
        lemma2_to64();
        assert(q <= m2) by (nonlinear_arith)
            requires
                q == m2 as int / pow2(k as nat) as int,
                pow2(k as nat) >= 1,
                m2 >= 0,
        ;
        lemma_pow2_pos(k as nat);
        assert(m1 * 0x40_0000_0000_0000_0000 <= 0x20_0000_0000_0000 * 0x40_0000_0000_0000_0000
            && m1 * 0x40_0000_0000_0000_0000 >= 0x40_0000_0000_0000_0000) by (nonlinear_arith)
            requires
                1 <= m1 <= 0x20_0000_0000_0000,
        ;
        lemma_pow2_adds(mant(dbl), 2);
    }
    let high = m1 as u128 * 0x40_0000_0000_0000_0000;
    let s = if plus {
        high + q
    } else if exact {
        high - q
    } else {
        high - q - 1
    };
    let ghost v = if plus {
        whole + m2 as nat
    } else {
        (whole - m2) as nat
    };
    let bits = round_pack(s, e1 - 70, !exact, dbl, Ghost(v), Ghost(1), Ghost(e2 as int));
    apply_sign(n1, bits, dbl)
}

proof fn same_value(m: nat, shift: nat, e2: int)
    requires
        e2 + offset() >= 0,
    ensures
        truncates(m * pow2(shift), 1, e2, m, e2 + shift, false),
{
    let c = pow2((e2 + offset()) as nat);
    lemma_pow2_adds((e2 + offset()) as nat, shift);
    lemma_pow2_pos((e2 + offset() + shift) as nat);
    let d = pow2((e2 + shift + offset()) as nat);
    assert((m * pow2(shift)) * c == m * d) by (nonlinear_arith)
        requires
            d == c * pow2(shift),
    ;
    assert(1 * d == d);
    lemma_fundamental_div_mod_converse((m * d) as int, d as int, m as int, 0);
}

fn add_parts(n1: bool, m1: u64, e1: i32, n2: bool, m2: u64, e2: i32, dbl: bool) -> (r: u64)
    requires
        m1 < 0x20_0000_0000_0000,
        m2 < 0x20_0000_0000_0000,
        -2200 <= e2 <= 2000,
        -2200 <= e1 <= 2000,
    ensures
        r == sum_of(n1, m1 as nat, e1 as int, n2, m2 as nat, e2 as int, dbl),
        fits(r, dbl),
{
    if e1 >= e2 {
        add_ordered(n1, m1, e1, n2, m2, e2, dbl)
    } else {
        add_ordered(n2, m2, e2, n1, m1, e1, dbl)
    }
}

pub(crate) fn plus(a: u64, b: u64, dbl: bool) -> (r: u64)
    requires
        fits(a, dbl),
        fits(b, dbl),
    ensures
        r == fadd(a, b, dbl),
        fits(r, dbl),
{
    if nan(a, dbl) || nan(b, dbl) {
        return choose_nan(a, b, dbl);
    }
    if infinite(a, dbl) {
        return if infinite(b, dbl) && is_negative(a, dbl) != is_negative(b, dbl) {
            invalid(dbl)
        } else {
            a
        };
    }
    if infinite(b, dbl) {
        return b;
    }
    add_parts(
        is_negative(a, dbl),
        significand(a, dbl),
        exponent(a, dbl),
        is_negative(b, dbl),
        significand(b, dbl),
        exponent(b, dbl),
        dbl,
    )
}

pub(crate) fn minus(a: u64, b: u64, dbl: bool) -> (r: u64)
    requires
        fits(a, dbl),
        fits(b, dbl),
    ensures
        r == fsub(a, b, dbl),
        fits(r, dbl),
{
    if nan(a, dbl) || nan(b, dbl) {
        return choose_nan(a, b, dbl);
    }
    plus(a, negate(b, dbl), dbl)
}

proof fn product_bound(a: u64, b: u64)
    requires
        a < 0x20_0000_0000_0000,
        b < 0x20_0000_0000_0000,
    ensures
        0 <= a * b < 0x400_0000_0000_0000_0000_0000_0000,
        a > 0 && b > 0 ==> a * b > 0,
{
    assert(0 <= a * b < 0x400_0000_0000_0000_0000_0000_0000) by (nonlinear_arith)
        requires
            0 <= a < 0x20_0000_0000_0000,
            0 <= b < 0x20_0000_0000_0000,
    ;
    if a > 0 && b > 0 {
        assert(a * b > 0) by (nonlinear_arith)
            requires
                a > 0,
                b > 0,
        ;
    }
}

pub(crate) fn times(a: u64, b: u64, dbl: bool) -> (r: u64)
    requires
        fits(a, dbl),
        fits(b, dbl),
    ensures
        r == fmul(a, b, dbl),
        fits(r, dbl),
{
    if nan(a, dbl) || nan(b, dbl) {
        return choose_nan(a, b, dbl);
    }
    let n = is_negative(a, dbl) != is_negative(b, dbl);
    if infinite(a, dbl) || infinite(b, dbl) {
        return if zero(a, dbl) || zero(b, dbl) {
            invalid(dbl)
        } else {
            infinity(n, dbl)
        };
    }
    if zero(a, dbl) || zero(b, dbl) {
        return apply_sign(n, 0, dbl);
    }
    let x = significand(a, dbl);
    let y = significand(b, dbl);
    proof {
        product_bound(x, y);
    }
    let bits = round_exact(
        x as u128 * y as u128,
        exponent(a, dbl) + exponent(b, dbl),
        dbl,
    );
    apply_sign(n, bits, dbl)
}

proof fn quotient_truncates(a: nat, b: nat, k: nat, e: int, q: nat, r: nat)
    requires
        b > 0,
        a * pow2(k) == q * b + r,
        r < b,
        e - k + offset() >= 0,
    ensures
        truncates(a, b, e, q, e - k, r != 0),
{
    let c = pow2((e - k + offset()) as nat);
    lemma_pow2_pos((e - k + offset()) as nat);
    lemma_pow2_adds((e - k + offset()) as nat, k);
    scaled_truncation(a * pow2(k), q, b, r, c);
    assert(top(a, e) == (a * pow2(k)) * c) by (nonlinear_arith)
        requires
            top(a, e) == a * (c * pow2(k)),
    ;
}

/// A dividend shifted up to 126 bits.
proof fn quotient_size(x: nat, len: nat)
    requires
        1 <= len,
        pow2((len - 1) as nat) <= x < pow2(len),
        x < 0x20_0000_0000_0000,
    ensures
        len <= 53,
        0x2000_0000_0000_0000_0000_0000_0000_0000 <= x * pow2((126 - len) as nat)
            < 0x4000_0000_0000_0000_0000_0000_0000_0000,
{
    lemma2_to64_rest();
    lemma2_to64();
    if len > 53 {
        if len - 1 > 53 {
            lemma_pow2_strictly_increases(53, (len - 1) as nat);
        }
        assert(false);
    }
    let k = (126 - len) as nat;
    lemma_pow2_adds((len - 1) as nat, k);
    lemma_pow2_adds(len, k);
    lemma_pow2_adds(64, 61);
    lemma_pow2_adds(64, 62);
    lemma_pow2_pos(k);
    assert(0x1_0000_0000_0000_0000 * 0x2000_0000_0000_0000
        == 0x2000_0000_0000_0000_0000_0000_0000_0000);
    assert(0x1_0000_0000_0000_0000 * 0x4000_0000_0000_0000
        == 0x4000_0000_0000_0000_0000_0000_0000_0000);
    assert(pow2((len - 1) as nat) * pow2(k) <= x * pow2(k) < pow2(len) * pow2(k))
        by (nonlinear_arith)
        requires
            pow2((len - 1) as nat) <= x < pow2(len),
            pow2(k) > 0,
    ;
}

/// The quotient of such a dividend has bits to spare.
proof fn quotient_large(n: nat, y: nat)
    requires
        n >= 0x2000_0000_0000_0000_0000_0000_0000_0000,
        0 < y < 0x20_0000_0000_0000,
    ensures
        n / y >= 0x80_0000_0000_0000_0000,
{
    lemma_fundamental_div_mod(n as int, y as int);
    let q = n / y;
    if q < 0x80_0000_0000_0000_0000 {
        assert(y * q + y <= 0x20_0000_0000_0000 * 0x80_0000_0000_0000_0000) by (nonlinear_arith)
            requires
                0 < y <= 0x20_0000_0000_0000,
                q + 1 <= 0x80_0000_0000_0000_0000,
        ;
        assert(false);
    }
}

pub(crate) fn over(a: u64, b: u64, dbl: bool) -> (r: u64)
    requires
        fits(a, dbl),
        fits(b, dbl),
    ensures
        r == fdiv(a, b, dbl),
        fits(r, dbl),
{
    if nan(a, dbl) || nan(b, dbl) {
        return choose_nan(a, b, dbl);
    }
    let n = is_negative(a, dbl) != is_negative(b, dbl);
    if infinite(a, dbl) {
        return if infinite(b, dbl) {
            invalid(dbl)
        } else {
            infinity(n, dbl)
        };
    }
    if infinite(b, dbl) {
        return apply_sign(n, 0, dbl);
    }
    if zero(b, dbl) {
        return if zero(a, dbl) {
            invalid(dbl)
        } else {
            infinity(n, dbl)
        };
    }
    if zero(a, dbl) {
        return apply_sign(n, 0, dbl);
    }
    let x = significand(a, dbl);
    let y = significand(b, dbl);
    let e = exponent(a, dbl) - exponent(b, dbl);
    let len = bit_length(x as u128);
    proof {
        quotient_size(x as nat, len as nat);
    }
    let k = 126 - len;
    let shifted = x as u128 * power(k);
    let q = shifted / y as u128;
    let rem = shifted % y as u128;
    proof {
        lemma_fundamental_div_mod(shifted as int, y as int);
        assert(x * pow2(k as nat) == q * y + rem) by (nonlinear_arith)
            requires
                x * pow2(k as nat) == y * q + rem,
        ;
        quotient_truncates(x as nat, y as nat, k as nat, e as int, q as nat, rem as nat);
        quotient_large(shifted as nat, y as nat);
        lemma2_to64_rest();
        lemma_pow2_adds(mant(dbl), 2);
        lemma2_to64();
    }
    let bits = round_pack(
        q,
        e - k as i32,
        rem != 0,
        dbl,
        Ghost(x as nat),
        Ghost(y as nat),
        Ghost(e as int),
    );
    apply_sign(n, bits, dbl)
}

pub(crate) fn fused(a: u64, b: u64, c: u64) -> (r: u64)
    requires
        fits(a, false),
        fits(b, false),
        fits(c, false),
    ensures
        r == ffma(a, b, c, false),
        fits(r, false),
{
    if nan(a, false) || nan(b, false) {
        return choose_nan(a, b, false);
    }
    if nan(c, false) {
        return quieten(c, false);
    }
    let n = is_negative(a, false) != is_negative(b, false);
    if infinite(a, false) || infinite(b, false) {
        return if zero(a, false) || zero(b, false) || (infinite(c, false) && is_negative(c, false)
            != n) {
            invalid(false)
        } else {
            infinity(n, false)
        };
    }
    if infinite(c, false) {
        return c;
    }
    let x = significand(a, false);
    let y = significand(b, false);
    assert(x * y < 0x1_0000_0000_0000) by (nonlinear_arith)
        requires
            0 <= x < 0x100_0000,
            0 <= y < 0x100_0000,
    ;
    add_parts(
        n,
        x * y,
        exponent(a, false) + exponent(b, false),
        is_negative(c, false),
        significand(c, false),
        exponent(c, false),
        false,
    )
}

/// There is only one integer square root.
proof fn root_unique(y: nat, p: nat, q: nat)
    requires
        is_root(y, p),
        is_root(y, q),
    ensures
        p == q,
{
    if p < q {
        assert((p + 1) * (p + 1) <= q * q) by (nonlinear_arith)
            requires
                p + 1 <= q,
        ;
    }
    if q < p {
        assert((q + 1) * (q + 1) <= p * p) by (nonlinear_arith)
            requires
                q + 1 <= p,
        ;
    }
}

/// There is only one unit for a square root.
proof fn root_ulp_unique(m: nat, e: int, dbl: bool, u: int, v: int)
    requires
        is_root_ulp(m, e, dbl, u),
        is_root_ulp(m, e, dbl, v),
    ensures
        u == v,
{
    root_ulp_ordered(m, e, dbl, u, v);
    root_ulp_ordered(m, e, dbl, v, u);
}

proof fn root_ulp_ordered(m: nat, e: int, dbl: bool, u: int, v: int)
    requires
        is_root_ulp(m, e, dbl, u),
        is_root_ulp(m, e, dbl, v),
    ensures
        u >= v,
{
    if u < v {
        let a = pow2((e - 2 * v) as nat);
        let k = (2 * (v - u) - 2) as nat;
        lemma_pow2_adds((e - 2 * v) as nat, k + 2);
        lemma_pow2_adds(k, 2);
        lemma_pow2_adds(2 * mant(dbl), 2);
        lemma_pow2_pos(k);
        lemma2_to64();
        let y = m * a;
        let b = pow2(k);
        assert(m * (a * (b * 4)) >= y * 4) by (nonlinear_arith)
            requires
                y == m * a,
                b >= 1,
                y >= 0,
        ;
    }
}

fn integer_root(y: u128) -> (r: u64)
    requires
        y < 0x400_0000_0000_0000_0000_0000_0000,
    ensures
        is_root(y as nat, r as nat),
        r < 0x20_0000_0000_0000,
{
    let mut q: u128 = 0;
    let mut step: u128 = 0x20_0000_0000_0000;
    let mut k: u32 = 53;
    proof {
        assert(0x20_0000_0000_0000 * 0x20_0000_0000_0000
            == 0x400_0000_0000_0000_0000_0000_0000);
        lemma2_to64_rest();
    }
    while k > 0
        invariant
            k <= 53,
            step == pow2(k as nat),
            1 <= step <= 0x20_0000_0000_0000,
            q + step <= 0x20_0000_0000_0000,
            q * q <= y,
            y < (q + step) * (q + step),
        decreases k,
    {
        proof {
            lemma_pow2_unfold(k as nat);
            lemma_pow2_pos((k - 1) as nat);
        }
        step = step / 2;
        k -= 1;
        let t = q + step;
        assert(t * t <= 0x400_0000_0000_0000_0000_0000_0000) by (nonlinear_arith)
            requires
                0 <= t <= 0x20_0000_0000_0000,
        ;
        if t * t <= y {
            q = t;
        }
    }
    proof {
        lemma2_to64();
    }
    q as u64
}

/// Where the radicand is scaled so that its root has all its digits.
proof fn root_scale(m: nat, len: nat, e: int, dbl: bool, k: nat)
    requires
        1 <= len,
        pow2((len - 1) as nat) <= m < pow2(len),
        len - 1 + k == 2 * mant(dbl) || len - 1 + k == 2 * mant(dbl) + 1,
        (e - k) % 2 == 0,
    ensures
        is_root_ulp(m, e, dbl, (e - k) / 2),
        m * pow2(k) < 0x400_0000_0000_0000_0000_0000_0000,
        m * pow2(k) >= pow2(2 * mant(dbl)),
{
    lemma_pow2_adds((len - 1) as nat, k);
    lemma_pow2_adds(len, k);
    lemma_pow2_pos(k);
    assert(pow2((len - 1) as nat) * pow2(k) <= m * pow2(k) < pow2(len) * pow2(k))
        by (nonlinear_arith)
        requires
            pow2((len - 1) as nat) <= m < pow2(len),
            pow2(k) > 0,
    ;
    let t = 2 * mant(dbl);
    if len - 1 + k > t {
        lemma_pow2_strictly_increases(t, (len - 1 + k) as nat);
    }
    if len + k < t + 2 {
        lemma_pow2_strictly_increases((len + k) as nat, t + 2);
    }
    lemma2_to64_rest();
    lemma2_to64();
    lemma_pow2_adds(53, 53);
    assert(0x20_0000_0000_0000 * 0x20_0000_0000_0000 == 0x400_0000_0000_0000_0000_0000_0000);
    if t + 2 < 106 {
        lemma_pow2_strictly_increases(t + 2, 106);
    }
    let u = (e - k) / 2;
    assert(e - 2 * u == k);
}

pub(crate) fn root(a: u64, dbl: bool) -> (r: u64)
    requires
        fits(a, dbl),
    ensures
        r == fsqrt(a, dbl),
        fits(r, dbl),
{
    if nan(a, dbl) {
        return quieten(a, dbl);
    }
    if zero(a, dbl) {
        return a;
    }
    if is_negative(a, dbl) {
        return invalid(dbl);
    }
    if infinite(a, dbl) {
        return a;
    }
    let m = significand(a, dbl);
    let e = exponent(a, dbl);
    let len = bit_length(m as u128);
    proof {
        lemma2_to64_rest();
        if len > 53 {
            if len - 1 > 53 {
                lemma_pow2_strictly_increases(53, (len - 1) as nat);
            }
            assert(false);
        }
        if !dbl && len > 24 {
            lemma2_to64();
            if len - 1 > 24 {
                lemma_pow2_strictly_increases(24, (len - 1) as nat);
            }
            assert(false);
        }
    }
    let digits: u32 = if dbl {
        104
    } else {
        46
    };
    let tight = digits + 1 - len;
    let k = if (e - tight as i32 + 4096) % 2 == 0 {
        tight
    } else {
        tight + 1
    };
    proof {
        root_scale(m as nat, len as nat, e as int, dbl, k as nat);
        let u = (e - k) / 2;
        let v = choose|v: int| is_root_ulp(m as nat, e as int, dbl, v);
        root_ulp_unique(m as nat, e as int, dbl, u, v);
    }
    let y = m as u128 * power(k);
    let q = integer_root(y);
    proof {
        let p = choose|p: nat| is_root(y as nat, p);
        root_unique(y as nat, q as nat, p);
        product_bound(q, q);
        root_digits(y as nat, q as nat, mant(dbl));
        lemma2_to64_rest();
        lemma2_to64();
    }
    let rounded_root = if y > q as u128 * q as u128 + q as u128 {
        q + 1
    } else {
        q
    };
    let low: i32 = if dbl {
        -1074
    } else {
        -149
    };
    let u = (e - k as i32 + 4096) / 2 - 2048;
    assert(u == (e - k) / 2);
    let steps = (u - low) as u64;
    let bits = if dbl {
        assert(steps <= 1600);
        steps * 0x10_0000_0000_0000 + rounded_root
    } else {
        assert(steps <= 200);
        steps * 0x80_0000 + rounded_root
    };
    bits
}

proof fn root_digits(y: nat, q: nat, m: nat)
    requires
        is_root(y, q),
        y < pow2(2 * m + 2),
    ensures
        q < pow2(m + 1),
{
    lemma_pow2_adds(m + 1, m + 1);
    if q >= pow2(m + 1) {
        assert(q * q >= pow2(m + 1) * pow2(m + 1)) by (nonlinear_arith)
            requires
                q >= pow2(m + 1),
        ;
    }
}

pub(crate) fn from_integer(v: i64, dbl: bool) -> (r: u64)
    ensures
        r == of_int(v as int, dbl),
        fits(r, dbl),
{
    if v == 0 {
        return 0;
    }
    let a = (if v < 0 {
        -(v as i128)
    } else {
        v as i128
    }) as u128;
    let bits = round_exact(a, 0, dbl);
    apply_sign(v < 0, bits, dbl)
}

pub(crate) fn widen(b: u32) -> (r: u64)
    ensures
        r == widened(b),
{
    let a = b as u64;
    let n = is_negative(a, false);
    if nan(a, false) {
        let payload = (magnitude(a, false) - 0x7f80_0000) % 0x40_0000;
        return apply_sign(n, 0x7ff8_0000_0000_0000 + payload * 0x2000_0000, true);
    }
    if infinite(a, false) {
        return infinity(n, true);
    }
    if zero(a, false) {
        return apply_sign(n, 0, true);
    }
    let bits = round_exact(significand(a, false) as u128, exponent(a, false), true);
    apply_sign(n, bits, true)
}

pub(crate) fn narrow(a: u64) -> (r: u32)
    ensures
        r == narrowed(a),
{
    let n = is_negative(a, true);
    (if nan(a, true) {
        let payload = ((magnitude(a, true) - 0x7ff0_0000_0000_0000) / 0x2000_0000) % 0x40_0000;
        apply_sign(n, 0x7fc0_0000 + payload, false)
    } else if infinite(a, true) {
        infinity(n, false)
    } else if zero(a, true) {
        apply_sign(n, 0, false)
    } else {
        let bits = round_exact(significand(a, true) as u128, exponent(a, true), false);
        apply_sign(n, bits, false)
    }) as u32
}

/// Rounds a finite number to an integer. A number that does not fit the result
/// exactly lies far outside the range of a word, and so does the result.
pub(crate) fn round_to_integer(b: u64, dbl: bool, mode: Rounding) -> (r: (i128, bool))
    requires
        is_finite(b, dbl),
    ensures
        r.0 == to_int(b, dbl, mode) || (r.0 > 0x1_0000_0000 && to_int(b, dbl, mode) > 0x1_0000_0000)
            || (r.0 < -0x1_0000_0000 && to_int(b, dbl, mode) < -0x1_0000_0000),
        r.1 == is_whole(b, dbl),
{
    let m = significand(b, dbl);
    let e = exponent(b, dbl);
    let n = is_negative(b, dbl);
    let (whole, exact) = if e >= 0 {
        if e > 40 {
            proof {
                lemma2_to64_rest();
                lemma_pow2_strictly_increases(40, e as nat);
                if m > 0 {
                    assert(m * pow2(e as nat) >= pow2(e as nat)) by (nonlinear_arith)
                        requires
                            m >= 1,
                    ;
                } else {
                    assert(0 * pow2(e as nat) == 0);
                }
            }
            (
                if m == 0 {
                    0u128
                } else {
                    0x100_0000_0000u128
                },
                true,
            )
        } else {
            proof {
                lemma2_to64_rest();
                if e < 40 {
                    lemma_pow2_strictly_increases(e as nat, 40);
                }
                assert(m * pow2(e as nat) <= 0x20_0000_0000_0000 * 0x100_0000_0000)
                    by (nonlinear_arith)
                    requires
                        0 <= m <= 0x20_0000_0000_0000,
                        0 <= pow2(e as nat) <= 0x100_0000_0000,
                ;
            }
            (m as u128 * power(e as u32), true)
        }
    } else {
        let k = (-e) as u32;
        if k >= 64 {
            proof {
                lemma2_to64_rest();
                if k > 64 {
                    lemma_pow2_strictly_increases(64, k as nat);
                }
                lemma_fundamental_div_mod_converse(
                    m as int,
                    pow2(k as nat) as int,
                    0,
                    m as int,
                );
            }
            let up = match mode {
                Rounding::Up => !n && m != 0,
                Rounding::Down => n && m != 0,
                _ => false,
            };
            (
                if up {
                    1u128
                } else {
                    0u128
                },
                m == 0,
            )
        } else {
            let d = power(k);
            let q = m as u128 / d;
            let r = m as u128 % d;
            proof {
                lemma_fundamental_div_mod(m as int, d as int);
                assert(q <= m) by (nonlinear_arith)
                    requires
                        q == m as int / d as int,
                        d >= 1,
                        m >= 0,
                ;
                lemma2_to64_rest();
                if k < 63 {
                    lemma_pow2_strictly_increases(k as nat, 63);
                }
            }
            let up = match mode {
                Rounding::Nearest => 2 * r > d || (2 * r == d && q % 2 == 1),
                Rounding::Up => !n && r != 0,
                Rounding::Down => n && r != 0,
                Rounding::Zero => false,
            };
            (
                if up {
                    q + 1
                } else {
                    q
                },
                r == 0,
            )
        }
    };
    (
        if n {
            -(whole as i128)
        } else {
            whole as i128
        },
        exact,
    )
}

} // verus!
