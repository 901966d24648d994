//! Rounding of exact values to binary floating point, to nearest with ties to
//! even.
//!
//! A format is named by one flag: `true` for 64 bits, `false` for 32. An exact
//! positive value is given as `num / den * 2^e`. Exponents are offset by a
//! constant in the definitions, so that all powers of two stay whole numbers.

use vstd::arithmetic::div_mod::{lemma_fundamental_div_mod, lemma_fundamental_div_mod_converse};
use vstd::arithmetic::power2::{
    lemma2_to64, lemma2_to64_rest, lemma_pow2_adds, lemma_pow2_pos, lemma_pow2_strictly_increases,
    lemma_pow2_unfold, pow2,
};
use vstd::prelude::*;

verus! {

/// The bits of the fraction field.
pub open spec fn mant(dbl: bool) -> nat {
    if dbl {
        52
    } else {
        23
    }
}

/// The exponent of the smallest positive value.
pub open spec fn emin(dbl: bool) -> int {
    if dbl {
        -1074
    } else {
        -149
    }
}

/// The encoding of positive infinity.
pub open spec fn inf_bits(dbl: bool) -> nat {
    if dbl {
        0x7ff0_0000_0000_0000
    } else {
        0x7f80_0000
    }
}

/// The offset of exponents in the definitions below.
pub open spec fn offset() -> int {
    8192
}

/// The numerator of a value, in offset powers.
pub open spec fn top(num: nat, e: int) -> nat {
    num * pow2((e + offset()) as nat)
}

/// The unit `den * 2^u`, in offset powers.
pub open spec fn unit(den: nat, u: int) -> nat {
    den * pow2((u + offset()) as nat)
}

/// The integer nearest to `n / d`; the even one of two equally near ones.
pub open spec fn nearest(n: nat, d: nat) -> nat {
    let q = n / d;
    let r = n % d;
    if 2 * r > d || (2 * r == d && q % 2 == 1) {
        q + 1
    } else {
        q
    }
}

/// Whether `2^u` is the distance between neighbouring floating-point numbers
/// at a value: the value is less than `2^(mant+1)` of them, and at least
/// `2^mant` unless the distance is the smallest one.
pub open spec fn is_ulp(num: nat, den: nat, e: int, dbl: bool, u: int) -> bool {
    &&& u >= emin(dbl)
    &&& top(num, e) < unit(den, u) * pow2(mant(dbl) + 1)
    &&& u == emin(dbl) || top(num, e) >= unit(den, u) * pow2(mant(dbl))
}

/// The exponent of the distance between neighbours at a value.
pub open spec fn ulp(num: nat, den: nat, e: int, dbl: bool) -> int {
    choose|u: int| is_ulp(num, den, e, dbl, u)
}

/// The encoding of the floating-point number nearest to `num / den * 2^e`. The
/// encodings of positive numbers are consecutive: the one of `k * 2^u` is `k`
/// counted from the start of its binade.
pub open spec fn rounded(num: nat, den: nat, e: int, dbl: bool) -> nat {
    let u = ulp(num, den, e, dbl);
    let bits = (u - emin(dbl)) * pow2(mant(dbl)) + nearest(top(num, e), unit(den, u));
    if bits >= inf_bits(dbl) {
        inf_bits(dbl)
    } else {
        bits as nat
    }
}

proof fn unit_shift(den: nat, u: int, k: nat)
    requires
        u + offset() >= 0,
    ensures
        unit(den, u + k) == unit(den, u) * pow2(k),
{
    lemma_pow2_adds((u + offset()) as nat, k);
    assert(den * (pow2((u + offset()) as nat) * pow2(k)) == (den * pow2((u + offset()) as nat))
        * pow2(k)) by (nonlinear_arith);
}

proof fn unit_positive(den: nat, u: int)
    requires
        den > 0,
    ensures
        unit(den, u) > 0,
{
    lemma_pow2_pos((u + offset()) as nat);
    assert(den * pow2((u + offset()) as nat) > 0) by (nonlinear_arith)
        requires
            den > 0,
            pow2((u + offset()) as nat) > 0,
    ;
}

/// There is only one distance between neighbours at a value.
proof fn ulp_unique(num: nat, den: nat, e: int, dbl: bool, u: int, v: int)
    requires
        den > 0,
        is_ulp(num, den, e, dbl, u),
        is_ulp(num, den, e, dbl, v),
    ensures
        u == v,
{
    if u < v {
        ulp_ordered(num, den, e, dbl, u, v);
    }
    if v < u {
        ulp_ordered(num, den, e, dbl, v, u);
    }
}

proof fn ulp_ordered(num: nat, den: nat, e: int, dbl: bool, u: int, v: int)
    requires
        den > 0,
        is_ulp(num, den, e, dbl, u),
        is_ulp(num, den, e, dbl, v),
    ensures
        u >= v,
{
    if u < v {
        let k = (v - u - 1) as nat;
        unit_shift(den, u, k + 1);
        unit_positive(den, u);
        lemma_pow2_adds(k, 1);
        lemma_pow2_pos(k);
        lemma_pow2_adds(mant(dbl), 1);
        lemma2_to64();
        let a = unit(den, u);
        let b = pow2(k);
        let m = pow2(mant(dbl));
        lemma_pow2_pos(mant(dbl));
        assert((a * (b * 2)) * m >= a * (m * 2)) by (nonlinear_arith)
            requires
                a > 0,
                b >= 1,
                m >= 1,
        ;
    }
}

/// A distance that fits is the one that rounding uses.
pub proof fn ulp_is(num: nat, den: nat, e: int, dbl: bool, u: int)
    requires
        den > 0,
        is_ulp(num, den, e, dbl, u),
    ensures
        ulp(num, den, e, dbl) == u,
{
    ulp_unique(num, den, e, dbl, u, ulp(num, den, e, dbl));
}

/// A power of two as a machine number.
pub(crate) fn power(k: u32) -> (r: u128)
    requires
        k < 128,
    ensures
        r == pow2(k as nat),
        r >= 1,
{
    let mut r: u128 = 1;
    let mut i: u32 = 0;
    proof {
        lemma2_to64();
    }
    while i < k
        invariant
            i <= k < 128,
            r == pow2(i as nat),
            r >= 1,
        decreases k - i,
    {
        proof {
            lemma_pow2_unfold((i + 1) as nat);
            pow2_below_128((i + 1) as nat);
        }
        r = r * 2;
        i += 1;
    }
    r
}

pub(crate) proof fn pow2_below_128(k: nat)
    requires
        k < 128,
    ensures
        pow2(k) < 0x1_0000_0000_0000_0000_0000_0000_0000_0000,
{
    lemma2_to64();
    lemma_pow2_adds(64, 63);
    lemma2_to64_rest();
    assert(0x1_0000_0000_0000_0000 * 0x8000_0000_0000_0000
        < 0x1_0000_0000_0000_0000_0000_0000_0000_0000);
    if k < 127 {
        lemma_pow2_strictly_increases(k, 127);
    }
}

/// The number of bits of a positive number.
pub(crate) fn bit_length(v: u128) -> (r: u32)
    requires
        0 < v < 0x8000_0000_0000_0000_0000_0000_0000_0000,
    ensures
        1 <= r <= 127,
        pow2((r - 1) as nat) <= v < pow2(r as nat),
{
    proof {
        lemma2_to64();
        lemma_pow2_adds(64, 63);
        lemma2_to64_rest();
        assert(0x1_0000_0000_0000_0000 * 0x8000_0000_0000_0000
            == 0x8000_0000_0000_0000_0000_0000_0000_0000);
    }
    let mut r: u32 = 1;
    let mut p: u128 = 2;
    while p <= v
        invariant
            1 <= r <= 127,
            0 < v < 0x8000_0000_0000_0000_0000_0000_0000_0000,
            pow2(127) == 0x8000_0000_0000_0000_0000_0000_0000_0000,
            p == pow2(r as nat),
            pow2((r - 1) as nat) <= v,
        decreases 127 - r,
    {
        proof {
            if r == 127 {
                assert(false);
            }
            lemma_pow2_unfold((r + 1) as nat);
        }
        p = p * 2;
        r += 1;
    }
    r
}

/// What a truncated value and a sticky bit say of an exact one: `sig` whole
/// units `2^exp` fit into it, and `sticky` says whether something is left.
pub open spec fn truncates(
    num: nat,
    den: nat,
    e: int,
    sig: nat,
    exp: int,
    sticky: bool,
) -> bool {
    &&& den > 0
    &&& top(num, e) / unit(den, exp) == sig
    &&& sticky == (top(num, e) % unit(den, exp) != 0)
}

proof fn round_down_case(n: nat, d: nat, s: nat, k: nat)
    requires
        d > 0,
        n == (s * k) * d,
    ensures
        nearest(n, d) == s * k,
{
    assert(n == d * (s * k) + 0) by (nonlinear_arith)
        requires
            n == (s * k) * d,
    ;
    lemma_fundamental_div_mod_converse(n as int, d as int, (s * k) as int, 0);
}

proof fn round_split_case(n: nat, d: nat, p: nat, h: nat, sig: nat, r: nat)
    requires
        d > 0,
        h > 0,
        p == 2 * h,
        n == sig * d + r,
        r < d,
    ensures
        ({
            let q = sig / p;
            let rem = sig % p;
            nearest(n, d * p) == if rem > h || (rem == h && (r != 0 || q % 2 == 1)) {
                q + 1
            } else {
                q
            }
        }),
{
    let q = sig / p;
    let rem = sig % p;
    lemma_fundamental_div_mod(sig as int, p as int);
    assert(d * p > 0) by (nonlinear_arith)
        requires
            d > 0,
            p > 0,
    ;
    assert(n == q * (d * p) + (rem * d + r)) by (nonlinear_arith)
        requires
            n == sig * d + r,
            sig == p * q + rem,
    ;
    assert(0 <= rem * d + r < d * p) by (nonlinear_arith)
        requires
            0 <= rem <= p - 1,
            0 <= r < d,
    ;
    lemma_fundamental_div_mod_converse(
        n as int,
        (d * p) as int,
        q as int,
        (rem * d + r) as int,
    );
    if rem > h {
        assert(2 * (rem * d + r) > d * p) by (nonlinear_arith)
            requires
                rem >= h + 1,
                p == 2 * h,
                d > 0,
                r >= 0,
        ;
    } else if rem == h {
        assert(2 * (rem * d + r) == d * p + 2 * r) by (nonlinear_arith)
            requires
                rem == h,
                p == 2 * h,
        ;
    } else {
        assert(2 * (rem * d + r) < d * p) by (nonlinear_arith)
            requires
                rem + 1 <= h,
                p == 2 * h,
                r < d,
                d > 0,
        ;
    }
}

/// Rounds a truncated value. A sticky value must have two bits more than the
/// format keeps.
pub(crate) fn round_pack(
    sig: u128,
    exp: i32,
    sticky: bool,
    dbl: bool,
    num: Ghost<nat>,
    den: Ghost<nat>,
    e: Ghost<int>,
) -> (r: u64)
    requires
        0 < sig < 0x8000_0000_0000_0000_0000_0000_0000_0000,
        -6000 <= exp <= 6000,
        truncates(num@, den@, e@, sig as nat, exp as int, sticky),
        sticky ==> sig >= pow2(mant(dbl) + 2),
    ensures
        r == rounded(num@, den@, e@, dbl),
        r <= inf_bits(dbl),
{
    let m: i32 = if dbl {
        52
    } else {
        23
    };
    let low: i32 = if dbl {
        -1074
    } else {
        -149
    };
    let inf: u64 = if dbl {
        0x7ff0_0000_0000_0000
    } else {
        0x7f80_0000
    };
    let len = bit_length(sig);
    let tight = exp + len as i32 - (m + 1);
    let u = if tight > low {
        tight
    } else {
        low
    };
    let ghost n = top(num@, e@);
    let ghost d = unit(den@, exp as int);
    let ghost rest = n % d;
    proof {
        unit_positive(den@, exp as int);
        lemma_fundamental_div_mod(n as int, d as int);
        assert(n == sig * d + rest) by (nonlinear_arith)
            requires
                n == d * sig + rest,
        ;
        ulp_fits(num@, den@, e@, dbl, sig as nat, exp as int, len as nat, u as int);
        ulp_is(num@, den@, e@, dbl, u as int);
        if sticky {
            if len < m + 3 {
                if (len as nat) < mant(dbl) + 2 {
                    lemma_pow2_strictly_increases(len as nat, mant(dbl) + 2);
                }
                assert(false);
            }
        }
    }
    let q: u128 = if u <= exp {
        let k = (exp - u) as u32;
        proof {
            lemma_pow2_adds((len - 1) as nat, k as nat);
            unit_shift(den@, u as int, k as nat);
            assert(rest == 0);
            let du = unit(den@, u as int);
            unit_positive(den@, u as int);
            assert(n == (sig * pow2(k as nat)) * du) by (nonlinear_arith)
                requires
                    n == sig * d,
                    d == du * pow2(k as nat),
            ;
            round_down_case(n, du, sig as nat, pow2(k as nat));
            small_exact(sig as nat, len as nat, k as nat, mant(dbl));
        }
        sig * power(k)
    } else {
        let shift = (u - exp) as u32;
        proof {
            unit_shift(den@, exp as int, shift as nat);
        }
        if shift >= 128 {
            proof {
                far_below(n, d, sig as nat, rest, len as nat, shift as nat);
            }
            0
        } else {
            let p = power(shift);
            let h = power(shift - 1);
            proof {
                lemma_pow2_unfold(shift as nat);
                round_split_case(n, d, p as nat, h as nat, sig as nat, rest);
            }
            let whole = sig / p;
            let rem = sig % p;
            assert(whole <= sig) by (nonlinear_arith)
                requires
                    whole == sig as int / p as int,
                    p >= 1,
                    sig >= 0,
            ;
            if rem > h || (rem == h && (sticky || whole % 2 == 1)) {
                whole + 1
            } else {
                whole
            }
        }
    };
    proof {
        lemma2_to64();
        lemma2_to64_rest();
        lemma_pow2_pos(mant(dbl));
        nearest_bound(n, unit(den@, u as int), mant(dbl) + 1);
        unit_positive(den@, u as int);
    }
    let binade: u128 = if dbl {
        0x10_0000_0000_0000
    } else {
        0x80_0000
    };
    let steps = (u - low) as u128;
    assert(steps * binade <= 0x1_0000 * 0x10_0000_0000_0000) by (nonlinear_arith)
        requires
            0 <= steps <= 0x1_0000,
            0 <= binade <= 0x10_0000_0000_0000,
    ;
    let bits = steps * binade + q;
    if bits >= inf as u128 {
        inf
    } else {
        bits as u64
    }
}

proof fn ulp_fits(
    num: nat,
    den: nat,
    e: int,
    dbl: bool,
    sig: nat,
    exp: int,
    len: nat,
    u: int,
)
    requires
        den > 0,
        -6000 <= exp <= 6000,
        1 <= len <= 127,
        sig == top(num, e) / unit(den, exp),
        pow2((len - 1) as nat) <= sig < pow2(len),
        u == if exp + len - (mant(dbl) + 1) > emin(dbl) {
            exp + len - (mant(dbl) + 1)
        } else {
            emin(dbl)
        },
    ensures
        is_ulp(num, den, e, dbl, u),
{
    let n = top(num, e);
    let d = unit(den, exp);
    unit_positive(den, exp);
    lemma_fundamental_div_mod(n as int, d as int);
    // The value lies below 2^len units.
    assert(n < d * pow2(len)) by (nonlinear_arith)
        requires
            n == d * sig + n % d,
            n % d < d,
            sig + 1 <= pow2(len),
            d > 0,
    ;
    assert(n >= d * pow2((len - 1) as nat)) by (nonlinear_arith)
        requires
            n == d * sig + n % d,
            n % d >= 0,
            sig >= pow2((len - 1) as nat),
            d > 0,
    ;
    unit_shift(den, exp, len);
    unit_shift(den, u, mant(dbl) + 1);
    let over = (u + mant(dbl) + 1 - (exp + len)) as nat;
    unit_shift(den, exp + len, over);
    lemma_pow2_pos(over);
    unit_positive(den, exp + len);
    assert(unit(den, exp + len) * pow2(over) >= unit(den, exp + len)) by (nonlinear_arith)
        requires
            pow2(over) >= 1,
            unit(den, exp + len) > 0,
    ;
    if u != emin(dbl) {
        unit_shift(den, u, mant(dbl));
        unit_shift(den, exp, (len - 1) as nat);
    }
}

proof fn small_exact(sig: nat, len: nat, k: nat, m: nat)
    requires
        1 <= len,
        pow2((len - 1) as nat) <= sig < pow2(len),
        len + k <= m + 1,
        m <= 52,
    ensures
        sig * pow2(k) < pow2(m + 1),
        pow2(m + 1) <= 0x20_0000_0000_0000,
        k < 128,
{
    lemma_pow2_adds(len, k);
    lemma_pow2_pos(k);
    assert(sig * pow2(k) < pow2(len) * pow2(k)) by (nonlinear_arith)
        requires
            sig < pow2(len),
            pow2(k) > 0,
    ;
    if len + k < m + 1 {
        lemma_pow2_strictly_increases(len + k, m + 1);
    }
    lemma2_to64_rest();
    if m + 1 < 53 {
        lemma_pow2_strictly_increases(m + 1, 53);
    }
}

proof fn far_below(n: nat, d: nat, sig: nat, rest: nat, len: nat, shift: nat)
    requires
        d > 0,
        n == sig * d + rest,
        rest < d,
        sig < pow2(len),
        len <= 127,
        shift >= 128,
    ensures
        nearest(n, d * pow2(shift)) == 0,
{
    if len < 127 {
        lemma_pow2_strictly_increases(len, 127);
    }
    lemma_pow2_unfold(128);
    if shift > 128 {
        lemma_pow2_strictly_increases(128, shift);
    }
    assert(2 * n < d * pow2(shift)) by (nonlinear_arith)
        requires
            n == sig * d + rest,
            rest < d,
            sig + 1 <= pow2(127),
            pow2(shift) >= 2 * pow2(127),
            d > 0,
    ;
    lemma_fundamental_div_mod_converse(n as int, (d * pow2(shift)) as int, 0, n as int);
}

proof fn nearest_bound(n: nat, d: nat, k: nat)
    requires
        d > 0,
        n < d * pow2(k),
    ensures
        nearest(n, d) <= pow2(k),
{
    lemma_fundamental_div_mod(n as int, d as int);
    assert(n / d < pow2(k)) by (nonlinear_arith)
        requires
            n == d * (n / d) + n % d,
            n % d >= 0,
            n < d * pow2(k),
            d > 0,
    ;
}

} // verus!
