//! Shifts of wide numbers as divisions and multiplications.

use vstd::arithmetic::div_mod::{lemma_fundamental_div_mod, lemma_fundamental_div_mod_converse};
use vstd::arithmetic::power2::{
    lemma2_to64, lemma2_to64_rest, lemma_pow2_pos, lemma_pow2_strictly_increases,
    lemma_pow2_unfold, pow2,
};
use vstd::prelude::*;

verus! {

#[verifier::rlimit(100)]
#[verifier::spinoff_prover]
proof fn one_more(x: i128, y: u128, v: u64, n: u32)
    requires
        0 < n < 128,
    ensures
        x >> 0 == x,
        x >> 1 == x as int / 2,
        x >> n == (x >> ((n - 1) as u32)) >> 1,
        x << 0 == x,
        -0x4000_0000_0000_0000_0000_0000_0000_0000 <= x
            < 0x4000_0000_0000_0000_0000_0000_0000_0000 ==> x << 1 == x * 2,
        x << n == (x << ((n - 1) as u32)) << 1,
        y >> 1 == y / 2,
        v >> 0u32 == v,
        v >> 1u32 == v / 2,
        n < 64 ==> v >> n == (v >> ((n - 1) as u32)) >> 1u32,
        v << 0u32 == v,
        v << 1u32 == v * 2 % 0x1_0000_0000_0000_0000,
        n < 64 ==> v << n == (v << ((n - 1) as u32)) << 1u32,
        n <= 56 && v < (1u64 << n) ==> v | ((y as u8) as u64) << (n as u64) == v + (((y as u8) as u64)
            << n),
{
    assert(x >> 0 == x && x << 0 == x && x >> n == (x >> ((n - 1) as u32)) >> 1 && x << n == (x << ((
    n - 1) as u32)) << 1 && v >> 0u32 == v && v >> 1u32 == v / 2 && (n < 64 ==> v >> n == (v >> ((n
        - 1) as u32)) >> 1u32) && v << 0u32 == v && (n < 64 ==> v << n == (v << ((n - 1) as u32))
        << 1u32) && (n <= 56 && v < (1u64 << n) ==> v | ((y as u8) as u64) << (n as u64) == v + (((
    y as u8) as u64) << n))) by (bit_vector)
        requires
            0 < n < 128,
    ;
    assert((x >> 1) * 2 <= x <= (x >> 1) * 2 + 1 && (y >> 1) * 2 <= y <= (y >> 1) * 2 + 1 && (
    -0x4000_0000_0000_0000_0000_0000_0000_0000 <= x < 0x4000_0000_0000_0000_0000_0000_0000_0000 ==> x
        << 1 == x * 2) && v << 1u32 == v * 2 % 0x1_0000_0000_0000_0000) by (bit_vector);
}

/// A quotient halved is the quotient by twice the divisor.
pub proof fn divided_twice(x: int, p: int)
    requires
        p > 0,
    ensures
        (x / p) / 2 == x / (p * 2),
{
    lemma_fundamental_div_mod(x, p);
    let (a, r) = (x / p, x % p);
    let (b, c) = (a / 2, a % 2);
    assert(a == 2 * b + c);
    assert(x == p * a + r && 0 <= r < p);
    assert(x == b * (p * 2) + (c * p + r) && 0 <= c * p + r < p * 2) by (nonlinear_arith)
        requires
            a == 2 * b + c,
            x == p * a + r,
            0 <= r < p,
            0 <= c <= 1,
    ;
    lemma_fundamental_div_mod_converse(x, p * 2, b, c * p + r);
}

/// Halves, rounded down.
pub proof fn halves_128(x: int)
    requires
        -0x4_0000_0000_0000_0000 <= x <= 0x4_0000_0000_0000_0000,
    ensures
        (x as i128) >> 1 == x / 2,
        x >= 0 ==> (x as u128) >> 1 == x / 2,
{
    one_more(x as i128, x as u128, 0, 1);
}

/// A signed right shift divides by a power of two, rounding down.
pub proof fn shifted_right_128(x: i128, n: u32)
    requires
        n < 128,
    ensures
        x >> n == x as int / pow2(n as nat) as int,
    decreases n,
{
    lemma2_to64();
    one_more(x, 0, 0, 1);
    if n > 0 {
        shifted_right_128(x, (n - 1) as u32);
        one_more(x, 0, 0, n);
        one_more(x >> ((n - 1) as u32), 0, 0, 1);
        lemma_pow2_unfold(n as nat);
        lemma_pow2_pos((n - 1) as nat);
        divided_twice(x as int, pow2((n - 1) as nat) as int);
        let p = pow2((n - 1) as nat) as int;
        assert(pow2(n as nat) == p * 2);
        assert(x as int / pow2(n as nat) as int == (x as int / p) / 2);
    } else {
        assert(x as int / 1 == x);
    }
}

/// A left shift multiplies by a power of two.
pub proof fn shifted_left_128(x: i128, n: u32)
    requires
        n < 64,
        -0x8000_0000_0000_0000 <= x <= 0xffff_ffff_ffff_ffff,
    ensures
        x << n == x * pow2(n as nat),
        -0x1_0000_0000_0000_0000 * pow2(n as nat) <= x << n < 0x1_0000_0000_0000_0000 * pow2(
            n as nat,
        ),
    decreases n,
{
    lemma2_to64();
    lemma2_to64_rest();
    one_more(x, 0, 0, 1);
    if n > 0 {
        shifted_left_128(x, (n - 1) as u32);
        one_more(x, 0, 0, n);
        one_more(x << ((n - 1) as u32), 0, 0, 1);
        if n < 63 {
            lemma_pow2_strictly_increases((n - 1) as nat, 62);
        }
        lemma_pow2_unfold(n as nat);
        let p = pow2((n - 1) as nat) as int;
        assert(x * p * 2 == x * (2 * p)) by (nonlinear_arith);
        assert(x << ((n - 1) as u32) == x * p);
        assert(x << n == x * p * 2);
    } else {
        assert(x * 1 == x);
    }
}

/// A right shift of a doubleword divides by a power of two, and a left shift
/// multiplies by it modulo 2^64.
pub proof fn shifted_64(v: u64, n: u32)
    requires
        n < 64,
    ensures
        v >> n == v as int / pow2(n as nat) as int,
        v << n == v * pow2(n as nat) % 0x1_0000_0000_0000_0000,
    decreases n,
{
    lemma2_to64();
    one_more(0, 0, v, 1);
    if n > 0 {
        shifted_64(v, (n - 1) as u32);
        one_more(0, 0, v, n);
        one_more(0, 0, v >> ((n - 1) as u32), 1);
        one_more(0, 0, v << ((n - 1) as u32), 1);
        lemma_pow2_unfold(n as nat);
        lemma_pow2_pos((n - 1) as nat);
        let p = pow2((n - 1) as nat) as int;
        divided_twice(v as int, p);
        assert(v * p * 2 == v * (2 * p)) by (nonlinear_arith);
    }
}

/// A byte above the bits of a number adds its weight.
pub proof fn byte_above(v: u64, b: u8, n: u32)
    requires
        0 < n <= 56,
        v < pow2(n as nat),
    ensures
        v | ((b as u64) << (n as u64)) == v + b * pow2(n as nat),
        v + b * pow2(n as nat) < pow2((n + 8) as nat),
{
    lemma2_to64();
    lemma2_to64_rest();
    shifted_64(1, n);
    shifted_64(b as u64, n);
    one_more(0, b as u128, v, n);
    vstd::arithmetic::power2::lemma_pow2_adds(n as nat, 8);
    let p = pow2(n as nat) as int;
    if n < 56 {
        lemma_pow2_strictly_increases(n as nat, 56);
    }
    assert(1 * p == p);
    assert(0 <= b * p <= 255 * p) by (nonlinear_arith)
        requires
            0 <= b <= 255,
            p >= 0,
    ;
}

} // verus!
