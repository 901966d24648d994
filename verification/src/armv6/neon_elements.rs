//! Vector elements that are lengthened, narrowed, shifted and saturated, in numbers.

use super::neon_arith::{
    abdl, mull, qdmulh, qdmull, qmovun, shift_by, shr, sx, widen, word_products,
};
use super::neon_lane::{elem_bits, elem_mask};
use super::neon_misc::{abs_neg, long_pair, misc_elem, narrow_elem, sat_abs_neg, Narrowing};
use super::neon_numbers::{
    apart, bits_of_number, distances_of_elements, elements, folded, greatest, least, low_bits,
    nearest, number, saturates, saturations, span,
};
use super::neon_three::{high_narrow, long_elem};
use super::neon_three_laws::ones_where;
use super::neon_two::shift_elem;
use super::wide_shifts::{shifted_64, shifted_left_128, shifted_right_128};
use vstd::arithmetic::div_mod::{
    lemma_add_mod_noop, lemma_fundamental_div_mod, lemma_mod_bound, lemma_sub_mod_noop,
};
use vstd::arithmetic::power2::{
    lemma2_to64, lemma2_to64_rest, lemma_pow2_pos, lemma_pow2_strictly_increases,
    lemma_pow2_unfold, pow2,
};
use vstd::prelude::*;

verus! {

/// The size of elements of twice the width.
pub open spec fn twice(size: usize) -> usize {
    (size + 1) as usize
}

/// A number that was reduced and added or subtracted.
pub proof fn reduced(a: u64, b: u64, x: int, y: int, size: usize)
    requires
        size <= 3,
        a == x % span(size),
        b == y % span(size),
    ensures
        a.wrapping_add(b) & elem_mask(size) == (x + y) % span(size),
        a.wrapping_sub(b) & elem_mask(size) == (x - y) % span(size),
{
    low_bits(a.wrapping_add(b), a + b, size);
    low_bits(a.wrapping_sub(b), a - b, size);
    elements(0, size);
    lemma_add_mod_noop(x, y, span(size));
    lemma_sub_mod_noop(x, y, span(size));
}

/// An element at twice its width holds the same number.
pub proof fn widened_elements(v: u64, size: usize, signed: bool)
    requires
        size <= 2,
        v < span(size),
    ensures
        widen(v, size, signed) == number(v, size, signed) % span(twice(size)),
{
    elements(v, size);
    elements(v, twice(size));
    if signed {
        bits_of_number(sx(v, size) as int, twice(size));
    } else {
        folded(v as int, twice(size));
        spans(size);
    }
}

proof fn spans(size: usize)
    requires
        size <= 2,
    ensures
        span(twice(size)) == span(size) * span(size),
        span(size) <= span(twice(size)),
        span(size) <= 0x1_0000_0000,
        256 <= span(size),
{
    reveal(span);
    elements(0, size);
}

/// The product of two elements at twice their width.
pub proof fn multiplied(a: u64, b: u64, size: usize, signed: bool)
    requires
        size <= 2,
        a < span(size),
        b < span(size),
    ensures
        ({
            let (x, y) = (number(a, size, signed), number(b, size, signed));
            &&& mull(a, b, size, signed) == (x * y) % span(twice(size))
            &&& signed ==> -0x4000_0000_0000_0000 <= x * y <= 0x4000_0000_0000_0000
        }),
{
    elements(a, size);
    elements(b, size);
    spans(size);
    let (x, y) = (number(a, size, signed), number(b, size, signed));
    if signed {
        word_products(x, y);
        bits_of_number(x * y, twice(size));
    } else {
        assert(0 <= x * y < 0x1_0000_0000_0000_0000) by (nonlinear_arith)
            requires
                0 <= x < 0x1_0000_0000,
                0 <= y < 0x1_0000_0000,
        ;
        elements((x * y) as u64, twice(size));
    }
}

/// VADDL, VSUBL, VADDW and VSUBW: sums and differences at twice the width, of two
/// elements or of a wide and a narrow one.
pub proof fn long_sums(opcode: u32, u: bool, size: usize, a: u64, b: u64, acc: u64)
    requires
        size <= 2,
        opcode <= 3,
        opcode % 2 == 0 ==> a < span(size),
        opcode % 2 == 1 ==> a < span(twice(size)),
        b < span(size),
    ensures
        ({
            let n = span(twice(size));
            let x = if opcode % 2 == 0 {
                number(a, size, !u)
            } else {
                a as int
            };
            let y = number(b, size, !u);
            let out = long_elem(opcode, u, size, a, b, acc);
            &&& !out.1
            &&& out.0 == if opcode < 2 {
                (x + y) % n
            } else {
                (x - y) % n
            }
        }),
{
    let x = if opcode % 2 == 0 {
        number(a, size, !u)
    } else {
        a as int
    };
    let y = number(b, size, !u);
    widened_elements(b, size, !u);
    let p = if opcode == 0 || opcode == 2 {
        widen(a, size, !u)
    } else {
        a
    };
    if opcode % 2 == 0 {
        widened_elements(a, size, !u);
    } else {
        folded(a as int, twice(size));
    }
    reduced(p, widen(b, size, !u), x, y, twice(size));
}

/// VMULL, VMLAL, VMLSL, VABDL and VABAL: products and distances at twice the width,
/// alone or accumulated.
pub proof fn long_products(opcode: u32, u: bool, size: usize, a: u64, b: u64, acc: u64)
    requires
        size <= 2,
        opcode == 5 || opcode == 7 || opcode == 8 || opcode == 10 || opcode == 12,
        a < span(size),
        b < span(size),
        acc < span(twice(size)),
    ensures
        ({
            let n = span(twice(size));
            let (x, y) = (number(a, size, !u), number(b, size, !u));
            let out = long_elem(opcode, u, size, a, b, acc);
            &&& !out.1
            &&& opcode == 5 ==> out.0 == (acc + apart(x, y)) % n
            &&& opcode == 7 ==> out.0 == apart(x, y)
            &&& opcode == 8 ==> out.0 == (acc + x * y) % n
            &&& opcode == 10 ==> out.0 == (acc - x * y) % n
            &&& opcode == 12 ==> out.0 == (x * y) % n
        }),
{
    let (x, y) = (number(a, size, !u), number(b, size, !u));
    let wide = twice(size);
    folded(acc as int, wide);
    if opcode == 5 || opcode == 7 {
        distances_of_elements(a, b, size, !u);
        let d = abdl(a, b, size, !u);
        low_bits(d.wrapping_add(acc), acc + apart(x, y), wide);
    } else {
        multiplied(a, b, size, !u);
        let p = mull(a, b, size, !u);
        reduced(acc, p, acc as int, x * y, wide);
    }
}

/// VQDMULL, VQDMLAL and VQDMLSL: twice a signed product, brought into range, alone or
/// added to or taken from the accumulator and brought into range again.
pub proof fn long_doubled_products(opcode: u32, size: usize, a: u64, b: u64, acc: u64)
    requires
        1 <= size <= 2,
        opcode == 9 || opcode == 11 || opcode == 13,
        a < span(size),
        b < span(size),
        acc < span(twice(size)),
    ensures
        ({
            let wide = twice(size);
            let p = 2 * (number(a, size, true) * number(b, size, true));
            let near = nearest(p, wide, true);
            let z = number(acc, wide, true);
            let v = if opcode == 9 {
                z + near
            } else {
                z - near
            };
            let out = long_elem(opcode, false, size, a, b, acc);
            &&& opcode == 13 ==> saturates(p, wide, true, out)
            &&& opcode != 13 ==> out.0 == nearest(v, wide, true) % span(wide) && out.1 == (p != near
                || nearest(v, wide, true) != v)
        }),
{
    let wide = twice(size);
    let (x, y) = (number(a, size, true), number(b, size, true));
    let p = 2 * (x * y);
    elements(a, size);
    elements(b, size);
    assert(x * y * 2 == p);
    saturations(p, wide);
    let (r, f) = qdmull(a, b, size);
    let near = nearest(p, wide, true);
    elements(r, wide);
    elements(acc, wide);
    remainder_of_signed(r, near, wide);
    let z = number(acc, wide, true);
    saturations(z + near, wide);
    saturations(z - near, wide);
}

proof fn remainder_of_signed(r: u64, x: int, size: usize)
    requires
        size <= 3,
        least(size, true) <= x <= greatest(size, true),
        r == x % span(size),
    ensures
        number(r, size, true) == x,
{
    elements(r, size);
    if x < 0 {
        folded(x + span(size), size);
        vstd::arithmetic::div_mod::lemma_mod_add_multiples_vanish(x, span(size));
    } else {
        folded(x, size);
    }
}

/// VADDHN, VRADDHN, VSUBHN and VRSUBHN: the high half of a sum or difference, rounded
/// to nearest on request.
pub proof fn narrowed_sums(a: u64, b: u64, size: usize, rounding: bool, opcode: u32)
    requires
        size <= 2,
        a < span(twice(size)),
        b < span(twice(size)),
        opcode == 4 || opcode == 6,
    ensures
        ({
            let round: int = if rounding {
                span(size) / 2
            } else {
                0
            };
            let v = if opcode == 4 {
                a + b
            } else {
                a - b
            };
            high_narrow(a, b, size, rounding, opcode) as int % span(size) == (v + round) / span(size)
                % span(size)
        }),
{
    reveal(span);
    lemma2_to64();
    let bits = elem_bits(size);
    let round: u64 = if rounding {
        1u64 << ((bits - 1) as u32)
    } else {
        0
    };
    shifted_64(1, (bits - 1) as u32);
    let v = if opcode == 4 {
        a + b
    } else {
        a - b
    };
    let w = if opcode == 6 {
        a.wrapping_sub(b)
    } else {
        a.wrapping_add(b)
    };
    let x = w.wrapping_add(round);
    shifted_64(x, bits);
    wrapped_twice(a, b, round, opcode == 6);
    if size == 0 {
        high_part(v + round, 0x100, 0x1_0000_0000_0000);
    } else if size == 1 {
        high_part(v + round, 0x1_0000, 0x1_0000_0000);
    } else {
        high_part(v + round, 0x1_0000_0000, 1);
    }
}

proof fn wrapped_twice(a: u64, b: u64, c: u64, sub: bool)
    ensures
        sub ==> a.wrapping_sub(b).wrapping_add(c) == (a - b + c) % 0x1_0000_0000_0000_0000,
        !sub ==> a.wrapping_add(b).wrapping_add(c) == (a + b + c) % 0x1_0000_0000_0000_0000,
{
}

proof fn high_part(v: int, n: int, k: int)
    requires
        n > 0,
        k > 0,
        n * n * k == 0x1_0000_0000_0000_0000,
    ensures
        (v % 0x1_0000_0000_0000_0000) / n % n == v / n % n,
{
    let w = v % 0x1_0000_0000_0000_0000;
    let t = v / 0x1_0000_0000_0000_0000;
    assert(v == n * (n * k * t) + w) by (nonlinear_arith)
        requires
            v == 0x1_0000_0000_0000_0000 * t + w,
            n * n * k == 0x1_0000_0000_0000_0000,
    ;
    vstd::arithmetic::div_mod::lemma_hoist_over_denominator(w, n * k * t, n as nat);
    assert(v / n == w / n + n * k * t) by {
        assert(v == w + (n * k * t) * n) by (nonlinear_arith)
            requires
                v == n * (n * k * t) + w,
        ;
    }
    assert(n * k * t == n * (k * t)) by (nonlinear_arith);
    vstd::arithmetic::div_mod::lemma_mod_multiples_vanish(k * t, w / n, n);
}

/// VQDMULH and VQRDMULH: the high half of twice a signed product, rounded on request
/// and brought into range.
pub proof fn high_doubled_products(a: u64, b: u64, size: usize, rounding: bool)
    requires
        1 <= size <= 2,
        a < span(size),
        b < span(size),
    ensures
        ({
            let p = 2 * (number(a, size, true) * number(b, size, true));
            let round: int = if rounding {
                span(size) / 2
            } else {
                0
            };
            saturates((p + round) / span(size), size, true, qdmulh(a, b, size, rounding))
        }),
{
    let (x, y) = (number(a, size, true), number(b, size, true));
    elements(a, size);
    elements(b, size);
    spans(size);
    word_products(x, y);
    let round: int = if rounding {
        span(size) / 2
    } else {
        0
    };
    let p = 2 * (x * y) + round;
    assert(x * y * 2 == 2 * (x * y));
    lemma2_to64();
    shifted_right_128(p as i128, elem_bits(size));
    reveal(span);
    saturations(p / span(size), size);
}

/// VMOVN, VQMOVN and VQMOVUN: the low half, or the nearest narrow number.
pub proof fn narrowed_elements(v: u64, size: usize)
    requires
        size <= 2,
        v < span(twice(size)),
    ensures
        narrow_elem(Narrowing::Truncate, size, v) == ((v as int % span(size)) as u64, false),
        saturates(
            number(v, twice(size), true),
            size,
            true,
            narrow_elem(Narrowing::Signed, size, v),
        ),
        saturates(
            number(v, twice(size), true),
            size,
            false,
            narrow_elem(Narrowing::SignedToUnsigned, size, v),
        ),
        saturates(v as int, size, false, qmovun(v, size, false)),
{
    elements(v, size);
    elements(v, twice(size));
    saturations(number(v, twice(size), true), size);
    saturations(v as int, size);
}

/// VPADDL of neighbours: their sum at twice the width.
pub proof fn long_pairs(a: u64, b: u64, size: usize, unsigned: bool)
    requires
        size <= 2,
        a < span(size),
        b < span(size),
    ensures
        long_pair(a, b, size, unsigned) == (number(a, size, !unsigned) + number(b, size, !unsigned))
            % span(twice(size)),
{
    elements(a, size);
    elements(b, size);
    spans(size);
    let x = number(a, size, !unsigned) + number(b, size, !unsigned);
    if unsigned {
        low_bits(a.wrapping_add(b), x, twice(size));
    } else {
        bits_of_number(x, twice(size));
    }
}

/// VNEG, VABS, VQNEG, VQABS, and the comparisons with zero.
pub proof fn signs_of_elements(v: u64, size: usize, kind: u32)
    requires
        size <= 2,
        v < span(size),
        kind <= 4,
    ensures
        ({
            let x = number(v, size, true);
            let n = span(size);
            let absolute = if x < 0 {
                -x
            } else {
                x
            };
            &&& abs_neg(7, size, v) == -x % n
            &&& abs_neg(6, size, v) == absolute % n
            &&& sat_abs_neg(true, size, v).1 == (x == least(size, true))
            &&& sat_abs_neg(true, size, v).0 as int % n == nearest(-x, size, true) % n
            &&& sat_abs_neg(false, size, v).1 == (x == least(size, true))
            &&& sat_abs_neg(false, size, v).0 as int % n == nearest(absolute, size, true) % n
            &&& misc_elem(1, kind, size, v).0 == ones_where(
                if kind == 0 {
                    x > 0
                } else if kind == 1 {
                    x >= 0
                } else if kind == 2 {
                    x == 0
                } else if kind == 3 {
                    x <= 0
                } else {
                    x < 0
                },
                size,
            )
        }),
{
    elements(v, size);
    spans(size);
    let x = number(v, size, true);
    low_bits(0u64.wrapping_sub(v), -(v as int), size);
    negated(v, size);
    bits_of_number(-x, size);
    bits_of_number(x, size);
    bits_of_number(greatest(size, true), size);
    elements(((-x) as i64) as u64, size);
    elements((x as i64) as u64, size);
    elements((greatest(size, true) as i64) as u64, size);
    elements(0, size);
}

proof fn negated(v: u64, size: usize)
    requires
        size <= 3,
        v < span(size),
    ensures
        -(v as int) % span(size) == -number(v, size, true) % span(size),
{
    elements(v, size);
    let x = number(v, size, true);
    if x != v {
        vstd::arithmetic::div_mod::lemma_mod_add_multiples_vanish(-(v as int), span(size));
    }
}

proof fn shift_bounds(n: u32)
    requires
        1 <= n <= 64,
    ensures
        2 <= pow2(n as nat) <= 0x1_0000_0000_0000_0000,
        pow2(n as nat) == 2 * pow2((n - 1) as nat),
        1 <= pow2((n - 1) as nat) <= 0x8000_0000_0000_0000,
{
    lemma2_to64();
    lemma2_to64_rest();
    lemma_pow2_unfold(n as nat);
    lemma_pow2_pos((n - 1) as nat);
    if n < 64 {
        lemma_pow2_strictly_increases(n as nat, 64);
        lemma_pow2_strictly_increases((n - 1) as nat, 63);
    }
}

/// The right shifts by one place up to the width of an element: the number over a power
/// of two, rounded down, or to nearest by half the divisor.
pub proof fn right_shifts(v: u64, amount: u32, size: usize, signed: bool, rounding: bool)
    requires
        size <= 3,
        v < span(size),
        1 <= amount <= elem_bits(size),
        !signed && amount == elem_bits(size) ==> !rounding,
        !signed && rounding ==> v + pow2((amount - 1) as nat) < 0x1_0000_0000_0000_0000,
    ensures
        ({
            let round: int = if rounding {
                pow2((amount - 1) as nat) as int
            } else {
                0
            };
            shr(v, amount, size, signed, rounding) == ((number(v, size, signed) + round) / pow2(
                amount as nat,
            ) as int) % span(size)
        }),
{
    let round: int = if rounding {
        pow2((amount - 1) as nat) as int
    } else {
        0
    };
    elements(v, size);
    shift_bounds(amount);
    let x = number(v, size, signed) + round;
    let p = pow2(amount as nat) as int;
    if signed {
        shifted_left_128(1, (amount - 1) as u32);
        shifted_right_128(x as i128, amount);
        quotient_bounds(x, p);
        bits_of_number(x / p, size);
    } else if amount < elem_bits(size) {
        shifted_64(1, (amount - 1) as u32);
        assert(1 * pow2((amount - 1) as nat) == pow2((amount - 1) as nat));
        assert((pow2((amount - 1) as nat) as int) % 0x1_0000_0000_0000_0000 == pow2(
            (amount - 1) as nat,
        ));
        shifted_64(x as u64, amount);
        elements((x as u64) >> amount, size);
    } else {
        widths(size);
        lemma_fundamental_div_mod(x, p);
        assert(x / p == 0) by (nonlinear_arith)
            requires
                0 <= x < p,
        ;
        folded(0, size);
    }
}

proof fn widths(size: usize)
    requires
        size <= 3,
    ensures
        pow2(elem_bits(size) as nat) == span(size),
{
    reveal(span);
    lemma2_to64();
    lemma2_to64_rest();
}

proof fn quotient_bounds(x: int, p: int)
    requires
        p >= 2,
        -0x8000_0000_0000_0000 <= x < 0x1_0000_0000_0000_0000,
    ensures
        -0x8000_0000_0000_0000 <= x / p <= 0x7fff_ffff_ffff_ffff,
{
    lemma_fundamental_div_mod(x, p);
    lemma_mod_bound(x, p);
    let (q, r) = (x / p, x % p);
    assert(q <= 0x7fff_ffff_ffff_ffff && q >= -0x8000_0000_0000_0000) by (nonlinear_arith)
        requires
            x == p * q + r,
            0 <= r < p,
            p >= 2,
            -0x8000_0000_0000_0000 <= x < 0x1_0000_0000_0000_0000,
    ;
}

/// The left shifts by less than the width of an element: the number times a power of
/// two, modulo the span or brought into range.
pub proof fn left_shifts(v: u64, amount: u32, size: usize, signed: bool)
    requires
        size <= 3,
        v < span(size),
        1 <= amount < elem_bits(size),
    ensures
        shift_by(v, amount as i64, size, signed, false, false).0 == (v * pow2(amount as nat)) % span(
            size,
        ),
        !shift_by(v, amount as i64, size, signed, false, false).1,
        saturates(
            number(v, size, signed) * pow2(amount as nat),
            size,
            signed,
            shift_by(v, amount as i64, size, signed, true, false),
        ),
{
    elements(v, size);
    shifted_64(v, amount);
    low_bits(v << amount, v * pow2(amount as nat), size);
    let x = number(v, size, signed);
    shifted_left_128(x as i128, amount);
    saturations(x * pow2(amount as nat), size);
}

/// VSHR, VSRA, VRSHR and VRSRA by an immediate, through the right shifts; VSHL through
/// the left ones.
pub proof fn immediate_shift_elements(opcode: u32, u: bool, size: usize, shift: u32, v: u64, old: u64)
    requires
        size <= 3,
        v < span(size),
        old < span(size),
        opcode <= 3,
        1 <= shift <= elem_bits(size),
        u && opcode >= 2 ==> shift < elem_bits(size) && v + pow2((shift - 1) as nat)
            < 0x1_0000_0000_0000_0000,
    ensures
        ({
            let round: int = if opcode >= 2 {
                pow2((shift - 1) as nat) as int
            } else {
                0
            };
            let x = (number(v, size, !u) + round) / pow2(shift as nat) as int;
            let out = shift_elem(opcode, u, size, shift, v, old);
            &&& !out.1
            &&& out.0 == if opcode % 2 == 0 {
                x % span(size)
            } else {
                (old + x) % span(size)
            }
        }),
{
    let round: int = if opcode >= 2 {
        pow2((shift - 1) as nat) as int
    } else {
        0
    };
    let x = (number(v, size, !u) + round) / pow2(shift as nat) as int;
    right_shifts(v, shift, size, !u, opcode >= 2);
    let r = shr(v, shift, size, !u, opcode >= 2);
    folded(old as int, size);
    reduced(old, r, old as int, x, size);
}

} // verus!
