//! Vector elements as numbers: what each integer operation on elements
//! computes.

use super::neon_arith::{
    abd, abdl, elem_gt, hadd, hsub, mask_if, minmax, qadd, qsub, sat_elem, smax, smin, sx,
    to_elem, usat_elem,
};
use super::neon_lane::elem_mask;
use super::neon_three::int_elem;
use super::numbers::{low_parts, sign_casts, whole_doubleword};
use super::wide_shifts::halves_128;
use vstd::arithmetic::div_mod::{lemma_mod_bound, lemma_mod_mod, lemma_small_mod};
use vstd::prelude::*;

verus! {

/// One more than the largest unsigned element.
#[verifier::opaque]
pub open spec fn span(size: usize) -> int {
    if size == 0 {
        0x100
    } else if size == 1 {
        0x1_0000
    } else if size == 2 {
        0x1_0000_0000
    } else {
        0x1_0000_0000_0000_0000
    }
}

/// The low bits of a doubleword as a two's complement element.
#[verifier::opaque]
pub open spec fn signed_elem(v: u64, size: usize) -> int {
    let r = v as int % span(size);
    if 2 * r < span(size) {
        r
    } else {
        r - span(size)
    }
}

/// An element as a number, with or without a sign.
pub open spec fn number(v: u64, size: usize, signed: bool) -> int {
    if signed {
        signed_elem(v, size)
    } else {
        v as int % span(size)
    }
}

/// The least and the greatest number that an element holds.
pub open spec fn least(size: usize, signed: bool) -> int {
    if signed {
        -(span(size) / 2)
    } else {
        0
    }
}

/// See [`least`].
pub open spec fn greatest(size: usize, signed: bool) -> int {
    if signed {
        span(size) / 2 - 1
    } else {
        span(size) - 1
    }
}

/// The number next to `v` that an element holds.
pub open spec fn nearest(v: int, size: usize, signed: bool) -> int {
    if v < least(size, signed) {
        least(size, signed)
    } else if v > greatest(size, signed) {
        greatest(size, signed)
    } else {
        v
    }
}

/// Whether an element and its saturation flag are a number brought into range:
/// the nearest number that an element holds, and whether the number itself was
/// not one.
pub open spec fn saturates(v: int, size: usize, signed: bool, out: (u64, bool)) -> bool {
    &&& out.1 == (v < least(size, signed) || v > greatest(size, signed))
    &&& out.0 == nearest(v, size, signed) % span(size)
}

/// Masks and sign extensions of elements, in numbers.
pub proof fn elements(v: u64, size: usize)
    requires
        size <= 3,
    ensures
        v & elem_mask(size) == v as int % span(size),
        sx(v, size) == signed_elem(v, size),
        (sx(v, size) as u64) & elem_mask(size) == v as int % span(size),
        elem_mask(size) == span(size) - 1,
        smax(size) == span(size) / 2 - 1,
        smin(size) == -(span(size) / 2),
        0x100 <= span(size) <= 0x1_0000_0000_0000_0000,
        span(size) == 2 * (span(size) / 2),
        -(span(size) / 2) <= signed_elem(v, size) < span(size) / 2,
        v < span(size) ==> v as int % span(size) == v,
        v < span(size) ==> signed_elem(v, size) == if v < span(size) / 2 {
            v as int
        } else {
            v - span(size)
        },
        0 <= v as int % span(size) < span(size),
        size <= 2 ==> span((size + 1) as usize) == span(size) * span(size),
        size <= 2 ==> span(size) <= 0x1_0000_0000,
{
    reveal(span);
    reveal(signed_elem);
    if size == 0 {
        byte_element(v);
    } else if size == 1 {
        halfword_element(v);
    } else if size == 2 {
        word_element(v);
    } else {
        doubleword_element(v);
    }
}

proof fn byte_element(v: u64)
    ensures
        v & 0xff == v % 0x100,
        sx(v, 0) == if v % 0x100 < 0x80 {
            (v % 0x100) as int
        } else {
            v % 0x100 - 0x100
        },
        (sx(v, 0) as u64) & 0xff == v % 0x100,
{
    low_parts(0, v, 0);
    sign_casts(v as u8, 0, 0, 0, 0, sx(v, 0));
    low_parts(0, sx(v, 0) as u64, 0);
}

proof fn halfword_element(v: u64)
    ensures
        v & 0xffff == v % 0x1_0000,
        sx(v, 1) == if v % 0x1_0000 < 0x8000 {
            (v % 0x1_0000) as int
        } else {
            v % 0x1_0000 - 0x1_0000
        },
        (sx(v, 1) as u64) & 0xffff == v % 0x1_0000,
{
    low_parts(0, v, 0);
    sign_casts(0, v as u16, 0, 0, 0, sx(v, 1));
    low_parts(0, sx(v, 1) as u64, 0);
}

proof fn word_element(v: u64)
    ensures
        v & 0xffff_ffff == v % 0x1_0000_0000,
        sx(v, 2) == if v % 0x1_0000_0000 < 0x8000_0000 {
            (v % 0x1_0000_0000) as int
        } else {
            v % 0x1_0000_0000 - 0x1_0000_0000
        },
        (sx(v, 2) as u64) & 0xffff_ffff == v % 0x1_0000_0000,
{
    low_parts(0, v, 0);
    sign_casts(0, 0, v as u32, 0, 0, sx(v, 2));
    low_parts(0, sx(v, 2) as u64, 0);
}

proof fn doubleword_element(v: u64)
    ensures
        v & 0xffff_ffff_ffff_ffff == v,
        sx(v, 3) == if v < 0x8000_0000_0000_0000 {
            v as int
        } else {
            v - 0x1_0000_0000_0000_0000
        },
        (sx(v, 3) as u64) & 0xffff_ffff_ffff_ffff == v,
{
    sign_casts(0, 0, 0, v, 0, sx(v, 3));
    whole_doubleword(v);
}

/// A number modulo 2^64 has the same low bits.
pub proof fn folded(x: int, size: usize)
    requires
        size <= 3,
    ensures
        (x % 0x1_0000_0000_0000_0000) % span(size) == x % span(size),
        0 <= x % span(size) < span(size),
        0 <= x < span(size) ==> x % span(size) == x,
{
    reveal(span);
    let n = span(size);
    let k: int = 0x1_0000_0000_0000_0000int / n;
    assert(0x1_0000_0000_0000_0000 == n * k && n > 0 && k > 0);
    lemma_mod_mod(x, n, k);
    lemma_mod_bound(x, n);
    if 0 <= x < n {
        lemma_small_mod(x as nat, n as nat);
    }
}

/// A number as the bits of an element.
pub proof fn bits_of_number(x: int, size: usize)
    requires
        size <= 3,
        -0x8000_0000_0000_0000 <= x <= 0x7fff_ffff_ffff_ffff,
    ensures
        to_elem(x, size) == x % span(size),
        ((x as i64) as u64) & elem_mask(size) == x % span(size),
{
    sign_casts(0, 0, 0, 0, 0, x as i64);
    elements((x as i64) as u64, size);
    folded(x, size);
    assert((x as i64) as u64 == x % 0x1_0000_0000_0000_0000);
}

/// The element that holds the low bits of a number.
pub proof fn low_bits(r: u64, x: int, size: usize)
    requires
        size <= 3,
        r == x % 0x1_0000_0000_0000_0000,
    ensures
        r & elem_mask(size) == x % span(size),
{
    elements(r, size);
    folded(x, size);
}

/// The two ways to bring a number into range.
pub proof fn saturations(v: int, size: usize)
    requires
        size <= 3,
    ensures
        saturates(v, size, true, sat_elem(v, size)),
        saturates(v, size, false, usat_elem(v, size)),
{
    elements(0, size);
    let near = if v < smin(size) {
        smin(size)
    } else if v > smax(size) {
        smax(size)
    } else {
        v
    };
    bits_of_number(near, size);
    folded(v, size);
    folded(0, size);
    folded(span(size) - 1, size);
}

/// VQADD and VQSUB: saturated sums and differences.
pub proof fn saturated_sums(a: u64, b: u64, size: usize, signed: bool)
    requires
        size <= 3,
        a < span(size),
        b < span(size),
    ensures
        ({
            let (x, y) = (number(a, size, signed), number(b, size, signed));
            &&& saturates(x + y, size, signed, qadd(a, b, size, signed))
            &&& saturates(x - y, size, signed, qsub(a, b, size, signed))
        }),
{
    elements(a, size);
    elements(b, size);
    let (x, y) = (number(a, size, signed), number(b, size, signed));
    saturations(x + y, size);
    saturations(x - y, size);
}

/// VHADD, VRHADD and VHSUB: halved sums and differences, rounded down or to
/// nearest.
pub proof fn halved_sums(a: u64, b: u64, size: usize, signed: bool)
    requires
        size <= 3,
        a < span(size),
        b < span(size),
    ensures
        ({
            let (x, y) = (number(a, size, signed), number(b, size, signed));
            &&& hadd(a, b, size, signed, false) == ((x + y) / 2) % span(size)
            &&& hadd(a, b, size, signed, true) == ((x + y + 1) / 2) % span(size)
            &&& hsub(a, b, size, signed) == ((x - y) / 2) % span(size)
        }),
{
    elements(a, size);
    elements(b, size);
    let (x, y) = (number(a, size, signed), number(b, size, signed));
    halves_128(x + y);
    halves_128(x + y + 1);
    halves_128(x - y);
    bits_of_number((x - y) / 2, size);
    if signed {
        bits_of_number((x + y) / 2, size);
        bits_of_number((x + y + 1) / 2, size);
    } else {
        folded((x + y) / 2, size);
        folded((x + y + 1) / 2, size);
    }
}

/// The distance of two numbers.
pub open spec fn apart(x: int, y: int) -> int {
    if x >= y {
        x - y
    } else {
        y - x
    }
}

/// Comparisons, minimum and maximum.
pub proof fn comparisons_of_elements(a: u64, b: u64, size: usize, signed: bool)
    requires
        size <= 3,
        a < span(size),
        b < span(size),
    ensures
        ({
            let (x, y) = (number(a, size, signed), number(b, size, signed));
            &&& mask_if(elem_gt(a, b, size, signed), size) == if x > y {
                span(size) - 1
            } else {
                0
            }
            &&& mask_if(!elem_gt(b, a, size, signed), size) == if x >= y {
                span(size) - 1
            } else {
                0
            }
            &&& minmax(a, b, size, signed, true) == if x >= y {
                a
            } else {
                b
            }
            &&& minmax(a, b, size, signed, false) == if x <= y {
                a
            } else {
                b
            }
        }),
{
    elements(a, size);
    elements(b, size);
}

/// Absolute differences, in the width of the elements and in twice the width.
pub proof fn distances_of_elements(a: u64, b: u64, size: usize, signed: bool)
    requires
        size <= 3,
        a < span(size),
        b < span(size),
    ensures
        abd(a, b, size, signed) == apart(number(a, size, signed), number(b, size, signed)),
        size <= 2 ==> abdl(a, b, size, signed) == apart(
            number(a, size, signed),
            number(b, size, signed),
        ),
{
    elements(a, size);
    elements(b, size);
    let d = apart(number(a, size, signed), number(b, size, signed));
    elements(d as u64, size);
    folded(d, size);
    if size <= 2 {
        elements(d as u64, (size + 1) as usize);
        folded(d, (size + 1) as usize);
        assert(span(size) <= span(size) * span(size)) by (nonlinear_arith)
            requires
                span(size) >= 1,
        ;
    }
}

/// VADD, VSUB, VMUL, VMLA and VMLS of elements: sums, differences and products
/// modulo the span of an element.
pub proof fn modular_elements(a: u64, b: u64, d: u64, size: usize)
    requires
        size <= 3,
        a < span(size),
        b < span(size),
        d < span(size),
    ensures
        int_elem(8, false, false, size, a, b, d) == (((a + b) % span(size)) as u64, false),
        int_elem(8, true, false, size, a, b, d) == (((a - b) % span(size)) as u64, false),
        int_elem(9, false, true, size, a, b, d) == ((a * b % span(size)) as u64, false),
        int_elem(9, false, false, size, a, b, d) == (((d + a * b) % span(size)) as u64, false),
        int_elem(9, true, false, size, a, b, d) == (((d - a * b) % span(size)) as u64, false),
{
    low_bits(a.wrapping_add(b), a + b, size);
    low_bits(a.wrapping_sub(b), a - b, size);
    multiplied_elements(a, b, d, size);
}

proof fn multiplied_elements(a: u64, b: u64, d: u64, size: usize)
    requires
        size <= 3,
    ensures
        a.wrapping_mul(b) & elem_mask(size) == a * b % span(size),
        d.wrapping_add(a.wrapping_mul(b)) & elem_mask(size) == (d + a * b) % span(size),
        d.wrapping_sub(a.wrapping_mul(b)) & elem_mask(size) == (d - a * b) % span(size),
{
    let p = a * b;
    let r = a.wrapping_mul(b);
    assert(r == p % 0x1_0000_0000_0000_0000);
    low_bits(r, p, size);
    low_bits(d.wrapping_add(r), d + p, size);
    low_bits(d.wrapping_sub(r), d - p, size);
}

/// VHADD, VQADD, VRHADD, VHSUB and VQSUB of elements.
pub proof fn summed_elements(opcode: u32, u: bool, op: bool, size: usize, a: u64, b: u64, d: u64)
    requires
        size <= 3,
        a < span(size),
        b < span(size),
    ensures
        ({
            let (x, y) = (number(a, size, !u), number(b, size, !u));
            let out = int_elem(opcode, u, op, size, a, b, d);
            &&& opcode == 0 && !op ==> out.0 == (x + y) / 2 % span(size) && !out.1
            &&& opcode == 0 && op ==> saturates(x + y, size, !u, out)
            &&& opcode == 1 ==> out.0 == (x + y + 1) / 2 % span(size) && !out.1
            &&& opcode == 2 && !op ==> out.0 == (x - y) / 2 % span(size) && !out.1
            &&& opcode == 2 && op ==> saturates(x - y, size, !u, out)
        }),
{
    saturated_sums(a, b, size, !u);
    halved_sums(a, b, size, !u);
}

/// VCGT, VCGE, VMAX, VMIN, VTST and VCEQ of elements.
pub proof fn compared_elements(opcode: u32, u: bool, op: bool, size: usize, a: u64, b: u64, d: u64)
    requires
        size <= 3,
        a < span(size),
        b < span(size),
    ensures
        ({
            let (x, y) = (number(a, size, !u), number(b, size, !u));
            let out = int_elem(opcode, u, op, size, a, b, d);
            &&& opcode == 3 ==> !out.1 && out.0 == if (op && x >= y) || x > y {
                span(size) - 1
            } else {
                0
            }
            &&& opcode == 6 ==> !out.1 && out.0 == if (op && x <= y) || (!op && x >= y) {
                a
            } else {
                b
            }
            &&& opcode == 8 && op ==> !out.1 && out.0 == if (u && a == b) || (!u && a & b != 0) {
                span(size) - 1
            } else {
                0
            }
        }),
{
    comparisons_of_elements(a, b, size, !u);
    elements(0, size);
}

/// VABD and VABA of elements.
pub proof fn distant_elements(u: bool, op: bool, size: usize, a: u64, b: u64, d: u64)
    requires
        size <= 3,
        a < span(size),
        b < span(size),
    ensures
        ({
            let x = apart(number(a, size, !u), number(b, size, !u));
            let out = int_elem(7, u, op, size, a, b, d);
            &&& !out.1
            &&& out.0 == if op {
                (d + x) % span(size)
            } else {
                x
            }
        }),
{
    distances_of_elements(a, b, size, !u);
    let x = apart(number(a, size, !u), number(b, size, !u));
    low_bits(d.wrapping_add(abd(a, b, size, !u)), d + x, size);
}

} // verus!
