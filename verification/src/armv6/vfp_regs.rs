//! Register numbers in floating-point and vector encodings.

use super::bits::f4;
use vstd::prelude::*;

verus! {

/// A doubleword register number: four bits at `k` below one bit at `b`.
pub open spec fn dreg_at(instr: u32, k: u32, b: u32) -> usize {
    (((instr >> k) & 0xf) | (((instr >> b) & 1) << 4)) as usize
}

/// A word register number: four bits at `k` above one bit at `b`.
pub open spec fn sreg_at(instr: u32, k: u32, b: u32) -> usize {
    ((((instr >> k) & 0xf) << 1) | ((instr >> b) & 1)) as usize
}

/// The destination doubleword register.
pub open spec fn dd(instr: u32) -> usize {
    dreg_at(instr, 12, 22)
}

/// The first operand doubleword register.
pub open spec fn dn(instr: u32) -> usize {
    dreg_at(instr, 16, 7)
}

/// The second operand doubleword register.
pub open spec fn dm(instr: u32) -> usize {
    dreg_at(instr, 0, 5)
}

/// The destination word register.
pub open spec fn sd(instr: u32) -> usize {
    sreg_at(instr, 12, 22)
}

/// The first operand word register.
pub open spec fn sn(instr: u32) -> usize {
    sreg_at(instr, 16, 7)
}

/// The second operand word register.
pub open spec fn sm(instr: u32) -> usize {
    sreg_at(instr, 0, 5)
}

proof fn five_bit_numbers(instr: u32, k: u32, b: u32)
    ensures
        dreg_at(instr, k, b) < 32,
        sreg_at(instr, k, b) < 32,
        dd(instr) == instr / 0x1000 % 16 + 16 * (instr / 0x400000 % 2),
        sd(instr) == 2 * (instr / 0x1000 % 16) + instr / 0x400000 % 2,
        dn(instr) == instr / 0x10000 % 16 + 16 * (instr / 0x80 % 2),
        sn(instr) == 2 * (instr / 0x10000 % 16) + instr / 0x80 % 2,
        dm(instr) == instr / 0x1 % 16 + 16 * (instr / 0x20 % 2),
        sm(instr) == 2 * (instr / 0x1 % 16) + instr / 0x20 % 2,
        (instr >> 0) & 0xf == instr / 0x1 % 16,
        (instr >> 8) & 0xf == instr / 0x100 % 16,
        (instr >> 12) & 0xf == instr / 0x1000 % 16,
        (instr >> 16) & 0xf == instr / 0x10000 % 16,
        (instr >> 20) & 0x3 == instr / 0x100000 % 4,
        (instr >> 18) & 0x3 == instr / 0x40000 % 4,
        (instr >> 16) & 0x3 == instr / 0x10000 % 4,
        (instr >> 8) & 0xf == instr / 0x100 % 16,
        (instr >> 7) & 0xf == instr / 0x80 % 16,
        (instr >> 6) & 0x3 == instr / 0x40 % 4,
        (instr >> 21) & 0x3 == instr / 0x200000 % 4,
        (instr >> 5) & 0x3 == instr / 0x20 % 4,
        (instr >> 10) & 0x3 == instr / 0x400 % 4,
        (instr >> 4) & 0xf == instr / 0x10 % 16,
        (instr >> 7) & 0x1f == instr / 0x80 % 32,
{
    let four = (instr >> k) & 0xf;
    let one = (instr >> b) & 1;
    assert(four | (one << 4) < 32 && (four << 1) | one < 32 && (((instr >> 12u32) & 0xf) | (((instr >> 22u32) & 1) << 4)) == instr / 0x1000 % 16 + 16 * (instr / 0x400000 % 2) && ((((instr >> 12u32) & 0xf) << 1) | ((instr >> 22u32) & 1)) == 2 * (instr / 0x1000 % 16) + instr / 0x400000 % 2 && (((instr >> 16u32) & 0xf) | (((instr >> 7u32) & 1) << 4)) == instr / 0x10000 % 16 + 16 * (instr / 0x80 % 2) && ((((instr >> 16u32) & 0xf) << 1) | ((instr >> 7u32) & 1)) == 2 * (instr / 0x10000 % 16) + instr / 0x80 % 2 && (((instr >> 0u32) & 0xf) | (((instr >> 5u32) & 1) << 4)) == instr / 0x1 % 16 + 16 * (instr / 0x20 % 2) && ((((instr >> 0u32) & 0xf) << 1) | ((instr >> 5u32) & 1)) == 2 * (instr / 0x1 % 16) + instr / 0x20 % 2 && (instr >> 0u32) & 0xf == instr / 0x1 % 16 && (instr >> 8u32) & 0xf == instr / 0x100 % 16 && (instr >> 12u32) & 0xf == instr / 0x1000 % 16 && (instr >> 16u32) & 0xf == instr / 0x10000 % 16 && (instr >> 20u32) & 0x3 == instr / 0x100000 % 4 && (instr >> 18u32) & 0x3 == instr / 0x40000 % 4 && (instr >> 16u32) & 0x3 == instr / 0x10000 % 4 && (instr >> 8u32) & 0xf == instr / 0x100 % 16 && (instr >> 7u32) & 0xf == instr / 0x80 % 16 && (instr >> 6u32) & 0x3 == instr / 0x40 % 4 && (instr >> 21u32) & 0x3 == instr / 0x200000 % 4 && (instr >> 5u32) & 0x3 == instr / 0x20 % 4 && (instr >> 10u32) & 0x3 == instr / 0x400 % 4 && (instr >> 4u32) & 0xf == instr / 0x10 % 16 && (instr >> 7u32) & 0x1f == instr / 0x80 % 32) by (bit_vector)
        requires
            four == (instr >> k) & 0xf,
            one == (instr >> b) & 1,
    ;
}

/// Register numbers have five bits.
pub proof fn register_numbers_are_small(instr: u32, k: u32, b: u32)
    ensures
        dreg_at(instr, k, b) < 32,
        sreg_at(instr, k, b) < 32,
{
    five_bit_numbers(instr, k, b);
}

/// The register numbers of a floating-point or vector word: four bits and, above
/// them in a doubleword register's number and below them in a word register's,
/// one bit from another place.
pub proof fn register_numbers(instr: u32)
    ensures
        dd(instr) == instr / 0x1000 % 16 + 16 * (instr / 0x400000 % 2),
        sd(instr) == 2 * (instr / 0x1000 % 16) + instr / 0x400000 % 2,
        dn(instr) == instr / 0x10000 % 16 + 16 * (instr / 0x80 % 2),
        sn(instr) == 2 * (instr / 0x10000 % 16) + instr / 0x80 % 2,
        dm(instr) == instr / 0x1 % 16 + 16 * (instr / 0x20 % 2),
        sm(instr) == 2 * (instr / 0x1 % 16) + instr / 0x20 % 2,
        dd(instr) < 32,
        sd(instr) < 32,
        dn(instr) < 32,
        sn(instr) < 32,
        dm(instr) < 32,
        sm(instr) < 32,
{
    five_bit_numbers(instr, 0, 0);
}

/// The four-bit fields of a word, and the small fields of the vector words.
pub proof fn word_fields(instr: u32)
    ensures
        f4(instr, 0) == instr / 0x1 % 16,
        f4(instr, 8) == instr / 0x100 % 16,
        f4(instr, 12) == instr / 0x1000 % 16,
        f4(instr, 16) == instr / 0x10000 % 16,
        (instr >> 20) & 0x3 == instr / 0x100000 % 4,
        (instr >> 18) & 0x3 == instr / 0x40000 % 4,
        (instr >> 16) & 0x3 == instr / 0x10000 % 4,
        (instr >> 8) & 0xf == instr / 0x100 % 16,
        (instr >> 7) & 0xf == instr / 0x80 % 16,
        (instr >> 6) & 0x3 == instr / 0x40 % 4,
        (instr >> 21) & 0x3 == instr / 0x200000 % 4,
        (instr >> 5) & 0x3 == instr / 0x20 % 4,
        (instr >> 10) & 0x3 == instr / 0x400 % 4,
        (instr >> 4) & 0xf == instr / 0x10 % 16,
        (instr >> 7) & 0x1f == instr / 0x80 % 32,
{
    five_bit_numbers(instr, 0, 0);
}

fn five_bits(instr: u32, k: u32, b: u32, double: bool) -> (r: usize)
    requires
        k < 32,
        b < 32,
    ensures
        r < 32,
        double ==> r == dreg_at(instr, k, b),
        !double ==> r == sreg_at(instr, k, b),
{
    let four = (instr >> k) & 0xf;
    let one = (instr >> b) & 1;
    proof {
        register_numbers_are_small(instr, k, b);
    }
    if double {
        (four | (one << 4)) as usize
    } else {
        ((four << 1) | one) as usize
    }
}

pub(crate) fn vfp_double_d(instr: u32) -> (r: usize)
    ensures
        r == dd(instr),
        r < 32,
{
    five_bits(instr, 12, 22, true)
}

pub(crate) fn vfp_double_n(instr: u32) -> (r: usize)
    ensures
        r == dn(instr),
        r < 32,
{
    five_bits(instr, 16, 7, true)
}

pub(crate) fn vfp_double_m(instr: u32) -> (r: usize)
    ensures
        r == dm(instr),
        r < 32,
{
    five_bits(instr, 0, 5, true)
}

pub(crate) fn vfp_single_d(instr: u32) -> (r: usize)
    ensures
        r == sd(instr),
        r < 32,
{
    five_bits(instr, 12, 22, false)
}

pub(crate) fn vfp_single_n(instr: u32) -> (r: usize)
    ensures
        r == sn(instr),
        r < 32,
{
    five_bits(instr, 16, 7, false)
}

pub(crate) fn vfp_single_m(instr: u32) -> (r: usize)
    ensures
        r == sm(instr),
        r < 32,
{
    five_bits(instr, 0, 5, false)
}

} // verus!
