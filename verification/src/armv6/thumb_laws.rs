//! What the 16-bit Thumb instructions compute, in numbers and bit by bit.

use super::a32_laws::{differences, leaves_signed, one_if, same_but_register, sums};
use super::alu::{diff3, holds, shifted, sum3, Shift};
use super::arm_misc::revsh;
use super::bits::{bit, sext, t3};
use super::cpu::{beside, Cpsr, CpuState, Seen};
use super::memory::MemState;
use super::numbers::{bit_by_bit, low_parts, sign_casts, signed16, signed32, signed8};
use super::shift_laws::{
    extensions, moved_left, moved_right, moved_right_signed, shift_by_amount, shift_by_immediate,
    turned_right,
};
use super::thumb::{high_reg, it_cond, it_conds, thumb, thumb_high};
use super::transfer_laws::{
    ahead, claim_after, loads, memory_number, memory_takes, signed_loads, stores,
};
use super::word_parts::{
    byte_at, immediates, it_fields, of_bytes, reversed_bytes, swapped_low_bytes,
};
use vstd::prelude::*;

verus! {

/// The number that stands in a halfword from the bit of weight `at` on, below
/// `size`.
#[verifier::opaque]
pub open spec fn part(i: u16, at: int, size: int) -> int {
    i as int / at % size
}

/// The low register that a halfword names from the bit of weight `at` on.
pub open spec fn low_reg(i: u16, at: int) -> usize {
    part(i, at, 8) as usize
}

proof fn raw_fields(i: u16)
    ensures
        i & 7 == i % 0x8,
        i & 0xf == i % 0x10,
        i & 0xff == i % 0x100,
        i & 0x7f == i % 0x80,
        i & 0x7ff == i % 0x800,
        (i >> 3) & 7 == i / 0x8 % 0x8,
        (i >> 6) & 7 == i / 0x40 % 0x8,
        (i >> 8) & 7 == i / 0x100 % 0x8,
        (i >> 0) & 7 == i % 0x8,
        (i >> 9) & 7 == i / 0x200 % 0x8,
        (i >> 6) & 0xf == i / 0x40 % 0x10,
        (i >> 4) & 0xf == i / 0x10 % 0x10,
        (i >> 8) & 0xf == i / 0x100 % 0x10,
        (i >> 6) & 3 == i / 0x40 % 0x4,
        (i >> 8) & 3 == i / 0x100 % 0x4,
        (i >> 11) & 3 == i / 0x800 % 0x4,
        (i >> 9) & 1 == i / 0x200 % 0x2,
        (i >> 6) & 0x1f == i / 0x40 % 0x20,
        (i >> 3) & 0x1f == i / 0x8 % 0x20,
        (i & 0x1000 != 0) == (i / 0x1000 % 0x2 == 1),
        (i & 0x800 != 0) == (i / 0x800 % 0x2 == 1),
        (i & 0x400 != 0) == (i / 0x400 % 0x2 == 1),
        (i & 0x200 != 0) == (i / 0x200 % 0x2 == 1),
        (i & 0x100 != 0) == (i / 0x100 % 0x2 == 1),
        (i & 0x80 != 0) == (i / 0x80 % 0x2 == 1),
        (i & 0x40 != 0) == (i / 0x40 % 0x2 == 1),
        (i & 0x8 != 0) == (i / 0x8 % 0x2 == 1),
        (i >> 13 == 0) == (0x0 <= i && i < 0x2000),
        (i >> 13 == 1) == (0x2000 <= i && i < 0x4000),
        (i >> 13 == 2) == (0x4000 <= i && i < 0x6000),
        (i >> 13 == 3) == (0x6000 <= i && i < 0x8000),
        (i >> 13 == 4) == (0x8000 <= i && i < 0xa000),
        (i >> 13 == 5) == (0xa000 <= i && i < 0xc000),
        (i >> 13 == 6) == (0xc000 <= i && i < 0xe000),
        (i & 0xf800 == 0x4800) == (0x4800 <= i && i < 0x5000),
        (i & 0xfc00 == 0x4000) == (0x4000 <= i && i < 0x4400),
        (i & 0xfc00 == 0x4400) == (0x4400 <= i && i < 0x4800),
        (i & 0xf000 == 0x5000) == (0x5000 <= i && i < 0x6000),
        (i & 0xf000 == 0x8000) == (0x8000 <= i && i < 0x9000),
        (i & 0xf000 == 0x9000) == (0x9000 <= i && i < 0xa000),
        (i & 0xf000 == 0xa000) == (0xa000 <= i && i < 0xb000),
        (i & 0xf000 == 0xc000) == (0xc000 <= i && i < 0xd000),
        (i & 0xf000 == 0xd000) == (0xd000 <= i && i < 0xe000),
        (i & 0xe000 == 0x6000) == (0x6000 <= i && i < 0x8000),
        (i & 0xff00 == 0xb200) == (0xb200 <= i && i < 0xb300),
        (i & 0xff00 == 0xba00) == (0xba00 <= i && i < 0xbb00),
        (i & 0xff00 == 0xbf00) == (0xbf00 <= i && i < 0xc000),
        (i & 0xff00 == 0xbe00) == (0xbe00 <= i && i < 0xbf00),
        (i & 0xff00 == 0xb000) == (0xb000 <= i && i < 0xb100),
        (i & 0xf800 == 0xe000) == (0xe000 <= i && i < 0xe800),
        (i & 0xf800 == 0xe800) == (0xe800 <= i && i < 0xf000),
        (i & 0xf800 == 0xf000) == (0xf000 <= i && i < 0xf800),
        (i & 0xf800 == 0xf800) == (0xf800 <= i),
        (i < 0x2000 ==> (i & 0x1800 == 0x1800) == (i >= 0x1800)),
        ((i & 0xfff7 == 0xb650) ==> (0xb600 <= i && i < 0xb700)),
        ((i & 0xffe8 == 0xb660) ==> (0xb600 <= i && i < 0xb700)),
        (0x0 <= i && i < 0x2000 ==> (i / 0x800 % 0x4 == 0) == (0x0 <= i && i < 0x800)),
        (0x0 <= i && i < 0x2000 ==> (i / 0x800 % 0x4 == 1) == (0x800 <= i && i < 0x1000)),
        (0x0 <= i && i < 0x2000 ==> (i / 0x800 % 0x4 == 2) == (0x1000 <= i && i < 0x1800)),
        (0x0 <= i && i < 0x2000 ==> (i / 0x800 % 0x4 == 3) == (0x1800 <= i && i < 0x2000)),
        (0x2000 <= i && i < 0x4000 ==> (i / 0x800 % 0x4 == 0) == (0x2000 <= i && i < 0x2800)),
        (0x2000 <= i && i < 0x4000 ==> (i / 0x800 % 0x4 == 1) == (0x2800 <= i && i < 0x3000)),
        (0x2000 <= i && i < 0x4000 ==> (i / 0x800 % 0x4 == 2) == (0x3000 <= i && i < 0x3800)),
        (0x2000 <= i && i < 0x4000 ==> (i / 0x800 % 0x4 == 3) == (0x3800 <= i && i < 0x4000)),
        (0xb000 <= i && i < 0xb100 ==> (i / 0x80 % 0x2 == 1) == (i >= 0xb080)),
        (0xa000 <= i && i < 0xb000 ==> (i / 0x800 % 0x2 == 1) == (i >= 0xa800)),
        (0x6000 <= i && i < 0x8000 ==> (i / 0x1000 % 0x2 == 1) == (i >= 0x7000)),
        (0xd000 <= i && i < 0xde00 ==> i / 0x100 % 0x10 < 14),
        (0xbf00 <= i && i < 0xbff0 ==> i / 0x10 % 0x10 < 15),
        (0xb100 <= i && i < 0xc000 ==> (i & 0xf500 == 0xb100) == (i / 0x400 % 0x2 == 0 && i / 0x100 % 0x2 == 1)),
        (i & 0xf600 == 0xb400) == (0xb000 <= i && i < 0xc000 && i / 0x200 % 0x4 == 2),
        (i < 0xb100 && 0xa000 <= i ==> i & 0xf500 != 0xb100 || i & 0xf000 == 0xa000),
        ((i & 0xff) as u32) << 2 == 4 * (i % 0x100),
        ((i & 0x7f) as u32) << 2 == 4 * (i % 0x80),
        (((i >> 6) & 0x1f) as u32) << 2 == 4 * (i / 0x40 % 0x20),
        (((i >> 6) & 0x1f) as u32) << 1 == 2 * (i / 0x40 % 0x20),
        ((i & 0x7ff) as u32) << 1 == 2 * (i % 0x800),
        ((((i >> 9) & 1) as u32) << 6) | ((((i >> 3) & 0x1f) as u32) << 1) == 64 * (i / 0x200 % 0x2) + 2 * (i / 0x8 % 0x20),
        (0xb200 <= i && i < 0xb300 ==> i / 0x100 % 0x2 == 0),
        (0xba00 <= i && i < 0xbb00 ==> i / 0x100 % 0x2 == 0),
        (0xbe00 <= i && i < 0xbf00 ==> i / 0x100 % 0x2 == 0),
        (0xbf00 <= i && i < 0xc000 ==> i / 0x400 % 0x2 == 1),
        (0xb600 <= i && i < 0xb700 ==> i / 0x400 % 0x2 == 1),
{
    assert(i & 7 == i % 0x8
        && i & 0xf == i % 0x10
        && i & 0xff == i % 0x100
        && i & 0x7f == i % 0x80
        && i & 0x7ff == i % 0x800
        && (i >> 3) & 7 == i / 0x8 % 0x8
        && (i >> 6) & 7 == i / 0x40 % 0x8
        && (i >> 8) & 7 == i / 0x100 % 0x8
        && (i >> 0) & 7 == i % 0x8
        && (i >> 9) & 7 == i / 0x200 % 0x8
        && (i >> 6) & 0xf == i / 0x40 % 0x10
        && (i >> 4) & 0xf == i / 0x10 % 0x10
        && (i >> 8) & 0xf == i / 0x100 % 0x10
        && (i >> 6) & 3 == i / 0x40 % 0x4
        && (i >> 8) & 3 == i / 0x100 % 0x4
        && (i >> 11) & 3 == i / 0x800 % 0x4
        && (i >> 9) & 1 == i / 0x200 % 0x2
        && (i >> 6) & 0x1f == i / 0x40 % 0x20
        && (i >> 3) & 0x1f == i / 0x8 % 0x20
        && (i & 0x1000 != 0) == (i / 0x1000 % 0x2 == 1)
        && (i & 0x800 != 0) == (i / 0x800 % 0x2 == 1)
        && (i & 0x400 != 0) == (i / 0x400 % 0x2 == 1)
        && (i & 0x200 != 0) == (i / 0x200 % 0x2 == 1)
        && (i & 0x100 != 0) == (i / 0x100 % 0x2 == 1)
        && (i & 0x80 != 0) == (i / 0x80 % 0x2 == 1)
        && (i & 0x40 != 0) == (i / 0x40 % 0x2 == 1)
        && (i & 0x8 != 0) == (i / 0x8 % 0x2 == 1)
        && (i >> 13 == 0) == (0x0 <= i && i < 0x2000)
        && (i >> 13 == 1) == (0x2000 <= i && i < 0x4000)
        && (i >> 13 == 2) == (0x4000 <= i && i < 0x6000)
        && (i >> 13 == 3) == (0x6000 <= i && i < 0x8000)
        && (i >> 13 == 4) == (0x8000 <= i && i < 0xa000)
        && (i >> 13 == 5) == (0xa000 <= i && i < 0xc000)
        && (i >> 13 == 6) == (0xc000 <= i && i < 0xe000)
        && (i & 0xf800 == 0x4800) == (0x4800 <= i && i < 0x5000)
        && (i & 0xfc00 == 0x4000) == (0x4000 <= i && i < 0x4400)
        && (i & 0xfc00 == 0x4400) == (0x4400 <= i && i < 0x4800)
        && (i & 0xf000 == 0x5000) == (0x5000 <= i && i < 0x6000)
        && (i & 0xf000 == 0x8000) == (0x8000 <= i && i < 0x9000)
        && (i & 0xf000 == 0x9000) == (0x9000 <= i && i < 0xa000)
        && (i & 0xf000 == 0xa000) == (0xa000 <= i && i < 0xb000)
        && (i & 0xf000 == 0xc000) == (0xc000 <= i && i < 0xd000)
        && (i & 0xf000 == 0xd000) == (0xd000 <= i && i < 0xe000)
        && (i & 0xe000 == 0x6000) == (0x6000 <= i && i < 0x8000)
        && (i & 0xff00 == 0xb200) == (0xb200 <= i && i < 0xb300)
        && (i & 0xff00 == 0xba00) == (0xba00 <= i && i < 0xbb00)
        && (i & 0xff00 == 0xbf00) == (0xbf00 <= i && i < 0xc000)
        && (i & 0xff00 == 0xbe00) == (0xbe00 <= i && i < 0xbf00)
        && (i & 0xff00 == 0xb000) == (0xb000 <= i && i < 0xb100)
        && (i & 0xf800 == 0xe000) == (0xe000 <= i && i < 0xe800)
        && (i & 0xf800 == 0xe800) == (0xe800 <= i && i < 0xf000)
        && (i & 0xf800 == 0xf000) == (0xf000 <= i && i < 0xf800)
        && (i & 0xf800 == 0xf800) == (0xf800 <= i)
        && (i < 0x2000 ==> (i & 0x1800 == 0x1800) == (i >= 0x1800))
        && ((i & 0xfff7 == 0xb650) ==> (0xb600 <= i && i < 0xb700))
        && ((i & 0xffe8 == 0xb660) ==> (0xb600 <= i && i < 0xb700))
        && (0x0 <= i && i < 0x2000 ==> (i / 0x800 % 0x4 == 0) == (0x0 <= i && i < 0x800))
        && (0x0 <= i && i < 0x2000 ==> (i / 0x800 % 0x4 == 1) == (0x800 <= i && i < 0x1000))
        && (0x0 <= i && i < 0x2000 ==> (i / 0x800 % 0x4 == 2) == (0x1000 <= i && i < 0x1800))
        && (0x0 <= i && i < 0x2000 ==> (i / 0x800 % 0x4 == 3) == (0x1800 <= i && i < 0x2000))
        && (0x2000 <= i && i < 0x4000 ==> (i / 0x800 % 0x4 == 0) == (0x2000 <= i && i < 0x2800))
        && (0x2000 <= i && i < 0x4000 ==> (i / 0x800 % 0x4 == 1) == (0x2800 <= i && i < 0x3000))
        && (0x2000 <= i && i < 0x4000 ==> (i / 0x800 % 0x4 == 2) == (0x3000 <= i && i < 0x3800))
        && (0x2000 <= i && i < 0x4000 ==> (i / 0x800 % 0x4 == 3) == (0x3800 <= i && i < 0x4000))
        && (0xb000 <= i && i < 0xb100 ==> (i / 0x80 % 0x2 == 1) == (i >= 0xb080))
        && (0xa000 <= i && i < 0xb000 ==> (i / 0x800 % 0x2 == 1) == (i >= 0xa800))
        && (0x6000 <= i && i < 0x8000 ==> (i / 0x1000 % 0x2 == 1) == (i >= 0x7000))
        && (0xd000 <= i && i < 0xde00 ==> i / 0x100 % 0x10 < 14)
        && (0xbf00 <= i && i < 0xbff0 ==> i / 0x10 % 0x10 < 15)
        && (0xb100 <= i && i < 0xc000 ==> (i & 0xf500 == 0xb100) == (i / 0x400 % 0x2 == 0 && i / 0x100 % 0x2 == 1))
        && (i & 0xf600 == 0xb400) == (0xb000 <= i && i < 0xc000 && i / 0x200 % 0x4 == 2)
        && (i < 0xb100 && 0xa000 <= i ==> i & 0xf500 != 0xb100 || i & 0xf000 == 0xa000)
        && ((i & 0xff) as u32) << 2 == 4 * (i % 0x100)
        && ((i & 0x7f) as u32) << 2 == 4 * (i % 0x80)
        && (((i >> 6) & 0x1f) as u32) << 2 == 4 * (i / 0x40 % 0x20)
        && (((i >> 6) & 0x1f) as u32) << 1 == 2 * (i / 0x40 % 0x20)
        && ((i & 0x7ff) as u32) << 1 == 2 * (i % 0x800)
        && ((((i >> 9) & 1) as u32) << 6) | ((((i >> 3) & 0x1f) as u32) << 1) == 64 * (i / 0x200 % 0x2) + 2 * (i / 0x8 % 0x20)
        && (0xb200 <= i && i < 0xb300 ==> i / 0x100 % 0x2 == 0)
        && (0xba00 <= i && i < 0xbb00 ==> i / 0x100 % 0x2 == 0)
        && (0xbe00 <= i && i < 0xbf00 ==> i / 0x100 % 0x2 == 0)
        && (0xbf00 <= i && i < 0xc000 ==> i / 0x400 % 0x2 == 1)
        && (0xb600 <= i && i < 0xb700 ==> i / 0x400 % 0x2 == 1)) by (bit_vector);
}

/// The fields of a halfword as numbers, and the ranges of the encodings.
pub proof fn halfword_fields(i: u16)
    ensures
        i & 7 == part(i, 0x1, 0x8),
        i & 0xf == part(i, 0x1, 0x10),
        i & 0xff == part(i, 0x1, 0x100),
        i & 0x7f == part(i, 0x1, 0x80),
        i & 0x7ff == part(i, 0x1, 0x800),
        (i >> 3) & 7 == part(i, 0x8, 0x8),
        (i >> 6) & 7 == part(i, 0x40, 0x8),
        (i >> 8) & 7 == part(i, 0x100, 0x8),
        (i >> 0) & 7 == part(i, 0x1, 0x8),
        (i >> 9) & 7 == part(i, 0x200, 0x8),
        (i >> 6) & 0xf == part(i, 0x40, 0x10),
        (i >> 4) & 0xf == part(i, 0x10, 0x10),
        (i >> 8) & 0xf == part(i, 0x100, 0x10),
        (i >> 6) & 3 == part(i, 0x40, 0x4),
        (i >> 8) & 3 == part(i, 0x100, 0x4),
        (i >> 11) & 3 == part(i, 0x800, 0x4),
        (i >> 9) & 1 == part(i, 0x200, 0x2),
        (i >> 6) & 0x1f == part(i, 0x40, 0x20),
        (i >> 3) & 0x1f == part(i, 0x8, 0x20),
        (i & 0x1000 != 0) == (part(i, 0x1000, 2) == 1),
        (i & 0x800 != 0) == (part(i, 0x800, 2) == 1),
        (i & 0x400 != 0) == (part(i, 0x400, 2) == 1),
        (i & 0x200 != 0) == (part(i, 0x200, 2) == 1),
        (i & 0x100 != 0) == (part(i, 0x100, 2) == 1),
        (i & 0x80 != 0) == (part(i, 0x80, 2) == 1),
        (i & 0x40 != 0) == (part(i, 0x40, 2) == 1),
        (i & 0x8 != 0) == (part(i, 0x8, 2) == 1),
        (i >> 13 == 0) == (0x0 <= i && i < 0x2000),
        (i >> 13 == 1) == (0x2000 <= i && i < 0x4000),
        (i >> 13 == 2) == (0x4000 <= i && i < 0x6000),
        (i >> 13 == 3) == (0x6000 <= i && i < 0x8000),
        (i >> 13 == 4) == (0x8000 <= i && i < 0xa000),
        (i >> 13 == 5) == (0xa000 <= i && i < 0xc000),
        (i >> 13 == 6) == (0xc000 <= i && i < 0xe000),
        (i & 0xf800 == 0x4800) == (0x4800 <= i && i < 0x5000),
        (i & 0xfc00 == 0x4000) == (0x4000 <= i && i < 0x4400),
        (i & 0xfc00 == 0x4400) == (0x4400 <= i && i < 0x4800),
        (i & 0xf000 == 0x5000) == (0x5000 <= i && i < 0x6000),
        (i & 0xf000 == 0x8000) == (0x8000 <= i && i < 0x9000),
        (i & 0xf000 == 0x9000) == (0x9000 <= i && i < 0xa000),
        (i & 0xf000 == 0xa000) == (0xa000 <= i && i < 0xb000),
        (i & 0xf000 == 0xc000) == (0xc000 <= i && i < 0xd000),
        (i & 0xf000 == 0xd000) == (0xd000 <= i && i < 0xe000),
        (i & 0xe000 == 0x6000) == (0x6000 <= i && i < 0x8000),
        (i & 0xff00 == 0xb200) == (0xb200 <= i && i < 0xb300),
        (i & 0xff00 == 0xba00) == (0xba00 <= i && i < 0xbb00),
        (i & 0xff00 == 0xbf00) == (0xbf00 <= i && i < 0xc000),
        (i & 0xff00 == 0xbe00) == (0xbe00 <= i && i < 0xbf00),
        (i & 0xff00 == 0xb000) == (0xb000 <= i && i < 0xb100),
        (i & 0xf800 == 0xe000) == (0xe000 <= i && i < 0xe800),
        (i & 0xf800 == 0xe800) == (0xe800 <= i && i < 0xf000),
        (i & 0xf800 == 0xf000) == (0xf000 <= i && i < 0xf800),
        (i & 0xf800 == 0xf800) == (0xf800 <= i),
        (i < 0x2000 ==> (i & 0x1800 == 0x1800) == (i >= 0x1800)),
        ((i & 0xfff7 == 0xb650) ==> (0xb600 <= i && i < 0xb700)),
        ((i & 0xffe8 == 0xb660) ==> (0xb600 <= i && i < 0xb700)),
        (0x0 <= i && i < 0x2000 ==> (part(i, 0x800, 4) == 0) == (0x0 <= i && i < 0x800)),
        (0x0 <= i && i < 0x2000 ==> (part(i, 0x800, 4) == 1) == (0x800 <= i && i < 0x1000)),
        (0x0 <= i && i < 0x2000 ==> (part(i, 0x800, 4) == 2) == (0x1000 <= i && i < 0x1800)),
        (0x0 <= i && i < 0x2000 ==> (part(i, 0x800, 4) == 3) == (0x1800 <= i && i < 0x2000)),
        (0x2000 <= i && i < 0x4000 ==> (part(i, 0x800, 4) == 0) == (0x2000 <= i && i < 0x2800)),
        (0x2000 <= i && i < 0x4000 ==> (part(i, 0x800, 4) == 1) == (0x2800 <= i && i < 0x3000)),
        (0x2000 <= i && i < 0x4000 ==> (part(i, 0x800, 4) == 2) == (0x3000 <= i && i < 0x3800)),
        (0x2000 <= i && i < 0x4000 ==> (part(i, 0x800, 4) == 3) == (0x3800 <= i && i < 0x4000)),
        (0xb000 <= i && i < 0xb100 ==> (part(i, 0x80, 2) == 1) == (i >= 0xb080)),
        (0xa000 <= i && i < 0xb000 ==> (part(i, 0x800, 2) == 1) == (i >= 0xa800)),
        (0x6000 <= i && i < 0x8000 ==> (part(i, 0x1000, 2) == 1) == (i >= 0x7000)),
        (0xd000 <= i && i < 0xde00 ==> part(i, 0x100, 16) < 14),
        (0xbf00 <= i && i < 0xbff0 ==> part(i, 0x10, 16) < 15),
        (0xb100 <= i && i < 0xc000 ==> (i & 0xf500 == 0xb100) == (part(i, 0x400, 2) == 0 && part(i, 0x100, 2) == 1)),
        (i & 0xf600 == 0xb400) == (0xb000 <= i && i < 0xc000 && part(i, 0x200, 4) == 2),
        (i < 0xb100 && 0xa000 <= i ==> i & 0xf500 != 0xb100 || i & 0xf000 == 0xa000),
        0 <= part(i, 0x1, 0x2) < 0x2,
        0 <= part(i, 0x1, 0x8) < 0x8,
        0 <= part(i, 0x1, 0x10) < 0x10,
        0 <= part(i, 0x1, 0x80) < 0x80,
        0 <= part(i, 0x1, 0x100) < 0x100,
        0 <= part(i, 0x1, 0x800) < 0x800,
        0 <= part(i, 0x2, 0x2) < 0x2,
        0 <= part(i, 0x4, 0x2) < 0x2,
        0 <= part(i, 0x8, 0x2) < 0x2,
        0 <= part(i, 0x8, 0x8) < 0x8,
        0 <= part(i, 0x8, 0x20) < 0x20,
        0 <= part(i, 0x10, 0x10) < 0x10,
        0 <= part(i, 0x40, 0x2) < 0x2,
        0 <= part(i, 0x40, 0x4) < 0x4,
        0 <= part(i, 0x40, 0x8) < 0x8,
        0 <= part(i, 0x40, 0x10) < 0x10,
        0 <= part(i, 0x40, 0x20) < 0x20,
        0 <= part(i, 0x80, 0x2) < 0x2,
        0 <= part(i, 0x100, 0x2) < 0x2,
        0 <= part(i, 0x100, 0x4) < 0x4,
        0 <= part(i, 0x100, 0x8) < 0x8,
        0 <= part(i, 0x100, 0x10) < 0x10,
        0 <= part(i, 0x200, 0x2) < 0x2,
        0 <= part(i, 0x200, 0x4) < 0x4,
        0 <= part(i, 0x200, 0x8) < 0x8,
        0 <= part(i, 0x400, 0x2) < 0x2,
        0 <= part(i, 0x800, 0x2) < 0x2,
        0 <= part(i, 0x800, 0x4) < 0x4,
        0 <= part(i, 0x1000, 0x2) < 0x2,
        (0xb200 <= i && i < 0xb300 ==> part(i, 0x100, 2) == 0),
        (0xba00 <= i && i < 0xbb00 ==> part(i, 0x100, 2) == 0),
        (0xbe00 <= i && i < 0xbf00 ==> part(i, 0x100, 2) == 0),
        (0xbf00 <= i && i < 0xc000 ==> part(i, 0x400, 2) == 1),
        (0xb600 <= i && i < 0xb700 ==> part(i, 0x400, 2) == 1),
{
    reveal(part);
    raw_fields(i);
}

/// Whether the flags are those of a result, with a carry and an overflow.
pub open spec fn flags_are(before: Cpsr, after: Cpsr, r: u32, carry: bool, overflow: bool) -> bool {
    after == (Cpsr { n: r >= 0x8000_0000, z: r == 0, c: carry, v: overflow, ..before })
}

/// Whether a step completes with memory untouched and one register written, the
/// flags being those of the result.
pub open spec fn writes(
    s: CpuState,
    out: (CpuState, MemState, Seen<()>),
    m: MemState,
    rd: usize,
    r: int,
    carry: bool,
    overflow: bool,
) -> bool {
    &&& out.2 is Ok
    &&& out.1 == m
    &&& out.0.r(rd) == r
    &&& same_but_register(s, out.0, rd)
    &&& flags_are(s.cpsr, out.0.cpsr, out.0.r(rd), carry, overflow)
}

/// Whether a step completes with the flags of a result that it does not write.
pub open spec fn compares(
    s: CpuState,
    out: (CpuState, MemState, Seen<()>),
    m: MemState,
    r: int,
    carry: bool,
    overflow: bool,
) -> bool {
    &&& out.2 is Ok
    &&& out.1 == m
    &&& out.0 == s.with_cpsr(out.0.cpsr)
    &&& out.0.cpsr == (Cpsr { n: r >= 0x8000_0000, z: r == 0, c: carry, v: overflow, ..s.cpsr })
}

/// The additions and subtractions of three operands: the sum or difference
/// modulo 2^32, with the carry and the overflow of it.
pub proof fn three_operands(s: CpuState, m: MemState, instr: u16, pc: u32)
    requires
        s.wf(),
        0x1800 <= instr < 0x2000,
    ensures
        ({
            let a = s.r(low_reg(instr, 8));
            let b = if part(instr, 0x400, 2) == 1 {
                part(instr, 0x40, 8) as u32
            } else {
                s.r(low_reg(instr, 0x40))
            };
            let out = thumb(s, m, instr, pc);
            if part(instr, 0x200, 2) == 1 {
                writes(
                    s,
                    out,
                    m,
                    low_reg(instr, 1),
                    (a - b) % 0x1_0000_0000,
                    a >= b,
                    leaves_signed(signed32(a) - signed32(b)),
                )
            } else {
                writes(
                    s,
                    out,
                    m,
                    low_reg(instr, 1),
                    (a + b) % 0x1_0000_0000,
                    a + b >= 0x1_0000_0000,
                    leaves_signed(signed32(a) + signed32(b)),
                )
            }
        }),
{
    halfword_fields(instr);
    let a = s.r(low_reg(instr, 8));
    let b = if part(instr, 0x400, 2) == 1 {
        part(instr, 0x40, 8) as u32
    } else {
        s.r(low_reg(instr, 0x40))
    };
    sums(a, b, false);
    differences(a, b, true);
    low_parts(sum3(a, b, false).0, 0, 0);
    low_parts(diff3(a, b).0, 0, 0);
}

/// The shifts by an amount in the instruction, where zero stands for thirty-two
/// places to the right.
pub proof fn immediate_shifts(s: CpuState, m: MemState, instr: u16, pc: u32)
    requires
        s.wf(),
        instr < 0x1800,
    ensures
        ({
            let value = s.r(low_reg(instr, 8));
            let n = part(instr, 0x40, 32);
            let far = if n == 0 {
                32
            } else {
                n
            };
            let rd = low_reg(instr, 1);
            let (t, m1, r) = thumb(s, m, instr, pc);
            &&& r is Ok
            &&& m1 == m
            &&& same_but_register(s, t, rd)
            &&& flags_are(s.cpsr, t.cpsr, t.r(rd), t.cpsr.c, s.cpsr.v)
            &&& instr < 0x800 ==> moved_left(value, n, t.r(rd)) && t.cpsr.c == if n == 0 {
                s.cpsr.c
            } else {
                bit(value, (32 - n) as u32)
            }
            &&& 0x800 <= instr < 0x1000 ==> moved_right(value, far, t.r(rd)) && t.cpsr.c == bit(
                value,
                (far - 1) as u32,
            )
            &&& 0x1000 <= instr ==> moved_right_signed(value, far, t.r(rd)) && t.cpsr.c == bit(
                value,
                (far - 1) as u32,
            )
        }),
{
    halfword_fields(instr);
    let value = s.r(low_reg(instr, 8));
    let n = part(instr, 0x40, 32) as u32;
    let far = if n == 0 {
        32u32
    } else {
        n
    };
    let kind = if instr < 0x800 {
        Shift::Lsl
    } else if instr < 0x1000 {
        Shift::Lsr
    } else {
        Shift::Asr
    };
    shift_by_immediate(value, kind, n, s.cpsr.c);
    shift_by_amount(value, kind, n, s.cpsr.c);
    shift_by_amount(value, kind, far, s.cpsr.c);
    low_parts(shifted(value, kind, n, s.cpsr.c, true).value, 0, 0);
}

/// MOV, CMP, ADD and SUB with the low byte of the instruction.
#[verifier::rlimit(50)]
pub proof fn byte_operations(s: CpuState, m: MemState, instr: u16, pc: u32)
    requires
        s.wf(),
        0x2000 <= instr < 0x4000,
    ensures
        ({
            let rd = low_reg(instr, 0x100);
            let a = s.r(rd);
            let b = part(instr, 1, 0x100);
            let out = thumb(s, m, instr, pc);
            &&& instr < 0x2800 ==> writes(s, out, m, rd, b, s.cpsr.c, s.cpsr.v)
            &&& 0x2800 <= instr < 0x3000 ==> compares(
                s,
                out,
                m,
                (a - b) % 0x1_0000_0000,
                a >= b,
                leaves_signed(signed32(a) - b),
            )
            &&& 0x3000 <= instr < 0x3800 ==> writes(
                s,
                out,
                m,
                rd,
                (a + b) % 0x1_0000_0000,
                a + b >= 0x1_0000_0000,
                leaves_signed(signed32(a) + b),
            )
            &&& 0x3800 <= instr ==> writes(
                s,
                out,
                m,
                rd,
                (a - b) % 0x1_0000_0000,
                a >= b,
                leaves_signed(signed32(a) - b),
            )
        }),
{
    halfword_fields(instr);
    let a = s.r(low_reg(instr, 0x100));
    let b = (instr & 0xff) as u32;
    sums(a, b, false);
    differences(a, b, true);
    low_parts(b, 0, 0);
    low_parts(sum3(a, b, false).0, 0, 0);
    low_parts(diff3(a, b).0, 0, 0);
    let t = thumb(s, m, instr, pc).0;
    assert(t == s.with_cpsr(t.cpsr) || same_but_register(s, t, low_reg(instr, 0x100)));
}

/// The two-register operation of a halfword.
pub open spec fn alu_op(instr: u16) -> int {
    part(instr, 0x40, 16)
}

/// MULS writes the product of the two registers modulo 2^32 and sets the
/// negative and zero flags from it; carry and overflow stay.
pub proof fn multiplication(s: CpuState, m: MemState, instr: u16, pc: u32)
    requires
        s.wf(),
        0x4000 <= instr < 0x4400,
        alu_op(instr) == 13,
    ensures
        writes(
            s,
            thumb(s, m, instr, pc),
            m,
            low_reg(instr, 1),
            (s.r(low_reg(instr, 1)) * s.r(low_reg(instr, 8))) % 0x1_0000_0000,
            s.cpsr.c,
            s.cpsr.v,
        ),
{
    halfword_fields(instr);
    let v = s.r(low_reg(instr, 1)).wrapping_mul(s.r(low_reg(instr, 8)));
    low_parts(v, 0, 0);
}

/// ADC and SBC: the sum with the carry and the difference with the borrow,
/// modulo 2^32, with their flags.
pub proof fn register_sums(s: CpuState, m: MemState, instr: u16, pc: u32)
    requires
        s.wf(),
        0x4000 <= instr < 0x4400,
    ensures
        ({
            let rd = low_reg(instr, 1);
            let a = s.r(rd);
            let b = s.r(low_reg(instr, 8));
            let carry = one_if(s.cpsr.c);
            let borrow = one_if(!s.cpsr.c);
            let out = thumb(s, m, instr, pc);
            &&& alu_op(instr) == 5 ==> writes(
                s,
                out,
                m,
                rd,
                (a + b + carry) % 0x1_0000_0000,
                a + b + carry >= 0x1_0000_0000,
                leaves_signed(signed32(a) + signed32(b) + carry),
            )
            &&& alu_op(instr) == 6 ==> writes(
                s,
                out,
                m,
                rd,
                (a - b - borrow) % 0x1_0000_0000,
                a >= b + borrow,
                leaves_signed(signed32(a) - signed32(b) - borrow),
            )
        }),
{
    halfword_fields(instr);
    let a = s.r(low_reg(instr, 1));
    let b = s.r(low_reg(instr, 8));
    if alu_op(instr) == 5 {
        sums(a, b, s.cpsr.c);
        low_parts(sum3(a, b, s.cpsr.c).0, 0, 0);
    } else if alu_op(instr) == 6 {
        differences(a, b, s.cpsr.c);
        low_parts(sum3(a, !b, s.cpsr.c).0, 0, 0);
    }
}

/// NEG writes the number that added to the register gives zero; CMP and CMN set
/// the flags of a difference and of a sum.
pub proof fn register_comparisons(s: CpuState, m: MemState, instr: u16, pc: u32)
    requires
        s.wf(),
        0x4000 <= instr < 0x4400,
    ensures
        ({
            let rd = low_reg(instr, 1);
            let a = s.r(rd);
            let b = s.r(low_reg(instr, 8));
            let out = thumb(s, m, instr, pc);
            &&& alu_op(instr) == 9 ==> writes(
                s,
                out,
                m,
                rd,
                -(b as int) % 0x1_0000_0000,
                b == 0,
                signed32(b) == -0x8000_0000,
            )
            &&& alu_op(instr) == 10 ==> compares(
                s,
                out,
                m,
                (a - b) % 0x1_0000_0000,
                a >= b,
                leaves_signed(signed32(a) - signed32(b)),
            )
            &&& alu_op(instr) == 11 ==> compares(
                s,
                out,
                m,
                (a + b) % 0x1_0000_0000,
                a + b >= 0x1_0000_0000,
                leaves_signed(signed32(a) + signed32(b)),
            )
        }),
{
    halfword_fields(instr);
    let a = s.r(low_reg(instr, 1));
    let b = s.r(low_reg(instr, 8));
    let t = thumb(s, m, instr, pc).0;
    if alu_op(instr) == 9 {
        differences(0, b, true);
        low_parts(diff3(0, b).0, 0, 0);
    } else if alu_op(instr) == 10 {
        differences(a, b, true);
        low_parts(diff3(a, b).0, 0, 0);
        assert(t == s.with_cpsr(t.cpsr));
    } else if alu_op(instr) == 11 {
        sums(a, b, false);
        low_parts(sum3(a, b, false).0, 0, 0);
        assert(t == s.with_cpsr(t.cpsr));
    }
}

/// AND, EOR, ORR, BIC and MVN bit by bit; TST sets the flags of the bits that
/// both registers share.
pub proof fn register_logic(s: CpuState, m: MemState, instr: u16, pc: u32, i: u32)
    requires
        s.wf(),
        0x4000 <= instr < 0x4400,
        i < 32,
    ensures
        ({
            let rd = low_reg(instr, 1);
            let (a, b) = (s.r(rd), s.r(low_reg(instr, 8)));
            let out = thumb(s, m, instr, pc);
            let r = out.0.r(rd);
            let op = alu_op(instr);
            &&& op == 0 ==> bit(r, i) == (bit(a, i) && bit(b, i))
            &&& op == 1 ==> bit(r, i) == (bit(a, i) != bit(b, i))
            &&& op == 12 ==> bit(r, i) == (bit(a, i) || bit(b, i))
            &&& op == 14 ==> bit(r, i) == (bit(a, i) && !bit(b, i))
            &&& op == 15 ==> bit(r, i) == !bit(b, i)
            &&& op == 8 ==> compares(s, out, m, (a & b) as int, s.cpsr.c, s.cpsr.v)
            &&& (op == 0 || op == 1 || op == 12 || op == 14 || op == 15) ==> writes(
                s,
                out,
                m,
                rd,
                r as int,
                s.cpsr.c,
                s.cpsr.v,
            )
        }),
{
    halfword_fields(instr);
    let a = s.r(low_reg(instr, 1));
    let b = s.r(low_reg(instr, 8));
    bit_by_bit(a, b, 0, i, 0, 0, 0);
    bit_by_bit(b, 0, 0, i, 0, 0, 0);
    bit_by_bit(a, !b, 0, i, 0, 0, 0);
    low_parts(thumb(s, m, instr, pc).0.r(low_reg(instr, 1)), 0, 0);
    low_parts(a & b, 0, 0);
    let t = thumb(s, m, instr, pc).0;
    assert(alu_op(instr) == 8 ==> t == s.with_cpsr(t.cpsr));
}

/// The shifts by the low byte of a register: by zero they leave value and carry
/// alone, else the carry is the last bit that was moved out.
pub proof fn register_shifts(s: CpuState, m: MemState, instr: u16, pc: u32)
    requires
        s.wf(),
        0x4000 <= instr < 0x4400,
        2 <= alu_op(instr) <= 4 || alu_op(instr) == 7,
    ensures
        ({
            let rd = low_reg(instr, 1);
            let value = s.r(rd);
            let n = s.r(low_reg(instr, 8)) as int % 0x100;
            let out = thumb(s, m, instr, pc);
            let (r, c) = (out.0.r(rd), out.0.cpsr.c);
            let op = alu_op(instr);
            &&& writes(s, out, m, rd, r as int, c, s.cpsr.v)
            &&& n == 0 ==> r == value && c == s.cpsr.c
            &&& op == 2 ==> moved_left(value, n, r) && (n != 0 ==> c == (n <= 32 && bit(
                value,
                (32 - n) as u32,
            )))
            &&& op == 3 ==> moved_right(value, n, r) && (n != 0 ==> c == (n <= 32 && bit(
                value,
                (n - 1) as u32,
            )))
            &&& op == 4 ==> moved_right_signed(value, n, r) && (n != 0 ==> c == bit(
                value,
                if n <= 32 {
                    (n - 1) as u32
                } else {
                    31
                },
            ))
            &&& op == 7 ==> turned_right(value, n, r) && (n != 0 ==> c == bit(r, 31))
        }),
{
    halfword_fields(instr);
    let value = s.r(low_reg(instr, 1));
    let b = s.r(low_reg(instr, 8));
    low_parts(b, 0, 0);
    let op = alu_op(instr);
    let kind = if op == 2 {
        Shift::Lsl
    } else if op == 3 {
        Shift::Lsr
    } else if op == 4 {
        Shift::Asr
    } else {
        Shift::Ror
    };
    shift_by_amount(value, kind, b & 0xff, s.cpsr.c);
    low_parts(shifted(value, kind, b & 0xff, s.cpsr.c, false).value, 0, 0);
}

/// The numbers in the immediates of the Thumb transfers and branches.
pub proof fn halfword_immediates(i: u16)
    ensures
        ((i & 0xff) as u32) << 2 == 4 * part(i, 0x1, 0x100),
        ((i & 0x7f) as u32) << 2 == 4 * part(i, 0x1, 0x80),
        (((i >> 6) & 0x1f) as u32) << 2 == 4 * part(i, 0x40, 32),
        (((i >> 6) & 0x1f) as u32) << 1 == 2 * part(i, 0x40, 32),
        ((i & 0x7ff) as u32) << 1 == 2 * part(i, 0x1, 0x800),
        ((((i >> 9) & 1) as u32) << 6) | ((((i >> 3) & 0x1f) as u32) << 1) == 64 * part(i, 0x200, 2) + 2 * part(i, 0x8, 32),
{
    reveal(part);
    raw_fields(i);
}

/// Whether a step loads a number into a register and changes nothing else.
pub open spec fn loads_into(
    s: CpuState,
    m: MemState,
    out: (CpuState, MemState, Seen<()>),
    rd: usize,
    v: int,
) -> bool {
    &&& out.1 == m
    &&& out.0.r(rd) == v
    &&& same_but_register(s, out.0, rd)
    &&& out.0.cpsr == s.cpsr
}

/// Whether a step stores the low bytes of a register and changes no register.
pub open spec fn stores_from(
    s: CpuState,
    m: MemState,
    out: (CpuState, MemState, Seen<()>),
    addr: u32,
    v: u32,
    n: int,
) -> bool {
    &&& memory_takes(m, out.1, addr, v as int, n)
    &&& claim_after(s, out.0, addr, n)
    &&& out.0 == (CpuState { reservation: out.0.reservation, ..s })
}

/// The transfers with a register offset: STR, STRH, STRB, LDRSB, LDR, LDRH, LDRB and
/// LDRSH at the sum of two registers.
#[verifier::rlimit(50)]
pub proof fn register_offset_transfers(s: CpuState, m: MemState, instr: u16, pc: u32)
    requires
        s.wf(),
        0x5000 <= instr < 0x6000,
        thumb(s, m, instr, pc).2 is Ok,
    ensures
        ({
            let op = part(instr, 0x200, 8);
            let rd = low_reg(instr, 1);
            let addr = ahead(s.r(low_reg(instr, 8)), s.r(low_reg(instr, 0x40)) as int);
            let out = thumb(s, m, instr, pc);
            &&& op == 0 ==> stores_from(s, m, out, addr, s.r(rd), 4)
            &&& op == 1 ==> stores_from(s, m, out, addr, s.r(rd), 2)
            &&& op == 2 ==> stores_from(s, m, out, addr, s.r(rd), 1)
            &&& op == 3 ==> loads_into(
                s,
                m,
                out,
                rd,
                signed8(memory_number(m, addr, 1)) % 0x1_0000_0000,
            )
            &&& op == 4 ==> loads_into(s, m, out, rd, memory_number(m, addr, 4))
            &&& op == 5 ==> loads_into(s, m, out, rd, memory_number(m, addr, 2))
            &&& op == 6 ==> loads_into(s, m, out, rd, memory_number(m, addr, 1))
            &&& op == 7 ==> loads_into(
                s,
                m,
                out,
                rd,
                signed16(memory_number(m, addr, 2)) % 0x1_0000_0000,
            )
        }),
{
    halfword_fields(instr);
    let rd = low_reg(instr, 1);
    let addr = ahead(s.r(low_reg(instr, 8)), s.r(low_reg(instr, 0x40)) as int);
    assert(addr == s.r(low_reg(instr, 8)).wrapping_add(s.r(low_reg(instr, 0x40))));
    loads(m, addr);
    signed_loads(m, addr);
    stores(m, addr, s.r(rd));
}

/// The transfers with an immediate offset, in bytes, words or halfwords, from a low
/// register or the stack pointer.
#[verifier::rlimit(50)]
pub proof fn immediate_offset_transfers(s: CpuState, m: MemState, instr: u16, pc: u32)
    requires
        s.wf(),
        0x6000 <= instr < 0xa000,
        thumb(s, m, instr, pc).2 is Ok,
    ensures
        ({
            let load = part(instr, 0x800, 2) == 1;
            let imm = part(instr, 0x40, 32);
            let base = s.r(low_reg(instr, 8));
            let n: int = if instr < 0x7000 {
                4
            } else if instr < 0x8000 {
                1
            } else {
                2
            };
            let stack = instr >= 0x9000;
            let rd = if stack {
                low_reg(instr, 0x100)
            } else {
                low_reg(instr, 1)
            };
            let addr = if stack {
                ahead(s.r(13), 4 * (part(instr, 1, 0x100)))
            } else {
                ahead(base, n * imm)
            };
            let size = if stack {
                4
            } else {
                n
            };
            let out = thumb(s, m, instr, pc);
            &&& load ==> loads_into(s, m, out, rd, memory_number(m, addr, size))
            &&& !load ==> stores_from(s, m, out, addr, s.r(rd), size)
        }),
{
    halfword_fields(instr);
    halfword_immediates(instr);
    let imm = part(instr, 0x40, 32);
    let base = s.r(low_reg(instr, 8));
    let stack = instr >= 0x9000;
    let addr = if stack {
        ahead(s.r(13), 4 * (part(instr, 1, 0x100)))
    } else if instr < 0x7000 {
        ahead(base, 4 * imm)
    } else if instr < 0x8000 {
        ahead(base, 1 * imm)
    } else {
        ahead(base, 2 * imm)
    };
    loads(m, addr);
    stores(m, addr, s.r(low_reg(instr, 1)));
    stores(m, addr, s.r(low_reg(instr, 0x100)));
}

/// LDR of a literal: the word a number of words behind the program counter, which
/// reads four ahead and is rounded down to a word.
pub proof fn literal_loads(s: CpuState, m: MemState, instr: u16, pc: u32)
    requires
        s.wf(),
        0x4800 <= instr < 0x5000,
        thumb(s, m, instr, pc).2 is Ok,
    ensures
        ({
            let here = ahead(pc, 4);
            let addr = ahead((here - here % 4) as u32, 4 * (part(instr, 1, 0x100)));
            loads_into(
                s,
                m,
                thumb(s, m, instr, pc),
                low_reg(instr, 0x100),
                memory_number(m, addr, 4),
            )
        }),
{
    halfword_fields(instr);
    halfword_immediates(instr);
    let here = ahead(pc, 4);
    assert(here == pc.wrapping_add(4));
    rounded(here);
    loads(m, ahead((here - here % 4) as u32, 4 * (part(instr, 1, 0x100))));
}

pub proof fn rounded(x: u32)
    ensures
        x & !3u32 == x - x % 4,
        x & !1u32 == x - x % 2,
        x | 1 == x - x % 2 + 1,
        (x & 1 != 0) == (x % 2 == 1),
{
    immediates(x, 0);
}

/// A high register as a Thumb operand.
#[verifier::opaque]
pub open spec fn operand(s: CpuState, r: usize, pc: u32) -> int {
    if r == 15 {
        (pc + 4) % 0x1_0000_0000
    } else {
        s.r(r) as int
    }
}

/// The registers that a high-register instruction names.
pub open spec fn high_pair(instr: u16) -> (usize, usize) {
    (
        (low_reg(instr, 1) + 8 * part(instr, 0x80, 2)) as usize,
        (low_reg(instr, 8) + 8 * part(instr, 0x40, 2)) as usize,
    )
}

proof fn high_words(s: CpuState, m: MemState, instr: u16, pc: u32)
    requires
        0x4400 <= instr < 0x4800,
    ensures
        operand(s, high_pair(instr).0, pc) == s.rt(high_pair(instr).0, pc),
        operand(s, high_pair(instr).1, pc) == s.rt(high_pair(instr).1, pc),
        thumb(s, m, instr, pc) == beside(thumb_high(s, instr, pc), m),
        (instr >> 8) & 3 == part(instr, 0x100, 4),
        high_pair(instr).0 < 16,
        high_pair(instr).1 < 16,
        high_pair(instr).0 == high_reg(t3(instr, 0), instr & 0x80 != 0),
        high_pair(instr).1 == high_reg(t3(instr, 3), instr & 0x40 != 0),
        (instr & 0x80 != 0) == (high_pair(instr).0 >= 8),
{
    reveal(operand);
    halfword_fields(instr);
}

/// ADD and MOV on all sixteen registers. What goes to the program counter is made
/// even.
#[verifier::rlimit(50)]
pub proof fn high_register_moves(s: CpuState, m: MemState, instr: u16, pc: u32)
    requires
        s.wf(),
        0x4400 <= instr < 0x4800,
        thumb(s, m, instr, pc).2 is Ok,
        part(instr, 0x100, 4) == 0 || part(instr, 0x100, 4) == 2,
    ensures
        ({
            let (rd, rm) = high_pair(instr);
            let (a, b) = (operand(s, rd, pc), operand(s, rm, pc));
            let v = if part(instr, 0x100, 4) == 0 {
                (a + b) % 0x1_0000_0000
            } else {
                b
            };
            loads_into(
                s,
                m,
                thumb(s, m, instr, pc),
                rd,
                if rd == 15 {
                    v - v % 2
                } else {
                    v
                },
            )
        }),
{
    high_words(s, m, instr, pc);
    let (rd, rm) = high_pair(instr);
    let (a, b) = (s.rt(rd, pc), s.rt(rm, pc));
    rounded(a.wrapping_add(b));
    rounded(b);
}

/// CMP on all sixteen registers.
pub proof fn high_register_comparisons(s: CpuState, m: MemState, instr: u16, pc: u32)
    requires
        s.wf(),
        0x4400 <= instr < 0x4800,
        thumb(s, m, instr, pc).2 is Ok,
        part(instr, 0x100, 4) == 1,
    ensures
        ({
            let (a, b) = (s.r(high_pair(instr).0), s.r(high_pair(instr).1));
            compares(
                s,
                thumb(s, m, instr, pc),
                m,
                (a - b) % 0x1_0000_0000,
                a >= b,
                leaves_signed(signed32(a) - signed32(b)),
            )
        }),
{
    high_words(s, m, instr, pc);
    let (a, b) = (s.r(high_pair(instr).0), s.r(high_pair(instr).1));
    differences(a, b, true);
    low_parts(diff3(a, b).0, 0, 0);
    let t = thumb(s, m, instr, pc).0;
    assert(t == s.with_cpsr(t.cpsr));
}

/// BX and BLX jump to an address whose lowest bit selects the instruction set; BLX
/// leaves the address of the next instruction, with the Thumb bit, in the link
/// register.
pub proof fn register_jumps(s: CpuState, m: MemState, instr: u16, pc: u32)
    requires
        s.wf(),
        0x4700 <= instr < 0x4800,
        part(instr, 0x100, 4) == 3,
    ensures
        ({
            let (rd, rm) = high_pair(instr);
            let b = operand(s, rm, pc);
            let (t, m1, r) = thumb(s, m, instr, pc);
            &&& r is Ok && m1 == m
            &&& t.r(15) == b - b % 2
            &&& t.cpsr == (Cpsr { t: b % 2 == 1, ..s.cpsr })
            &&& t.r(14) == if rd >= 8 {
                let next = (pc + 2) % 0x1_0000_0000;
                next - next % 2 + 1
            } else {
                s.r(14) as int
            }
            &&& forall|i: usize| i < 14 ==> #[trigger] t.r(i) == s.r(i)
        }),
{
    high_words(s, m, instr, pc);
    rounded(s.rt(high_pair(instr).1, pc));
    rounded(pc.wrapping_add(2));
}

/// ADD to an address, adjustments of the stack pointer, and the compare-and-branch
/// instructions.
#[verifier::rlimit(50)]
pub proof fn addresses_and_stack(s: CpuState, m: MemState, instr: u16, pc: u32)
    requires
        s.wf(),
        0xa000 <= instr < 0xb100 || (0xb100 <= instr < 0xc000 && part(instr, 0x400, 2) == 0 && part(
            instr,
            0x100,
            2,
        ) == 1),
    ensures
        ({
            let (t, m1, r) = thumb(s, m, instr, pc);
            let here = (pc + 4) % 0x1_0000_0000;
            &&& r is Ok && m1 == m && t.cpsr == s.cpsr
            &&& instr < 0xb000 ==> {
                let rd = low_reg(instr, 0x100);
                let base = if instr < 0xa800 {
                    here - here % 4
                } else {
                    s.r(13) as int
                };
                t.r(rd) == (base + 4 * (part(instr, 1, 0x100))) % 0x1_0000_0000
                    && same_but_register(s, t, rd)
            }
            &&& 0xb000 <= instr < 0xb080 ==> t.r(13) == (s.r(13) + 4 * (part(instr, 1, 0x80)))
                % 0x1_0000_0000 && same_but_register(s, t, 13)
            &&& 0xb080 <= instr < 0xb100 ==> t.r(13) == (s.r(13) - 4 * (part(instr, 1, 0x80)))
                % 0x1_0000_0000 && same_but_register(s, t, 13)
            &&& 0xb100 <= instr ==> {
                let taken = (s.r(low_reg(instr, 1)) == 0) == (part(instr, 0x800, 2) == 0);
                &&& same_but_register(s, t, 15)
                &&& t.r(15) == if taken {
                    (pc + 4 + 64 * part(instr, 0x200, 2) + 2 * part(instr, 8, 32)) % 0x1_0000_0000
                } else {
                    s.r(15) as int
                }
            }
        }),
{
    halfword_fields(instr);
    halfword_immediates(instr);
    rounded(pc.wrapping_add(4));
}

/// SXTH, SXTB, UXTH, UXTB, REV, REV16 and REVSH.
pub proof fn extensions_and_reversals(s: CpuState, m: MemState, instr: u16, pc: u32)
    requires
        s.wf(),
        0xb200 <= instr < 0xb300 || 0xba00 <= instr < 0xbb00,
        thumb(s, m, instr, pc).2 is Ok,
    ensures
        ({
            let op = part(instr, 0x40, 4);
            let v = s.r(low_reg(instr, 8));
            let rd = low_reg(instr, 1);
            let low = v as int % 0x1_0000;
            let r = if instr < 0xb300 {
                if op == 0 {
                    signed16(low) % 0x1_0000_0000
                } else if op == 1 {
                    signed8(v as int % 0x100) % 0x1_0000_0000
                } else if op == 2 {
                    low
                } else {
                    v as int % 0x100
                }
            } else if op == 0 {
                of_bytes(byte_at(v, 3), byte_at(v, 2), byte_at(v, 1), byte_at(v, 0))
            } else if op == 1 {
                of_bytes(byte_at(v, 1), byte_at(v, 0), byte_at(v, 3), byte_at(v, 2))
            } else {
                signed16(byte_at(v, 1) + 0x100 * byte_at(v, 0)) % 0x1_0000_0000
            };
            loads_into(s, m, thumb(s, m, instr, pc), rd, r)
        }),
{
    halfword_fields(instr);
    let v = s.r(low_reg(instr, 8));
    extensions(v);
    low_parts(v, 0, 0);
    reversed_bytes(v);
    reversed_low_half(v);
}

/// REVSH: the bytes of the low half the other way round, with the sign.
pub proof fn reversed_low_half(v: u32)
    ensures
        revsh(v) == signed16(byte_at(v, 1) + 0x100 * byte_at(v, 0)) % 0x1_0000_0000,
{
    swapped_low_bytes(v);
    let w = ((v & 0xff) << 8) | ((v >> 8) & 0xff);
    extensions(w);
    low_parts(w, 0, 0);
}

/// A conditional branch that is taken goes a signed number of halfwords from the
/// second instruction ahead; an unconditional one always does.
#[verifier::rlimit(50)]
pub proof fn thumb_branches(s: CpuState, m: MemState, instr: u16, pc: u32)
    requires
        s.wf(),
        0xd000 <= instr < 0xde00 || 0xe000 <= instr < 0xe800,
    ensures
        ({
            let (t, m1, r) = thumb(s, m, instr, pc);
            let near = if part(instr, 1, 0x100) < 0x80 {
                part(instr, 1, 0x100)
            } else {
                part(instr, 1, 0x100) - 0x100
            };
            let far = if part(instr, 1, 0x800) < 0x400 {
                part(instr, 1, 0x800)
            } else {
                part(instr, 1, 0x800) - 0x800
            };
            &&& r is Ok && m1 == m
            &&& t == (CpuState { regs: t.regs, ..s })
            &&& forall|i: usize| i < 15 ==> #[trigger] t.r(i) == s.r(i)
            &&& t.r(15) == if instr >= 0xe000 {
                (pc + 4 + 2 * far) % 0x1_0000_0000
            } else if holds(part(instr, 0x100, 16) as u32, s.cpsr) {
                (pc + 4 + 2 * near) % 0x1_0000_0000
            } else {
                s.r(15) as int
            }
        }),
{
    halfword_fields(instr);
    branch_offsets(instr);
    displacement(
        pc,
        sext(((instr & 0xff) as u32) << 1, 9) as u32,
        if part(instr, 1, 0x100) < 0x80 {
            2 * part(instr, 1, 0x100)
        } else {
            2 * part(instr, 1, 0x100) - 0x200
        },
    );
    displacement(
        pc,
        sext(((instr & 0x7ff) as u32) << 1, 12) as u32,
        if part(instr, 1, 0x800) < 0x400 {
            2 * part(instr, 1, 0x800)
        } else {
            2 * part(instr, 1, 0x800) - 0x1000
        },
    );
}

proof fn displacement(pc: u32, w: u32, x: int)
    requires
        w == x % 0x1_0000_0000,
    ensures
        pc.wrapping_add(4).wrapping_add(w) == (pc + 4 + x) % 0x1_0000_0000,
{
}

proof fn branch_offsets(i: u16)
    ensures
        (sext(((i & 0xff) as u32) << 1, 9) as u32) == (if part(i, 1, 0x100) < 0x80 {
            2 * (part(i, 1, 0x100))
        } else {
            2 * (part(i, 1, 0x100)) - 0x200
        }) % 0x1_0000_0000,
        (sext(((i & 0x7ff) as u32) << 1, 12) as u32) == (if part(i, 1, 0x800) < 0x400 {
            2 * (part(i, 1, 0x800))
        } else {
            2 * (part(i, 1, 0x800)) - 0x1000
        }) % 0x1_0000_0000,
        (sext(((i & 0x7ff) as u32) << 12, 23) as u32) == (if part(i, 1, 0x800) < 0x400 {
            0x1000 * (part(i, 1, 0x800))
        } else {
            0x1000 * (part(i, 1, 0x800)) - 0x80_0000
        }) % 0x1_0000_0000,
{
    reveal(part);
    immediates(0, i);
    sign_casts(0, 0, 0, 0, sext(((i & 0xff) as u32) << 1, 9), 0);
    sign_casts(0, 0, 0, 0, sext(((i & 0x7ff) as u32) << 1, 12), 0);
    sign_casts(0, 0, 0, 0, sext(((i & 0x7ff) as u32) << 12, 23), 0);
}

/// The two halves of BL and BLX go together to the address that lies a signed number
/// behind the second instruction after the first half, and leave the address behind
/// the second half, with the Thumb bit, in the link register. BLX goes to ARM code
/// at a word.
#[verifier::rlimit(50)]
pub proof fn long_branches(s: CpuState, m: MemState, first: u16, second: u16, pc: u32, later: u32)
    requires
        s.wf(),
        0xf000 <= first < 0xf800,
        0xf800 <= second || 0xe800 <= second < 0xf000,
    ensures
        ({
            let high = if part(first, 1, 0x800) < 0x400 {
                part(first, 1, 0x800)
            } else {
                part(first, 1, 0x800) - 0x800
            };
            let to = (pc + 4 + 0x1000 * high + 2 * (part(second, 1, 0x800))) % 0x1_0000_0000;
            let (s1, m1, r1) = thumb(s, m, first, pc);
            let (t, m2, r2) = thumb(s1, m1, second, later);
            &&& r1 is Ok && r2 is Ok && m2 == m
            &&& t.r(14) == {
                let next = (later + 2) % 0x1_0000_0000;
                next - next % 2 + 1
            }
            &&& forall|i: usize| i < 14 ==> #[trigger] t.r(i) == s.r(i)
            &&& t.bl_prefix is None
            &&& second >= 0xf800 ==> t.r(15) == to && t.cpsr == s.cpsr
            &&& second < 0xf000 ==> t.r(15) == to - to % 4 && t.cpsr == (Cpsr { t: false, ..s.cpsr })
        }),
{
    first_half(s, m, first, pc);
    halfword_fields(second);
    halfword_immediates(second);
    rounded(later.wrapping_add(2));
    let s1 = thumb(s, m, first, pc).0;
    let to = s1.bl_prefix->0.wrapping_add(((second & 0x7ff) as u32) << 1);
    two_sums(
        s1.bl_prefix->0,
        ((second & 0x7ff) as u32) << 1,
        pc + 4 + 0x1000 * (if part(first, 1, 0x800) < 0x400 {
            part(first, 1, 0x800)
        } else {
            part(first, 1, 0x800) - 0x800
        }),
    );
    rounded(to);
    rounded(to & !3u32);
}

proof fn two_sums(a: u32, b: u32, x: int)
    requires
        a == x % 0x1_0000_0000,
    ensures
        a.wrapping_add(b) == (x + b) % 0x1_0000_0000,
{
}

proof fn first_half(s: CpuState, m: MemState, first: u16, pc: u32)
    requires
        s.wf(),
        0xf000 <= first < 0xf800,
    ensures
        ({
            let high = if part(first, 1, 0x800) < 0x400 {
                part(first, 1, 0x800)
            } else {
                part(first, 1, 0x800) - 0x800
            };
            let (s1, m1, r) = thumb(s, m, first, pc);
            &&& r is Ok && m1 == m
            &&& s1.bl_prefix is Some
            &&& s1.bl_prefix->0 == (pc + 4 + 0x1000 * high) % 0x1_0000_0000
            &&& s1 == s.with_bl_prefix(s1.bl_prefix)
        }),
{
    halfword_fields(first);
    branch_offsets(first);
    displacement(
        pc,
        sext(((first & 0x7ff) as u32) << 12, 23) as u32,
        if part(first, 1, 0x800) < 0x400 {
            0x1000 * part(first, 1, 0x800)
        } else {
            0x1000 * part(first, 1, 0x800) - 0x80_0000
        },
    );
}

/// After a comparison of two words the conditions say how they compare: for equality,
/// without signs and with signs.
pub proof fn conditions_of_a_comparison(a: u32, b: u32, c: Cpsr)
    requires
        c.n == ((a - b) % 0x1_0000_0000 >= 0x8000_0000),
        c.z == ((a - b) % 0x1_0000_0000 == 0),
        c.c == (a >= b),
        c.v == leaves_signed(signed32(a) - signed32(b)),
    ensures
        holds(0, c) == (a == b),
        holds(1, c) == (a != b),
        holds(2, c) == (a >= b),
        holds(3, c) == (a < b),
        holds(8, c) == (a > b),
        holds(9, c) == (a <= b),
        holds(10, c) == (signed32(a) >= signed32(b)),
        holds(11, c) == (signed32(a) < signed32(b)),
        holds(12, c) == (signed32(a) > signed32(b)),
        holds(13, c) == (signed32(a) <= signed32(b)),
        holds(14, c),
{
}

/// The conditions on the sign and overflow flags, and the pairs of opposites.
pub proof fn conditions_of_flags(cond: u32, c: Cpsr)
    ensures
        holds(4, c) == c.n,
        holds(5, c) == !c.n,
        holds(6, c) == c.v,
        holds(7, c) == !c.v,
        cond < 14 && cond % 2 == 0 ==> holds((cond + 1) as u32, c) == !holds(cond, c),
{
}

proof fn mask_bits(i: u16, c: u32)
    requires
        c < 16,
    ensures
        (c & 1 != 0) == (c % 2 == 1),
        c ^ 1 == if c % 2 == 0 {
            c + 1
        } else {
            c - 1
        },
        (((i & 0xf) >> 3u16) & 1 != 0) == (part(i, 8, 2) == 1),
        (((i & 0xf) >> 2u16) & 1 != 0) == (part(i, 4, 2) == 1),
        (((i & 0xf) >> 1u16) & 1 != 0) == (part(i, 2, 2) == 1),
        ((i & 0xf) & 1 != 0) == (part(i, 1, 2) == 1),
        ((i & 0xf) & 2 != 0) == (part(i, 2, 2) == 1),
        ((i & 0xf) & 4 != 0) == (part(i, 4, 2) == 1),
{
    reveal(part);
    it_fields(i, c);
}

/// An IT block covers as many instructions as there are mask bits down to the lowest
/// set one. The first has the condition of the block; each other one has it where
/// its mask bit is the lowest bit of the condition, and the opposite elsewhere.
pub proof fn it_blocks(s: CpuState, m: MemState, instr: u16, pc: u32)
    requires
        s.wf(),
        0xbf00 <= instr < 0xbff0,
        part(instr, 1, 16) != 0,
    ensures
        ({
            let cond = part(instr, 0x10, 16);
            let (t, m1, r) = thumb(s, m, instr, pc);
            let b = |k: int|
                if k == 1 {
                    part(instr, 8, 2)
                } else if k == 2 {
                    part(instr, 4, 2)
                } else {
                    part(instr, 2, 2)
                };
            &&& r is Ok && m1 == m
            &&& t == s.with_it(t.it)
            &&& t.it.len() == if part(instr, 1, 2) == 1 {
                4int
            } else if part(instr, 2, 2) == 1 {
                3
            } else if part(instr, 4, 2) == 1 {
                2
            } else {
                1
            }
            &&& t.it[0] == cond
            &&& forall|k: int|
                1 <= k < t.it.len() ==> #[trigger] t.it[k] == if b(k) == cond % 2 {
                    cond
                } else if cond % 2 == 0 {
                    cond + 1
                } else {
                    cond - 1
                }
        }),
{
    halfword_fields(instr);
    let mask = instr & 0xf;
    let cond = ((instr >> 4) & 0xf) as u32;
    mask_bits(instr, cond);
    let t = thumb(s, m, instr, pc).0;
    assert(t.it == it_conds(cond, mask));
    assert forall|k: int| 1 <= k < t.it.len() implies #[trigger] t.it[k] == (if (if k == 1 {
        part(instr, 8, 2)
    } else if k == 2 {
        part(instr, 4, 2)
    } else {
        part(instr, 2, 2)
    }) == cond as int % 2 {
        cond as int
    } else if cond % 2 == 0 {
        cond + 1
    } else {
        cond - 1
    }) by {
        assert(t.it[k] == it_cond(cond, mask, k));
        assert(k == 1 || k == 2 || k == 3);
    }
}

} // verus!
