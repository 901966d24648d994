//! Little-endian fields of byte sequences.

use crate::armv6::memory::{half_of, little_endian, word_of};
use vstd::prelude::*;

verus! {

/// The halfword at `off`.
pub open spec fn u16_at(b: Seq<u8>, off: int) -> u16 {
    half_of(b[off], b[off + 1])
}

/// The word at `off`.
pub open spec fn u32_at(b: Seq<u8>, off: int) -> u32 {
    word_of(b[off], b[off + 1], b[off + 2], b[off + 3])
}

/// The number that two bytes make, low byte first.
pub open spec fn pair_at(b: Seq<u8>, at: int) -> int {
    b[at] + 0x100 * b[at + 1]
}

/// The number that four bytes make, low byte first.
pub open spec fn quad_at(b: Seq<u8>, at: int) -> int {
    b[at] + 0x100 * b[at + 1] + 0x1_0000 * b[at + 2] + 0x100_0000 * b[at + 3]
}

/// Fields are little-endian numbers.
pub proof fn fields_are_numbers(b: Seq<u8>, at: int)
    ensures
        u16_at(b, at) == pair_at(b, at),
        u32_at(b, at) == quad_at(b, at),
{
    little_endian(b[at], b[at + 1], b[at + 2], b[at + 3]);
}

/// Reads the halfword at `off`, if it lies inside.
pub fn u16_le(b: &[u8], off: usize) -> (r: Option<u16>)
    ensures
        r == if off + 2 <= b@.len() {
            Some(u16_at(b@, off as int))
        } else {
            None
        },
{
    if b.len() < 2 || off > b.len() - 2 {
        return None;
    }
    Some((b[off] as u16) | ((b[off + 1] as u16) << 8))
}

/// Reads the word at `off`, if it lies inside.
pub fn u32_le(b: &[u8], off: usize) -> (r: Option<u32>)
    ensures
        r == if off + 4 <= b@.len() {
            Some(u32_at(b@, off as int))
        } else {
            None
        },
{
    if b.len() < 4 || off > b.len() - 4 {
        return None;
    }
    Some(
        (b[off] as u32) | ((b[off + 1] as u32) << 8) | ((b[off + 2] as u32) << 16) | ((b[off
            + 3] as u32) << 24),
    )
}

/// The index of the first zero byte from `from` on, or the length.
pub open spec fn zero_from(b: Seq<u8>, from: int) -> int
    decreases b.len() - from,
{
    if from >= b.len() || b[from] == 0 {
        from
    } else {
        zero_from(b, from + 1)
    }
}

/// The first zero byte lies where it says, with no zero before it.
pub proof fn zero_from_is_first(b: Seq<u8>, from: int)
    requires
        0 <= from <= b.len(),
    ensures
        from <= zero_from(b, from) <= b.len(),
        zero_from(b, from) < b.len() ==> b[zero_from(b, from)] == 0,
        forall|i: int| from <= i < zero_from(b, from) ==> b[i] != 0,
    decreases b.len() - from,
{
    if from < b.len() && b[from] != 0 {
        zero_from_is_first(b, from + 1);
    }
}

/// Finds the first zero byte from `from` on.
pub fn find_zero(b: &[u8], from: usize) -> (r: Option<usize>)
    requires
        from <= b@.len(),
    ensures
        match r {
            Some(i) => from <= i < b@.len() && i == zero_from(b@, from as int),
            None => zero_from(b@, from as int) == b@.len(),
        },
{
    let mut i: usize = from;
    while i < b.len()
        invariant
            from <= i <= b@.len(),
            zero_from(b@, from as int) == zero_from(b@, i as int),
        decreases b@.len() - i,
    {
        if b[i] == 0 {
            return Some(i);
        }
        i += 1;
    }
    None
}

/// Whether a file starts with the ELF magic number.
pub open spec fn is_elf(b: Seq<u8>) -> bool {
    b[0] == 0x7f && b[1] == 0x45 && b[2] == 0x4c && b[3] == 0x46
}

/// Tests for the ELF magic number.
pub fn has_elf_magic(b: &[u8]) -> (r: bool)
    requires
        b@.len() >= 4,
    ensures
        r == is_elf(b@),
{
    b[0] == 0x7f && b[1] == 0x45 && b[2] == 0x4c && b[3] == 0x46
}

} // verus!
