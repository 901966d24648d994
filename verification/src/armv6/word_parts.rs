//! Words put together from bytes and halves, in numbers.

use super::alu::{one_shifted, signed_max, unsigned_max};
use super::arm_media::{byte_of, select};
use super::arm_misc::rev16;
use super::bits::{bit, rev32, ror32};
use super::cpu::{flag_at, Cpsr};
use super::wide_shifts::shifted_64;
use vstd::arithmetic::power2::{lemma2_to64, lemma_pow2_pos, lemma_pow2_strictly_increases, pow2};
use vstd::prelude::*;

verus! {

/// Byte `k` of a word.
pub open spec fn byte_at(v: u32, k: int) -> int {
    if k == 0 {
        v as int % 0x100
    } else if k == 1 {
        v as int / 0x100 % 0x100
    } else if k == 2 {
        v as int / 0x1_0000 % 0x100
    } else {
        v as int / 0x100_0000
    }
}

/// The word of four bytes, the first one lowest.
pub open spec fn of_bytes(b0: int, b1: int, b2: int, b3: int) -> int {
    b0 + 0x100 * b1 + 0x1_0000 * b2 + 0x100_0000 * b3
}

/// Whether flag `k` of the four GE flags is set.
pub open spec fn ge_flag(ge: u8, k: int) -> bool {
    if k == 0 {
        ge % 2 == 1
    } else if k == 1 {
        ge / 2 % 2 == 1
    } else if k == 2 {
        ge / 4 % 2 == 1
    } else {
        ge / 8 % 2 == 1
    }
}

pub(crate) proof fn parts(v: u32, n: u32, m: u32, w: u32, b0: u8, b1: u8, b2: u8, b3: u8, l: u16, h: u16, ge: u8, x: i32)
    ensures
        ((v >> 0u32) & 0xff) as u8 == v % 0x100,
        ((v >> 8u32) & 0xff) as u8 == v / 0x100 % 0x100,
        ((v >> 16u32) & 0xff) as u8 == v / 0x1_0000 % 0x100,
        ((v >> 24u32) & 0xff) as u8 == v / 0x100_0000,
        (v >> 0u32) & 0xff == v % 0x100,
        (v >> 8u32) & 0xff == v / 0x100 % 0x100,
        (v >> 16u32) & 0xff == v / 0x1_0000 % 0x100,
        (v >> 24u32) & 0xff == v / 0x100_0000,
        (l as u32) | ((h as u32) << 16) == l + 0x1_0000 * h,
        ((b0 as u32) << 0u32) | ((b1 as u32) << 8u32) | ((b2 as u32) << 16u32) | ((b3 as u32)
            << 24u32) == b0 + 0x100 * b1 + 0x1_0000 * b2 + 0x100_0000 * b3,
        (v << 24) | ((v & 0xff00) << 8) | ((v >> 8) & 0xff00) | (v >> 24) == v / 0x100_0000 + 0x100
            * (v / 0x1_0000 % 0x100) + 0x1_0000 * (v / 0x100 % 0x100) + 0x100_0000 * (v % 0x100),
        ((v & 0x00ff_00ff) << 8) | ((v & 0xff00_ff00) >> 8) == v / 0x100 % 0x100 + 0x100 * (v
            % 0x100) + 0x1_0000 * (v / 0x100_0000) + 0x100_0000 * (v / 0x1_0000 % 0x100),
        ((v & 0xff) << 8) | ((v >> 8) & 0xff) == v / 0x100 % 0x100 + 0x100 * (v % 0x100),
        (n & 0xffff) | (m & 0xffff_0000) == n % 0x1_0000 + 0x1_0000 * (m / 0x1_0000),
        (n & 0xffff_0000) | (m & 0xffff) == m % 0x1_0000 + 0x1_0000 * (n / 0x1_0000),
        (n & 0xffff) | (m << 16) == n % 0x1_0000 + 0x1_0000 * (m % 0x1_0000),
        ((n & 0xffff) << 16) | (m & 0xffff) == m % 0x1_0000 + 0x1_0000 * (n % 0x1_0000),
        (m & 0xffff) | ((n & 0xffff) << 16) == m % 0x1_0000 + 0x1_0000 * (n % 0x1_0000),
        (((v >> 16) & 0xf) << 12) | (v & 0xfff) == v % 0x1000 + 0x1000 * (v / 0x1_0000 % 16),
        x >> 1u32 == (if x % 2 == 0 {
            x as int
        } else {
            x - 1
        }) / 2,
        ge & (1u8 << 0u8) != 0 <==> ge % 2 == 1,
        ge & (1u8 << 1u8) != 0 <==> ge / 2 % 2 == 1,
        ge & (1u8 << 2u8) != 0 <==> ge / 4 % 2 == 1,
        ge & (1u8 << 3u8) != 0 <==> ge / 8 % 2 == 1,
        v & (0xffu32 << 0u32) == v % 0x100,
        v & (0xffu32 << 8u32) == 0x100 * (v / 0x100 % 0x100),
        v & (0xffu32 << 16u32) == 0x1_0000 * (v / 0x1_0000 % 0x100),
        v & (0xffu32 << 24u32) == 0x100_0000 * (v / 0x100_0000),
        1u8 << 0u8 == 1 && 1u8 << 1u8 == 2 && 1u8 << 2u8 == 4 && 1u8 << 3u8 == 8,
        (v & (0xffu32 << 0u32)) | (n & (0xffu32 << 8u32)) | (m & (0xffu32 << 16u32)) | (w & (0xffu32
            << 24u32)) == v % 0x100 + 0x100 * (n / 0x100 % 0x100) + 0x1_0000 * (m / 0x1_0000 % 0x100)
            + 0x100_0000 * (w / 0x100_0000),
        b0 <= 1 && (b1 == 0 || b1 == 2) && (b2 == 0 || b2 == 4) && (b3 == 0 || b3 == 8) ==> b0 | b1
            | b2 | b3 == b0 + b1 + b2 + b3,
        (b0 == 0 || b0 == 3) && (b1 == 0 || b1 == 12) ==> b0 | b1 == b0 + b1,
{
    assert(((v >> 0u32) & 0xff) as u8 == v % 0x100 && ((v >> 8u32) & 0xff) as u8 == v / 0x100 % 0x100
        && ((v >> 16u32) & 0xff) as u8 == v / 0x1_0000 % 0x100 && ((v >> 24u32) & 0xff) as u8 == v
        / 0x100_0000 && (v >> 0u32) & 0xff == v % 0x100 && (v >> 8u32) & 0xff == v / 0x100 % 0x100
        && (v >> 16u32) & 0xff == v / 0x1_0000 % 0x100 && (v >> 24u32) & 0xff == v / 0x100_0000 && (
    l as u32) | ((h as u32) << 16) == l + 0x1_0000 * h && ((b0 as u32) << 0u32) | ((b1 as u32)
        << 8u32) | ((b2 as u32) << 16u32) | ((b3 as u32) << 24u32) == b0 + 0x100 * b1 + 0x1_0000 * b2
        + 0x100_0000 * b3 && (v << 24) | ((v & 0xff00) << 8) | ((v >> 8) & 0xff00) | (v >> 24) == v
        / 0x100_0000 + 0x100 * (v / 0x1_0000 % 0x100) + 0x1_0000 * (v / 0x100 % 0x100) + 0x100_0000
        * (v % 0x100) && ((v & 0x00ff_00ff) << 8) | ((v & 0xff00_ff00) >> 8) == v / 0x100 % 0x100
        + 0x100 * (v % 0x100) + 0x1_0000 * (v / 0x100_0000) + 0x100_0000 * (v / 0x1_0000 % 0x100) && ((
    v & 0xff) << 8) | ((v >> 8) & 0xff) == v / 0x100 % 0x100 + 0x100 * (v % 0x100) && (n & 0xffff) | (m
        & 0xffff_0000) == n % 0x1_0000 + 0x1_0000 * (m / 0x1_0000) && (n & 0xffff_0000) | (m
        & 0xffff) == m % 0x1_0000 + 0x1_0000 * (n / 0x1_0000) && (n & 0xffff) | (m << 16) == n
        % 0x1_0000 + 0x1_0000 * (m % 0x1_0000) && ((n & 0xffff) << 16) | (m & 0xffff) == m % 0x1_0000
        + 0x1_0000 * (n % 0x1_0000) && (m & 0xffff) | ((n & 0xffff) << 16) == m % 0x1_0000 + 0x1_0000
        * (n % 0x1_0000) && (((v >> 16) & 0xf) << 12) | (v & 0xfff) == v % 0x1000 + 0x1000 * (v
        / 0x1_0000 % 16) && x >> 1u32 == (if x % 2 == 0 {
        x as int
    } else {
        x - 1
    }) / 2 && (ge & (1u8 << 0u8) != 0 <==> ge % 2 == 1) && (ge & (1u8 << 1u8) != 0 <==> ge / 2 % 2 == 1)
        && (ge & (1u8 << 2u8) != 0 <==> ge / 4 % 2 == 1) && (ge & (1u8 << 3u8) != 0 <==> ge / 8 % 2
        == 1) && v & (0xffu32 << 0u32) == v % 0x100 && v & (0xffu32 << 8u32) == 0x100 * (v / 0x100
        % 0x100) && v & (0xffu32 << 16u32) == 0x1_0000 * (v / 0x1_0000 % 0x100) && v & (0xffu32
        << 24u32) == 0x100_0000 * (v / 0x100_0000) && 1u8 << 0u8 == 1 && 1u8 << 1u8 == 2 && 1u8
        << 2u8 == 4 && 1u8 << 3u8 == 8 && (v & (0xffu32 << 0u32)) | (n & (0xffu32 << 8u32)) | (m & (
    0xffu32 << 16u32)) | (w & (0xffu32 << 24u32)) == v % 0x100 + 0x100 * (n / 0x100 % 0x100) + 0x1_0000
        * (m / 0x1_0000 % 0x100) + 0x100_0000 * (w / 0x100_0000) && (b0 <= 1 && (b1 == 0 || b1 == 2)
        && (b2 == 0 || b2 == 4) && (b3 == 0 || b3 == 8) ==> b0 | b1 | b2 | b3 == b0 + b1 + b2 + b3)
        && ((b0 == 0 || b0 == 3) && (b1 == 0 || b1 == 12) ==> b0 | b1 == b0 + b1)) by (bit_vector);
}

/// The bytes of a word.
pub proof fn bytes_of(v: u32)
    ensures
        byte_of(v, 0) == byte_at(v, 0),
        byte_of(v, 1) == byte_at(v, 1),
        byte_of(v, 2) == byte_at(v, 2),
        byte_of(v, 3) == byte_at(v, 3),
        (v >> 0u32) & 0xff == byte_at(v, 0),
        (v >> 8u32) & 0xff == byte_at(v, 1),
        (v >> 16u32) & 0xff == byte_at(v, 2),
        (v >> 24u32) & 0xff == byte_at(v, 3),
{
    parts(v, 0, 0, 0, 0, 0, 0, 0, 0, 0, 0, 0);
}

/// Flags at their places add up.
pub proof fn joined_flags(b0: u8, b1: u8, b2: u8, b3: u8)
    ensures
        b0 <= 1 && (b1 == 0 || b1 == 2) && (b2 == 0 || b2 == 4) && (b3 == 0 || b3 == 8) ==> b0 | b1
            | b2 | b3 == b0 + b1 + b2 + b3,
        (b0 == 0 || b0 == 3) && (b1 == 0 || b1 == 12) ==> b0 | b1 == b0 + b1,
        1u8 << 0u8 == 1 && 1u8 << 1u8 == 2 && 1u8 << 2u8 == 4 && 1u8 << 3u8 == 8,
{
    parts(0, 0, 0, 0, b0, b1, b2, b3, 0, 0, 0, 0);
}

/// REV turns the bytes of a word round, REV16 those of each half.
pub proof fn reversed_bytes(v: u32)
    ensures
        rev32(v) == of_bytes(byte_at(v, 3), byte_at(v, 2), byte_at(v, 1), byte_at(v, 0)),
        rev16(v) == of_bytes(byte_at(v, 1), byte_at(v, 0), byte_at(v, 3), byte_at(v, 2)),
{
    parts(v, 0, 0, 0, 0, 0, 0, 0, 0, 0, 0, 0);
}

/// SEL takes each byte from one of two words, as its GE flag says.
pub proof fn selected_bytes(ge: u8, n: u32, m: u32)
    ensures
        ({
            let b = |k: int|
                byte_at(
                    if ge_flag(ge, k) {
                        n
                    } else {
                        m
                    },
                    k,
                );
            select(ge, n, m) == of_bytes(b(0), b(1), b(2), b(3))
        }),
{
    let w = |k: int|
        if ge_flag(ge, k) {
            n
        } else {
            m
        };
    parts(w(0), w(1), w(2), w(3), 0, 0, 0, 0, 0, 0, ge, 0);
}

/// The greatest numbers of a given width.
pub proof fn greatest_numbers(bits: u32)
    requires
        bits <= 32,
    ensures
        1 <= bits ==> signed_max(bits) == pow2((bits - 1) as nat) - 1,
        bits < 32 ==> unsigned_max(bits) == pow2(bits as nat) - 1,
        1 <= bits ==> 1 <= pow2((bits - 1) as nat) <= 0x8000_0000,
        bits < 32 ==> 1 <= pow2(bits as nat) <= 0x8000_0000,
{
    if bits < 32 {
        one_shifted(bits);
        shifted_64(1, bits);
        power_below(bits);
    }
    if 1 <= bits {
        one_shifted((bits - 1) as u32);
        shifted_64(1, (bits - 1) as u32);
        power_below((bits - 1) as u32);
    }
}

proof fn power_below(n: u32)
    requires
        n < 32,
    ensures
        1 <= pow2(n as nat) <= 0x8000_0000,
{
    lemma2_to64();
    lemma_pow2_pos(n as nat);
    if n < 31 {
        lemma_pow2_strictly_increases(n as nat, 31);
    }
}

/// Which media instruction a word is, its fields, and rotations by whole bytes.
pub(crate) proof fn media_keys(i: u32, v: u32)
    ensures
        (i & 0x0ff0_00f0 == 0x0780_0010 ==> i & 0x0ff0_0070 != 0x0680_0070 && i & 0x0ff0_0070 != 0x06a0_0070 && i & 0x0ff0_0070 != 0x06b0_0070 && i & 0x0ff0_0070 != 0x06c0_0070 && i & 0x0ff0_0070 != 0x06e0_0070 && i & 0x0ff0_0070 != 0x06f0_0070),
        (i & 0x0ff0_0ff0 == 0x0680_0fb0 ==> i & 0x0ff0_0070 != 0x0680_0070 && i & 0x0ff0_0070 != 0x06a0_0070 && i & 0x0ff0_0070 != 0x06b0_0070 && i & 0x0ff0_0070 != 0x06c0_0070 && i & 0x0ff0_0070 != 0x06e0_0070 && i & 0x0ff0_0070 != 0x06f0_0070 && i & 0x0ff0_00f0 != 0x0780_0010 && i & 0x0ff0_0090 != 0x0680_0010),
        (i & 0x0f80_0f10 == 0x0600_0f10 ==> i & 0x0ff0_00f0 != 0x0780_0010 && i & 0x0ff0_0090 != 0x0680_0010 && i & 0x0ff0_0ff0 != 0x0680_0fb0 && i & 0x0ff0_0070 != 0x0680_0070 && i & 0x0ff0_0070 != 0x06a0_0070 && i & 0x0ff0_0070 != 0x06b0_0070 && i & 0x0ff0_0070 != 0x06c0_0070 && i & 0x0ff0_0070 != 0x06e0_0070 && i & 0x0ff0_0070 != 0x06f0_0070),
        (i & 0x0f90_0ff0 == 0x0100_0050 ==> i & 0x0ff0_0070 != 0x0680_0070 && i & 0x0ff0_0070 != 0x06a0_0070 && i & 0x0ff0_0070 != 0x06b0_0070 && i & 0x0ff0_0070 != 0x06c0_0070 && i & 0x0ff0_0070 != 0x06e0_0070 && i & 0x0ff0_0070 != 0x06f0_0070 && i & 0x0ff0_00f0 != 0x0780_0010 && i & 0x0ff0_0090 != 0x0680_0010 && i & 0x0ff0_0ff0 != 0x0680_0fb0 && i & 0x0f80_0f10 != 0x0600_0f10),
        ((i & 0x0ff0_0ff0 == 0x06a0_0f30 || i & 0x0ff0_0ff0 == 0x06e0_0f30) ==> i & 0x0f80_0f10 != 0x0600_0f10 && i & 0x0ff0_0070 != 0x0680_0070 && i & 0x0ff0_0070 != 0x06a0_0070 && i & 0x0ff0_0070 != 0x06b0_0070 && i & 0x0ff0_0070 != 0x06c0_0070 && i & 0x0ff0_0070 != 0x06e0_0070 && i & 0x0ff0_0070 != 0x06f0_0070 && i & 0x0ff0_00f0 != 0x0780_0010 && i & 0x0ff0_0090 != 0x0680_0010 && i & 0x0ff0_0ff0 != 0x0680_0fb0 && i & 0x0f90_0ff0 != 0x0100_0050),
        ((i & 0x0fe0_0030 == 0x06a0_0010 || i & 0x0fe0_0030 == 0x06e0_0010) ==> i & 0x0ff0_0070 != 0x0680_0070 && i & 0x0ff0_0070 != 0x06a0_0070 && i & 0x0ff0_0070 != 0x06b0_0070 && i & 0x0ff0_0070 != 0x06c0_0070 && i & 0x0ff0_0070 != 0x06e0_0070 && i & 0x0ff0_0070 != 0x06f0_0070 && i & 0x0ff0_00f0 != 0x0780_0010 && i & 0x0ff0_0090 != 0x0680_0010 && i & 0x0ff0_0ff0 != 0x0680_0fb0 && i & 0x0f90_0ff0 != 0x0100_0050 && i & 0x0ff0_0ff0 != 0x06a0_0f30 && i & 0x0ff0_0ff0 != 0x06e0_0f30 && i & 0x0f80_0f10 != 0x0600_0f10),
        (i >> 16) & 0x1f == i / 0x1_0000 % 32,
        (i >> 20) & 7 == i / 0x10_0000 % 8,
        (i >> 5) & 7 == i / 0x20 % 8,
        (i & (1u32 << 6) == 0) == (i / 0x40 % 2 == 0),
        ((v >> 8u32) | (v << 24u32)) % 0x100 == v / 0x100 % 0x100,
        ((v >> 8u32) | (v << 24u32)) / 0x100 % 0x100 == v / 0x1_0000 % 0x100,
        ((v >> 8u32) | (v << 24u32)) / 0x1_0000 % 0x100 == v / 0x100_0000,
        ((v >> 8u32) | (v << 24u32)) / 0x100_0000 == v % 0x100,
        ((v >> 16u32) | (v << 16u32)) % 0x100 == v / 0x1_0000 % 0x100,
        ((v >> 16u32) | (v << 16u32)) / 0x100 % 0x100 == v / 0x100_0000,
        ((v >> 16u32) | (v << 16u32)) / 0x1_0000 % 0x100 == v % 0x100,
        ((v >> 16u32) | (v << 16u32)) / 0x100_0000 == v / 0x100 % 0x100,
        ((v >> 24u32) | (v << 8u32)) % 0x100 == v / 0x100_0000,
        ((v >> 24u32) | (v << 8u32)) / 0x100 % 0x100 == v % 0x100,
        ((v >> 24u32) | (v << 8u32)) / 0x1_0000 % 0x100 == v / 0x100 % 0x100,
        ((v >> 24u32) | (v << 8u32)) / 0x100_0000 == v / 0x1_0000 % 0x100,
        v << 0u32 == v,
{
    assert((i & 0x0ff0_00f0 == 0x0780_0010 ==> i & 0x0ff0_0070 != 0x0680_0070 && i & 0x0ff0_0070 != 0x06a0_0070 && i & 0x0ff0_0070 != 0x06b0_0070 && i & 0x0ff0_0070 != 0x06c0_0070 && i & 0x0ff0_0070 != 0x06e0_0070 && i & 0x0ff0_0070 != 0x06f0_0070)
        && (i & 0x0ff0_0ff0 == 0x0680_0fb0 ==> i & 0x0ff0_0070 != 0x0680_0070 && i & 0x0ff0_0070 != 0x06a0_0070 && i & 0x0ff0_0070 != 0x06b0_0070 && i & 0x0ff0_0070 != 0x06c0_0070 && i & 0x0ff0_0070 != 0x06e0_0070 && i & 0x0ff0_0070 != 0x06f0_0070 && i & 0x0ff0_00f0 != 0x0780_0010 && i & 0x0ff0_0090 != 0x0680_0010)
        && (i & 0x0f80_0f10 == 0x0600_0f10 ==> i & 0x0ff0_00f0 != 0x0780_0010 && i & 0x0ff0_0090 != 0x0680_0010 && i & 0x0ff0_0ff0 != 0x0680_0fb0 && i & 0x0ff0_0070 != 0x0680_0070 && i & 0x0ff0_0070 != 0x06a0_0070 && i & 0x0ff0_0070 != 0x06b0_0070 && i & 0x0ff0_0070 != 0x06c0_0070 && i & 0x0ff0_0070 != 0x06e0_0070 && i & 0x0ff0_0070 != 0x06f0_0070)
        && (i & 0x0f90_0ff0 == 0x0100_0050 ==> i & 0x0ff0_0070 != 0x0680_0070 && i & 0x0ff0_0070 != 0x06a0_0070 && i & 0x0ff0_0070 != 0x06b0_0070 && i & 0x0ff0_0070 != 0x06c0_0070 && i & 0x0ff0_0070 != 0x06e0_0070 && i & 0x0ff0_0070 != 0x06f0_0070 && i & 0x0ff0_00f0 != 0x0780_0010 && i & 0x0ff0_0090 != 0x0680_0010 && i & 0x0ff0_0ff0 != 0x0680_0fb0 && i & 0x0f80_0f10 != 0x0600_0f10)
        && ((i & 0x0ff0_0ff0 == 0x06a0_0f30 || i & 0x0ff0_0ff0 == 0x06e0_0f30) ==> i & 0x0f80_0f10 != 0x0600_0f10 && i & 0x0ff0_0070 != 0x0680_0070 && i & 0x0ff0_0070 != 0x06a0_0070 && i & 0x0ff0_0070 != 0x06b0_0070 && i & 0x0ff0_0070 != 0x06c0_0070 && i & 0x0ff0_0070 != 0x06e0_0070 && i & 0x0ff0_0070 != 0x06f0_0070 && i & 0x0ff0_00f0 != 0x0780_0010 && i & 0x0ff0_0090 != 0x0680_0010 && i & 0x0ff0_0ff0 != 0x0680_0fb0 && i & 0x0f90_0ff0 != 0x0100_0050)
        && ((i & 0x0fe0_0030 == 0x06a0_0010 || i & 0x0fe0_0030 == 0x06e0_0010) ==> i & 0x0ff0_0070 != 0x0680_0070 && i & 0x0ff0_0070 != 0x06a0_0070 && i & 0x0ff0_0070 != 0x06b0_0070 && i & 0x0ff0_0070 != 0x06c0_0070 && i & 0x0ff0_0070 != 0x06e0_0070 && i & 0x0ff0_0070 != 0x06f0_0070 && i & 0x0ff0_00f0 != 0x0780_0010 && i & 0x0ff0_0090 != 0x0680_0010 && i & 0x0ff0_0ff0 != 0x0680_0fb0 && i & 0x0f90_0ff0 != 0x0100_0050 && i & 0x0ff0_0ff0 != 0x06a0_0f30 && i & 0x0ff0_0ff0 != 0x06e0_0f30 && i & 0x0f80_0f10 != 0x0600_0f10)
        && (i >> 16) & 0x1f == i / 0x1_0000 % 32
        && (i >> 20) & 7 == i / 0x10_0000 % 8
        && (i >> 5) & 7 == i / 0x20 % 8
        && (i & (1u32 << 6) == 0) == (i / 0x40 % 2 == 0)
        && ((v >> 8u32) | (v << 24u32)) % 0x100 == v / 0x100 % 0x100
        && ((v >> 8u32) | (v << 24u32)) / 0x100 % 0x100 == v / 0x1_0000 % 0x100
        && ((v >> 8u32) | (v << 24u32)) / 0x1_0000 % 0x100 == v / 0x100_0000
        && ((v >> 8u32) | (v << 24u32)) / 0x100_0000 == v % 0x100
        && ((v >> 16u32) | (v << 16u32)) % 0x100 == v / 0x1_0000 % 0x100
        && ((v >> 16u32) | (v << 16u32)) / 0x100 % 0x100 == v / 0x100_0000
        && ((v >> 16u32) | (v << 16u32)) / 0x1_0000 % 0x100 == v % 0x100
        && ((v >> 16u32) | (v << 16u32)) / 0x100_0000 == v / 0x100 % 0x100
        && ((v >> 24u32) | (v << 8u32)) % 0x100 == v / 0x100_0000
        && ((v >> 24u32) | (v << 8u32)) / 0x100 % 0x100 == v % 0x100
        && ((v >> 24u32) | (v << 8u32)) / 0x1_0000 % 0x100 == v / 0x100 % 0x100
        && ((v >> 24u32) | (v << 8u32)) / 0x100_0000 == v / 0x1_0000 % 0x100
        && v << 0u32 == v) by (bit_vector);
}

/// A rotation by whole bytes moves each byte down.
pub proof fn rotated_bytes(v: u32, k: u32)
    requires
        k < 4,
    ensures
        ({
            let r = ror32(v, (k * 8) as u32);
            &&& byte_at(r, 0) == byte_at(v, k as int)
            &&& byte_at(r, 1) == byte_at(v, (k + 1) % 4)
            &&& byte_at(r, 2) == byte_at(v, (k + 2) % 4)
            &&& byte_at(r, 3) == byte_at(v, (k + 3) % 4)
        }),
{
    media_keys(0, v);
}

/// The small fields of the media words.
pub proof fn media_fields(i: u32)
    ensures
        (i >> 16) & 0x1f == i / 0x1_0000 % 32,
        (i >> 20) & 7 == i / 0x10_0000 % 8,
        (i >> 5) & 7 == i / 0x20 % 8,
        (i & (1u32 << 6) == 0) == (i / 0x40 % 2 == 0),
        i << 0u32 == i,
{
    media_keys(i, i);
}

/// Halves of two words joined.
pub proof fn joined_halves(n: u32, m: u32)
    ensures
        (n & 0xffff) | (m & 0xffff_0000) == n % 0x1_0000 + 0x1_0000 * (m / 0x1_0000),
        (n & 0xffff_0000) | (m & 0xffff) == m % 0x1_0000 + 0x1_0000 * (n / 0x1_0000),
        (n & 0xffff) | (m << 16) == n % 0x1_0000 + 0x1_0000 * (m % 0x1_0000),
        ((n & 0xffff) << 16) | (m & 0xffff) == m % 0x1_0000 + 0x1_0000 * (n % 0x1_0000),
        (m & 0xffff) | ((n & 0xffff) << 16) == m % 0x1_0000 + 0x1_0000 * (n % 0x1_0000),
{
    parts(0, n, m, 0, 0, 0, 0, 0, 0, 0, 0, 0);
}

/// The immediates of branches and transfers.
pub(crate) proof fn immediates(i: u32, h: u16)
    ensures
        ((((i & 0x00ff_ffff) << 2) << 6u32) as i32) >> 6u32 == (if i % 0x100_0000 < 0x80_0000 { 4 * (i % 0x100_0000) } else { 4 * (i % 0x100_0000) - 0x400_0000 }),
        ((((i & 0x00ff_ffff) << 2 | ((i >> 24) & 1) << 1) << 6u32) as i32) >> 6u32 == (if i % 0x100_0000 < 0x80_0000 { 4 * (i % 0x100_0000) + 2 * (i / 0x100_0000 % 2) } else { 4 * (i % 0x100_0000) + 2 * (i / 0x100_0000 % 2) - 0x400_0000 }),
        ((i >> 4) & 0xf0) | (i & 0xf) == 16 * (i / 0x100 % 16) + i % 16,
        (((((h & 0xff) as u32) << 1) << 23u32) as i32) >> 23u32 == (if h % 0x100 < 0x80 { 2 * (h % 0x100) } else { 2 * (h % 0x100) - 0x200 }),
        (((((h & 0x7ff) as u32) << 1) << 20u32) as i32) >> 20u32 == (if h % 0x800 < 0x400 { 2 * (h % 0x800) } else { 2 * (h % 0x800) - 0x1000 }),
        (((((h & 0x7ff) as u32) << 12) << 9u32) as i32) >> 9u32 == (if h % 0x800 < 0x400 { 0x1000 * (h % 0x800) } else { 0x1000 * (h % 0x800) - 0x80_0000 }),
        ((h & 0x7ff) as u32) << 1 == 2 * (h % 0x800),
        ((h & 0xff) as u32) << 2 == 4 * (h % 0x100),
        ((h & 0x7f) as u32) << 2 == 4 * (h % 0x80),
        (((h >> 6) & 0x1f) as u32) << 2 == 4 * (h / 0x40 % 32),
        (((h >> 6) & 0x1f) as u32) << 1 == 2 * (h / 0x40 % 32),
        ((((h >> 9) & 1) as u32) << 6) | ((((h >> 3) & 0x1f) as u32) << 1) == 64 * (h / 0x200 % 2) + 2 * (h / 8 % 32),
        i & !3u32 == i - i % 4,
        i & !1u32 == i - i % 2,
        i | 1 == i - i % 2 + 1,
        (i & 1 != 0) == (i % 2 == 1),
        ((h & 0xff) as u32) & (1u32 << 8) == 0,
        (i & 1 != 0) == (i % 2 == 1),
        i ^ 1 == (if i % 2 == 0 { i + 1 } else { i - 1 }),
        (((h & 0xf) >> 3u16) & 1 != 0) == (h / 8 % 2 == 1),
        (((h & 0xf) >> 2u16) & 1 != 0) == (h / 4 % 2 == 1),
        (((h & 0xf) >> 1u16) & 1 != 0) == (h / 2 % 2 == 1),
        ((h & 0xf) & 1 != 0) == (h % 2 == 1),
        ((h & 0xf) & 2 != 0) == (h / 2 % 2 == 1),
        ((h & 0xf) & 4 != 0) == (h / 4 % 2 == 1),
        (i >> 8) & 3 == i / 0x100 % 4,
        (i < 16 ==> i >> 1u32 == i / 2 && i >> 2u32 == i / 4 && i >> 3u32 == i / 8 && (i & 2 != 0) == (i / 2 % 2 == 1) && ((i & 7 == 0) == (i % 8 == 0))),
        (i & 8 != 0) == (i / 8 % 2 == 1),
        i << 1u32 == 2 * i % 0x1_0000_0000,
        i << 2u32 == 4 * i % 0x1_0000_0000,
        i << 3u32 == 8 * i % 0x1_0000_0000,
        h & 0xfff == h % 0x1000,
        h & 0xff == h % 0x100,
        (h >> 4) & 3 == h / 0x10 % 4,
        (i & 0xff) * 4 == 4 * (i % 0x100),
        i & 7 == i % 8,
        i & 0xf == i % 16,
        (i >> 5) & 1 == i / 0x20 % 2,
        (((i >> 5) & 1) << 1) | ((i >> 3) & 1) == 2 * (i / 0x20 % 2) + i / 8 % 2,
{
    assert(((((i & 0x00ff_ffff) << 2) << 6u32) as i32) >> 6u32 == (if i % 0x100_0000 < 0x80_0000 { 4 * (i % 0x100_0000) } else { 4 * (i % 0x100_0000) - 0x400_0000 })
        && ((((i & 0x00ff_ffff) << 2 | ((i >> 24) & 1) << 1) << 6u32) as i32) >> 6u32 == (if i % 0x100_0000 < 0x80_0000 { 4 * (i % 0x100_0000) + 2 * (i / 0x100_0000 % 2) } else { 4 * (i % 0x100_0000) + 2 * (i / 0x100_0000 % 2) - 0x400_0000 })
        && ((i >> 4) & 0xf0) | (i & 0xf) == 16 * (i / 0x100 % 16) + i % 16
        && (((((h & 0xff) as u32) << 1) << 23u32) as i32) >> 23u32 == (if h % 0x100 < 0x80 { 2 * (h % 0x100) } else { 2 * (h % 0x100) - 0x200 })
        && (((((h & 0x7ff) as u32) << 1) << 20u32) as i32) >> 20u32 == (if h % 0x800 < 0x400 { 2 * (h % 0x800) } else { 2 * (h % 0x800) - 0x1000 })
        && (((((h & 0x7ff) as u32) << 12) << 9u32) as i32) >> 9u32 == (if h % 0x800 < 0x400 { 0x1000 * (h % 0x800) } else { 0x1000 * (h % 0x800) - 0x80_0000 })
        && ((h & 0x7ff) as u32) << 1 == 2 * (h % 0x800)
        && ((h & 0xff) as u32) << 2 == 4 * (h % 0x100)
        && ((h & 0x7f) as u32) << 2 == 4 * (h % 0x80)
        && (((h >> 6) & 0x1f) as u32) << 2 == 4 * (h / 0x40 % 32)
        && (((h >> 6) & 0x1f) as u32) << 1 == 2 * (h / 0x40 % 32)
        && ((((h >> 9) & 1) as u32) << 6) | ((((h >> 3) & 0x1f) as u32) << 1) == 64 * (h / 0x200 % 2) + 2 * (h / 8 % 32)
        && i & !3u32 == i - i % 4
        && i & !1u32 == i - i % 2
        && i | 1 == i - i % 2 + 1
        && (i & 1 != 0) == (i % 2 == 1)
        && ((h & 0xff) as u32) & (1u32 << 8) == 0
        && (i & 1 != 0) == (i % 2 == 1)
        && i ^ 1 == (if i % 2 == 0 { i + 1 } else { i - 1 })
        && (((h & 0xf) >> 3u16) & 1 != 0) == (h / 8 % 2 == 1)
        && (((h & 0xf) >> 2u16) & 1 != 0) == (h / 4 % 2 == 1)
        && (((h & 0xf) >> 1u16) & 1 != 0) == (h / 2 % 2 == 1)
        && ((h & 0xf) & 1 != 0) == (h % 2 == 1)
        && ((h & 0xf) & 2 != 0) == (h / 2 % 2 == 1)
        && ((h & 0xf) & 4 != 0) == (h / 4 % 2 == 1)
        && (i >> 8) & 3 == i / 0x100 % 4
        && (i < 16 ==> i >> 1u32 == i / 2 && i >> 2u32 == i / 4 && i >> 3u32 == i / 8 && (i & 2 != 0) == (i / 2 % 2 == 1) && ((i & 7 == 0) == (i % 8 == 0)))
        && (i & 8 != 0) == (i / 8 % 2 == 1)
        && i << 1u32 == 2 * i % 0x1_0000_0000
        && i << 2u32 == 4 * i % 0x1_0000_0000
        && i << 3u32 == 8 * i % 0x1_0000_0000
        && h & 0xfff == h % 0x1000
        && h & 0xff == h % 0x100
        && (h >> 4) & 3 == h / 0x10 % 4
        && (i & 0xff) * 4 == 4 * (i % 0x100)
        && i & 7 == i % 8
        && i & 0xf == i % 16
        && (i >> 5) & 1 == i / 0x20 % 2
        && (((i >> 5) & 1) << 1) | ((i >> 3) & 1) == 2 * (i / 0x20 % 2) + i / 8 % 2) by (bit_vector);
}

/// The condition and the mask bits of an IT instruction.
pub proof fn it_fields(h: u16, c: u32)
    requires
        c < 16,
    ensures
        (c & 1 != 0) == (c % 2 == 1),
        c ^ 1 == (if c % 2 == 0 { c + 1 } else { c - 1 }),
        (((h & 0xf) >> 3u16) & 1 != 0) == (h / 8 % 2 == 1),
        (((h & 0xf) >> 2u16) & 1 != 0) == (h / 4 % 2 == 1),
        (((h & 0xf) >> 1u16) & 1 != 0) == (h / 2 % 2 == 1),
        ((h & 0xf) & 1 != 0) == (h % 2 == 1),
        ((h & 0xf) & 2 != 0) == (h / 2 % 2 == 1),
        ((h & 0xf) & 4 != 0) == (h / 4 % 2 == 1),
{
    immediates(c, h);
}

/// The two low bytes of a word swapped.
pub proof fn swapped_low_bytes(v: u32)
    ensures
        ((v & 0xff) << 8) | ((v >> 8) & 0xff) == byte_at(v, 1) + 0x100 * byte_at(v, 0),
{
    parts(v, 0, 0, 0, 0, 0, 0, 0, 0, 0, 0, 0);
}

/// A word built by MOVW, and one by MOVT.
pub proof fn moved_halves(i: u32, r: u32)
    ensures
        ({
            let imm = (((i >> 16) & 0xf) << 12) | (i & 0xfff);
            &&& imm == i % 0x1000 + 0x1000 * (i / 0x1_0000 % 16)
            &&& (r & 0x0000_ffff) | (imm << 16) == r % 0x1_0000 + 0x1_0000 * (i % 0x1000 + 0x1000 * (i
                / 0x1_0000 % 16))
        }),
{
    parts(i, r, (((i >> 16) & 0xf) << 12) | (i & 0xfff), 0, 0, 0, 0, 0, 0, 0, 0, 0);
}

/// Where the leading zeros end, one bit is set; the status word with its flags.
proof fn rare_bits(v: u32, z: u32, n: u32, zz: u32, c: u32, o: u32, q: u32, t: u32, ge: u8)
    requires
        (n == 0 || n == 1u32 << 31),
        (zz == 0 || zz == 1u32 << 30),
        (c == 0 || c == 1u32 << 29),
        (o == 0 || o == 1u32 << 28),
        (q == 0 || q == 1u32 << 27),
        (t == 0 || t == 1u32 << 5),
        ge < 16,
    ensures
        z < 32 && (v >> ((31 - z) as u32)) & 1 != 0 && (z == 0 || v >> ((32 - z) as u32) == 0) ==> v
            >> ((31 - z) as u32) == 1,
        ({
            let w = n | zz | c | o | q | (((ge & 0xf) as u32) << 16) | t;
            &&& (w & (1u32 << 31) != 0) == (n != 0)
            &&& (w & (1u32 << 30) != 0) == (zz != 0)
            &&& (w & (1u32 << 29) != 0) == (c != 0)
            &&& (w & (1u32 << 28) != 0) == (o != 0)
            &&& (w & (1u32 << 27) != 0) == (q != 0)
            &&& (w & (1u32 << 5) != 0) == (t != 0)
            &&& w / 0x1_0000 % 16 == ge
            &&& ((w >> 16) & 0xf) as u8 == ge
        }),
        1u32 << 31 != 0 && 1u32 << 30 != 0 && 1u32 << 29 != 0 && 1u32 << 28 != 0 && 1u32 << 27 != 0
            && 1u32 << 5 != 0,
{
    assert((z < 32 && (v >> ((31 - z) as u32)) & 1 != 0 && (z == 0 || v >> ((32 - z) as u32) == 0)
        ==> v >> ((31 - z) as u32) == 1) && ({
        let w = n | zz | c | o | q | (((ge & 0xf) as u32) << 16) | t;
        &&& (w & (1u32 << 31) != 0) == (n != 0)
        &&& (w & (1u32 << 30) != 0) == (zz != 0)
        &&& (w & (1u32 << 29) != 0) == (c != 0)
        &&& (w & (1u32 << 28) != 0) == (o != 0)
        &&& (w & (1u32 << 27) != 0) == (q != 0)
        &&& (w & (1u32 << 5) != 0) == (t != 0)
        &&& w / 0x1_0000 % 16 == ge
        &&& ((w >> 16) & 0xf) as u8 == ge
    }) && 1u32 << 31 != 0 && 1u32 << 30 != 0 && 1u32 << 29 != 0 && 1u32 << 28 != 0 && 1u32 << 27 != 0
        && 1u32 << 5 != 0) by (bit_vector)
        requires
            (n == 0 || n == 1u32 << 31),
            (zz == 0 || zz == 1u32 << 30),
            (c == 0 || c == 1u32 << 29),
            (o == 0 || o == 1u32 << 28),
            (q == 0 || q == 1u32 << 27),
            (t == 0 || t == 1u32 << 5),
            ge < 16,
    ;
}

/// Below its leading zeros a word has a one.
pub proof fn single_bit_left(v: u32, z: u32)
    ensures
        z < 32 && (v >> ((31 - z) as u32)) & 1 != 0 && (z == 0 || v >> ((32 - z) as u32) == 0) ==> v
            >> ((31 - z) as u32) == 1,
{
    rare_bits(v, z, 0, 0, 0, 0, 0, 0, 0);
}

/// The bits of a status word.
pub proof fn status_bits(n: bool, z: bool, c: bool, v: bool, q: bool, t: bool, ge: u8)
    requires
        ge < 16,
    ensures
        ({
            let w = Cpsr { n, z, c, v, q, ge, t }.word();
            &&& bit(w, 31) == n
            &&& bit(w, 30) == z
            &&& bit(w, 29) == c
            &&& bit(w, 28) == v
            &&& bit(w, 27) == q
            &&& bit(w, 5) == t
            &&& w / 0x1_0000 % 16 == ge
            &&& ((w >> 16) & 0xf) as u8 == ge
        }),
{
    rare_bits(
        0,
        0,
        flag_at(n, 31),
        flag_at(z, 30),
        flag_at(c, 29),
        flag_at(v, 28),
        flag_at(q, 27),
        flag_at(t, 5),
        ge,
    );
}

/// The field of a scalar duplication.
pub proof fn duplicate_field(i: u32)
    requires
        i < 16,
    ensures
        (i & 1 != 0) == (i % 2 == 1),
        (i & 2 != 0) == (i / 2 % 2 == 1),
        (i & 7 == 0) == (i % 8 == 0),
        i >> 1u32 == i / 2,
        i >> 2u32 == i / 4,
        i >> 3u32 == i / 8,
{
    immediates(i, 0);
}

/// The length of a lookup table.
pub proof fn table_length(i: u32)
    ensures
        (i >> 8) & 3 == i / 0x100 % 4,
{
    immediates(i, 0);
}

/// The bit of weight eight.
pub proof fn third_bit(i: u32)
    ensures
        (i & 8 != 0) == (i / 8 % 2 == 1),
{
    immediates(i, 0);
}

/// The offsets of the 32-bit Thumb transfers.
pub proof fn wide_offsets(i: u32, h: u16)
    ensures
        i << 0u32 == i,
        i << 1u32 == 2 * i % 0x1_0000_0000,
        i << 2u32 == 4 * i % 0x1_0000_0000,
        i << 3u32 == 8 * i % 0x1_0000_0000,
        h & 0xfff == h % 0x1000,
        h & 0xff == h % 0x100,
        (h >> 4) & 3 == h / 0x10 % 4,
        ((h & 0xff) as u32) << 2 == 4 * (h % 0x100),
{
    immediates(i, h);
    media_keys(0, i);
}

/// The offset of a floating-point transfer.
pub proof fn word_offset(i: u32)
    ensures
        (i & 0xff) * 4 == 4 * (i % 0x100),
        i & 0xff < 256,
{
    immediates(i, 0);
    parts(i, 0, 0, 0, 0, 0, 0, 0, 0, 0, 0, 0);
}

/// The register and the element of a scalar operand.
pub proof fn scalar_fields(i: u32)
    ensures
        i & 7 == i % 8,
        i & 0xf == i % 16,
        (i >> 5) & 1 == i / 0x20 % 2,
        (((i >> 5) & 1) << 1) | ((i >> 3) & 1) == 2 * (i / 0x20 % 2) + i / 8 % 2,
{
    immediates(i, 0);
}

} // verus!
