//! Words as numbers: what conversions, masks and shifts mean in arithmetic, and
//! what the operators do to each bit.

use super::bits::bit;
use vstd::prelude::*;

verus! {

/// A word read as a two's complement number.
pub open spec fn signed32(x: u32) -> int {
    if x < 0x8000_0000 {
        x as int
    } else {
        x - 0x1_0000_0000
    }
}

/// A halfword read as a two's complement number.
pub open spec fn signed16(x: int) -> int {
    if x < 0x8000 {
        x
    } else {
        x - 0x1_0000
    }
}

/// A byte read as a two's complement number.
pub open spec fn signed8(x: int) -> int {
    if x < 0x80 {
        x
    } else {
        x - 0x100
    }
}

/// A doubleword read as a two's complement number.
pub open spec fn signed64(x: int) -> int {
    if x < 0x8000_0000_0000_0000 {
        x
    } else {
        x - 0x1_0000_0000_0000_0000
    }
}

/// The number that two words make, the first one high.
pub open spec fn pair_of(hi: u32, lo: u32) -> int {
    hi * 0x1_0000_0000 + lo
}

/// Bit `n` of a doubleword.
pub open spec fn bit64(x: u64, n: u64) -> bool {
    x & (1u64 << n) != 0
}

/// The facts of the two lemmas below, proved at once.
proof fn conversions(b: u8, h: u16, w: u32, d: u64, x: i32, y: i64, lo: u32)
    ensures
        (b as i8) as int == signed8(b as int),
        (h as i16) as int == signed16(h as int),
        (w as i32) as int == signed32(w),
        (d as i64) as int == signed64(d as int),
        (x as u32) as int == if x >= 0 {
            x as int
        } else {
            x + 0x1_0000_0000
        },
        (y as u64) as int == if y >= 0 {
            y as int
        } else {
            y + 0x1_0000_0000_0000_0000
        },
        y as u32 == (y as u64) as u32,
        (y as i32) as u32 == (y as u64) as u32,
        x as u16 == (x as u32) as u16,
        x as u8 == (x as u32) as u8,
        d as u32 == d % 0x1_0000_0000,
        d as u16 == d % 0x1_0000,
        d as u8 == d % 0x100,
        w as u16 == w % 0x1_0000,
        w as u8 == w % 0x100,
        h as u8 == h % 0x100,
        w & 0xff == w % 0x100,
        w & 0xffff == w % 0x1_0000,
        w & 0xfff == w % 0x1000,
        d & 0xff == d % 0x100,
        d & 0xffff == d % 0x1_0000,
        d & 0xffff_ffff == d % 0x1_0000_0000,
        h & 0xff == h % 0x100,
        d >> 32 == d / 0x1_0000_0000,
        w >> 16 == w / 0x1_0000,
        w >> 8 == w / 0x100,
        w >> 24 == w / 0x100_0000,
        h >> 8 == h / 0x100,
        (w & 0x8000_0000 != 0) == (w >= 0x8000_0000),
        !w == 0xffff_ffff - w,
        !d == 0xffff_ffff_ffff_ffff - d,
        ((w as u64) << 32) | (lo as u64) == w * 0x1_0000_0000 + lo,
        (y >> 32) as u32 == ((y as u64) >> 32) as u32,
        (d & (1u64 << 63) != 0) == (d >= 0x8000_0000_0000_0000),
        y >> 16 == y as int / 0x1_0000,
        (w as u64) << 32 == w * 0x1_0000_0000,
        (lo as u64) | ((w as u64) << 32) == w * 0x1_0000_0000 + lo,
        d & 0xffff_ffff_ffff_ffff == d,
        0u64 | ((b as u64) << 0u64) == b,
        0u64 & d == 0,
        d ^ 0x8000_0000_0000_0000 == (if d < 0x8000_0000_0000_0000 { d + 0x8000_0000_0000_0000 } else { d - 0x8000_0000_0000_0000 }),
        d & 0x7fff_ffff_ffff_ffff == d % 0x8000_0000_0000_0000,
        w ^ 0x8000_0000 == (if w < 0x8000_0000 { w + 0x8000_0000 } else { w - 0x8000_0000 }),
        w & 0x7fff_ffff == w % 0x8000_0000,
{
    assert((b as i8) == if b < 0x80 {
        b as int
    } else {
        b - 0x100
    } && (h as i16) == if h < 0x8000 {
        h as int
    } else {
        h - 0x1_0000
    } && (w as i32) == if w < 0x8000_0000 {
        w as int
    } else {
        w - 0x1_0000_0000
    } && (d as i64) == if d < 0x8000_0000_0000_0000 {
        d as int
    } else {
        d - 0x1_0000_0000_0000_0000
    } && (x as u32) == if x >= 0 {
        x as int
    } else {
        x + 0x1_0000_0000
    } && (y as u64) == if y >= 0 {
        y as int
    } else {
        y + 0x1_0000_0000_0000_0000
    } && y as u32 == (y as u64) as u32 && (y as i32) as u32 == (y as u64) as u32 && x as u16 == (
    x as u32) as u16 && x as u8 == (x as u32) as u8 && d as u32 == d % 0x1_0000_0000 && d as u16 == d % 0x1_0000 && d as u8 == d % 0x100 && w
        as u16 == w % 0x1_0000 && w as u8 == w % 0x100 && h as u8 == h % 0x100 && w & 0xff == w
        % 0x100 && w & 0xffff == w % 0x1_0000 && w & 0xfff == w % 0x1000 && d & 0xff == d % 0x100
        && d & 0xffff == d % 0x1_0000 && d & 0xffff_ffff == d % 0x1_0000_0000 && h & 0xff == h
        % 0x100 && d >> 32 == d / 0x1_0000_0000 && w >> 16 == w / 0x1_0000 && w >> 8 == w / 0x100
        && w >> 24 == w / 0x100_0000 && h >> 8 == h / 0x100 && (w & 0x8000_0000 != 0) == (w >= 0x8000_0000) && !w == 0xffff_ffff - w
        && !d == 0xffff_ffff_ffff_ffff - d && ((w as u64) << 32) | (lo as u64) == w * 0x1_0000_0000 + lo && (y >> 32) as u32
        == ((y as u64) >> 32) as u32 && (d & (1u64 << 63) != 0) == (d >= 0x8000_0000_0000_0000) && y >> 16 == y / 0x1_0000
        && (w as u64) << 32 == w * 0x1_0000_0000
        && (lo as u64) | ((w as u64) << 32) == w * 0x1_0000_0000 + lo && d & 0xffff_ffff_ffff_ffff == d && 0u64 | ((b as u64) << 0u64) == b && 0u64 & d == 0
        && d ^ 0x8000_0000_0000_0000 == (if d < 0x8000_0000_0000_0000 { d + 0x8000_0000_0000_0000 } else { d - 0x8000_0000_0000_0000 })
        && d & 0x7fff_ffff_ffff_ffff == d % 0x8000_0000_0000_0000
        && w ^ 0x8000_0000 == (if w < 0x8000_0000 { w + 0x8000_0000 } else { w - 0x8000_0000 })
        && w & 0x7fff_ffff == w % 0x8000_0000) by (bit_vector);
}

/// Conversions between signed and unsigned words.
pub proof fn sign_casts(b: u8, h: u16, w: u32, d: u64, x: i32, y: i64)
    ensures
        (b as i8) as int == signed8(b as int),
        (h as i16) as int == signed16(h as int),
        (w as i32) as int == signed32(w),
        (d as i64) as int == signed64(d as int),
        (x as u32) as int == if x >= 0 {
            x as int
        } else {
            x + 0x1_0000_0000
        },
        (y as u64) as int == if y >= 0 {
            y as int
        } else {
            y + 0x1_0000_0000_0000_0000
        },
        y as u32 == (y as u64) as u32,
        (y as i32) as u32 == (y as u64) as u32,
        x as u16 == (x as u32) as u16,
        x as u8 == (x as u32) as u8,
{
    conversions(b, h, w, d, x, y, 0);
}

/// Narrowing, masking and shifting by fixed amounts.
pub proof fn low_parts(w: u32, d: u64, h: u16)
    ensures
        d as u32 == d % 0x1_0000_0000,
        d as u16 == d % 0x1_0000,
        d as u8 == d % 0x100,
        w as u16 == w % 0x1_0000,
        w as u8 == w % 0x100,
        h as u8 == h % 0x100,
        w & 0xff == w % 0x100,
        w & 0xffff == w % 0x1_0000,
        w & 0xfff == w % 0x1000,
        d & 0xff == d % 0x100,
        d & 0xffff == d % 0x1_0000,
        d & 0xffff_ffff == d % 0x1_0000_0000,
        h & 0xff == h % 0x100,
        d >> 32 == d / 0x1_0000_0000,
        w >> 16 == w / 0x1_0000,
        w >> 8 == w / 0x100,
        w >> 24 == w / 0x100_0000,
        h >> 8 == h / 0x100,
        (w & 0x8000_0000 != 0) == (w >= 0x8000_0000),
        !w == 0xffff_ffff - w,
        !d == 0xffff_ffff_ffff_ffff - d,
{
    conversions(0, h, w, d, 0, 0, 0);
}

/// Two words as one doubleword, and a signed doubleword as two words.
pub proof fn pairs(hi: u32, lo: u32, y: i64)
    ensures
        ((hi as u64) << 32) | (lo as u64) == pair_of(hi, lo),
        (hi as u64) << 32 == hi * 0x1_0000_0000,
        pair_of((y >> 32) as u32, y as u32) == (y as u64) as int,
        pair_of(((y as u64) >> 32) as u32, (y as u64) as u32) == (y as u64) as int,
{
    conversions(0, 0, hi, y as u64, 0, y, lo);
}

/// The sign of a doubleword.
pub proof fn doubleword_top(v: u64)
    ensures
        (v & (1u64 << 63) != 0) == (v >= 0x8000_0000_0000_0000),
{
    conversions(0, 0, 0, v, 0, 0, 0);
}

/// The mask of all bits keeps a doubleword.
pub proof fn whole_doubleword(v: u64)
    ensures
        v & 0xffff_ffff_ffff_ffff == v,
{
    conversions(0, 0, 0, v, 0, 0, 0);
}

/// A signed right shift by sixteen rounds down.
pub proof fn shifted_right_16(y: i64)
    ensures
        y >> 16 == y as int / 0x1_0000,
{
    conversions(0, 0, 0, 0, 0, y, 0);
}

/// The sign bit of doublewords and words, turned and cleared.
pub proof fn sign_masks(d: u64)
    ensures
        d ^ 0x8000_0000_0000_0000 == if d < 0x8000_0000_0000_0000 {
            d + 0x8000_0000_0000_0000
        } else {
            d - 0x8000_0000_0000_0000
        },
        d & 0x7fff_ffff_ffff_ffff == d % 0x8000_0000_0000_0000,
        (d as u32) ^ 0x8000_0000 == if (d as u32) < 0x8000_0000 {
            d as u32 + 0x8000_0000
        } else {
            d as u32 - 0x8000_0000
        },
        (d as u32) & 0x7fff_ffff == d as u32 % 0x8000_0000,
        d as u32 == d % 0x1_0000_0000,
{
    conversions(0, 0, d as u32, d, 0, 0, 0);
}

/// Two words joined, the low one first.
pub proof fn joined_words(hi: u32, lo: u32)
    ensures
        (lo as u64) | ((hi as u64) << 32) == pair_of(hi, lo),
{
    conversions(0, 0, hi, 0, 0, 0, lo);
}

/// A byte in the lowest place.
pub proof fn first_byte(b: u8)
    ensures
        0u64 | ((b as u64) << 0u64) == b,
{
    conversions(b, 0, 0, 0, 0, 0, 0);
}

/// Nothing masked is nothing.
pub proof fn nothing_masked(d: u64)
    ensures
        0u64 & d == 0,
{
    conversions(0, 0, 0, d, 0, 0, 0);
}

/// What the operators do to bit `i` of words, and to bit `j` of doublewords.
pub proof fn bit_by_bit(a: u32, b: u32, n: u32, i: u32, x: u64, y: u64, j: u64)
    requires
        i < 32,
        n < 32,
        j < 64,
    ensures
        bit(a & b, i) == (bit(a, i) && bit(b, i)),
        bit(a | b, i) == (bit(a, i) || bit(b, i)),
        bit(a ^ b, i) == (bit(a, i) != bit(b, i)),
        bit(!a, i) == !bit(a, i),
        bit(a << n, i) == (i >= n && bit(a, (i - n) as u32)),
        bit(a >> n, i) == (i + n < 32 && bit(a, (i + n) as u32)),
        bit(((a as i32) >> n) as u32, i) == bit(
            a,
            if i + n < 32 {
                (i + n) as u32
            } else {
                31
            },
        ),
        bit(a, 31) == (a >= 0x8000_0000),
        bit(a, 0) == (a % 2 == 1),
        bit64(x & y, j) == (bit64(x, j) && bit64(y, j)),
        bit64(x | y, j) == (bit64(x, j) || bit64(y, j)),
        bit64(x ^ y, j) == (bit64(x, j) != bit64(y, j)),
        bit64(!x, j) == !bit64(x, j),
        bit(((1u32 << n) - 1) as u32, i) == (i < n),
        bit(0xffff_ffff, i),
        bit(a & 0xffff, i) == (i < 16 && bit(a, i)),
{
    assert(((a & b) & (1u32 << i) != 0) == (a & (1u32 << i) != 0 && b & (1u32 << i) != 0) && ((a | b)
        & (1u32 << i) != 0) == (a & (1u32 << i) != 0 || b & (1u32 << i) != 0) && ((a ^ b) & (1u32
        << i) != 0) == ((a & (1u32 << i) != 0) != (b & (1u32 << i) != 0)) && ((!a) & (1u32 << i)
        != 0) == (a & (1u32 << i) == 0) && ((a << n) & (1u32 << i) != 0) == (i >= n && a & (1u32 << ((
    i - n) as u32)) != 0) && ((a >> n) & (1u32 << i) != 0) == (i + n < 32 && a & (1u32 << ((i
        + n) as u32)) != 0) && ((((a as i32) >> n) as u32) & (1u32 << i) != 0) == (a & (1u32 << (if i
        + n < 32 {
        (i + n) as u32
    } else {
        31
    })) != 0) && (a & (1u32 << 31u32) != 0) == (a >= 0x8000_0000) && (a & (1u32 << 0u32) != 0) == (a
        % 2 == 1) && ((x & y) & (1u64 << j) != 0) == (x & (1u64 << j) != 0 && y & (1u64 << j) != 0)
        && ((x | y) & (1u64 << j) != 0) == (x & (1u64 << j) != 0 || y & (1u64 << j) != 0) && ((x ^ y)
        & (1u64 << j) != 0) == ((x & (1u64 << j) != 0) != (y & (1u64 << j) != 0)) && ((!x) & (1u64
        << j) != 0) == (x & (1u64 << j) == 0) && ((((1u32 << n) - 1) as u32) & (1u32 << i) != 0) == (i
        < n) && 0xffff_ffffu32 & (1u32 << i) != 0 && ((a & 0xffff) & (1u32 << i) != 0) == (i < 16 && a
        & (1u32 << i) != 0)) by (bit_vector)
        requires
            i < 32,
            n < 32,
            j < 64,
    ;
}

} // verus!
