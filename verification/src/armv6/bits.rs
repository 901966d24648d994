//! Facts about bit operations that the interpreter rests on, and the few bit
//! manipulations that are not single operators.

use vstd::prelude::*;

verus! {

/// The facts below, proved at once.
proof fn word_facts(x: u32, m: u32, h: u16, g: u16, d: u64, e: u64, imm12: u32, width: u32)
    ensures
        x & m <= m,
        h & g <= g,
        d & e <= e,
        x & m == m & x,
        (x & 1 != 0) == (x & (1u32 << 0) != 0),
        x & 0xf == x % 0x10,
        x & 0x1f == x % 0x20,
        x & 0x7f == x % 0x80,
        x & 3 == x % 4,
        x & 7 == x % 8,
        1u32 << 0 == 1u32,
        imm12 < 0x1000 ==> (imm12 & 0x0c00 == 0) == (imm12 / 0x100 < 4),
        imm12 < 0x1000 && imm12 & 0x0c00 == 0 ==> (imm12 >> 8) & 0x3 == imm12 / 0x100,
        imm12 & 0xff == imm12 % 0x100,
        0x80 | (imm12 & 0x7f) == 0x80 + imm12 % 0x80,
        imm12 < 0x1000 ==> (imm12 >> 7) & 0x1f == imm12 / 0x80,
        ((imm12 & 0xff) << 16) | (imm12 & 0xff) == (imm12 & 0xff) * 0x1_0001,
        ((imm12 & 0xff) << 24) | ((imm12 & 0xff) << 8) == (imm12 & 0xff) * 0x100_0100,
        ((imm12 & 0xff) << 24) | ((imm12 & 0xff) << 16) | ((imm12 & 0xff) << 8) | (imm12 & 0xff) == (
        imm12 & 0xff) * 0x101_0101,
        (((x & 0xff) << 24) as i32) >> 24u32 == if x % 0x100 < 0x80 {
            (x % 0x100) as int
        } else {
            x % 0x100 - 0x100
        },
        (((x & 0xffff) << 16) as i32) >> 16u32 == if x % 0x1_0000 < 0x8000 {
            (x % 0x1_0000) as int
        } else {
            x % 0x1_0000 - 0x1_0000
        },
        width < 32 ==> 1u32 << width >= 1,
        ({
            let y = (x << 24) | ((x & 0xff00) << 8) | ((x >> 8) & 0xff00) | (x >> 24);
            (y << 24) | ((y & 0xff00) << 8) | ((y >> 8) & 0xff00) | (y >> 24)
        }) == x,
{
    assert(x & m <= m && h & g <= g && d & e <= e && x & m == m & x && (x & 1 != 0) == (x & (1u32
        << 0) != 0) && x & 0xf == x % 0x10 && x & 0x1f == x % 0x20 && x & 0x7f == x % 0x80 && x & 3
        == x % 4 && x & 7 == x % 8 && 1u32 << 0 == 1u32 && (imm12 < 0x1000 ==> (imm12 & 0x0c00 == 0)
        == (imm12 / 0x100 < 4)) && (imm12 < 0x1000 && imm12 & 0x0c00 == 0 ==> (imm12 >> 8) & 0x3
        == imm12 / 0x100) && imm12 & 0xff == imm12 % 0x100 && 0x80 | (imm12 & 0x7f) == 0x80 + imm12
        % 0x80 && (imm12 < 0x1000 ==> (imm12 >> 7) & 0x1f == imm12 / 0x80) && ((imm12 & 0xff) << 16)
        | (imm12 & 0xff) == (imm12 & 0xff) * 0x1_0001 && ((imm12 & 0xff) << 24) | ((imm12 & 0xff)
        << 8) == (imm12 & 0xff) * 0x100_0100 && ((imm12 & 0xff) << 24) | ((imm12 & 0xff) << 16) | ((
    imm12 & 0xff) << 8) | (imm12 & 0xff) == (imm12 & 0xff) * 0x101_0101 && (((x & 0xff) << 24)
        as i32) >> 24u32 == if x % 0x100 < 0x80 {
        (x % 0x100) as int
    } else {
        x % 0x100 - 0x100
    } && (((x & 0xffff) << 16) as i32) >> 16u32 == if x % 0x1_0000 < 0x8000 {
        (x % 0x1_0000) as int
    } else {
        x % 0x1_0000 - 0x1_0000
    } && (width < 32 ==> 1u32 << width >= 1) && ({
        let y = (x << 24) | ((x & 0xff00) << 8) | ((x >> 8) & 0xff00) | (x >> 24);
        (y << 24) | ((y & 0xff00) << 8) | ((y >> 8) & 0xff00) | (y >> 24)
    }) == x) by (bit_vector);
}

/// Masking a word never gives more than the mask.
pub broadcast proof fn and_le_u32(x: u32, m: u32)
    ensures
        #[trigger] (x & m) <= m,
{
    word_facts(x, m, 0, 0, 0, 0, 0, 0);
}

/// Masking a halfword never gives more than the mask.
pub broadcast proof fn and_le_u16(x: u16, m: u16)
    ensures
        #[trigger] (x & m) <= m,
{
    word_facts(0, 0, x, m, 0, 0, 0, 0);
}

/// Masking a doubleword never gives more than the mask.
pub broadcast proof fn and_le_u64(x: u64, m: u64)
    ensures
        #[trigger] (x & m) <= m,
{
    word_facts(0, 0, 0, 0, x, m, 0, 0);
}

/// Masks in either order, and by the constants of the operand decoder.
pub proof fn and_laws(a: u32, b: u32)
    ensures
        a & b == b & a,
        (a & 1 != 0) == bit(a, 0),
        a & 0xf == a % 0x10,
        a & 0x1f == a % 0x20,
        a & 0x7f == a % 0x80,
        a & 3 == a % 4,
        a & 7 == a % 8,
        1u32 << 0 == 1u32,
{
    word_facts(a, b, 0, 0, 0, 0, 0, 0);
}

/// The fields of a Thumb modified immediate, and what its patterns make of a
/// byte.
pub proof fn thumb_immediate_fields(imm12: u32)
    requires
        imm12 < 0x1000,
    ensures
        (imm12 & 0x0c00 == 0) == (imm12 / 0x100 < 4),
        imm12 & 0x0c00 == 0 ==> (imm12 >> 8) & 0x3 == imm12 / 0x100,
        imm12 & 0xff == imm12 % 0x100,
        0x80 | (imm12 & 0x7f) == 0x80 + imm12 % 0x80,
        (imm12 >> 7) & 0x1f == imm12 / 0x80,
        ({
            let b = imm12 & 0xff;
            &&& (b << 16) | b == b * 0x1_0001
            &&& (b << 24) | (b << 8) == b * 0x100_0100
            &&& (b << 24) | (b << 16) | (b << 8) | b == b * 0x101_0101
        }),
{
    word_facts(0, 0, 0, 0, 0, 0, imm12, 0);
}

/// Bytes and halfwords extended by their signs.
pub proof fn small_extensions(v: u32)
    ensures
        sext(v & 0xff, 8) == if v % 0x100 < 0x80 {
            (v % 0x100) as int
        } else {
            v % 0x100 - 0x100
        },
        sext(v & 0xffff, 16) == if v % 0x1_0000 < 0x8000 {
            (v % 0x1_0000) as int
        } else {
            v % 0x1_0000 - 0x1_0000
        },
{
    word_facts(v, 0, 0, 0, 0, 0, 0, 0);
}

pub broadcast group group_masks {
    and_le_u32,
    and_le_u16,
    and_le_u64,
}

/// Bit `n` of `x`.
pub open spec fn bit(x: u32, n: u32) -> bool {
    x & (1u32 << n) != 0
}

/// The four-bit field of an instruction word at bit `k`, as a register number.
pub open spec fn f4(instr: u32, k: u32) -> usize {
    ((instr >> k) & 0xf) as usize
}

/// Reads a four-bit field.
pub fn field4(instr: u32, k: u32) -> (r: usize)
    requires
        k < 32,
    ensures
        r == f4(instr, k),
        r < 16,
{
    broadcast use group_masks;

    ((instr >> k) & 0xf) as usize
}

/// Reads one bit.
pub fn bit_at(x: u32, n: u32) -> (r: bool)
    requires
        n < 32,
    ensures
        r == bit(x, n),
{
    x & (1u32 << n) != 0
}

/// The three-bit field of a Thumb halfword at bit `k`, as a register number.
pub open spec fn t3(instr: u16, k: u16) -> usize {
    ((instr >> k) & 7) as usize
}

/// Reads a three-bit field.
pub fn field3(instr: u16, k: u16) -> (r: usize)
    requires
        k < 16,
    ensures
        r == t3(instr, k),
        r < 8,
{
    broadcast use group_masks;

    ((instr >> k) & 7) as usize
}

/// The four-bit field of a Thumb halfword at bit `k`, as a register number.
pub open spec fn t4(instr: u16, k: u16) -> usize {
    ((instr >> k) & 0xf) as usize
}

/// Reads a four-bit field of a halfword.
pub fn field4h(instr: u16, k: u16) -> (r: usize)
    requires
        k < 16,
    ensures
        r == t4(instr, k),
        r < 16,
{
    broadcast use group_masks;

    ((instr >> k) & 0xf) as usize
}

/// Bit `n` of a halfword.
pub open spec fn bith(x: u16, n: u16) -> bool {
    x & (1u16 << n) != 0
}

/// Reads one bit of a halfword.
pub fn bith_at(x: u16, n: u16) -> (r: bool)
    requires
        n < 16,
    ensures
        r == bith(x, n),
{
    x & (1u16 << n) != 0
}

/// `x` rotated right by `n` places.
pub open spec fn ror32(x: u32, n: u32) -> u32 {
    if n % 32 == 0 {
        x
    } else {
        (x >> (n % 32)) | (x << ((32 - n % 32) as u32))
    }
}

/// Rotates a word right.
pub fn rotate_right(x: u32, n: u32) -> (r: u32)
    ensures
        r == ror32(x, n),
{
    let k = n % 32;
    if k == 0 {
        x
    } else {
        (x >> k) | (x << (32 - k))
    }
}

/// `x` with its four bytes in the opposite order.
pub open spec fn rev32(x: u32) -> u32 {
    (x << 24) | ((x & 0xff00) << 8) | ((x >> 8) & 0xff00) | (x >> 24)
}

/// Reverses the bytes of a word.
pub fn swap_bytes(x: u32) -> (r: u32)
    ensures
        r == rev32(x),
{
    (x << 24) | ((x & 0xff00) << 8) | ((x >> 8) & 0xff00) | (x >> 24)
}

/// Reversing the bytes of a word twice gives the word back.
pub proof fn rev32_involutive(x: u32)
    ensures
        rev32(rev32(x)) == x,
{
    word_facts(x, 0, 0, 0, 0, 0, 0, 0);
}

/// How many of the lowest `n` bits of `x` are set.
pub open spec fn ones_below(x: u32, n: nat) -> nat
    decreases n,
{
    if n == 0 {
        0
    } else {
        ones_below(x, (n - 1) as nat) + if bit(x, (n - 1) as u32) {
            1nat
        } else {
            0
        }
    }
}

/// Counts the set bits among the lowest `n` bits.
pub fn count_ones(x: u32, n: u32) -> (r: u32)
    requires
        n <= 32,
    ensures
        r == ones_below(x, n as nat),
        r <= n,
{
    let mut i: u32 = 0;
    let mut r: u32 = 0;
    while i < n
        invariant
            i <= n <= 32,
            r == ones_below(x, i as nat),
            r <= i,
        decreases n - i,
    {
        if x & (1u32 << i) != 0 {
            r += 1;
        }
        i += 1;
    }
    r
}

/// A set bit below `n` is counted.
pub proof fn ones_below_positive(x: u32, n: nat, k: u32)
    requires
        k < n <= 32,
        bit(x, k),
    ensures
        ones_below(x, n) > 0,
    decreases n,
{
    if k + 1 < n {
        ones_below_positive(x, (n - 1) as nat, k);
    }
}

/// The lowest `width` bits set.
pub open spec fn low_mask(width: u32) -> u32 {
    if width >= 32 {
        0xffff_ffff
    } else {
        ((1u32 << width) - 1) as u32
    }
}

/// Builds a mask of the lowest `width` bits.
pub fn mask_of(width: u32) -> (r: u32)
    ensures
        r == low_mask(width),
{
    if width >= 32 {
        0xffff_ffff
    } else {
        proof {
            word_facts(0, 0, 0, 0, 0, 0, 0, width);
        }
        (1u32 << width) - 1
    }
}

/// The `bits` lowest bits of `value`, read as a two's complement number.
pub open spec fn sext(value: u32, bits: u32) -> i32 {
    ((value << ((32 - bits) as u32)) as i32) >> ((32 - bits) as u32)
}

/// Sign-extends the lowest `bits` bits.
pub fn sign_extend(value: u32, bits: u32) -> (r: i32)
    requires
        1 <= bits <= 32,
    ensures
        r == sext(value, bits),
{
    let shift = 32 - bits;
    ((value << shift) as i32) >> shift
}

/// Sign extension in numbers: the low bits stand for themselves, except that
/// the top one of them counts negatively.
pub proof fn sext_value(value: u32, bits: u32)
    requires
        1 <= bits < 32,
        value < 1u32 << bits,
    ensures
        sext(value, bits) == if bit(value, (bits - 1) as u32) {
            value - (1u32 << bits)
        } else {
            value as int
        },
{
    assert(((value << ((32 - bits) as u32)) as i32) >> ((32 - bits) as u32) == if value & (1u32 << (
    bits - 1) as u32) != 0 {
        value - (1u32 << bits)
    } else {
        value as int
    }) by (bit_vector)
        requires
            1 <= bits < 32,
            value < 1u32 << bits,
    ;
}

} // verus!
