//! What the A32 multiplications compute, in numbers.

use super::a32_decode::{multiply_keys, multiply_words, runs};
use super::a32_laws::{leaves_signed, same_but_register};
use super::alu::{
    half, half_product_bounds, high_word, pair64, unsigned_product_bounds,
    word_half_product_bounds, word_product_bounds,
};
use super::arm_multiply::{accumulate_pair, arm_multiply, long_product, write_sticky};
use super::bits::{and_le_u32, bit, f4};
use super::cpu::{Cpsr, CpuState};
use super::exec::arm;
use super::memory::MemState;
use super::numbers::{low_parts, pair_of, pairs, sign_casts, signed16, signed32};
use vstd::prelude::*;

verus! {

/// One half of a word, read as a signed number.
pub open spec fn signed_half(x: u32, top: bool) -> int {
    signed16(
        if top {
            x as int / 0x1_0000
        } else {
            x as int % 0x1_0000
        },
    )
}

/// A half of a word is the signed number that it holds.
pub proof fn halves(x: u32, top: bool)
    ensures
        half(x, top) == signed_half(x, top),
        -0x8000 <= signed_half(x, top) <= 0x7fff,
{
    low_parts(x, 0, 0);
    low_parts(x >> 16, 0, 0);
    sign_casts(0, x as u16, 0, 0, 0, 0);
    sign_casts(0, (x >> 16) as u16, 0, 0, 0, 0);
}

/// A doubleword is the pair of its words.
pub proof fn split(v: u64)
    ensures
        pair_of((v >> 32) as u32, v as u32) == v,
{
    low_parts(0, v, 0);
    low_parts(0, v >> 32, 0);
}

/// The number modulo 2^64 that a pair of registers holds after an accumulation.
pub proof fn accumulated(s: CpuState, lo: usize, hi: usize, v: int)
    requires
        s.wf(),
        lo < 16,
        hi < 16,
        lo != hi,
        -0x8000_0000_0000_0000 <= v <= 0x7fff_ffff_ffff_ffff,
    ensures
        ({
            let t = accumulate_pair(s, lo, hi, v);
            &&& pair_of(t.r(hi), t.r(lo)) == (pair_of(s.r(hi), s.r(lo)) + v)
                % 0x1_0000_0000_0000_0000
            &&& forall|i: usize| i < 16 && i != lo && i != hi ==> #[trigger] t.r(i) == s.r(i)
            &&& t == (CpuState { regs: t.regs, ..s })
        }),
{
    let acc = pair64(s.r(hi), s.r(lo));
    let sum = (acc as i64).wrapping_add(v as i64);
    pairs(s.r(hi), s.r(lo), sum);
    sign_casts(0, 0, 0, acc, 0, sum);
}

/// The low word of a number that was written with the sticky flag.
pub proof fn written_sticky(s: CpuState, rd: usize, v: int)
    requires
        s.wf(),
        rd < 15,
        -0x8000_0000_0000_0000 <= v <= 0x7fff_ffff_ffff_ffff,
    ensures
        ({
            let t = write_sticky(s, rd, v);
            &&& t.r(rd) == v % 0x1_0000_0000
            &&& t.cpsr == (Cpsr { q: s.cpsr.q || leaves_signed(v), ..s.cpsr })
            &&& same_but_register(s, t, rd)
        }),
{
    sign_casts(0, 0, 0, 0, 0, v as i64);
    low_parts(0, (v as i64) as u64, 0);
}

/// Whether two states differ at most in two core registers and the flags.
pub open spec fn same_but_pair(s: CpuState, t: CpuState, lo: usize, hi: usize) -> bool {
    &&& t == (CpuState { regs: t.regs, cpsr: t.cpsr, ..s })
    &&& forall|i: usize| i < 16 && i != lo && i != hi ==> #[trigger] t.r(i) == s.r(i)
}

/// MUL leaves the product of its operands modulo 2^32, MLA the product plus the
/// third register. With the S bit the negative and zero flags are those of the
/// result.
pub proof fn multiply(s: CpuState, m: MemState, instr: u32, pc: u32)
    requires
        s.wf(),
        runs(s, instr),
        instr & 0x0fc0_00f0 == 0x0000_0090,
        arm(s, m, instr, pc).2 is Ok,
    ensures
        ({
            let rd = f4(instr, 16);
            let added = if bit(instr, 21) {
                s.r(f4(instr, 12)) as int
            } else {
                0
            };
            let (t, m1, _) = arm(s, m, instr, pc);
            &&& m1 == m
            &&& t.r(rd) == (s.r(f4(instr, 0)) * s.r(f4(instr, 8)) + added) % 0x1_0000_0000
            &&& same_but_register(s, t, rd)
            &&& t.cpsr == if bit(instr, 20) {
                Cpsr { n: t.r(rd) >= 0x8000_0000, z: t.r(rd) == 0, ..s.cpsr }
            } else {
                s.cpsr
            }
        }),
{
    multiply_keys(instr);
    reveal(arm_multiply);
    multiply_words(s, m, instr, pc);
    and_le_u32(instr >> 16, 0xf);
    let product = s.r(f4(instr, 0)).wrapping_mul(s.r(f4(instr, 8)));
    let exact = s.r(f4(instr, 0)) * s.r(f4(instr, 8));
    let added = s.r(f4(instr, 12)) as int;
    assert((exact % 0x1_0000_0000 + added) % 0x1_0000_0000 == (exact + added) % 0x1_0000_0000);
    low_parts(product, 0, 0);
    low_parts(product.wrapping_add(s.r(f4(instr, 12))), 0, 0);
}

/// UMULL and SMULL leave the whole product of their operands in two registers,
/// without or with their signs; UMLAL and SMLAL add it to what the registers
/// held. The S bit sets the negative and zero flags of the doubleword.
pub proof fn multiply_long(s: CpuState, m: MemState, instr: u32, pc: u32)
    requires
        s.wf(),
        runs(s, instr),
        instr & 0x0f80_00f0 == 0x0080_0090,
        arm(s, m, instr, pc).2 is Ok,
    ensures
        ({
            let (hi, lo) = (f4(instr, 16), f4(instr, 12));
            let (a, b) = (s.r(f4(instr, 0)), s.r(f4(instr, 8)));
            let product = if bit(instr, 22) {
                signed32(a) * signed32(b)
            } else {
                a * b
            };
            let added = if bit(instr, 21) {
                pair_of(s.r(hi), s.r(lo))
            } else {
                0
            };
            let (t, m1, _) = arm(s, m, instr, pc);
            let v = pair_of(t.r(hi), t.r(lo));
            &&& m1 == m
            &&& v == (product + added) % 0x1_0000_0000_0000_0000
            &&& same_but_pair(s, t, lo, hi)
            &&& t.cpsr == if bit(instr, 20) {
                Cpsr { n: v >= 0x8000_0000_0000_0000, z: v == 0, ..s.cpsr }
            } else {
                s.cpsr
            }
        }),
{
    multiply_keys(instr);
    reveal(arm_multiply);
    multiply_words(s, m, instr, pc);
    and_le_u32(instr >> 16, 0xf);
    and_le_u32(instr >> 12, 0xf);
    let (hi, lo) = (f4(instr, 16), f4(instr, 12));
    let (a, b) = (s.r(f4(instr, 0)), s.r(f4(instr, 8)));
    sign_casts(0, 0, a, 0, 0, 0);
    sign_casts(0, 0, b, 0, 0, 0);
    word_product_bounds(a as i32, b as i32);
    unsigned_product_bounds(a, b);
    let p = long_product(a, b, bit(instr, 22));
    let exact = if bit(instr, 22) {
        signed32(a) * signed32(b)
    } else {
        a * b
    };
    sign_casts(0, 0, 0, 0, 0, exact as i64);
    assert(p == exact % 0x1_0000_0000_0000_0000);
    let acc = if bit(instr, 21) {
        pair64(s.r(hi), s.r(lo))
    } else {
        0
    };
    pairs(s.r(hi), s.r(lo), 0);
    let v = p.wrapping_add(acc);
    assert(v == (exact + acc) % 0x1_0000_0000_0000_0000);
    split(v);
    top_of_doubleword(v);
}

proof fn top_of_doubleword(v: u64)
    ensures
        (v & (1u64 << 63) != 0) == (v >= 0x8000_0000_0000_0000),
{
    super::numbers::doubleword_top(v);
}

/// UMAAL leaves the product plus both destination registers.
pub proof fn multiply_accumulate_accumulate(s: CpuState, m: MemState, instr: u32, pc: u32)
    requires
        s.wf(),
        runs(s, instr),
        instr & 0x0ff0_00f0 == 0x0040_0090,
        arm(s, m, instr, pc).2 is Ok,
    ensures
        ({
            let (hi, lo) = (f4(instr, 16), f4(instr, 12));
            let (t, m1, _) = arm(s, m, instr, pc);
            &&& m1 == m
            &&& pair_of(t.r(hi), t.r(lo)) == s.r(f4(instr, 0)) * s.r(f4(instr, 8)) + s.r(hi) + s.r(
                lo,
            )
            &&& same_but_pair(s, t, lo, hi)
            &&& t.cpsr == s.cpsr
        }),
{
    multiply_keys(instr);
    reveal(arm_multiply);
    multiply_words(s, m, instr, pc);
    and_le_u32(instr >> 16, 0xf);
    and_le_u32(instr >> 12, 0xf);
    let (a, b) = (s.r(f4(instr, 0)), s.r(f4(instr, 8)));
    unsigned_product_bounds(a, b);
    split((a * b + s.r(f4(instr, 16)) + s.r(f4(instr, 12))) as u64);
}

/// SMLAxy, SMLAWy and SMULWy, SMULxy and SMLALxy: products of signed halves, or
/// of a word and a half.
#[verifier::rlimit(60)]
pub proof fn multiply_halves(s: CpuState, m: MemState, instr: u32, pc: u32)
    requires
        s.wf(),
        runs(s, instr),
        instr & 0x0f90_0090 == 0x0100_0080,
        arm(s, m, instr, pc).2 is Ok,
    ensures
        ({
            let (rd, rn) = (f4(instr, 16), f4(instr, 12));
            let w = s.r(f4(instr, 0));
            let x = signed_half(w, bit(instr, 5));
            let y = signed_half(s.r(f4(instr, 8)), bit(instr, 6));
            let kind = (instr >> 21) & 3;
            let (t, m1, _) = arm(s, m, instr, pc);
            &&& m1 == m
            &&& kind == 0 ==> {
                &&& t.r(rd) == (x * y + signed32(s.r(rn))) % 0x1_0000_0000
                &&& t.cpsr == (Cpsr {
                    q: s.cpsr.q || leaves_signed(x * y + signed32(s.r(rn))),
                    ..s.cpsr
                })
                &&& same_but_register(s, t, rd)
            }
            &&& kind == 1 && !bit(instr, 5) ==> {
                let v = (signed32(w) * y) / 0x1_0000 + signed32(s.r(rn));
                &&& t.r(rd) == v % 0x1_0000_0000
                &&& t.cpsr == (Cpsr { q: s.cpsr.q || leaves_signed(v), ..s.cpsr })
                &&& same_but_register(s, t, rd)
            }
            &&& kind == 1 && bit(instr, 5) ==> {
                &&& t.r(rd) == ((signed32(w) * y) / 0x1_0000) % 0x1_0000_0000
                &&& t.cpsr == s.cpsr
                &&& same_but_register(s, t, rd)
            }
            &&& kind == 2 ==> {
                &&& pair_of(t.r(rd), t.r(rn)) == (pair_of(s.r(rd), s.r(rn)) + x * y)
                    % 0x1_0000_0000_0000_0000
                &&& t.cpsr == s.cpsr
                &&& same_but_pair(s, t, rn, rd)
            }
            &&& kind == 3 ==> {
                &&& t.r(rd) == (x * y) % 0x1_0000_0000
                &&& t.cpsr == s.cpsr
                &&& same_but_register(s, t, rd)
            }
        }),
{
    multiply_keys(instr);
    multiply_keys(instr);
    reveal(arm_multiply);
    and_le_u32(instr >> 16, 0xf);
    and_le_u32(instr >> 12, 0xf);
    let (rd, rn) = (f4(instr, 16), f4(instr, 12));
    let w = s.r(f4(instr, 0));
    let v = s.r(f4(instr, 8));
    let x = signed_half(w, bit(instr, 5));
    let y = signed_half(v, bit(instr, 6));
    halves(w, bit(instr, 5));
    halves(v, bit(instr, 6));
    half_product_bounds(half(w, bit(instr, 5)), half(v, bit(instr, 6)));
    word_half_product_bounds(w as i32, half(v, bit(instr, 6)));
    sign_casts(0, 0, w, 0, 0, 0);
    sign_casts(0, 0, s.r(rn), 0, 0, 0);
    let wide = (signed32(w) * y) as i64;
    super::numbers::shifted_right_16(wide);
    let z = (wide as int) / 0x1_0000;
    sign_casts(0, 0, 0, 0, (x * y) as i32, 0);
    sign_casts(0, 0, 0, 0, z as i32, 0);
    let kind = (instr >> 21) & 3;
    multiply_words(s, m, instr, pc);
    if kind == 0 {
        if rd != 15 {
            written_sticky(s, rd, x * y + signed32(s.r(rn)));
        }
    } else if kind == 1 {
        if rd != 15 && !bit(instr, 5) {
            written_sticky(s, rd, z + signed32(s.r(rn)));
        }
    } else if kind == 2 {
        if rn != rd {
            accumulated(s, rn, rd, x * y);
        }
    }
}

/// SMLAD and SMLSD add or subtract the products of the low and of the high
/// halves, the halves of the second operand swapped on request; SMLALD and
/// SMLSLD do so to a doubleword.
pub proof fn multiply_dual(s: CpuState, m: MemState, instr: u32, pc: u32)
    requires
        s.wf(),
        runs(s, instr),
        instr & 0x0fb0_0090 == 0x0700_0010,
        arm(s, m, instr, pc).2 is Ok,
    ensures
        ({
            let (rd, ra) = (f4(instr, 16), f4(instr, 12));
            let (a, b) = (s.r(f4(instr, 0)), s.r(f4(instr, 8)));
            let swap = bit(instr, 5);
            let lo = signed_half(a, false) * signed_half(b, swap);
            let hi = signed_half(a, true) * signed_half(b, !swap);
            let v = if bit(instr, 6) {
                lo - hi
            } else {
                lo + hi
            };
            let sum = if ra == 15 {
                v
            } else {
                v + signed32(s.r(ra))
            };
            let (t, m1, _) = arm(s, m, instr, pc);
            &&& m1 == m
            &&& !bit(instr, 22) ==> {
                &&& t.r(rd) == sum % 0x1_0000_0000
                &&& t.cpsr == (Cpsr { q: s.cpsr.q || leaves_signed(sum), ..s.cpsr })
                &&& same_but_register(s, t, rd)
            }
            &&& bit(instr, 22) ==> {
                &&& pair_of(t.r(rd), t.r(ra)) == (pair_of(s.r(rd), s.r(ra)) + v)
                    % 0x1_0000_0000_0000_0000
                &&& t.cpsr == s.cpsr
                &&& same_but_pair(s, t, ra, rd)
            }
        }),
{
    multiply_keys(instr);
    multiply_keys(instr);
    reveal(arm_multiply);
    and_le_u32(instr >> 16, 0xf);
    and_le_u32(instr >> 12, 0xf);
    let (rd, ra) = (f4(instr, 16), f4(instr, 12));
    let (a, b) = (s.r(f4(instr, 0)), s.r(f4(instr, 8)));
    let swap = bit(instr, 5);
    halves(a, false);
    halves(a, true);
    halves(b, swap);
    halves(b, !swap);
    half_product_bounds(half(a, false), half(b, swap));
    half_product_bounds(half(a, true), half(b, !swap));
    sign_casts(0, 0, s.r(ra), 0, 0, 0);
    let lo = signed_half(a, false) * signed_half(b, swap);
    let hi = signed_half(a, true) * signed_half(b, !swap);
    let v = if bit(instr, 6) {
        lo - hi
    } else {
        lo + hi
    };
    multiply_words(s, m, instr, pc);
    if rd != 15 {
        written_sticky(s, rd, v);
        if ra != 15 {
            written_sticky(s, rd, v + signed32(s.r(ra)));
            if ra != rd {
                accumulated(s, ra, rd, v);
            }
        }
    }
}

/// SMMUL, SMMLA and SMMLS leave the high word of a signed product, of its sum
/// with a third register in the high word, or of the difference, rounded to
/// nearest on request. Sums leave out what exceeds 64 bits.
pub proof fn multiply_high(s: CpuState, m: MemState, instr: u32, pc: u32)
    requires
        s.wf(),
        runs(s, instr),
        instr & 0x0ff0_00d0 == 0x0750_0010 || instr & 0x0ff0_00d0 == 0x0750_00d0,
        arm(s, m, instr, pc).2 is Ok,
    ensures
        ({
            let (rd, ra) = (f4(instr, 16), f4(instr, 12));
            let product = signed32(s.r(f4(instr, 0))) * signed32(s.r(f4(instr, 8)));
            let high = s.r(ra) * 0x1_0000_0000;
            let v = if ra == 15 {
                product
            } else if instr & 0x0ff0_00d0 == 0x0750_0010 {
                high + product
            } else {
                high - product
            };
            let round: int = if bit(instr, 5) {
                0x8000_0000
            } else {
                0
            };
            let (t, m1, _) = arm(s, m, instr, pc);
            &&& m1 == m
            &&& t.r(rd) == ((v + round) / 0x1_0000_0000) % 0x1_0000_0000
            &&& t.cpsr == s.cpsr
            &&& same_but_register(s, t, rd)
        }),
{
    multiply_keys(instr);
    reveal(arm_multiply);
    and_le_u32(instr >> 16, 0xf);
    let (rd, ra) = (f4(instr, 16), f4(instr, 12));
    let (a, b) = (s.r(f4(instr, 0)), s.r(f4(instr, 8)));
    sign_casts(0, 0, a, 0, 0, 0);
    sign_casts(0, 0, b, 0, 0, 0);
    word_product_bounds(a as i32, b as i32);
    let product = (signed32(a) * signed32(b)) as i64;
    let addend = ((s.r(ra) as u64) << 32) as i64;
    pairs(s.r(ra), 0, 0);
    super::numbers::doubleword_top((s.r(ra) as u64) << 32);
    sign_casts(0, 0, 0, (s.r(ra) as u64) << 32, 0, 0);
    high_words(product as int, product, bit(instr, 5));
    high_words(s.r(ra) * 0x1_0000_0000 + product, addend.wrapping_add(product), bit(instr, 5));
    high_words(s.r(ra) * 0x1_0000_0000 - product, addend.wrapping_sub(product), bit(instr, 5));
    multiply_words(s, m, instr, pc);
}

/// The high word of a number that a signed doubleword holds modulo 2^64.
pub proof fn high_words(v: int, held: i64, round: bool)
    requires
        (v - held) % 0x1_0000_0000_0000_0000 == 0,
    ensures
        high_word(held, round) == ((v + if round {
            0x8000_0000int
        } else {
            0int
        }) / 0x1_0000_0000) % 0x1_0000_0000,
{
    let r: int = if round {
        0x8000_0000
    } else {
        0
    };
    let x = if round {
        held.wrapping_add(0x8000_0000)
    } else {
        held
    };
    sign_casts(0, 0, 0, 0, 0, x);
    pairs(0, 0, x);
    low_parts(0, x as u64, 0);
    low_parts(0, (x as u64) >> 32, 0);
    let u = (x as u64) as int;
    assert((v + r - u) % 0x1_0000_0000_0000_0000 == 0);
    let k = (v + r - u) / 0x1_0000_0000_0000_0000;
    assert(v + r == u + k * 0x1_0000_0000_0000_0000);
    assert((v + r) / 0x1_0000_0000 == u / 0x1_0000_0000 + k * 0x1_0000_0000);
}

} // verus!
