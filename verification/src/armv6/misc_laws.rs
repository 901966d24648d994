//! What the A32 moves of halves, bit fields, reversals, swaps and status accesses
//! do.

use super::a32_laws::same_but_register;
use super::arm_misc::{arm_fields, arm_swap, arm_unary, is_unary};
use super::bits::{bit, f4, low_mask};
use super::cpu::{Cpsr, CpuState};
use super::memory::MemState;
use super::numbers::{bit_by_bit, signed16};
use super::thumb_laws::reversed_low_half;
use super::transfer_laws::{claim_after, loads, memory_number, memory_takes, stores};
use super::vfp_regs::word_fields;
use super::word_parts::{byte_at, media_fields, moved_halves, of_bytes, reversed_bytes};
use vstd::prelude::*;
use vstd::std_specs::bits::axiom_u32_leading_zeros;

verus! {

/// MOVW writes sixteen bits and clears the others, MOVT replaces the high half.
pub proof fn half_moves(s: CpuState, instr: u32, pc: u32)
    requires
        s.wf(),
        instr & 0x0ff0_0000 == 0x0300_0000 || instr & 0x0ff0_0000 == 0x0340_0000,
        arm_fields(s, instr, pc).1 is Ok,
    ensures
        ({
            let rd = f4(instr, 12);
            let imm = instr as int % 0x1000 + 0x1000 * (instr as int / 0x1_0000 % 16);
            let t = arm_fields(s, instr, pc).0;
            &&& same_but_register(s, t, rd) && t.cpsr == s.cpsr
            &&& t.r(rd) == if bit(instr, 22) {
                s.r(rd) as int % 0x1_0000 + 0x1_0000 * imm
            } else {
                imm
            }
        }),
{
    word_fields(instr);
    moved_halves(instr, s.r(f4(instr, 12)));
}

/// UBFX and SBFX move a field of bits to the bottom and fill the rest with zeros or
/// with copies of its top bit.
pub proof fn extracted_bits(s: CpuState, instr: u32, pc: u32, i: u32)
    requires
        s.wf(),
        instr & 0x0fe0_0070 == 0x07a0_0050 || instr & 0x0fe0_0070 == 0x07e0_0050,
        instr & 0x0ff0_0000 != 0x0300_0000 && instr & 0x0ff0_0000 != 0x0340_0000,
        arm_fields(s, instr, pc).1 is Ok,
        i < 32,
    ensures
        ({
            let rd = f4(instr, 12);
            let v = s.r(f4(instr, 0));
            let lsb = (instr >> 7) & 0x1f;
            let top = (instr >> 16) & 0x1f;
            let t = arm_fields(s, instr, pc).0;
            &&& lsb + top < 32
            &&& same_but_register(s, t, rd) && t.cpsr == s.cpsr
            &&& bit(t.r(rd), i) == if i <= top {
                bit(v, (lsb + i) as u32)
            } else {
                instr & 0x0fe0_0070 == 0x07a0_0050 && bit(v, (lsb + top) as u32)
            }
        }),
{
    word_fields(instr);
    media_fields(instr);
    let v = s.r(f4(instr, 0));
    let lsb = (instr >> 7) & 0x1f;
    let top = (instr >> 16) & 0x1f;
    let raw = v >> lsb;
    let width = (top + 1) as u32;
    if lsb + top < 32 {
        bit_by_bit(v, 0, lsb, i, 0, 0, 0);
        bit_by_bit(v, 0, lsb, top, 0, 0, 0);
        if width < 32 {
            bit_by_bit(raw, low_mask(width), width, i, 0, 0, 0);
        } else {
            bit_by_bit(raw, low_mask(width), 0, i, 0, 0, 0);
        }
        let n = (32 - width) as u32;
        let y = raw << n;
        bit_by_bit(y, 0, n, i, 0, 0, 0);
        if i + n < 32 {
            bit_by_bit(raw, 0, n, (i + n) as u32, 0, 0, 0);
        } else {
            bit_by_bit(raw, 0, n, 31, 0, 0, 0);
        }
    }
}

/// CLZ counts the zeros above the highest set bit; REV, REV16 and REVSH turn bytes
/// round.
pub proof fn unary_operations(s: CpuState, instr: u32, pc: u32)
    requires
        s.wf(),
        is_unary(instr),
        arm_unary(s, instr, pc).1 is Ok,
    ensures
        ({
            let rd = f4(instr, 12);
            let v = s.r(f4(instr, 0));
            let key = instr & 0x0fff_0ff0;
            let t = arm_unary(s, instr, pc).0;
            let r = t.r(rd);
            &&& same_but_register(s, t, rd) && t.cpsr == s.cpsr
            &&& key == 0x016f_0f10 ==> r <= 32 && (r == 32 <==> v == 0) && (r < 32 ==> (v >> ((31
                - r) as u32)) == 1)
            &&& key == 0x06bf_0f30 ==> r == of_bytes(
                byte_at(v, 3),
                byte_at(v, 2),
                byte_at(v, 1),
                byte_at(v, 0),
            )
            &&& key == 0x06bf_0fb0 ==> r == of_bytes(
                byte_at(v, 1),
                byte_at(v, 0),
                byte_at(v, 3),
                byte_at(v, 2),
            )
            &&& key == 0x06ff_0fb0 ==> r == signed16(byte_at(v, 1) + 0x100 * byte_at(v, 0))
                % 0x1_0000_0000
        }),
{
    word_fields(instr);
    let v = s.r(f4(instr, 0));
    reversed_bytes(v);
    reversed_low_half(v);
    axiom_u32_leading_zeros(v);
    super::word_parts::single_bit_left(v, v.leading_zeros());
}

/// SWP and SWPB load what is in memory and store the other register in its place.
pub proof fn swaps(s: CpuState, m: MemState, instr: u32, pc: u32)
    requires
        s.wf(),
        arm_swap(s, m, instr, pc).2 is Ok,
    ensures
        ({
            let (rn, rd, rm) = (f4(instr, 16), f4(instr, 12), f4(instr, 0));
            let n: int = if instr & 0x0ff0_0ff0 == 0x0140_0090 {
                1
            } else {
                4
            };
            let (t, m1, _) = arm_swap(s, m, instr, pc);
            &&& t.r(rd) == memory_number(m, s.r(rn), n)
            &&& memory_takes(m, m1, s.r(rn), s.r(rm) as int, n)
            &&& claim_after(s, t, s.r(rn), n)
            &&& t == (CpuState { regs: t.regs, reservation: t.reservation, ..s })
            &&& forall|i: usize| i < 16 && i != rd ==> #[trigger] t.r(i) == s.r(i)
        }),
{
    word_fields(instr);
    let addr = s.r(f4(instr, 16));
    loads(m, addr);
    stores(m, addr, s.r(f4(instr, 0)));
}

/// MRS reads the status register as a word with each flag at its place, and a write
/// of the flags and GE fields of such a word gives it back.
pub proof fn status_words(c: Cpsr)
    requires
        c.ge < 16,
    ensures
        bit(c.word(), 31) == c.n,
        bit(c.word(), 30) == c.z,
        bit(c.word(), 29) == c.c,
        bit(c.word(), 28) == c.v,
        bit(c.word(), 27) == c.q,
        bit(c.word(), 5) == c.t,
        c.word() / 0x1_0000 % 16 == c.ge,
        Cpsr::of_word(c.word()) == c,
{
    super::word_parts::status_bits(c.n, c.z, c.c, c.v, c.q, c.t, c.ge);
}

} // verus!
