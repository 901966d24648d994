//! What the A32 data-processing, branch and multiply instructions compute, in
//! numbers and bit by bit.

use super::a32_decode::{data_words, is_data, runs};
use super::alu::{sum3, Shifted};
use super::arm_data::{arm_alu, operand2};
use super::bits::{and_le_u32, bit, f4};
use super::cpu::{Cpsr, CpuState};
use super::exec::arm;
use super::memory::MemState;
use super::numbers::{bit_by_bit, low_parts, sign_casts, signed32};
use vstd::prelude::*;

verus! {

/// The data-processing operation of a word.
pub open spec fn opcode_of(instr: u32) -> u32 {
    (instr >> 21) & 0xf
}

/// The carry as a number.
pub open spec fn one_if(b: bool) -> int {
    if b {
        1
    } else {
        0
    }
}

/// Whether a number lies outside the signed words.
pub open spec fn leaves_signed(v: int) -> bool {
    v < -0x8000_0000 || v > 0x7fff_ffff
}

/// Whether `r` is what an arithmetic opcode gives for two operands and a carry:
/// the sum or difference modulo 2^32.
pub open spec fn is_arithmetic_result(opcode: u32, a: u32, b: u32, c: bool, r: u32) -> bool {
    &&& (opcode == 4 || opcode == 11) ==> r == (a + b) % 0x1_0000_0000
    &&& opcode == 5 ==> r == (a + b + one_if(c)) % 0x1_0000_0000
    &&& (opcode == 2 || opcode == 10) ==> r == (a - b) % 0x1_0000_0000
    &&& opcode == 6 ==> r == (a - b - one_if(!c)) % 0x1_0000_0000
    &&& opcode == 3 ==> r == (b - a) % 0x1_0000_0000
    &&& opcode == 7 ==> r == (b - a - one_if(!c)) % 0x1_0000_0000
}

/// Whether `r` is what a bitwise opcode gives, bit by bit.
pub open spec fn is_bitwise_result(opcode: u32, a: u32, b: u32, r: u32) -> bool {
    forall|i: u32|
        i < 32 ==> {
            &&& (opcode == 0 || opcode == 8) ==> (#[trigger] bit(r, i) <==> bit(a, i) && bit(b, i))
            &&& (opcode == 1 || opcode == 9) ==> (bit(r, i) <==> bit(a, i) != bit(b, i))
            &&& opcode == 12 ==> (bit(r, i) <==> bit(a, i) || bit(b, i))
            &&& opcode == 13 ==> (bit(r, i) <==> bit(b, i))
            &&& opcode == 14 ==> (bit(r, i) <==> bit(a, i) && !bit(b, i))
            &&& opcode == 15 ==> (bit(r, i) <==> !bit(b, i))
        }
}

/// Whether carry and overflow are what an arithmetic opcode gives: a carry out
/// of an addition, no borrow in a subtraction, and a signed result that leaves
/// the range.
pub open spec fn are_arithmetic_flags(
    opcode: u32,
    a: u32,
    b: u32,
    c: bool,
    carry: bool,
    overflow: bool,
) -> bool {
    &&& (opcode == 4 || opcode == 11) ==> carry == (a + b >= 0x1_0000_0000) && overflow
        == leaves_signed(signed32(a) + signed32(b))
    &&& opcode == 5 ==> carry == (a + b + one_if(c) >= 0x1_0000_0000) && overflow == leaves_signed(
        signed32(a) + signed32(b) + one_if(c),
    )
    &&& (opcode == 2 || opcode == 10) ==> carry == (a >= b) && overflow == leaves_signed(
        signed32(a) - signed32(b),
    )
    &&& opcode == 6 ==> carry == (a >= b + one_if(!c)) && overflow == leaves_signed(
        signed32(a) - signed32(b) - one_if(!c),
    )
    &&& opcode == 3 ==> carry == (b >= a) && overflow == leaves_signed(signed32(b) - signed32(a))
    &&& opcode == 7 ==> carry == (b >= a + one_if(!c)) && overflow == leaves_signed(
        signed32(b) - signed32(a) - one_if(!c),
    )
}

/// Whether an opcode adds or subtracts.
pub open spec fn is_arithmetic(opcode: u32) -> bool {
    2 <= opcode <= 7 || opcode == 10 || opcode == 11
}

proof fn complement_in_numbers(x: u32)
    ensures
        !x == 0xffff_ffff - x,
        signed32(!x) == -1 - signed32(x),
{
    low_parts(x, 0, 0);
}

/// A sum with a carry: its low word, its carry and its overflow.
pub proof fn sums(a: u32, b: u32, c: bool)
    ensures
        sum3(a, b, c).0 == (a + b + one_if(c)) % 0x1_0000_0000,
        sum3(a, b, c).1 == (a + b + one_if(c) >= 0x1_0000_0000),
        sum3(a, b, c).2 == leaves_signed(signed32(a) + signed32(b) + one_if(c)),
{
    sign_casts(0, 0, a, 0, 0, 0);
    sign_casts(0, 0, b, 0, 0, 0);
}

/// A sum with a complement is a difference: its low word, whether there was no
/// borrow, and its overflow.
pub proof fn differences(a: u32, b: u32, c: bool)
    ensures
        sum3(a, !b, c).0 == (a - b - one_if(!c)) % 0x1_0000_0000,
        sum3(a, !b, c).1 == (a >= b + one_if(!c)),
        sum3(a, !b, c).2 == leaves_signed(signed32(a) - signed32(b) - one_if(!c)),
{
    complement_in_numbers(b);
    sums(a, !b, c);
}

proof fn bitwise_meaning(opcode: u32, a: u32, b: Shifted, c: Cpsr)
    ensures
        is_bitwise_result(opcode, a, b.value, arm_alu(opcode, a, b, c).0),
{
    let r = arm_alu(opcode, a, b, c).0;
    assert forall|i: u32| i < 32 implies {
        &&& (opcode == 0 || opcode == 8) ==> (#[trigger] bit(r, i) <==> bit(a, i) && bit(
            b.value,
            i,
        ))
        &&& (opcode == 1 || opcode == 9) ==> (bit(r, i) <==> bit(a, i) != bit(b.value, i))
        &&& opcode == 12 ==> (bit(r, i) <==> bit(a, i) || bit(b.value, i))
        &&& opcode == 13 ==> (bit(r, i) <==> bit(b.value, i))
        &&& opcode == 14 ==> (bit(r, i) <==> bit(a, i) && !bit(b.value, i))
        &&& opcode == 15 ==> (bit(r, i) <==> !bit(b.value, i))
    } by {
        bit_by_bit(a, b.value, 0, i, 0, 0, 0);
        bit_by_bit(b.value, 0, 0, i, 0, 0, 0);
        bit_by_bit(a, !b.value, 0, i, 0, 0, 0);
    }
}

/// The operations of the data-processing space, in numbers and bit by bit.
pub proof fn alu_meaning(opcode: u32, a: u32, b: Shifted, c: Cpsr)
    requires
        opcode < 16,
    ensures
        is_arithmetic_result(opcode, a, b.value, c.c, arm_alu(opcode, a, b, c).0),
        is_bitwise_result(opcode, a, b.value, arm_alu(opcode, a, b, c).0),
        are_arithmetic_flags(
            opcode,
            a,
            b.value,
            c.c,
            arm_alu(opcode, a, b, c).1,
            arm_alu(opcode, a, b, c).2,
        ),
        !is_arithmetic(opcode) ==> arm_alu(opcode, a, b, c).1 == b.carry && arm_alu(
            opcode,
            a,
            b,
            c,
        ).2 == c.v,
{
    bitwise_meaning(opcode, a, b, c);
    sums(a, b.value, false);
    sums(a, b.value, c.c);
    differences(a, b.value, true);
    differences(a, b.value, c.c);
    differences(b.value, a, true);
    differences(b.value, a, c.c);
}

/// Whether two states differ at most in one core register and the flags.
pub open spec fn same_but_register(s: CpuState, t: CpuState, rd: usize) -> bool {
    &&& t == (CpuState { regs: t.regs, cpsr: t.cpsr, ..s })
    &&& t.wf()
    &&& forall|i: usize| i < 16 && i != rd ==> #[trigger] t.r(i) == s.r(i)
}

/// Whether the negative and zero flags are those of a result, and the flags
/// beside the four condition flags are as before.
pub open spec fn flags_of_result(before: Cpsr, after: Cpsr, r: u32) -> bool {
    &&& after.n == (r >= 0x8000_0000)
    &&& after.z == (r == 0)
    &&& after == (Cpsr { n: after.n, z: after.z, c: after.c, v: after.v, ..before })
}

/// Whether the flags after an operation are those of its result `r`.
pub open spec fn flags_after(
    op: u32,
    a: u32,
    b: Shifted,
    before: Cpsr,
    after: Cpsr,
    r: u32,
) -> bool {
    &&& flags_of_result(before, after, r)
    &&& are_arithmetic_flags(op, a, b.value, before.c, after.c, after.v)
    &&& !is_arithmetic(op) ==> after.c == b.carry && after.v == before.v
}

/// An A32 data-processing instruction that completes writes to its destination
/// what its operation gives for the first operand register and the second
/// operand; with the S bit it sets the flags from that result. Nothing else
/// changes.
pub proof fn data_processing(s: CpuState, m: MemState, instr: u32, pc: u32)
    requires
        s.wf(),
        runs(s, instr),
        is_data(instr),
        !(8 <= opcode_of(instr) <= 11),
        f4(instr, 12) != 15,
        arm(s, m, instr, pc).2 is Ok,
    ensures
        ({
            let op = opcode_of(instr);
            let (a, b) = (s.ra(f4(instr, 16), pc), operand2(s, instr, pc));
            let rd = f4(instr, 12);
            let (t, m1, _) = arm(s, m, instr, pc);
            &&& m1 == m
            &&& is_arithmetic_result(op, a, b.value, s.cpsr.c, t.r(rd))
            &&& is_bitwise_result(op, a, b.value, t.r(rd))
            &&& same_but_register(s, t, rd)
            &&& !bit(instr, 20) ==> t.cpsr == s.cpsr
            &&& bit(instr, 20) ==> flags_after(op, a, b, s.cpsr, t.cpsr, t.r(rd))
        }),
{
    data_words(s, m, instr, pc);
    and_le_u32(instr >> 21, 0xf);
    and_le_u32(instr >> 12, 0xf);
    let op = opcode_of(instr);
    let a = s.ra(f4(instr, 16), pc);
    let b = operand2(s, instr, pc);
    alu_meaning(op, a, b, s.cpsr);
    low_parts(arm_alu(op, a, b, s.cpsr).0, 0, 0);
}

/// A comparison writes no register: it sets the flags of the result that it
/// does not write. TST takes the bits that both operands share, TEQ those in
/// which they differ, CMP the difference and CMN the sum.
pub proof fn comparisons(s: CpuState, m: MemState, instr: u32, pc: u32, r: u32)
    requires
        s.wf(),
        runs(s, instr),
        is_data(instr),
        8 <= opcode_of(instr) <= 11,
        arm(s, m, instr, pc).2 is Ok,
        opcode_of(instr) == 8 ==> r == s.ra(f4(instr, 16), pc) & operand2(s, instr, pc).value,
        opcode_of(instr) == 9 ==> r == s.ra(f4(instr, 16), pc) ^ operand2(s, instr, pc).value,
        opcode_of(instr) == 10 ==> r == (s.ra(f4(instr, 16), pc) - operand2(s, instr, pc).value)
            % 0x1_0000_0000,
        opcode_of(instr) == 11 ==> r == (s.ra(f4(instr, 16), pc) + operand2(s, instr, pc).value)
            % 0x1_0000_0000,
    ensures
        ({
            let (t, m1, _) = arm(s, m, instr, pc);
            &&& m1 == m
            &&& t == s.with_cpsr(t.cpsr)
            &&& flags_after(
                opcode_of(instr),
                s.ra(f4(instr, 16), pc),
                operand2(s, instr, pc),
                s.cpsr,
                t.cpsr,
                r,
            )
        }),
{
    data_words(s, m, instr, pc);
    let op = opcode_of(instr);
    let a = s.ra(f4(instr, 16), pc);
    let b = operand2(s, instr, pc);
    alu_meaning(op, a, b, s.cpsr);
    low_parts(r, 0, 0);
    let t = arm(s, m, instr, pc).0;
    assert(t =~= s.with_cpsr(t.cpsr));
}

} // verus!
