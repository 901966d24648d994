//! What the vector instructions on three registers of one size leave in each
//! element.

use super::bits::bit;
use super::cpu::CpuState;
use super::laws::doublewords_read_back;
use super::neon::neon_registers;
use super::neon_arith::minmax;
use super::neon_lane::{
    any_saturated, lane_count, lane_of_pack, lane_shift, lanes, pack, per_d, put_results, values,
};
use super::neon_laws::part_of;
use super::neon_numbers::{
    apart, compared_elements, comparisons_of_elements, distant_elements, elements, folded,
    greatest, least, low_bits, modular_elements, nearest, number, span, summed_elements,
};
use super::neon_three::{int_elem, int_results, joined, logic, neon_3same_plain, pair_sum};
use super::numbers::{bit64, bit_by_bit};
use super::trap::TrapView;
use super::vfp_regs::{dd, dm, dn, register_numbers, word_fields};
use vstd::prelude::*;

verus! {

/// Whether a state differs from another in one vector, whose elements are the
/// low bits of `out`, and in the sticky flag, which is set where an element
/// saturated.
pub open spec fn leaves(s: CpuState, t: CpuState, reg: usize, q: bool, size: usize, out: Seq<
    (u64, bool),
>) -> bool {
    &&& t == (CpuState { sregs: t.sregs, cpsr: t.cpsr, ..s })
    &&& t.wf()
    &&& t.cpsr == s.sticky(exists|i: int| 0 <= i < out.len() && (#[trigger] out[i]).1).cpsr
    &&& forall|i: int|
        0 <= i < lane_count(q, size) ==> #[trigger] lanes(t, reg, q, size)[i] == out[i].0 as int
            % span(size)
    &&& forall|j: usize| j < 32 && !part_of(j, reg, q) ==> #[trigger] t.d(j) == s.d(j)
}

/// Element results are what the vector holds afterwards.
pub proof fn results_read_back(
    s: CpuState,
    reg: usize,
    q: bool,
    size: usize,
    out: Seq<(u64, bool)>,
)
    requires
        s.wf(),
        size <= 3,
        reg < 32,
        q ==> reg < 31,
        out.len() == lane_count(q, size),
    ensures
        leaves(s, put_results(s, reg, q, size, out), reg, q, size, out),
{
    let s0 = s.sticky(any_saturated(out));
    let l = values(out);
    let low = pack(l, 0, size);
    let high = pack(l, per_d(size) as int, size);
    let s1 = s0.with_d(reg, low);
    let t = put_results(s, reg, q, size, out);
    doublewords_read_back(s0, reg, reg, low);
    if q {
        doublewords_read_back(s1, (reg + 1) as usize, reg, high);
    }
    assert(t.d(reg) == low);
    assert forall|i: int| 0 <= i < lane_count(q, size) implies #[trigger] lanes(t, reg, q, size)[i]
        == out[i].0 as int % span(size) by {
        if i < per_d(size) {
            lane_of_pack(l, 0, i as usize, size);
        } else {
            lane_of_pack(l, per_d(size) as int, (i - per_d(size)) as usize, size);
        }
        elements(out[i].0, size);
    }
    assert forall|j: usize| j < 32 && !part_of(j, reg, q) implies #[trigger] t.d(j) == s.d(j) by {
        doublewords_read_back(s0, reg, j, low);
        if q {
            doublewords_read_back(s1, (reg + 1) as usize, j, high);
        }
        assert(s0.d(j) == s.d(j));
    }
}

/// Elements lie below their span.
pub proof fn lanes_in_range(s: CpuState, reg: usize, q: bool, size: usize)
    requires
        size <= 3,
    ensures
        forall|i: int|
            0 <= i < lane_count(q, size) ==> (#[trigger] lanes(s, reg, q, size)[i]) < span(size),
{
    assert forall|i: int| 0 <= i < lane_count(q, size) implies (#[trigger] lanes(
        s,
        reg,
        q,
        size,
    )[i]) < span(size) by {
        if i < per_d(size) {
            elements(s.d(reg) >> lane_shift(i as usize, size), size);
        } else {
            elements(
                s.d((reg + 1) as usize) >> lane_shift((i - per_d(size)) as usize, size),
                size,
            );
        }
    }
}

/// The element size of a word with three vector operands.
pub open spec fn size_of(instr: u32) -> usize {
    ((instr >> 20) & 3) as usize
}

/// Whether a word is an operation on three vectors of one size, and completes.
pub open spec fn three(s: CpuState, instr: u32, pc: u32, opcode: u32, u: bool, op: bool) -> bool {
    &&& s.wf()
    &&& instr & 0x0e80_0000 == 0x0200_0000
    &&& (instr >> 8) & 0xf == opcode
    &&& bit(instr, 24) == u
    &&& bit(instr, 4) == op
    &&& neon_registers(s, instr, pc).1 == Ok::<bool, TrapView>(true)
}

/// The elements of the first operand, of the second and of the destination.
pub open spec fn operands(s: CpuState, instr: u32) -> (Seq<u64>, Seq<u64>, Seq<u64>) {
    let (q, size) = (bit(instr, 6), size_of(instr));
    (
        lanes(s, dn(instr), q, size),
        lanes(s, dm(instr), q, size),
        lanes(s, dd(instr), q, size),
    )
}

/// The elements of the destination after the word.
pub open spec fn outcome(s: CpuState, instr: u32, pc: u32) -> Seq<u64> {
    lanes(neon_registers(s, instr, pc).0, dd(instr), bit(instr, 6), size_of(instr))
}

proof fn integer_results(s: CpuState, instr: u32, pc: u32, opcode: u32, u: bool, op: bool)
    requires
        three(s, instr, pc, opcode, u, op),
        opcode < 12,
        opcode != 4,
        opcode != 5,
        !(opcode == 1 && op),
    ensures
        ({
            let (q, size) = (bit(instr, 6), size_of(instr));
            let (a, b, d) = operands(s, instr);
            &&& size <= 3
            &&& leaves(
                s,
                neon_registers(s, instr, pc).0,
                dd(instr),
                q,
                size,
                int_results(s, opcode, u, op, size, q, dd(instr), dn(instr), dm(instr)),
            )
            &&& a.len() == lane_count(q, size) && b.len() == a.len() && d.len() == a.len()
            &&& forall|i: int| 0 <= i < a.len() ==> (#[trigger] a[i]) < span(size)
            &&& forall|i: int| 0 <= i < b.len() ==> (#[trigger] b[i]) < span(size)
            &&& forall|i: int| 0 <= i < d.len() ==> (#[trigger] d[i]) < span(size)
        }),
{
    register_numbers(instr);
    word_fields(instr);
    let (q, size) = (bit(instr, 6), size_of(instr));
    lanes_in_range(s, dd(instr), q, size);
    lanes_in_range(s, dn(instr), q, size);
    lanes_in_range(s, dm(instr), q, size);
    assert(neon_registers(s, instr, pc) == neon_3same_plain(s, instr, pc));
    results_read_back(
        s,
        dd(instr),
        q,
        size,
        int_results(s, opcode, u, op, size, q, dd(instr), dn(instr), dm(instr)),
    );
}

/// VADD, VSUB, VMUL, VMLA and VMLS: each element is the sum, the difference, the
/// product, or what the product added to or taken from the destination gives,
/// modulo 2 to the width of an element.
pub proof fn vector_arithmetic(s: CpuState, instr: u32, pc: u32, i: int)
    requires
        0 <= i < lane_count(bit(instr, 6), size_of(instr)),
    ensures
        ({
            let (a, b, d) = operands(s, instr);
            let r = outcome(s, instr, pc)[i];
            let n = span(size_of(instr));
            &&& three(s, instr, pc, 8, false, false) ==> r == (a[i] + b[i]) % n
            &&& three(s, instr, pc, 8, true, false) ==> r == (a[i] - b[i]) % n
            &&& three(s, instr, pc, 9, false, true) ==> r == (a[i] * b[i]) % n
            &&& three(s, instr, pc, 9, false, false) ==> r == (d[i] + a[i] * b[i]) % n
            &&& three(s, instr, pc, 9, true, false) ==> r == (d[i] - a[i] * b[i]) % n
        }),
{
    let (u, op) = (bit(instr, 24), bit(instr, 4));
    let opcode = (instr >> 8) & 0xf;
    let (q, size) = (bit(instr, 6), size_of(instr));
    if three(s, instr, pc, opcode, u, op) && ((opcode == 8 && !op) || (opcode == 9 && !(op && u))) {
        integer_results(s, instr, pc, opcode, u, op);
        let (a, b, d) = operands(s, instr);
        modular_elements(a[i], b[i], d[i], size);
        let out = int_results(s, opcode, u, op, size, q, dd(instr), dn(instr), dm(instr));
        assert(out[i] == int_elem(opcode, u, op, size, a[i], b[i], d[i]));
        elements(0, size);
        folded(out[i].0 as int, size);
        folded(a[i] + b[i], size);
        folded(a[i] - b[i], size);
        folded(a[i] * b[i], size);
        folded(d[i] + a[i] * b[i], size);
        folded(d[i] - a[i] * b[i], size);
    }
}

/// VHADD, VRHADD, VHSUB, VQADD and VQSUB, with or without signs: half the sum or
/// difference, or the element nearest to it.
pub proof fn vector_sums(s: CpuState, instr: u32, pc: u32, i: int)
    requires
        0 <= i < lane_count(bit(instr, 6), size_of(instr)),
    ensures
        ({
            let size = size_of(instr);
            let u = bit(instr, 24);
            let (a, b, _) = operands(s, instr);
            let (x, y) = (number(a[i], size, !u), number(b[i], size, !u));
            let r = outcome(s, instr, pc)[i];
            let n = span(size);
            &&& three(s, instr, pc, 0, u, false) ==> r == (x + y) / 2 % n
            &&& three(s, instr, pc, 1, u, false) ==> r == (x + y + 1) / 2 % n
            &&& three(s, instr, pc, 2, u, false) ==> r == (x - y) / 2 % n
            &&& three(s, instr, pc, 0, u, true) ==> r == nearest(x + y, size, !u) % n
            &&& three(s, instr, pc, 2, u, true) ==> r == nearest(x - y, size, !u) % n
        }),
{
    let (u, op) = (bit(instr, 24), bit(instr, 4));
    let opcode = (instr >> 8) & 0xf;
    let (q, size) = (bit(instr, 6), size_of(instr));
    if three(s, instr, pc, opcode, u, op) && (opcode == 0 || opcode == 2 || (opcode == 1 && !op)) {
        integer_results(s, instr, pc, opcode, u, op);
        let (a, b, d) = operands(s, instr);
        let (x, y) = (number(a[i], size, !u), number(b[i], size, !u));
        summed_elements(opcode, u, op, size, a[i], b[i], d[i]);
        let out = int_results(s, opcode, u, op, size, q, dd(instr), dn(instr), dm(instr));
        assert(out[i] == int_elem(opcode, u, op, size, a[i], b[i], d[i]));
        let r = outcome(s, instr, pc)[i];
        folded((x + y) / 2, size);
        folded((x + y + 1) / 2, size);
        folded((x - y) / 2, size);
        folded(
            if opcode == 0 {
                nearest(x + y, size, !u)
            } else {
                nearest(x - y, size, !u)
            },
            size,
        );
        folded(out[i].0 as int, size);
    }
}

/// Whether the sum or difference of elements `k` is no element.
pub open spec fn misses(a: Seq<u64>, b: Seq<u64>, size: usize, u: bool, sub: bool, k: int) -> bool {
    let (x, y) = (number(a[k], size, !u), number(b[k], size, !u));
    let v = if sub {
        x - y
    } else {
        x + y
    };
    v < least(size, !u) || v > greatest(size, !u)
}

/// VQADD and VQSUB set the sticky flag where the sum or difference of some
/// elements is no element.
pub proof fn vector_sums_stick(s: CpuState, instr: u32, pc: u32)
    requires
        three(s, instr, pc, 0, bit(instr, 24), true) || three(s, instr, pc, 2, bit(instr, 24), true),
    ensures
        ({
            let size = size_of(instr);
            let (a, b, _) = operands(s, instr);
            let sub = (instr >> 8) & 0xf == 2;
            neon_registers(s, instr, pc).0.cpsr == s.sticky(
                exists|k: int|
                    0 <= k < a.len() && #[trigger] misses(a, b, size, bit(instr, 24), sub, k),
            ).cpsr
        }),
{
    let u = bit(instr, 24);
    let opcode = (instr >> 8) & 0xf;
    let sub = opcode == 2;
    let (q, size) = (bit(instr, 6), size_of(instr));
    integer_results(s, instr, pc, opcode, u, true);
    let (a, b, d) = operands(s, instr);
    let out = int_results(s, opcode, u, true, size, q, dd(instr), dn(instr), dm(instr));
    assert forall|k: int| 0 <= k < out.len() implies (#[trigger] out[k]).1 == misses(
        a,
        b,
        size,
        u,
        sub,
        k,
    ) by {
        summed_elements(opcode, u, true, size, a[k], b[k], d[k]);
        assert(out[k] == int_elem(opcode, u, true, size, a[k], b[k], d[k]));
    }
    if exists|i: int| 0 <= i < out.len() && (#[trigger] out[i]).1 {
        let i = choose|i: int| 0 <= i < out.len() && (#[trigger] out[i]).1;
        assert(misses(a, b, size, u, sub, i));
    }
    if exists|k: int| 0 <= k < a.len() && #[trigger] misses(a, b, size, u, sub, k) {
        let k = choose|k: int| 0 <= k < a.len() && #[trigger] misses(a, b, size, u, sub, k);
        assert(out[k].1);
    }
}

/// VCGT, VCGE, VCEQ and VTST fill an element with ones where their test holds,
/// with or without signs, and with zeros elsewhere; VMAX and VMIN keep the
/// greater or the lesser element; VABD and VABA leave or add the distance.
pub proof fn vector_comparisons(s: CpuState, instr: u32, pc: u32, i: int)
    requires
        0 <= i < lane_count(bit(instr, 6), size_of(instr)),
    ensures
        ({
            let size = size_of(instr);
            let u = bit(instr, 24);
            let (a, b, d) = operands(s, instr);
            let (x, y) = (number(a[i], size, !u), number(b[i], size, !u));
            let r = outcome(s, instr, pc)[i];
            let n = span(size);
            &&& three(s, instr, pc, 3, u, false) ==> r == ones_where(x > y, size)
            &&& three(s, instr, pc, 3, u, true) ==> r == ones_where(x >= y, size)
            &&& three(s, instr, pc, 8, true, true) ==> r == ones_where(a[i] == b[i], size)
            &&& three(s, instr, pc, 8, false, true) ==> r == ones_where(a[i] & b[i] != 0, size)
            &&& three(s, instr, pc, 6, u, false) ==> number(r, size, !u) == if x >= y {
                x
            } else {
                y
            }
            &&& three(s, instr, pc, 6, u, true) ==> number(r, size, !u) == if x <= y {
                x
            } else {
                y
            }
            &&& three(s, instr, pc, 7, u, false) ==> r == apart(x, y)
            &&& three(s, instr, pc, 7, u, true) ==> r == (d[i] + apart(x, y)) % n
        }),
{
    let (u, op) = (bit(instr, 24), bit(instr, 4));
    let opcode = (instr >> 8) & 0xf;
    let (q, size) = (bit(instr, 6), size_of(instr));
    if three(s, instr, pc, opcode, u, op) && (opcode == 3 || opcode == 6 || opcode == 7 || (opcode
        == 8 && op)) {
        integer_results(s, instr, pc, opcode, u, op);
        let (a, b, d) = operands(s, instr);
        let out = int_results(s, opcode, u, op, size, q, dd(instr), dn(instr), dm(instr));
        assert(out[i] == int_elem(opcode, u, op, size, a[i], b[i], d[i]));
        folded(out[i].0 as int, size);
        elements(a[i], size);
        elements(b[i], size);
        if opcode == 7 {
            distant_elements(u, op, size, a[i], b[i], d[i]);
            folded(d[i] + apart(number(a[i], size, !u), number(b[i], size, !u)), size);
        } else {
            compared_elements(opcode, u, op, size, a[i], b[i], d[i]);
        }
    }
}

/// An element of ones where a condition holds, else of zeros.
pub open spec fn ones_where(c: bool, size: usize) -> int {
    if c {
        span(size) - 1
    } else {
        0
    }
}

/// Pair `i` of two vectors: the neighbours of the first make the first half of
/// the pairs, those of the second the other half.
pub open spec fn neighbours(a: Seq<u64>, b: Seq<u64>, i: int) -> (u64, u64) {
    let half = a.len() as int / 2;
    if i < half {
        (a[2 * i], a[2 * i + 1])
    } else {
        (b[2 * (i - half)], b[2 * (i - half) + 1])
    }
}

proof fn neighbours_of_lanes(a: Seq<u64>, b: Seq<u64>, i: int)
    requires
        0 <= i < a.len(),
        a.len() == b.len(),
        a.len() % 2 == 0,
    ensures
        joined(a, b, 2 * i) == neighbours(a, b, i).0,
        joined(a, b, 2 * i + 1) == neighbours(a, b, i).1,
{
}

/// VPADD adds neighbours modulo 2 to the width of an element.
pub proof fn vector_pair_sums(s: CpuState, instr: u32, pc: u32, i: int)
    requires
        three(s, instr, pc, 11, false, true),
        0 <= i < lane_count(bit(instr, 6), size_of(instr)),
        size_of(instr) < 3,
    ensures
        ({
            let (a, b, _) = operands(s, instr);
            let (v, w) = neighbours(a, b, i);
            outcome(s, instr, pc)[i] == (v + w) % span(size_of(instr))
        }),
{
    let (q, size) = (bit(instr, 6), size_of(instr));
    integer_results(s, instr, pc, 11, false, true);
    let (a, b, _) = operands(s, instr);
    let out = int_results(s, 11, false, true, size, q, dd(instr), dn(instr), dm(instr));
    let (v, w) = neighbours(a, b, i);
    neighbours_of_lanes(a, b, i);
    low_bits(v.wrapping_add(w), v + w, size);
    folded(v + w, size);
    folded(out[i].0 as int, size);
    assert(out[i].0 == pair_sum(a, b, size, i));
}

/// VPMAX and VPMIN keep the greater or the lesser of neighbours, with or without
/// signs.
pub proof fn vector_pair_bounds(s: CpuState, instr: u32, pc: u32, i: int)
    requires
        three(s, instr, pc, 10, bit(instr, 24), bit(instr, 4)),
        0 <= i < lane_count(bit(instr, 6), size_of(instr)),
    ensures
        ({
            let size = size_of(instr);
            let u = bit(instr, 24);
            let (a, b, _) = operands(s, instr);
            let (v, w) = neighbours(a, b, i);
            let (x, y) = (number(v, size, !u), number(w, size, !u));
            number(outcome(s, instr, pc)[i], size, !u) == if (x >= y) != bit(instr, 4) {
                x
            } else {
                y
            }
        }),
{
    let (u, op) = (bit(instr, 24), bit(instr, 4));
    let (q, size) = (bit(instr, 6), size_of(instr));
    integer_results(s, instr, pc, 10, u, op);
    let (a, b, _) = operands(s, instr);
    let out = int_results(s, 10, u, op, size, q, dd(instr), dn(instr), dm(instr));
    let (v, w) = neighbours(a, b, i);
    neighbours_of_lanes(a, b, i);
    elements(v, size);
    elements(w, size);
    comparisons_of_elements(v, w, size, !u);
    folded(out[i].0 as int, size);
    assert(out[i].0 == minmax(v, w, size, !u, !op));
}

/// The bitwise operations: bit `j` of each doubleword of the result.
pub open spec fn logic_bit(u: bool, size: usize, n: bool, m: bool, d: bool) -> bool {
    match (u, size) {
        (false, 0usize) => n && m,
        (false, 1usize) => n && !m,
        (false, 2usize) => n || m,
        (false, _) => n || !m,
        (true, 0usize) => n != m,
        (true, 1usize) => if d {
            n
        } else {
            m
        },
        (true, 2usize) => if m {
            n
        } else {
            d
        },
        (true, _) => if m {
            d
        } else {
            n
        },
    }
}

proof fn logic_by_bits(u: bool, size: usize, n: u64, m: u64, d: u64, j: u64)
    requires
        j < 64,
        size <= 3,
    ensures
        bit64(logic(u, size, n, m, d), j) == logic_bit(u, size, bit64(n, j), bit64(m, j), bit64(d, j)),
{
    bit_by_bit(0, 0, 0, 0, n, m, j);
    bit_by_bit(0, 0, 0, 0, m, m, j);
    bit_by_bit(0, 0, 0, 0, d, d, j);
    bit_by_bit(0, 0, 0, 0, n, !m, j);
    bit_by_bit(0, 0, 0, 0, n, d, j);
    bit_by_bit(0, 0, 0, 0, m, !d, j);
    bit_by_bit(0, 0, 0, 0, d, !m, j);
    bit_by_bit(0, 0, 0, 0, d, m, j);
    bit_by_bit(0, 0, 0, 0, n & d, m & !d, j);
    bit_by_bit(0, 0, 0, 0, n & m, d & !m, j);
    bit_by_bit(0, 0, 0, 0, d & m, n & !m, j);
}

/// VAND, VBIC, VORR, VORN and VEOR combine each bit of their operands; VBSL takes
/// a bit of the first operand where the destination has a one and of the second
/// elsewhere; VBIT and VBIF insert the bits of the first operand where the second
/// has ones or zeros.
pub proof fn vector_logic(s: CpuState, instr: u32, pc: u32, k: usize, j: u64)
    requires
        three(s, instr, pc, 1, bit(instr, 24), true),
        j < 64,
        k == 0 || (k == 1 && bit(instr, 6)),
    ensures
        ({
            let t = neon_registers(s, instr, pc).0;
            bit64(t.d((dd(instr) + k) as usize), j) == logic_bit(
                bit(instr, 24),
                size_of(instr),
                bit64(s.d((dn(instr) + k) as usize), j),
                bit64(s.d((dm(instr) + k) as usize), j),
                bit64(s.d((dd(instr) + k) as usize), j),
            )
        }),
{
    register_numbers(instr);
    word_fields(instr);
    let (u, size, q) = (bit(instr, 24), size_of(instr), bit(instr, 6));
    let (vd, vn, vm) = (dd(instr), dn(instr), dm(instr));
    assert(neon_registers(s, instr, pc) == neon_3same_plain(s, instr, pc));
    let low = logic(u, size, s.d(vn), s.d(vm), s.d(vd));
    doublewords_read_back(s, vd, vd, low);
    logic_by_bits(u, size, s.d(vn), s.d(vm), s.d(vd), j);
    if q {
        let (d1, n1, m1) = ((vd + 1) as usize, (vn + 1) as usize, (vm + 1) as usize);
        let high = logic(u, size, s.d(n1), s.d(m1), s.d(d1));
        doublewords_read_back(s.with_d(vd, low), d1, d1, high);
        doublewords_read_back(s.with_d(vd, low), d1, vd, high);
        logic_by_bits(u, size, s.d(n1), s.d(m1), s.d(d1), j);
    }
}

} // verus!
