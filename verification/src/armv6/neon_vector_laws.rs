//! Which elements the vector instructions of two registers and of different lengths
//! combine, and where the results go.

use super::bits::bit;
use super::cpu::CpuState;
use super::neon_arith::shift_imm;
use super::neon_elements::{long_pairs, long_products, long_sums, twice};
use super::neon_lane::{lane, lane_count, lanes, per_d};
use super::neon_misc::{misc_elem, misc_results, neon_misc, pairwise_results};
use super::neon_numbers::{elements, folded, number, span};
use super::neon_three::{joined, long_elem, long_results, neon_3diff};
use super::neon_three_laws::{lanes_in_range, leaves, results_read_back, size_of};
use super::neon_two::{
    dup_size, extract_results, neon_2reg_shift, neon_duplicate, neon_extract, neon_table,
    shift_elem, shift_imm_results, table_byte, table_results,
};
use super::trap::TrapView;
use super::vfp_regs::{dd, dm, dn, register_numbers, word_fields};
use vstd::prelude::*;

verus! {

/// VEXT takes consecutive bytes of its two operands one behind the other, from a byte
/// of the first one on.
pub proof fn extracted_bytes(s: CpuState, instr: u32, pc: u32, i: int)
    requires
        s.wf(),
        neon_extract(s, instr, pc).1 is Ok,
        0 <= i < lane_count(bit(instr, 6), 0),
    ensures
        ({
            let q = bit(instr, 6);
            let n = lane_count(q, 0) as int;
            let from = i + instr as int / 0x100 % 16;
            let t = neon_extract(s, instr, pc).0;
            lanes(t, dd(instr), q, 0)[i] == if from < n {
                lanes(s, dn(instr), q, 0)[from]
            } else {
                lanes(s, dm(instr), q, 0)[from - n]
            }
        }),
{
    register_numbers(instr);
    word_fields(instr);
    let q = bit(instr, 6);
    let imm = ((instr >> 8) & 0xf) as int;
    let out = extract_results(s, q, imm, dn(instr), dm(instr));
    results_read_back(s, dd(instr), q, 0, out);
    lanes_in_range(s, dn(instr), q, 0);
    lanes_in_range(s, dm(instr), q, 0);
    let a = lanes(s, dn(instr), q, 0);
    let b = lanes(s, dm(instr), q, 0);
    let r = if i + imm < a.len() {
        a[i + imm]
    } else {
        b[i + imm - a.len()]
    };
    assert(out[i].0 == joined(a, b, i + imm));
    folded(r as int, 0);
}

/// VDUP fills a vector with one element: the lowest set bit of its field gives the
/// size, and the bits above it the element.
pub proof fn duplicated_element(s: CpuState, instr: u32, pc: u32, i: int)
    requires
        s.wf(),
        neon_duplicate(s, instr, pc).1 is Ok,
        0 <= i < lane_count(bit(instr, 6), dup_size((instr >> 16) & 0xf)),
    ensures
        ({
            let q = bit(instr, 6);
            let field = instr as int / 0x1_0000 % 16;
            let (size, k) = if field % 2 == 1 {
                (0usize, field / 2)
            } else if field / 2 % 2 == 1 {
                (1usize, field / 4)
            } else {
                (2usize, field / 8)
            };
            let t = neon_duplicate(s, instr, pc).0;
            lanes(t, dd(instr), q, size)[i] == lanes(s, dm(instr), false, size)[k]
        }),
{
    register_numbers(instr);
    word_fields(instr);
    let q = bit(instr, 6);
    let imm4 = (instr >> 16) & 0xf;
    super::word_parts::duplicate_field(imm4);
    let size = dup_size(imm4);
    let idx = (imm4 >> ((size + 1) as u32)) as usize;
    let out = Seq::new(
        lane_count(q, size) as nat,
        |i: int| (lane(s.d(dm(instr)), idx, size), false),
    );
    results_read_back(s, dd(instr), q, size, out);
    lanes_in_range(s, dm(instr), false, size);
    assert(lanes(s, dm(instr), false, size)[idx as int] == lane(s.d(dm(instr)), idx, size));
    folded(lanes(s, dm(instr), false, size)[idx as int] as int, size);
    assert(out[i].0 == lane(s.d(dm(instr)), idx, size));
}

/// VTBL and VTBX look each byte up in a table of up to four registers; an index behind
/// the table gives zero, or leaves the byte.
pub proof fn looked_up_bytes(s: CpuState, instr: u32, i: int)
    requires
        s.wf(),
        neon_table(s, instr).1 is Ok,
        0 <= i < 8,
    ensures
        ({
            let len = instr as int / 0x100 % 4 + 1;
            let k = lanes(s, dm(instr), false, 0)[i] as int;
            let t = neon_table(s, instr).0;
            lanes(t, dd(instr), false, 0)[i] == if k < 8 * len {
                lanes(s, (dn(instr) + k / 8) as usize, false, 0)[k % 8]
            } else if bit(instr, 6) {
                lanes(s, dd(instr), false, 0)[i]
            } else {
                0
            }
        }),
{
    register_numbers(instr);
    super::word_parts::table_length(instr);
    let len = ((instr >> 8) & 3) + 1;
    let (vd, vn, vm) = (dd(instr), dn(instr), dm(instr));
    let out = table_results(s, len, bit(instr, 6), vd, vn, vm);
    results_read_back(s, vd, false, 0, out);
    lanes_in_range(s, vm, false, 0);
    lanes_in_range(s, vd, false, 0);
    let k = lanes(s, vm, false, 0)[i] as int;
    if k < 8 * len {
        let reg = (vn + k / 8) as usize;
        lanes_in_range(s, reg, false, 0);
        assert(lanes(s, reg, false, 0)[k % 8] == table_byte(s, vn, k));
        folded(lanes(s, reg, false, 0)[k % 8] as int, 0);
    }
    folded(lanes(s, vd, false, 0)[i] as int, 0);
    folded(0, 0);
    assert(out[i].0 as int % span(0) == out[i].0);
}

/// Whether a word is an operation on vectors of different lengths, and completes.
pub open spec fn lengthens(s: CpuState, instr: u32, pc: u32, opcode: u32) -> bool {
    &&& s.wf()
    &&& (instr >> 8) & 0xf == opcode
    &&& neon_3diff(s, instr, pc).1 == Ok::<bool, TrapView>(true)
}

/// VADDL, VADDW, VSUBL, VSUBW, VMULL, VMLAL, VMLSL, VABDL and VABAL: element `i` of a
/// quadword comes from elements `i` of the operands, at twice their width.
pub proof fn lengthened_vectors(s: CpuState, instr: u32, pc: u32, i: int)
    requires
        0 <= i < per_d(size_of(instr)),
        lengthens(s, instr, pc, (instr >> 8) & 0xf),
    ensures
        ({
            let size = size_of(instr);
            let u = bit(instr, 24);
            let op = (instr >> 8) & 0xf;
            let n = span(twice(size));
            let a = lanes(s, dn(instr), false, size)[i];
            let x = number(a, size, !u);
            let w = lanes(s, dn(instr), true, twice(size))[i] as int;
            let b = lanes(s, dm(instr), false, size)[i];
            let y = number(b, size, !u);
            let d = lanes(s, dd(instr), true, twice(size))[i] as int;
            let r = lanes(neon_3diff(s, instr, pc).0, dd(instr), true, twice(size))[i];
            &&& size <= 2
            &&& op == 0 ==> r == (x + y) % n
            &&& op == 1 ==> r == (w + y) % n
            &&& op == 2 ==> r == (x - y) % n
            &&& op == 3 ==> r == (w - y) % n
            &&& op == 8 ==> r == (d + x * y) % n
            &&& op == 10 ==> r == (d - x * y) % n
            &&& op == 12 ==> r == (x * y) % n
        }),
{
    register_numbers(instr);
    word_fields(instr);
    let size = size_of(instr);
    let wide = twice(size);
    let u = bit(instr, 24);
    let op = (instr >> 8) & 0xf;
    let (vd, vn, vm) = (dd(instr), dn(instr), dm(instr));
    lanes_in_range(s, vn, false, size);
    lanes_in_range(s, vm, false, size);
    lanes_in_range(s, vn, true, wide);
    lanes_in_range(s, vd, true, wide);
    if op <= 3 || op == 8 || op == 10 || op == 12 {
        let out = long_results(s, op, u, size, vd, vn, vm);
        results_read_back(s, vd, true, wide, out);
        let a = if op == 1 || op == 3 {
            lanes(s, vn, true, wide)[i]
        } else {
            lanes(s, vn, false, size)[i]
        };
        let b = lanes(s, vm, false, size)[i];
        let d = lanes(s, vd, true, wide)[i];
        assert(out[i] == long_elem(op, u, size, a, b, d));
        if op <= 3 {
            long_sums(op, u, size, a, b, d);
        } else {
            long_products(op, u, size, a, b, d);
        }
        elements(out[i].0, wide);
        let v = out[i].0 as int;
        folded(v, wide);
        in_range(op, u, size, a, b, d);
        assert(lanes(neon_3diff(s, instr, pc).0, vd, true, wide)[i] == v);
    }
}

proof fn in_range(op: u32, u: bool, size: usize, a: u64, b: u64, d: u64)
    requires
        size <= 2,
        op <= 3 || op == 8 || op == 10 || op == 12,
        op <= 3 && op % 2 == 1 ==> a < span(twice(size)),
        !(op <= 3 && op % 2 == 1) ==> a < span(size),
        b < span(size),
        d < span(twice(size)),
    ensures
        long_elem(op, u, size, a, b, d).0 < span(twice(size)),
{
    let wide = twice(size);
    let y = number(b, size, !u);
    let x = number(a, size, !u);
    if op <= 3 {
        long_sums(op, u, size, a, b, d);
        folded(x + y, wide);
        folded(x - y, wide);
        folded(a + y, wide);
        folded(a - y, wide);
    } else {
        long_products(op, u, size, a, b, d);
        folded(d + x * y, wide);
        folded(d - x * y, wide);
        folded(x * y, wide);
    }
}

/// VPADDL and VPADAL: element `i` is the sum of elements `2i` and `2i + 1` at twice the
/// width, added to the destination on request.
pub proof fn paired_vectors(s: CpuState, instr: u32, pc: u32, i: int)
    requires
        s.wf(),
        (instr >> 16) & 3 == 0,
        (instr >> 7) & 0xf == 4 || (instr >> 7) & 0xf == 5 || (instr >> 7) & 0xf == 12 || (instr >> 7)
            & 0xf == 13,
        neon_misc(s, instr, pc).1 is Ok,
        0 <= i < lane_count(bit(instr, 6), (((instr >> 18) & 3) + 1) as usize),
    ensures
        ({
            let size = ((instr >> 18) & 3) as usize;
            let q = bit(instr, 6);
            let op2 = (instr >> 7) & 0xf;
            let signed = op2 % 2 == 0;
            let v = lanes(s, dm(instr), q, size);
            let sum = number(v[2 * i], size, signed) + number(v[2 * i + 1], size, signed);
            let old = lanes(s, dd(instr), q, twice(size))[i] as int;
            let r = lanes(neon_misc(s, instr, pc).0, dd(instr), q, twice(size))[i];
            r == (if op2 >= 12 {
                old + sum
            } else {
                sum
            }) % span(twice(size))
        }),
{
    register_numbers(instr);
    word_fields(instr);
    let size = ((instr >> 18) & 3) as usize;
    let q = bit(instr, 6);
    let op2 = (instr >> 7) & 0xf;
    let wide = twice(size);
    let (vd, vm) = (dd(instr), dm(instr));
    let unsigned = op2 % 2 == 1;
    let out = pairwise_results(s, size, unsigned, op2 >= 12, q, vd, vm);
    results_read_back(s, vd, q, wide, out);
    lanes_in_range(s, vm, q, size);
    lanes_in_range(s, vd, q, wide);
    let v = lanes(s, vm, q, size);
    let old = lanes(s, vd, q, wide)[i];
    let (a, b) = (v[2 * i], v[2 * i + 1]);
    assert(a < span(size) && b < span(size));
    long_pairs(a, b, size, unsigned);
    let sum = number(a, size, !unsigned) + number(b, size, !unsigned);
    folded(old as int, wide);
    super::neon_elements::reduced(
        super::neon_misc::long_pair(a, b, size, unsigned),
        old,
        sum,
        old as int,
        wide,
    );
    folded(sum, wide);
    folded(sum + old, wide);
    folded(out[i].0 as int, wide);
}

/// The element-wise operations on one vector give, at element `i`, what they make of
/// element `i`.
pub proof fn elementwise_vectors(s: CpuState, instr: u32, pc: u32, i: int)
    requires
        s.wf(),
        super::neon_misc::is_elementwise((instr >> 16) & 3, (instr >> 7) & 0xf),
        neon_misc(s, instr, pc).1 is Ok,
        0 <= i < lane_count(bit(instr, 6), ((instr >> 18) & 3) as usize),
    ensures
        ({
            let size = ((instr >> 18) & 3) as usize;
            let q = bit(instr, 6);
            let v = lanes(s, dm(instr), q, size)[i];
            lanes(neon_misc(s, instr, pc).0, dd(instr), q, size)[i] == misc_elem(
                (instr >> 16) & 3,
                (instr >> 7) & 0xf,
                size,
                v,
            ).0 as int % span(size)
        }),
{
    register_numbers(instr);
    word_fields(instr);
    let size = ((instr >> 18) & 3) as usize;
    let q = bit(instr, 6);
    let out = misc_results(s, (instr >> 16) & 3, (instr >> 7) & 0xf, size, q, dm(instr));
    results_read_back(s, dd(instr), q, size, out);
}

/// The shifts by an immediate give, at element `i`, what they make of elements `i` of
/// the operand and of the destination. The field of the instruction gives size and
/// distance: its highest set bit the size, and the distance counts from there up, or
/// down from twice that.
pub proof fn shifted_vectors(s: CpuState, instr: u32, pc: u32, size: usize, i: int)
    requires
        s.wf(),
        (instr >> 8) & 0xf <= 7,
        neon_2reg_shift(s, instr, pc).1 == Ok::<bool, TrapView>(true),
        0 <= i < lane_count(bit(instr, 6), size),
        ({
            let imm = (instr >> 16) & 0x3f;
            &&& imm < 64
            &&& size == 3 <==> bit(instr, 7)
            &&& size == 2 <==> !bit(instr, 7) && 32 <= imm
            &&& size == 1 <==> !bit(instr, 7) && 16 <= imm < 32
            &&& size == 0 <==> !bit(instr, 7) && 8 <= imm < 16
        }),
    ensures
        ({
            let q = bit(instr, 6);
            let imm = (instr >> 16) & 0x3f;
            let op = (instr >> 8) & 0xf;
            let base: int = if size == 3 {
                0
            } else if size == 2 {
                32
            } else if size == 1 {
                16
            } else {
                8
            };
            let top: int = if size == 3 {
                64
            } else {
                2 * base
            };
            let distance = if op <= 4 {
                top - imm
            } else {
                imm - base
            };
            let v = lanes(s, dm(instr), q, size)[i];
            let old = lanes(s, dd(instr), q, size)[i];
            lanes(neon_2reg_shift(s, instr, pc).0, dd(instr), q, size)[i] == shift_elem(
                op,
                bit(instr, 24),
                size,
                distance as u32,
                v,
                old,
            ).0 as int % span(size)
        }),
{
    register_numbers(instr);
    let q = bit(instr, 6);
    let imm = (instr >> 16) & 0x3f;
    let op = (instr >> 8) & 0xf;
    let u = bit(instr, 24);
    let (sz, shift) = shift_imm(op <= 4, bit(instr, 7), imm)->0;
    assert(sz == size);
    let out = shift_imm_results(s, op, u, q, size, shift, dd(instr), dm(instr));
    results_read_back(s, dd(instr), q, size, out);
}

} // verus!
