//! What the floating-point vector instructions, the multiplications by a scalar and the
//! counting instructions leave in each element.

use super::bits::bit;
use super::cpu::CpuState;
use super::float::{fabs, fadd, feq, flt, fmax, fmin, fmul, fsub};
use super::neon_arith::leading;
use super::neon_float::{
    float_results, neon_3same_f32, neon_scalar, scalar_elem, scalar_of, scalar_results,
};
use super::neon_lane::{lane, lane_count, lanes};
use super::neon_numbers::{folded, low_bits, number, span};
use super::neon_three_laws::{lanes_in_range, ones_where, results_read_back};
use super::numbers::bit64;
use super::trap::TrapView;
use super::vfp_regs::{dd, dm, dn, register_numbers, word_fields};
use super::word_parts::scalar_fields;
use vstd::prelude::*;

verus! {

/// VADD, VSUB, VMUL, VMLA, VMLS, VABD, VMAX, VMIN, VCEQ, VCGE and VCGT on vectors of
/// floating-point words: element `i` comes from elements `i` of the operands.
pub proof fn float_vectors(s: CpuState, instr: u32, pc: u32, i: int)
    requires
        s.wf(),
        neon_3same_f32(s, instr, pc).1 == Ok::<bool, TrapView>(true),
        0 <= i < lane_count(bit(instr, 6), 2),
    ensures
        ({
            let q = bit(instr, 6);
            let u = bit(instr, 24);
            let op = bit(instr, 4);
            let sub = (instr >> 20) & 3 >= 2;
            let opcode = (instr >> 8) & 0xf;
            let a = lanes(s, dn(instr), q, 2)[i];
            let b = lanes(s, dm(instr), q, 2)[i];
            let d = lanes(s, dd(instr), q, 2)[i];
            let p = fmul(a, b, false);
            let r = lanes(neon_3same_f32(s, instr, pc).0, dd(instr), q, 2)[i];
            let n = span(2);
            &&& opcode == 13 && !u && !op && !sub ==> r == fadd(a, b, false) as int % n
            &&& opcode == 13 && !u && !op && sub ==> r == fsub(a, b, false) as int % n
            &&& opcode == 13 && !u && op && !sub ==> r == fadd(d, p, false) as int % n
            &&& opcode == 13 && !u && op && sub ==> r == fsub(d, p, false) as int % n
            &&& opcode == 13 && u && op && !sub ==> r == p as int % n
            &&& opcode == 13 && u && !op && sub ==> r == fabs(fsub(a, b, false), false) as int % n
            &&& opcode == 15 && !u && !op && !sub ==> r == fmax(a, b, false) as int % n
            &&& opcode == 15 && !u && !op && sub ==> r == fmin(a, b, false) as int % n
            &&& opcode == 14 && !u && !op && !sub ==> r == ones_where(feq(a, b, false), 2)
            &&& opcode == 14 && u && !op && sub ==> r == ones_where(flt(b, a, false), 2)
            &&& opcode == 14 && u && !op && !sub ==> r == ones_where(
                flt(b, a, false) || feq(a, b, false),
                2,
            )
        }),
{
    register_numbers(instr);
    word_fields(instr);
    let q = bit(instr, 6);
    let u = bit(instr, 24);
    let op = bit(instr, 4);
    let sub = (instr >> 20) & 3 >= 2;
    let opcode = (instr >> 8) & 0xf;
    let (vd, vn, vm) = (dd(instr), dn(instr), dm(instr));
    if !super::neon_float::is_pairwise(opcode, u, sub, op) {
        let out = float_results(s, opcode, u, sub, op, q, vd, vn, vm);
        results_read_back(s, vd, q, 2, out);
        reveal(span);
    }
}

/// Where a scalar operand lies: one of four halfwords of the first eight registers, or
/// one of two words of the first sixteen.
pub open spec fn scalar(s: CpuState, instr: u32, size: usize) -> u64 {
    if size == 1 {
        lanes(s, (instr % 8) as usize, false, 1)[2 * (instr as int / 0x20 % 2) + instr as int / 8 % 2]
    } else {
        lanes(s, (instr % 16) as usize, false, 2)[instr as int / 0x20 % 2]
    }
}

proof fn scalars(s: CpuState, instr: u32, size: usize)
    requires
        1 <= size <= 2,
    ensures
        scalar_of(s, instr, size) == scalar(s, instr, size),
        scalar(s, instr, size) < span(size),
{
    scalar_fields(instr);
    lanes_in_range(s, (instr % 8) as usize, false, 1);
    lanes_in_range(s, (instr % 16) as usize, false, 2);
}

/// VMLA, VMLS and VMUL of vectors by a scalar, modulo 2 to the width of an element.
pub proof fn scalar_multiplications(s: CpuState, instr: u32, pc: u32, i: int)
    requires
        s.wf(),
        neon_scalar(s, instr, pc).1 == Ok::<bool, TrapView>(true),
        (instr >> 8) & 0xf == 0 || (instr >> 8) & 0xf == 4 || (instr >> 8) & 0xf == 8,
        0 <= i < lane_count(bit(instr, 24), ((instr >> 20) & 3) as usize),
    ensures
        ({
            let q = bit(instr, 24);
            let size = ((instr >> 20) & 3) as usize;
            let opcode = (instr >> 8) & 0xf;
            let k = scalar(s, instr, size);
            let a = lanes(s, dn(instr), q, size)[i];
            let d = lanes(s, dd(instr), q, size)[i];
            let r = lanes(neon_scalar(s, instr, pc).0, dd(instr), q, size)[i];
            &&& 1 <= size <= 2
            &&& opcode == 0 ==> r == (d + a * k) % span(size)
            &&& opcode == 4 ==> r == (d - a * k) % span(size)
            &&& opcode == 8 ==> r == (a * k) % span(size)
        }),
{
    register_numbers(instr);
    word_fields(instr);
    let q = bit(instr, 24);
    let size = ((instr >> 20) & 3) as usize;
    let opcode = (instr >> 8) & 0xf;
    scalars(s, instr, size);
    let k = scalar_of(s, instr, size);
    let (vd, vn) = (dd(instr), dn(instr));
    let out = scalar_results(s, opcode, size, q, k, vd, vn);
    results_read_back(s, vd, q, size, out);
    let a = lanes(s, vn, q, size)[i];
    let d = lanes(s, vd, q, size)[i];
    assert(out[i] == scalar_elem(opcode, size, a, k, d));
    scalar_products(a, k, d, size);
}

proof fn scalar_products(a: u64, k: u64, d: u64, size: usize)
    requires
        size <= 3,
    ensures
        scalar_elem(0, size, a, k, d).0 as int % span(size) == (d + a * k) % span(size),
        scalar_elem(4, size, a, k, d).0 as int % span(size) == (d - a * k) % span(size),
        scalar_elem(8, size, a, k, d).0 as int % span(size) == (a * k) % span(size),
{
    let p = a * k;
    let r = a.wrapping_mul(k);
    assert(r == p % 0x1_0000_0000_0000_0000);
    low_bits(r, p, size);
    low_bits(d.wrapping_add(r), d + p, size);
    low_bits(d.wrapping_sub(r), d - p, size);
    folded(p, size);
    folded(d + p, size);
    folded(d - p, size);
    folded(scalar_elem(0, size, a, k, d).0 as int, size);
    folded(scalar_elem(4, size, a, k, d).0 as int, size);
    folded(scalar_elem(8, size, a, k, d).0 as int, size);
}

/// VCLZ: as many bits below the top of an element are zeros, and the next is a one.
pub proof fn leading_zeros(v: u64, bits: nat)
    requires
        bits <= 64,
    ensures
        leading(v, bits) <= bits,
        forall|j: u64| bits - leading(v, bits) <= j < bits ==> !#[trigger] bit64(v, j),
        leading(v, bits) < bits ==> bit64(v, (bits - leading(v, bits) - 1) as u64),
    decreases bits,
{
    if bits > 0 && v & (1u64 << ((bits - 1) as u64)) == 0 {
        leading_zeros(v, (bits - 1) as nat);
        assert forall|j: u64| bits - leading(v, bits) <= j < bits implies !#[trigger] bit64(v, j) by {
            if j == bits - 1 {
                assert(!bit64(v, (bits - 1) as u64));
            }
        }
    }
}

} // verus!
