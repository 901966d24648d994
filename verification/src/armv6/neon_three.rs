//! Vector instructions on three registers: integer and bitwise forms.

use super::bits::{bit, bit_at, group_masks};
use super::cpu::{passed, took, undefined, Cpu, CpuState, Seen};
use super::neon_arith::{
    abd, abdl, hadd, hsub, mask_if, minmax, mull, neon_abs_diff, neon_abs_diff_long,
    neon_compare_ge, neon_compare_gt, neon_extend_elem, neon_halving_add, neon_halving_sub,
    neon_mask_if, neon_minmax, neon_multiply_long, neon_polynomial_mul8, neon_saturating_add,
    neon_saturating_add_sub_wide, neon_saturating_doubling_mul_high,
    neon_saturating_doubling_mul_long, neon_saturating_sub, neon_variable_shift, pmul, qadd,
    qaddsub, qdmulh, qdmull, qsub, shift_by, widen, elem_gt,
};
use super::neon_lane::{
    elem_bits, elem_mask, lane_count, lanes, neon_elem_bits, neon_elem_mask, neon_lanes, neon_per_d,
    per_d, put_results,
};
use super::trap::{seen, Result, Trap};
use super::vfp_regs::{dd, dm, dn, vfp_double_d, vfp_double_m, vfp_double_n};
use vstd::prelude::*;

verus! {

broadcast use group_masks;

/// A register number is odd.
pub open spec fn odd(r: usize) -> bool {
    r % 2 != 0
}

/// A quadword operation whose registers are not all even.
pub open spec fn unaligned3(q: bool, a: usize, b: usize, c: usize) -> bool {
    q && (odd(a) || odd(b) || odd(c))
}

/// The bitwise operations, selected by the sign and size fields.
pub open spec fn logic(u: bool, size: usize, n: u64, m: u64, d: u64) -> u64 {
    if !u {
        if size == 0 {
            n & m
        } else if size == 1 {
            n & !m
        } else if size == 2 {
            n | m
        } else {
            n | !m
        }
    } else if size == 0 {
        n ^ m
    } else if size == 1 {
        (n & d) | (m & !d)
    } else if size == 2 {
        (n & m) | (d & !m)
    } else {
        (d & m) | (n & !m)
    }
}

fn bitwise(u: bool, size: usize, n: u64, m: u64, d: u64) -> (r: u64)
    ensures
        r == logic(u, size, n, m, d),
{
    match (u, size) {
        (false, 0) => n & m,
        (false, 1) => n & !m,
        (false, 2) => n | m,
        (false, _) => n | !m,
        (true, 0) => n ^ m,
        (true, 1) => (n & d) | (m & !d),
        (true, 2) => (n & m) | (d & !m),
        (true, _) => (d & m) | (n & !m),
    }
}

/// VAND, VBIC, VORR, VORN, VEOR, VBSL, VBIT and VBIF.
pub open spec fn neon_logic(s: CpuState, u: bool, size: usize, q: bool, vd: usize, vn: usize, vm:
    usize) -> CpuState {
    let s1 = s.with_d(vd, logic(u, size, s.d(vn), s.d(vm), s.d(vd)));
    if q {
        let (d1, n1, m1) = ((vd + 1) as usize, (vn + 1) as usize, (vm + 1) as usize);
        s1.with_d(d1, logic(u, size, s.d(n1), s.d(m1), s.d(d1)))
    } else {
        s1
    }
}

/// Which integer forms are undefined.
pub open spec fn int_refused(opcode: u32, u: bool, op: bool, size: usize, q: bool) -> bool {
    ||| (opcode == 0 || opcode == 2 || opcode == 3 || opcode == 6 || opcode == 7) && size == 3
    ||| opcode == 10 && (size == 3 || q)
    ||| opcode == 11 && op && q
    ||| opcode == 11 && !op && (size == 0 || size == 3)
    ||| opcode == 9 && op && u && size != 0
}

/// Which integer forms exist.
pub open spec fn int_exists(opcode: u32, u: bool, op: bool) -> bool {
    !(opcode == 11 && u && op) && !(opcode == 1 && op)
}

/// One element of an integer operation on three vectors.
pub open spec fn int_elem(
    opcode: u32,
    u: bool,
    op: bool,
    size: usize,
    a: u64,
    b: u64,
    d: u64,
) -> (u64, bool) {
    let mask = elem_mask(size);
    if opcode == 0 {
        if op {
            qadd(a, b, size, !u)
        } else {
            (hadd(a, b, size, !u, false), false)
        }
    } else if opcode == 1 {
        (hadd(a, b, size, !u, true), false)
    } else if opcode == 2 {
        if op {
            qsub(a, b, size, !u)
        } else {
            (hsub(a, b, size, !u), false)
        }
    } else if opcode == 3 {
        if op {
            (mask_if(!elem_gt(b, a, size, !u), size), false)
        } else {
            (mask_if(elem_gt(a, b, size, !u), size), false)
        }
    } else if opcode == 6 {
        (minmax(a, b, size, !u, !op), false)
    } else if opcode == 7 {
        let diff = abd(a, b, size, !u);
        (
            if op {
                d.wrapping_add(diff) & mask
            } else {
                diff
            },
            false,
        )
    } else if opcode == 8 {
        if op {
            (
                mask_if(
                    if u {
                        a == b
                    } else {
                        a & b != 0
                    },
                    size,
                ),
                false,
            )
        } else if u {
            (a.wrapping_sub(b) & mask, false)
        } else {
            (a.wrapping_add(b) & mask, false)
        }
    } else if opcode == 9 {
        if op {
            (
                if u {
                    pmul(a as u8, b as u8, 8) as u64
                } else {
                    a.wrapping_mul(b) & mask
                },
                false,
            )
        } else if u {
            (d.wrapping_sub(a.wrapping_mul(b)) & mask, false)
        } else {
            (d.wrapping_add(a.wrapping_mul(b)) & mask, false)
        }
    } else {
        qdmulh(a, b, size, u)
    }
}

/// Element `i` of two vectors one behind the other. Behind the last element of
/// the second there are zeros.
pub open spec fn joined(a: Seq<u64>, b: Seq<u64>, i: int) -> u64 {
    if i < a.len() {
        a[i]
    } else if i - a.len() < b.len() {
        b[i - a.len()]
    } else {
        0
    }
}

/// Element `i` of a pairwise sum. A vector of one element gives the element of
/// the second operand.
pub open spec fn pair_sum(a: Seq<u64>, b: Seq<u64>, size: usize, i: int) -> u64 {
    if size == 3 {
        b[0].wrapping_add(0) & elem_mask(size)
    } else {
        joined(a, b, 2 * i).wrapping_add(joined(a, b, 2 * i + 1)) & elem_mask(size)
    }
}

/// The element results of an integer operation on three vectors.
pub open spec fn int_results(
    s: CpuState,
    opcode: u32,
    u: bool,
    op: bool,
    size: usize,
    q: bool,
    vd: usize,
    vn: usize,
    vm: usize,
) -> Seq<(u64, bool)> {
    let a = lanes(s, vn, q, size);
    let b = lanes(s, vm, q, size);
    let d = lanes(s, vd, q, size);
    Seq::new(
        lane_count(q, size) as nat,
        |i: int|
            if opcode == 10 {
                (minmax(joined(a, b, 2 * i), joined(a, b, 2 * i + 1), size, !u, !op), false)
            } else if opcode == 11 && op {
                (pair_sum(a, b, size, i), false)
            } else {
                int_elem(opcode, u, op, size, a[i], b[i], d[i])
            },
    )
}

/// The integer operations on three vectors.
pub open spec fn neon_int(
    s: CpuState,
    instr: u32,
    pc: u32,
    opcode: u32,
    u: bool,
    op: bool,
    size: usize,
    q: bool,
) -> (CpuState, Seen<bool>) {
    if int_refused(opcode, u, op, size, q) {
        undefined(s, pc, instr)
    } else if !int_exists(opcode, u, op) {
        passed(s)
    } else {
        took(
            put_results(
                s,
                dd(instr),
                q,
                size,
                int_results(s, opcode, u, op, size, q, dd(instr), dn(instr), dm(instr)),
            ),
        )
    }
}

/// The element results of a shift by a vector of signed amounts.
pub open spec fn shift_results(
    s: CpuState,
    opcode: u32,
    u: bool,
    op: bool,
    size: usize,
    q: bool,
    vn: usize,
    vm: usize,
) -> Seq<(u64, bool)> {
    let v = lanes(s, vm, q, size);
    let by = lanes(s, vn, q, size);
    Seq::new(
        lane_count(q, size) as nat,
        |i: int| shift_by(v[i], ((by[i] as u8) as i8) as i64, size, !u, op, opcode == 5),
    )
}

fn int_element(opcode: u32, u: bool, op: bool, size: usize, a: u64, b: u64, d: u64) -> (r: (
    u64,
    bool,
))
    requires
        opcode == 11 ==> size <= 2,
        opcode <= 11 && opcode != 4 && opcode != 5 && opcode != 10,
    ensures
        r == int_elem(opcode, u, op, size, a, b, d),
{
    let mask = neon_elem_mask(size);
    match (opcode, op) {
        (0, false) => (neon_halving_add(a, b, size, !u, false), false),
        (0, true) => neon_saturating_add(a, b, size, !u),
        (1, _) => (neon_halving_add(a, b, size, !u, true), false),
        (2, false) => (neon_halving_sub(a, b, size, !u), false),
        (2, true) => neon_saturating_sub(a, b, size, !u),
        (3, false) => (neon_compare_gt(a, b, size, !u), false),
        (3, true) => (neon_compare_ge(a, b, size, !u), false),
        (6, _) => (neon_minmax(a, b, size, !u, !op), false),
        (7, false) => (neon_abs_diff(a, b, size, !u), false),
        (7, true) => (d.wrapping_add(neon_abs_diff(a, b, size, !u)) & mask, false),
        (8, false) => (
            if u {
                a.wrapping_sub(b) & mask
            } else {
                a.wrapping_add(b) & mask
            },
            false,
        ),
        (8, true) => (
            neon_mask_if(
                if u {
                    a == b
                } else {
                    a & b != 0
                },
                size,
            ),
            false,
        ),
        (9, false) => (
            if u {
                d.wrapping_sub(a.wrapping_mul(b)) & mask
            } else {
                d.wrapping_add(a.wrapping_mul(b)) & mask
            },
            false,
        ),
        (9, true) => (
            if u {
                neon_polynomial_mul8(a as u8, b as u8) as u64
            } else {
                a.wrapping_mul(b) & mask
            },
            false,
        ),
        _ => neon_saturating_doubling_mul_high(a, b, size, u),
    }
}

fn joined_at(a: &[u64; 16], b: &[u64; 16], n: usize, i: usize) -> (r: u64)
    requires
        n <= 16,
        i < 2 * n,
    ensures
        r == joined(a@.take(n as int), b@.take(n as int), i as int),
{
    if i < n {
        a[i]
    } else {
        b[i - n]
    }
}

impl Cpu {
    fn exec_neon_logic(&mut self, u: bool, size: usize, q: bool, vd: usize, vn: usize, vm: usize)
        requires
            vd < 32,
            vn < 32,
            vm < 32,
            q ==> vd < 31 && vn < 31 && vm < 31,
        ensures
            final(self)@ == neon_logic(old(self)@, u, size, q, vd, vn, vm),
    {
        let low = bitwise(u, size, self.dreg(vn), self.dreg(vm), self.dreg(vd));
        if q {
            let high = bitwise(
                u,
                size,
                self.dreg(vn + 1),
                self.dreg(vm + 1),
                self.dreg(vd + 1),
            );
            self.set_dreg(vd, low);
            self.set_dreg(vd + 1, high);
        } else {
            self.set_dreg(vd, low);
        }
    }

    pub(crate) fn exec_arm_neon_3same_int(
        &mut self,
        instr: u32,
        pc: u32,
        opcode: u32,
        u: bool,
        op: bool,
        size: usize,
        q: bool,
    ) -> (r: Result<bool>)
        requires
            size <= 3,
            opcode <= 11 && opcode != 4 && opcode != 5,
            !unaligned3(q, dd(instr), dn(instr), dm(instr)),
        ensures
            (final(self)@, seen(r)) == neon_int(old(self)@, instr, pc, opcode, u, op, size, q),
    {
        if ((opcode == 0 || opcode == 2 || opcode == 3 || opcode == 6 || opcode == 7) && size == 3)
            || (opcode == 10 && (size == 3 || q)) || (opcode == 11 && op && q) || (opcode == 11
            && !op && (size == 0 || size == 3)) || (opcode == 9 && op && u && size != 0) {
            return Err(Trap::UndefinedArm { pc, instr });
        }
        if (opcode == 11 && u && op) || (opcode == 1 && op) {
            return Ok(false);
        }
        let vd = vfp_double_d(instr);
        let vn = vfp_double_n(instr);
        let vm = vfp_double_m(instr);
        let n = neon_lanes(q, size);
        let a = self.neon_reg_lanes(vn, q, size);
        let b = self.neon_reg_lanes(vm, q, size);
        let d = self.neon_reg_lanes(vd, q, size);
        let ghost res = int_results(self@, opcode, u, op, size, q, vd, vn, vm);
        let mut out: [u64; 16] = [0;16];
        let mut sat = false;
        let mut i: usize = 0;
        while i < n
            invariant
                i <= n <= 16,
                size <= 3,
                n == lane_count(q, size),
                opcode <= 11 && opcode != 4 && opcode != 5,
                !int_refused(opcode, u, op, size, q),
                int_exists(opcode, u, op),
                a@.take(n as int) == lanes(self@, vn, q, size),
                b@.take(n as int) == lanes(self@, vm, q, size),
                d@.take(n as int) == lanes(self@, vd, q, size),
                res == int_results(self@, opcode, u, op, size, q, vd, vn, vm),
                forall|j: int| 0 <= j < i ==> out@[j] == (#[trigger] res[j]).0,
                sat == exists|j: int| 0 <= j < i && (#[trigger] res[j]).1,
            decreases n - i,
        {
            assert(a@[i as int] == a@.take(n as int)[i as int]);
            assert(b@[i as int] == b@.take(n as int)[i as int]);
            assert(d@[i as int] == d@.take(n as int)[i as int]);
            let (value, saturated) = if opcode == 10 {
                let x = joined_at(&a, &b, n, 2 * i);
                let y = joined_at(&a, &b, n, 2 * i + 1);
                (neon_minmax(x, y, size, !u, !op), false)
            } else if opcode == 11 && op {
                if size == 3 {
                    assert(b@[0] == b@.take(n as int)[0]);
                    (b[0].wrapping_add(0) & neon_elem_mask(size), false)
                } else {
                    let x = joined_at(&a, &b, n, 2 * i);
                    let y = joined_at(&a, &b, n, 2 * i + 1);
                    (x.wrapping_add(y) & neon_elem_mask(size), false)
                }
            } else {
                int_element(opcode, u, op, size, a[i], b[i], d[i])
            };
            assert((value, saturated) == res[i as int]);
            out[i] = value;
            sat = sat || saturated;
            i += 1;
        }
        self.put_neon_results(vd, q, size, out, sat, Ghost(res));
        Ok(true)
    }

    pub(crate) fn exec_arm_neon_3same_shift(
        &mut self,
        opcode: u32,
        u: bool,
        op: bool,
        size: usize,
        q: bool,
        vd: usize,
        vn: usize,
        vm: usize,
    )
        requires
            size <= 3,
            vd < 32,
            vn < 32,
            vm < 32,
            q ==> vd < 31 && vn < 31 && vm < 31,
        ensures
            final(self)@ == put_results(
                old(self)@,
                vd,
                q,
                size,
                shift_results(old(self)@, opcode, u, op, size, q, vn, vm),
            ),
    {
        let n = neon_lanes(q, size);
        let values = self.neon_reg_lanes(vm, q, size);
        let shifts = self.neon_reg_lanes(vn, q, size);
        let ghost res = shift_results(self@, opcode, u, op, size, q, vn, vm);
        let mut out: [u64; 16] = [0;16];
        let mut sat = false;
        let mut i: usize = 0;
        while i < n
            invariant
                i <= n <= 16,
                n == lane_count(q, size),
                values@.take(n as int) == lanes(self@, vm, q, size),
                shifts@.take(n as int) == lanes(self@, vn, q, size),
                res == shift_results(self@, opcode, u, op, size, q, vn, vm),
                forall|j: int| 0 <= j < i ==> out@[j] == (#[trigger] res[j]).0,
                sat == exists|j: int| 0 <= j < i && (#[trigger] res[j]).1,
            decreases n - i,
        {
            assert(values@[i as int] == values@.take(n as int)[i as int]);
            assert(shifts@[i as int] == shifts@.take(n as int)[i as int]);
            let by = shifts[i] as u8 as i8 as i64;
            let (value, saturated) = neon_variable_shift(values[i], by, size, !u, op, opcode == 5);
            assert((value, saturated) == res[i as int]);
            out[i] = value;
            sat = sat || saturated;
            i += 1;
        }
        self.put_neon_results(vd, q, size, out, sat, Ghost(res));
    }

    pub(crate) fn exec_arm_neon_3same_plain(&mut self, instr: u32, pc: u32) -> (r: Result<bool>)
        requires
            (instr >> 8) & 0xf < 12,
        ensures
            (final(self)@, seen(r)) == neon_3same_plain(old(self)@, instr, pc),
    {
        let u = bit_at(instr, 24);
        let size = ((instr >> 20) & 3) as usize;
        let opcode = (instr >> 8) & 0xf;
        let q = bit_at(instr, 6);
        let op = bit_at(instr, 4);
        let vd = vfp_double_d(instr);
        let vn = vfp_double_n(instr);
        let vm = vfp_double_m(instr);
        if q && (vd % 2 != 0 || vn % 2 != 0 || vm % 2 != 0) {
            return Err(Trap::UndefinedArm { pc, instr });
        }
        if opcode == 1 && op {
            self.exec_neon_logic(u, size, q, vd, vn, vm);
            return Ok(true);
        }
        if opcode == 4 || opcode == 5 {
            self.exec_arm_neon_3same_shift(opcode, u, op, size, q, vd, vn, vm);
            return Ok(true);
        }
        self.exec_arm_neon_3same_int(instr, pc, opcode, u, op, size, q)
    }
}

/// The operations on three vectors of one element size, but for the
/// floating-point ones.
pub open spec fn neon_3same_plain(s: CpuState, instr: u32, pc: u32) -> (CpuState, Seen<bool>) {
    let u = bit(instr, 24);
    let size = ((instr >> 20) & 3) as usize;
    let opcode = (instr >> 8) & 0xf;
    let q = bit(instr, 6);
    let op = bit(instr, 4);
    let (vd, vn, vm) = (dd(instr), dn(instr), dm(instr));
    if unaligned3(q, vd, vn, vm) {
        undefined(s, pc, instr)
    } else if opcode == 1 && op {
        took(neon_logic(s, u, size, q, vd, vn, vm))
    } else if opcode == 4 || opcode == 5 {
        took(put_results(s, vd, q, size, shift_results(s, opcode, u, op, size, q, vn, vm)))
    } else {
        neon_int(s, instr, pc, opcode, u, op, size, q)
    }
}

/// One element of VADDL, VADDW, VSUBL and VSUBW.
pub open spec fn wide_sum(a: u64, b: u64, size: usize, u: bool, opcode: u32) -> u64 {
    let x = if opcode == 0 || opcode == 2 {
        widen(a, size, !u)
    } else {
        a
    };
    let y = widen(b, size, !u);
    (if opcode >= 2 {
        x.wrapping_sub(y)
    } else {
        x.wrapping_add(y)
    }) & elem_mask((size + 1) as usize)
}

/// One element of VADDHN, VRADDHN, VSUBHN and VRSUBHN.
pub open spec fn high_narrow(a: u64, b: u64, size: usize, rounding: bool, opcode: u32) -> u64 {
    let bits = elem_bits(size);
    let round = if rounding {
        1u64 << ((bits - 1) as u32)
    } else {
        0
    };
    let wide = if opcode == 6 {
        a.wrapping_sub(b)
    } else {
        a.wrapping_add(b)
    };
    wide.wrapping_add(round) >> bits
}

/// A multiply-accumulate of wide elements.
pub open spec fn accumulate(acc: u64, v: u64, size: usize, subtract: bool) -> u64 {
    (if subtract {
        acc.wrapping_sub(v)
    } else {
        acc.wrapping_add(v)
    }) & elem_mask((size + 1) as usize)
}

/// A doubling product and its saturating accumulation: opcode 9 adds, opcode
/// 11 subtracts, opcode 13 has no accumulator.
pub open spec fn qdm_elem(a: u64, b: u64, acc: u64, size: usize, opcode: u32) -> (u64, bool) {
    let (p, sat) = qdmull(a, b, size);
    if opcode == 13 {
        (p, sat)
    } else {
        let (v, sat2) = qaddsub(acc, p, (size + 1) as usize, opcode == 11);
        (v, sat || sat2)
    }
}

/// One element of an operation that lengthens its operands.
pub open spec fn long_elem(opcode: u32, u: bool, size: usize, a: u64, b: u64, acc: u64) -> (
    u64,
    bool,
) {
    if opcode <= 3 {
        (wide_sum(a, b, size, u, opcode), false)
    } else if opcode == 5 {
        (
            abdl(a, b, size, !u).wrapping_add(acc) & elem_mask((size + 1) as usize),
            false,
        )
    } else if opcode == 7 {
        (abdl(a, b, size, !u), false)
    } else if opcode == 8 || opcode == 10 {
        (accumulate(acc, mull(a, b, size, !u), size, opcode == 10), false)
    } else if opcode == 12 {
        (mull(a, b, size, !u), false)
    } else if opcode == 14 {
        (pmul(a as u8, b as u8, 8) as u64, false)
    } else {
        qdm_elem(a, b, acc, size, opcode)
    }
}

/// The element results of an operation that lengthens its operands.
pub open spec fn long_results(
    s: CpuState,
    opcode: u32,
    u: bool,
    size: usize,
    vd: usize,
    vn: usize,
    vm: usize,
) -> Seq<(u64, bool)> {
    let wide = (size + 1) as usize;
    let a = if opcode == 1 || opcode == 3 {
        lanes(s, vn, true, wide)
    } else {
        lanes(s, vn, false, size)
    };
    let b = lanes(s, vm, false, size);
    let acc = lanes(s, vd, true, wide);
    Seq::new(per_d(size) as nat, |i: int| long_elem(opcode, u, size, a[i], b[i], acc[i]))
}

/// The element results of a narrowing sum or difference.
pub open spec fn narrow_results(
    s: CpuState,
    opcode: u32,
    u: bool,
    size: usize,
    vn: usize,
    vm: usize,
) -> Seq<(u64, bool)> {
    let wide = (size + 1) as usize;
    let a = lanes(s, vn, true, wide);
    let b = lanes(s, vm, true, wide);
    Seq::new(per_d(size) as nat, |i: int| (high_narrow(a[i], b[i], size, u, opcode), false))
}

/// Whether an opcode of the three-register space with different lengths
/// exists.
pub open spec fn diff_exists(opcode: u32, u: bool, size: usize) -> bool {
    &&& size != 3
    &&& opcode != 15
    &&& (opcode == 9 || opcode == 11 || opcode == 13) ==> !u && size != 0
    &&& opcode == 14 ==> !u && size == 0
}

/// The operations on three vectors of different lengths. A polynomial product
/// of halfwords is refused only where its destination is odd.
pub open spec fn neon_3diff(s: CpuState, instr: u32, pc: u32) -> (CpuState, Seen<bool>) {
    let u = bit(instr, 24);
    let size = ((instr >> 20) & 3) as usize;
    let opcode = (instr >> 8) & 0xf;
    let (vd, vn, vm) = (dd(instr), dn(instr), dm(instr));
    if opcode == 14 && !u && size == 1 && odd(vd) {
        undefined(s, pc, instr)
    } else if !diff_exists(opcode, u, size) {
        passed(s)
    } else if opcode == 4 || opcode == 6 {
        if odd(vn) || odd(vm) {
            undefined(s, pc, instr)
        } else {
            took(put_results(s, vd, false, size, narrow_results(s, opcode, u, size, vn, vm)))
        }
    } else if odd(vd) || ((opcode == 1 || opcode == 3) && odd(vn)) {
        undefined(s, pc, instr)
    } else {
        took(
            put_results(
                s,
                vd,
                true,
                (size + 1) as usize,
                long_results(s, opcode, u, size, vd, vn, vm),
            ),
        )
    }
}

fn qdm_element(a: u64, b: u64, acc: u64, size: usize, opcode: u32) -> (r: (u64, bool))
    requires
        size <= 2,
    ensures
        r == qdm_elem(a, b, acc, size, opcode),
{
    let (product, sat) = neon_saturating_doubling_mul_long(a, b, size);
    if opcode == 13 {
        (product, sat)
    } else {
        let (v, sat2) = neon_saturating_add_sub_wide(acc, product, size + 1, opcode == 11);
        (v, sat || sat2)
    }
}

fn long_element(opcode: u32, u: bool, size: usize, a: u64, b: u64, acc: u64) -> (r: (u64, bool))
    requires
        size <= 2,
        opcode < 15,
    ensures
        r == long_elem(opcode, u, size, a, b, acc),
{
    let mask = neon_elem_mask(size + 1);
    match opcode {
        0 | 1 | 2 | 3 => {
            let x = if opcode == 0 || opcode == 2 {
                neon_extend_elem(a, size, !u)
            } else {
                a
            };
            let y = neon_extend_elem(b, size, !u);
            (
                (if opcode >= 2 {
                    x.wrapping_sub(y)
                } else {
                    x.wrapping_add(y)
                }) & mask,
                false,
            )
        },
        5 => (neon_abs_diff_long(a, b, size, !u).wrapping_add(acc) & mask, false),
        7 => (neon_abs_diff_long(a, b, size, !u), false),
        8 | 10 => {
            let product = neon_multiply_long(a, b, size, !u);
            (
                (if opcode == 10 {
                    acc.wrapping_sub(product)
                } else {
                    acc.wrapping_add(product)
                }) & mask,
                false,
            )
        },
        12 => (neon_multiply_long(a, b, size, !u), false),
        14 => (neon_polynomial_mul8(a as u8, b as u8) as u64, false),
        _ => qdm_element(a, b, acc, size, opcode),
    }
}

impl Cpu {
    fn exec_neon_3diff_narrow(
        &mut self,
        opcode: u32,
        u: bool,
        size: usize,
        vd: usize,
        vn: usize,
        vm: usize,
    )
        requires
            size <= 2,
            vd < 32,
            vn < 31,
            vm < 31,
        ensures
            final(self)@ == put_results(
                old(self)@,
                vd,
                false,
                size,
                narrow_results(old(self)@, opcode, u, size, vn, vm),
            ),
    {
        let n = neon_per_d(size);
        let a = self.neon_reg_lanes(vn, true, size + 1);
        let b = self.neon_reg_lanes(vm, true, size + 1);
        let bits = neon_elem_bits(size);
        let round: u64 = if u {
            1u64 << (bits - 1)
        } else {
            0
        };
        let ghost res = narrow_results(self@, opcode, u, size, vn, vm);
        let mut out: [u64; 16] = [0;16];
        let mut i: usize = 0;
        while i < n
            invariant
                i <= n <= 8,
                size <= 2,
                n == per_d(size),
                n == lane_count(true, (size + 1) as usize),
                bits == elem_bits(size),
                bits <= 32,
                round == if u {
                    1u64 << ((bits - 1) as u32)
                } else {
                    0
                },
                a@.take(n as int) == lanes(self@, vn, true, (size + 1) as usize),
                b@.take(n as int) == lanes(self@, vm, true, (size + 1) as usize),
                res == narrow_results(self@, opcode, u, size, vn, vm),
                forall|j: int| 0 <= j < i ==> out@[j] == (#[trigger] res[j]).0,
            decreases n - i,
        {
            assert(a@[i as int] == a@.take(n as int)[i as int]);
            assert(b@[i as int] == b@.take(n as int)[i as int]);
            let wide = if opcode == 6 {
                a[i].wrapping_sub(b[i])
            } else {
                a[i].wrapping_add(b[i])
            };
            out[i] = wide.wrapping_add(round) >> bits;
            assert(out@[i as int] == res[i as int].0);
            i += 1;
        }
        self.put_neon_results(vd, false, size, out, false, Ghost(res));
    }

    fn exec_neon_3diff_long(
        &mut self,
        opcode: u32,
        u: bool,
        size: usize,
        vd: usize,
        vn: usize,
        vm: usize,
    )
        requires
            size <= 2,
            opcode < 15,
            vd < 31,
            vn < 32,
            vm < 32,
            opcode == 1 || opcode == 3 ==> vn < 31,
        ensures
            final(self)@ == put_results(
                old(self)@,
                vd,
                true,
                (size + 1) as usize,
                long_results(old(self)@, opcode, u, size, vd, vn, vm),
            ),
    {
        let n = neon_per_d(size);
        let first_wide = opcode == 1 || opcode == 3;
        let a = if first_wide {
            self.neon_reg_lanes(vn, true, size + 1)
        } else {
            self.neon_reg_lanes(vn, false, size)
        };
        let b = self.neon_reg_lanes(vm, false, size);
        let acc = self.neon_reg_lanes(vd, true, size + 1);
        let ghost la = if first_wide {
            lanes(self@, vn, true, (size + 1) as usize)
        } else {
            lanes(self@, vn, false, size)
        };
        let ghost res = long_results(self@, opcode, u, size, vd, vn, vm);
        let mut out: [u64; 16] = [0;16];
        let mut sat = false;
        let mut i: usize = 0;
        while i < n
            invariant
                i <= n <= 8,
                size <= 2,
                opcode < 15,
                n == per_d(size),
                n == lane_count(true, (size + 1) as usize),
                n == lane_count(false, size),
                a@.take(n as int) == la,
                b@.take(n as int) == lanes(self@, vm, false, size),
                acc@.take(n as int) == lanes(self@, vd, true, (size + 1) as usize),
                la == (if opcode == 1 || opcode == 3 {
                    lanes(self@, vn, true, (size + 1) as usize)
                } else {
                    lanes(self@, vn, false, size)
                }),
                res == long_results(self@, opcode, u, size, vd, vn, vm),
                forall|j: int| 0 <= j < i ==> out@[j] == (#[trigger] res[j]).0,
                sat == exists|j: int| 0 <= j < i && (#[trigger] res[j]).1,
            decreases n - i,
        {
            assert(a@[i as int] == a@.take(n as int)[i as int]);
            assert(b@[i as int] == b@.take(n as int)[i as int]);
            assert(acc@[i as int] == acc@.take(n as int)[i as int]);
            let (value, saturated) = long_element(opcode, u, size, a[i], b[i], acc[i]);
            assert((value, saturated) == res[i as int]);
            out[i] = value;
            sat = sat || saturated;
            i += 1;
        }
        self.put_neon_results(vd, true, size + 1, out, sat, Ghost(res));
    }

    pub(crate) fn exec_arm_neon_3diff(&mut self, instr: u32, pc: u32) -> (r: Result<bool>)
        ensures
            (final(self)@, seen(r)) == neon_3diff(old(self)@, instr, pc),
            r == Ok::<bool, Trap>(false) ==> final(self)@ == old(self)@,
    {
        let u = bit_at(instr, 24);
        let size = ((instr >> 20) & 3) as usize;
        let opcode = (instr >> 8) & 0xf;
        let vd = vfp_double_d(instr);
        let vn = vfp_double_n(instr);
        let vm = vfp_double_m(instr);
        if opcode == 14 && !u && size == 1 && vd % 2 != 0 {
            return Err(Trap::UndefinedArm { pc, instr });
        }
        if size == 3 || opcode == 15 || ((opcode == 9 || opcode == 11 || opcode == 13) && (u || size
            == 0)) || (opcode == 14 && (u || size != 0)) {
            return Ok(false);
        }
        if opcode == 4 || opcode == 6 {
            if vn % 2 != 0 || vm % 2 != 0 {
                return Err(Trap::UndefinedArm { pc, instr });
            }
            self.exec_neon_3diff_narrow(opcode, u, size, vd, vn, vm);
            return Ok(true);
        }
        if vd % 2 != 0 || ((opcode == 1 || opcode == 3) && vn % 2 != 0) {
            return Err(Trap::UndefinedArm { pc, instr });
        }
        self.exec_neon_3diff_long(opcode, u, size, vd, vn, vm);
        Ok(true)
    }
}

} // verus!
