//! Vector instructions on three registers in floating point, and with a scalar
//! operand.

use super::bits::{bit, bit_at, group_masks};
use super::cpu::{passed, took, undefined, Cpu, CpuState, Seen};
use super::float::{
    equal, fabs, fadd, feq, ffma, fits, flt, fmax, fmin, fmul, fneg, fsub, fused, less, magnitude,
    maximum, minimum, minus, negate, plus, times,
};
use super::neon_arith::{
    mask_if, mull, neon_mask_if, neon_multiply_long, neon_saturating_add_sub_wide,
    neon_saturating_doubling_mul_high, neon_saturating_doubling_mul_long, qaddsub, qdmulh, qdmull,
};
use super::neon_lane::{
    elem_mask, lane, lane_count, lanes, neon_elem_mask, neon_lanes, neon_per_d, neon_read_elem,
    per_d, put_results,
};
use super::neon_three::{odd, unaligned3};
use super::trap::{seen, Result, Trap};
use super::vfp_regs::{dd, dm, dn, vfp_double_d, vfp_double_m, vfp_double_n};
use vstd::prelude::*;

verus! {

broadcast use group_masks;

/// At least: greater or equal.
pub open spec fn at_least(a: u64, b: u64) -> bool {
    flt(b, a, false) || feq(a, b, false)
}

/// One element of a floating-point operation on three vectors, where the
/// fields name one.
pub open spec fn float_elem(
    opcode: u32,
    u: bool,
    sub: bool,
    op: bool,
    a: u64,
    b: u64,
    d: u64,
) -> Option<u64> {
    let product = fmul(a, b, false);
    if opcode == 12 && !u && op {
        Some(
            ffma(
                d,
                a,
                if sub {
                    fneg(b, false)
                } else {
                    b
                },
                false,
            ),
        )
    } else if opcode == 13 && !u && !op {
        Some(
            if sub {
                fsub(a, b, false)
            } else {
                fadd(a, b, false)
            },
        )
    } else if opcode == 13 && !u && op {
        Some(
            if sub {
                fsub(d, product, false)
            } else {
                fadd(d, product, false)
            },
        )
    } else if opcode == 13 && u && !sub && op {
        Some(product)
    } else if opcode == 13 && u && sub && !op {
        Some(fabs(fsub(a, b, false), false))
    } else if opcode == 14 && !u && !sub && !op {
        Some(mask_if(feq(a, b, false), 2))
    } else if opcode == 14 && u && !op {
        Some(
            mask_if(
                if sub {
                    flt(b, a, false)
                } else {
                    at_least(a, b)
                },
                2,
            ),
        )
    } else if opcode == 14 && u && op {
        let (x, y) = (fabs(a, false), fabs(b, false));
        Some(
            mask_if(
                if sub {
                    flt(y, x, false)
                } else {
                    at_least(x, y)
                },
                2,
            ),
        )
    } else if opcode == 15 && !u && !op {
        Some(
            if sub {
                fmin(a, b, false)
            } else {
                fmax(a, b, false)
            },
        )
    } else if opcode == 15 && !u && op {
        // Newton steps: two minus the product, and half of three minus it.
        Some(
            if sub {
                fmul(fsub(0x4040_0000, product, false), 0x3f00_0000, false)
            } else {
                fsub(0x4000_0000, product, false)
            },
        )
    } else {
        None
    }
}

/// Whether the fields name a floating-point operation that works element by
/// element.
pub open spec fn float_exists(opcode: u32, u: bool, sub: bool, op: bool) -> bool {
    ||| opcode == 12 && !u && op
    ||| opcode == 13 && !(u && (sub == op))
    ||| opcode == 14 && (u || (!sub && !op))
    ||| opcode == 15 && !u
}

/// Whether the fields name a pairwise operation.
pub open spec fn is_pairwise(opcode: u32, u: bool, sub: bool, op: bool) -> bool {
    u && !op && ((opcode == 13 && !sub) || opcode == 15)
}

/// One element of a pairwise operation.
pub open spec fn pairwise_elem(opcode: u32, sub: bool, a: u64, b: u64) -> u64 {
    if opcode == 13 {
        fadd(a, b, false)
    } else if sub {
        fmin(a, b, false)
    } else {
        fmax(a, b, false)
    }
}

/// The results of a floating-point operation on three vectors.
pub open spec fn float_results(
    s: CpuState,
    opcode: u32,
    u: bool,
    sub: bool,
    op: bool,
    q: bool,
    vd: usize,
    vn: usize,
    vm: usize,
) -> Seq<(u64, bool)> {
    let a = lanes(s, vn, q, 2);
    let b = lanes(s, vm, q, 2);
    let d = lanes(s, vd, q, 2);
    Seq::new(
        lane_count(q, 2) as nat,
        |i: int|
            (
                match float_elem(opcode, u, sub, op, a[i], b[i], d[i]) {
                    Some(v) => v,
                    None => 0,
                },
                false,
            ),
    )
}

/// The results of a pairwise operation: the first vector's pair, then the
/// second's.
pub open spec fn pairwise_float_results(
    s: CpuState,
    opcode: u32,
    sub: bool,
    vn: usize,
    vm: usize,
) -> Seq<(u64, bool)> {
    let a = lanes(s, vn, false, 2);
    let b = lanes(s, vm, false, 2);
    seq![
        (pairwise_elem(opcode, sub, a[0], a[1]), false),
        (pairwise_elem(opcode, sub, b[0], b[1]), false),
    ]
}

/// The floating-point operations on three vectors.
pub open spec fn neon_3same_f32(s: CpuState, instr: u32, pc: u32) -> (CpuState, Seen<bool>) {
    let u = bit(instr, 24);
    let size = (instr >> 20) & 3;
    let opcode = (instr >> 8) & 0xf;
    let q = bit(instr, 6);
    let op = bit(instr, 4);
    let sub = size >= 2;
    let (vd, vn, vm) = (dd(instr), dn(instr), dm(instr));
    if unaligned3(q, vd, vn, vm) || size % 2 == 1 {
        undefined(s, pc, instr)
    } else if is_pairwise(opcode, u, sub, op) {
        if q {
            undefined(s, pc, instr)
        } else {
            took(put_results(s, vd, false, 2, pairwise_float_results(s, opcode, sub, vn, vm)))
        }
    } else if !float_exists(opcode, u, sub, op) {
        passed(s)
    } else {
        took(put_results(s, vd, q, 2, float_results(s, opcode, u, sub, op, q, vd, vn, vm)))
    }
}

fn is_at_least(a: u64, b: u64) -> (r: bool)
    ensures
        r == at_least(a, b),
{
    less(b, a, false) || equal(a, b, false)
}

fn float_element(opcode: u32, u: bool, sub: bool, op: bool, a: u64, b: u64, d: u64) -> (r: u64)
    requires
        fits(a, false),
        fits(b, false),
        fits(d, false),
        float_exists(opcode, u, sub, op),
        !is_pairwise(opcode, u, sub, op),
    ensures
        float_elem(opcode, u, sub, op, a, b, d) == Some(r),
{
    match opcode {
        12 => fused(
            d,
            a,
            if sub {
                negate(b, false)
            } else {
                b
            },
        ),
        13 => {
            if !u {
                if op {
                    let product = times(a, b, false);
                    if sub {
                        minus(d, product, false)
                    } else {
                        plus(d, product, false)
                    }
                } else if sub {
                    minus(a, b, false)
                } else {
                    plus(a, b, false)
                }
            } else if op {
                times(a, b, false)
            } else {
                magnitude(minus(a, b, false), false)
            }
        },
        14 => {
            let pass = if !u {
                equal(a, b, false)
            } else {
                let (x, y) = if op {
                    (magnitude(a, false), magnitude(b, false))
                } else {
                    (a, b)
                };
                if sub {
                    less(y, x, false)
                } else {
                    is_at_least(x, y)
                }
            };
            neon_mask_if(pass, 2)
        },
        _ => {
            if op {
                let product = times(a, b, false);
                if sub {
                    times(minus(0x4040_0000, product, false), 0x3f00_0000, false)
                } else {
                    minus(0x4000_0000, product, false)
                }
            } else if sub {
                minimum(a, b, false)
            } else {
                maximum(a, b, false)
            }
        },
    }
}

fn pairwise_element(opcode: u32, sub: bool, a: u64, b: u64) -> (r: u64)
    requires
        fits(a, false),
        fits(b, false),
    ensures
        r == pairwise_elem(opcode, sub, a, b),
{
    if opcode == 13 {
        plus(a, b, false)
    } else if sub {
        minimum(a, b, false)
    } else {
        maximum(a, b, false)
    }
}

/// Where a scalar operand lies: register and lane.
pub open spec fn scalar_at(instr: u32, size: usize) -> (usize, usize) {
    if size == 1 {
        (
            (instr & 7) as usize,
            ((((instr >> 5) & 1) << 1) | ((instr >> 3) & 1)) as usize,
        )
    } else {
        ((instr & 0xf) as usize, ((instr >> 5) & 1) as usize)
    }
}

/// The scalar operand.
pub open spec fn scalar_of(s: CpuState, instr: u32, size: usize) -> u64 {
    let (reg, idx) = scalar_at(instr, size);
    lane(s.d(reg), idx, size)
}

/// One element of a multiplication by a scalar.
pub open spec fn scalar_elem(opcode: u32, size: usize, n: u64, k: u64, d: u64) -> (u64, bool) {
    let mask = elem_mask(size);
    let product = n.wrapping_mul(k);
    let fproduct = fmul(n, k, false);
    if opcode == 0 {
        (d.wrapping_add(product) & mask, false)
    } else if opcode == 1 {
        (fadd(d, fproduct, false), false)
    } else if opcode == 4 {
        (d.wrapping_sub(product) & mask, false)
    } else if opcode == 5 {
        (fsub(d, fproduct, false), false)
    } else if opcode == 8 {
        (product & mask, false)
    } else if opcode == 9 {
        (fproduct, false)
    } else {
        qdmulh(n, k, size, opcode == 13)
    }
}

/// One element of a long multiplication by a scalar.
pub open spec fn scalar_long_elem(
    opcode: u32,
    unsigned: bool,
    size: usize,
    n: u64,
    k: u64,
    acc: u64,
) -> (u64, bool) {
    let wide = (size + 1) as usize;
    let plain = mull(n, k, size, !unsigned);
    let (doubled, sat) = qdmull(n, k, size);
    if opcode == 2 {
        (acc.wrapping_add(plain) & elem_mask(wide), false)
    } else if opcode == 6 {
        (acc.wrapping_sub(plain) & elem_mask(wide), false)
    } else if opcode == 10 {
        (plain, false)
    } else if opcode == 11 {
        (doubled, sat)
    } else {
        let (v, sat2) = qaddsub(acc, doubled, wide, opcode == 7);
        (v, sat || sat2)
    }
}

/// The results of a multiplication by a scalar.
pub open spec fn scalar_results(
    s: CpuState,
    opcode: u32,
    size: usize,
    q: bool,
    k: u64,
    vd: usize,
    vn: usize,
) -> Seq<(u64, bool)> {
    let n = lanes(s, vn, q, size);
    let d = lanes(s, vd, q, size);
    Seq::new(lane_count(q, size) as nat, |i: int| scalar_elem(opcode, size, n[i], k, d[i]))
}

/// The results of a long multiplication by a scalar.
pub open spec fn scalar_long_results(
    s: CpuState,
    opcode: u32,
    unsigned: bool,
    size: usize,
    k: u64,
    vd: usize,
    vn: usize,
) -> Seq<(u64, bool)> {
    let n = lanes(s, vn, false, size);
    let acc = lanes(s, vd, true, (size + 1) as usize);
    Seq::new(
        per_d(size) as nat,
        |i: int| scalar_long_elem(opcode, unsigned, size, n[i], k, acc[i]),
    )
}

/// Whether a word is a multiplication by a scalar.
pub open spec fn is_scalar_mul(instr: u32) -> bool {
    let opcode = (instr >> 8) & 0xf;
    opcode == 0 || opcode == 1 || opcode == 4 || opcode == 5 || opcode == 8 || opcode == 9 || opcode
        == 12 || opcode == 13
}

/// Whether a word is a long multiplication by a scalar; the doubling ones are
/// signed.
pub open spec fn is_scalar_long(instr: u32) -> bool {
    let opcode = (instr >> 8) & 0xf;
    opcode == 2 || opcode == 6 || opcode == 10 || ((opcode == 3 || opcode == 7 || opcode == 11)
        && !bit(instr, 24))
}

/// The multiplications by a scalar.
pub open spec fn neon_scalar(s: CpuState, instr: u32, pc: u32) -> (CpuState, Seen<bool>) {
    let q = bit(instr, 24);
    let size = ((instr >> 20) & 3) as usize;
    let opcode = (instr >> 8) & 0xf;
    let (vd, vn) = (dd(instr), dn(instr));
    let k = scalar_of(s, instr, size);
    if is_scalar_mul(instr) {
        if size == 0 || size == 3 || (q && (odd(vd) || odd(vn))) || ((opcode == 1 || opcode == 5
            || opcode == 9) && size != 2) {
            undefined(s, pc, instr)
        } else {
            took(put_results(s, vd, q, size, scalar_results(s, opcode, size, q, k, vd, vn)))
        }
    } else if is_scalar_long(instr) {
        if size == 0 || size == 3 || odd(vd) {
            undefined(s, pc, instr)
        } else {
            took(
                put_results(
                    s,
                    vd,
                    true,
                    (size + 1) as usize,
                    scalar_long_results(s, opcode, q, size, k, vd, vn),
                ),
            )
        }
    } else {
        passed(s)
    }
}

fn scalar_element(opcode: u32, size: usize, n: u64, k: u64, d: u64) -> (r: (u64, bool))
    requires
        1 <= size <= 2,
        n <= elem_mask(size),
        k <= elem_mask(size),
        d <= elem_mask(size),
        opcode == 0 || opcode == 1 || opcode == 4 || opcode == 5 || opcode == 8 || opcode == 9
            || opcode == 12 || opcode == 13,
    ensures
        r == scalar_elem(opcode, size, n, k, d),
{
    let mask = neon_elem_mask(size);
    match opcode {
        0 => (d.wrapping_add(n.wrapping_mul(k)) & mask, false),
        1 => (plus(d, times(n, k, false), false), false),
        4 => (d.wrapping_sub(n.wrapping_mul(k)) & mask, false),
        5 => (minus(d, times(n, k, false), false), false),
        8 => (n.wrapping_mul(k) & mask, false),
        9 => (times(n, k, false), false),
        _ => neon_saturating_doubling_mul_high(n, k, size, opcode == 13),
    }
}

fn scalar_long_element(opcode: u32, unsigned: bool, size: usize, n: u64, k: u64, acc: u64) -> (r: (
    u64,
    bool,
))
    requires
        1 <= size <= 2,
    ensures
        r == scalar_long_elem(opcode, unsigned, size, n, k, acc),
{
    let mask = neon_elem_mask(size + 1);
    match opcode {
        2 => (acc.wrapping_add(neon_multiply_long(n, k, size, !unsigned)) & mask, false),
        6 => (acc.wrapping_sub(neon_multiply_long(n, k, size, !unsigned)) & mask, false),
        10 => (neon_multiply_long(n, k, size, !unsigned), false),
        11 => neon_saturating_doubling_mul_long(n, k, size),
        _ => {
            let (doubled, sat) = neon_saturating_doubling_mul_long(n, k, size);
            let (v, sat2) = neon_saturating_add_sub_wide(acc, doubled, size + 1, opcode == 7);
            (v, sat || sat2)
        },
    }
}

impl Cpu {
    fn exec_neon_pairwise_float(
        &mut self,
        opcode: u32,
        sub: bool,
        vd: usize,
        vn: usize,
        vm: usize,
    )
        requires
            vd < 32,
            vn < 32,
            vm < 32,
        ensures
            final(self)@ == put_results(
                old(self)@,
                vd,
                false,
                2,
                pairwise_float_results(old(self)@, opcode, sub, vn, vm),
            ),
    {
        let a = self.neon_reg_lanes(vn, false, 2);
        let b = self.neon_reg_lanes(vm, false, 2);
        let ghost res = pairwise_float_results(self@, opcode, sub, vn, vm);
        let mut out: [u64; 16] = [0;16];
        out[0] = pairwise_element(opcode, sub, a[0], a[1]);
        out[1] = pairwise_element(opcode, sub, b[0], b[1]);
        assert(res.len() == 2);
        assert(out@[0] == res[0].0 && out@[1] == res[1].0);
        self.put_neon_results(vd, false, 2, out, false, Ghost(res));
    }

    pub(crate) fn exec_arm_neon_3same_f32(&mut self, instr: u32, pc: u32) -> (r: Result<bool>)
        requires
            12 <= (instr >> 8) & 0xf,
        ensures
            (final(self)@, seen(r)) == neon_3same_f32(old(self)@, instr, pc),
    {
        let u = bit_at(instr, 24);
        let size = (instr >> 20) & 3;
        let opcode = (instr >> 8) & 0xf;
        let q = bit_at(instr, 6);
        let op = bit_at(instr, 4);
        let sub = size >= 2;
        let vd = vfp_double_d(instr);
        let vn = vfp_double_n(instr);
        let vm = vfp_double_m(instr);
        if (q && (vd % 2 != 0 || vn % 2 != 0 || vm % 2 != 0)) || size % 2 == 1 {
            return Err(Trap::UndefinedArm { pc, instr });
        }
        if u && !op && ((opcode == 13 && !sub) || opcode == 15) {
            if q {
                return Err(Trap::UndefinedArm { pc, instr });
            }
            self.exec_neon_pairwise_float(opcode, sub, vd, vn, vm);
            return Ok(true);
        }
        let exists_form = match opcode {
            12 => !u && op,
            13 => !(u && sub == op),
            14 => u || (!sub && !op),
            _ => !u,
        };
        if !exists_form {
            return Ok(false);
        }
        let n = neon_lanes(q, 2);
        let a = self.neon_reg_lanes(vn, q, 2);
        let b = self.neon_reg_lanes(vm, q, 2);
        let d = self.neon_reg_lanes(vd, q, 2);
        let ghost res = float_results(self@, opcode, u, sub, op, q, vd, vn, vm);
        let mut out: [u64; 16] = [0;16];
        let mut i: usize = 0;
        while i < n
            invariant
                i <= n <= 16,
                n == lane_count(q, 2),
                float_exists(opcode, u, sub, op),
                !is_pairwise(opcode, u, sub, op),
                a@.take(n as int) == lanes(self@, vn, q, 2),
                b@.take(n as int) == lanes(self@, vm, q, 2),
                d@.take(n as int) == lanes(self@, vd, q, 2),
                forall|j: int|
                    0 <= j < n ==> a@[j] <= 0xffff_ffff && b@[j] <= 0xffff_ffff && d@[j]
                        <= 0xffff_ffff,
                res == float_results(self@, opcode, u, sub, op, q, vd, vn, vm),
                forall|j: int| 0 <= j < i ==> out@[j] == (#[trigger] res[j]).0,
            decreases n - i,
        {
            assert(a@[i as int] == a@.take(n as int)[i as int]);
            assert(b@[i as int] == b@.take(n as int)[i as int]);
            assert(d@[i as int] == d@.take(n as int)[i as int]);
            out[i] = float_element(opcode, u, sub, op, a[i], b[i], d[i]);
            assert(out@[i as int] == res[i as int].0);
            i += 1;
        }
        self.put_neon_results(vd, q, 2, out, false, Ghost(res));
        Ok(true)
    }

    fn neon_scalar_operand(&self, instr: u32, size: usize) -> (r: u64)
        requires
            1 <= size <= 2,
        ensures
            r == scalar_of(self@, instr, size),
            r <= elem_mask(size),
    {
        if size == 1 {
            let reg = (instr & 7) as usize;
            let idx = ((((instr >> 5) & 1) << 1) | ((instr >> 3) & 1)) as usize;
            assert((((instr >> 5) & 1) << 1) | ((instr >> 3) & 1) < 4) by (bit_vector);
            neon_read_elem(self.dreg(reg), idx, size)
        } else {
            neon_read_elem(self.dreg((instr & 0xf) as usize), ((instr >> 5) & 1) as usize, size)
        }
    }

    fn exec_arm_neon_scalar_mul(
        &mut self,
        opcode: u32,
        size: usize,
        q: bool,
        k: u64,
        vd: usize,
        vn: usize,
    )
        requires
            1 <= size <= 2,
            k <= elem_mask(size),
            opcode == 0 || opcode == 1 || opcode == 4 || opcode == 5 || opcode == 8 || opcode == 9
                || opcode == 12 || opcode == 13,
            vd < 32,
            vn < 32,
            q ==> vd < 31 && vn < 31,
        ensures
            final(self)@ == put_results(
                old(self)@,
                vd,
                q,
                size,
                scalar_results(old(self)@, opcode, size, q, k, vd, vn),
            ),
    {
        let n = neon_lanes(q, size);
        let src = self.neon_reg_lanes(vn, q, size);
        let old_dst = self.neon_reg_lanes(vd, q, size);
        let ghost res = scalar_results(self@, opcode, size, q, k, vd, vn);
        let mut out: [u64; 16] = [0;16];
        let mut sat = false;
        let mut i: usize = 0;
        while i < n
            invariant
                i <= n <= 16,
                1 <= size <= 2,
                k <= elem_mask(size),
                opcode == 0 || opcode == 1 || opcode == 4 || opcode == 5 || opcode == 8 || opcode
                    == 9 || opcode == 12 || opcode == 13,
                n == lane_count(q, size),
                src@.take(n as int) == lanes(self@, vn, q, size),
                old_dst@.take(n as int) == lanes(self@, vd, q, size),
                forall|j: int|
                    0 <= j < n ==> src@[j] <= elem_mask(size) && old_dst@[j] <= elem_mask(size),
                res == scalar_results(self@, opcode, size, q, k, vd, vn),
                forall|j: int| 0 <= j < i ==> out@[j] == (#[trigger] res[j]).0,
                sat == exists|j: int| 0 <= j < i && (#[trigger] res[j]).1,
            decreases n - i,
        {
            assert(src@[i as int] == src@.take(n as int)[i as int]);
            assert(old_dst@[i as int] == old_dst@.take(n as int)[i as int]);
            let (value, saturated) = scalar_element(opcode, size, src[i], k, old_dst[i]);
            assert((value, saturated) == res[i as int]);
            out[i] = value;
            sat = sat || saturated;
            i += 1;
        }
        self.put_neon_results(vd, q, size, out, sat, Ghost(res));
    }

    fn exec_arm_neon_scalar_long_mul(
        &mut self,
        opcode: u32,
        unsigned: bool,
        size: usize,
        k: u64,
        vd: usize,
        vn: usize,
    )
        requires
            1 <= size <= 2,
            vd < 31,
            vn < 32,
        ensures
            final(self)@ == put_results(
                old(self)@,
                vd,
                true,
                (size + 1) as usize,
                scalar_long_results(old(self)@, opcode, unsigned, size, k, vd, vn),
            ),
    {
        let n = neon_per_d(size);
        let src = self.neon_reg_lanes(vn, false, size);
        let acc = self.neon_reg_lanes(vd, true, size + 1);
        let ghost res = scalar_long_results(self@, opcode, unsigned, size, k, vd, vn);
        let mut out: [u64; 16] = [0;16];
        let mut sat = false;
        let mut i: usize = 0;
        while i < n
            invariant
                i <= n <= 8,
                1 <= size <= 2,
                n == per_d(size),
                n == lane_count(false, size),
                n == lane_count(true, (size + 1) as usize),
                src@.take(n as int) == lanes(self@, vn, false, size),
                acc@.take(n as int) == lanes(self@, vd, true, (size + 1) as usize),
                res == scalar_long_results(self@, opcode, unsigned, size, k, vd, vn),
                forall|j: int| 0 <= j < i ==> out@[j] == (#[trigger] res[j]).0,
                sat == exists|j: int| 0 <= j < i && (#[trigger] res[j]).1,
            decreases n - i,
        {
            assert(src@[i as int] == src@.take(n as int)[i as int]);
            assert(acc@[i as int] == acc@.take(n as int)[i as int]);
            let (value, saturated) = scalar_long_element(opcode, unsigned, size, src[i], k, acc[i]);
            assert((value, saturated) == res[i as int]);
            out[i] = value;
            sat = sat || saturated;
            i += 1;
        }
        self.put_neon_results(vd, true, size + 1, out, sat, Ghost(res));
    }

    pub(crate) fn exec_arm_neon_2reg_scalar(&mut self, instr: u32, pc: u32) -> (r: Result<bool>)
        ensures
            (final(self)@, seen(r)) == neon_scalar(old(self)@, instr, pc),
            r == Ok::<bool, Trap>(false) ==> final(self)@ == old(self)@,
    {
        let q_or_u = bit_at(instr, 24);
        let size = ((instr >> 20) & 3) as usize;
        let vd = vfp_double_d(instr);
        let vn = vfp_double_n(instr);
        let opcode = (instr >> 8) & 0xf;
        match opcode {
            0 | 1 | 4 | 5 | 8 | 9 | 12 | 13 => {
                if size == 0 || size == 3 || (q_or_u && (vd % 2 != 0 || vn % 2 != 0)) || ((opcode
                    == 1 || opcode == 5 || opcode == 9) && size != 2) {
                    return Err(Trap::UndefinedArm { pc, instr });
                }
                let k = self.neon_scalar_operand(instr, size);
                self.exec_arm_neon_scalar_mul(opcode, size, q_or_u, k, vd, vn);
                Ok(true)
            },
            2 | 3 | 6 | 7 | 10 | 11 => {
                if (opcode == 3 || opcode == 7 || opcode == 11) && q_or_u {
                    return Ok(false);
                }
                if size == 0 || size == 3 || vd % 2 != 0 {
                    return Err(Trap::UndefinedArm { pc, instr });
                }
                let k = self.neon_scalar_operand(instr, size);
                self.exec_arm_neon_scalar_long_mul(opcode, q_or_u, size, k, vd, vn);
                Ok(true)
            },
            _ => Ok(false),
        }
    }
}

} // verus!
