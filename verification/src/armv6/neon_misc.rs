//! Vector instructions on two registers: reversal, counting, comparison with
//! zero, narrowing, permutation, estimates and conversion.

use super::bits::{bit, bit_at, count_ones, group_masks, ones_below};
use super::cpu::{passed, took, undefined, unpredictable, Cpu, CpuState, Seen};
use super::float::{
    equal, fdiv, feq, flt, from_integer, fsqrt, less, of_int, over, root, Rounding,
};
use super::neon_arith::{
    leading, mask_if, neon_leading, neon_mask_if, neon_recpe_u32, neon_rsqrte_u32,
    neon_saturating_narrow_to_signed, neon_saturating_narrow_to_unsigned,
    neon_saturating_narrow_unsigned_to_signed, neon_sign_extend, qmovn, qmovn_unsigned, qmovun,
    recpe, rsqrte, smax, smin, sx,
};
use super::neon_lane::{
    elem_bits, elem_mask, lane_count, lanes, neon_elem_bits, neon_elem_mask, neon_lanes, neon_per_d,
    per_d, put_results, with_lanes,
};
use super::neon_three::{joined, odd};
use super::neon_two::unaligned2;
use super::trap::{seen, Result, Trap};
use super::vfp_math::{float_to_word, word_of_float, word_value};
use super::vfp_regs::{dd, dm, vfp_double_d, vfp_double_m};
use vstd::prelude::*;

verus! {

broadcast use group_masks;

/// The bits whose leading ones count sign bits: a negative element
/// complemented.
pub open spec fn unsigned_part(v: u64, size: usize) -> u64 {
    if v & (1u64 << ((elem_bits(size) - 1) as u64)) != 0 {
        !v & elem_mask(size)
    } else {
        v
    }
}

/// One element of the counting and complementing operations.
pub open spec fn count_elem(op2: u32, size: usize, v: u64) -> u64 {
    if op2 == 8 {
        leading(unsigned_part(v, size), (elem_bits(size) - 1) as nat) as u64
    } else if op2 == 9 {
        leading(v, elem_bits(size) as nat) as u64
    } else if op2 == 10 {
        ones_below(v as u32, 8) as u64
    } else {
        !v & 0xff
    }
}

/// One element of a saturating absolute value or negation.
pub open spec fn sat_abs_neg(negate: bool, size: usize, v: u64) -> (u64, bool) {
    let x = sx(v, size);
    if x == smin(size) {
        ((smax(size) as i64) as u64, true)
    } else if negate || x < 0 {
        (((-x) as i64) as u64, false)
    } else {
        (x as u64, false)
    }
}

/// A comparison of an integer element with zero.
pub open spec fn int_zero(kind: u32, x: int) -> bool {
    if kind == 0 {
        x > 0
    } else if kind == 1 {
        x >= 0
    } else if kind == 2 {
        x == 0
    } else if kind == 3 {
        x <= 0
    } else {
        x < 0
    }
}

/// A comparison of a floating-point element with zero.
pub open spec fn float_zero(kind: u32, v: u64) -> bool {
    if kind == 0 {
        flt(0, v, false)
    } else if kind == 1 {
        flt(0, v, false) || feq(0, v, false)
    } else if kind == 2 {
        feq(0, v, false)
    } else if kind == 3 {
        flt(v, 0, false) || feq(0, v, false)
    } else {
        flt(v, 0, false)
    }
}

/// One element of an absolute value or negation.
pub open spec fn abs_neg(op2: u32, size: usize, v: u64) -> u64 {
    if op2 == 15 {
        ((v as u32) ^ 0x8000_0000) as u64
    } else if op2 == 14 {
        ((v as u32) & 0x7fff_ffff) as u64
    } else if op2 == 7 || sx(v, size) < 0 {
        0u64.wrapping_sub(v) & elem_mask(size)
    } else {
        v & elem_mask(size)
    }
}

/// One element of a reciprocal or reciprocal square root estimate.
pub open spec fn estimate(op2: u32, v: u64) -> u64 {
    if op2 == 8 {
        recpe(v as u32) as u64
    } else if op2 == 9 {
        rsqrte(v as u32) as u64
    } else if op2 == 10 {
        fdiv(0x3f80_0000, v, false)
    } else {
        fdiv(0x3f80_0000, fsqrt(v, false), false)
    }
}

/// One element of a conversion between integers and floating point.
pub open spec fn convert(op2: u32, v: u64) -> u64 {
    let unsigned = op2 % 2 == 1;
    if op2 >= 14 {
        word_of_float(v, false, Rounding::Zero, unsigned).0 as u64
    } else {
        of_int(word_value(v as u32, unsigned), false)
    }
}

/// The element-wise operations of the space.
pub open spec fn is_elementwise(op1: u32, op2: u32) -> bool {
    ||| op1 == 0 && (8 <= op2 <= 11 || op2 >= 14)
    ||| op1 == 1 && op2 != 5 && op2 != 13
    ||| op1 == 3 && op2 >= 8
}

/// Which element sizes an element-wise operation does not have.
pub open spec fn elementwise_refused(op1: u32, op2: u32, size: usize) -> bool {
    if op1 == 0 && (op2 == 10 || op2 == 11) {
        size != 0
    } else if op1 == 3 || (op1 == 1 && op2 >= 8) {
        size != 2
    } else {
        size == 3
    }
}

/// One element of an element-wise operation.
pub open spec fn misc_elem(op1: u32, op2: u32, size: usize, v: u64) -> (u64, bool) {
    if op1 == 0 {
        if op2 >= 14 {
            sat_abs_neg(op2 == 15, size, v)
        } else {
            (count_elem(op2, size, v), false)
        }
    } else if op1 == 1 {
        if op2 == 6 || op2 == 7 || op2 >= 14 {
            (abs_neg(op2, size, v), false)
        } else if op2 >= 8 {
            (mask_if(float_zero((op2 - 8) as u32, v), 2), false)
        } else {
            (mask_if(int_zero(op2, sx(v, size) as int), size), false)
        }
    } else if op2 < 12 {
        (estimate(op2, v), false)
    } else {
        (convert(op2, v), false)
    }
}

/// The results of an element-wise operation.
pub open spec fn misc_results(
    s: CpuState,
    op1: u32,
    op2: u32,
    size: usize,
    q: bool,
    vm: usize,
) -> Seq<(u64, bool)> {
    let v = lanes(s, vm, q, size);
    Seq::new(lane_count(q, size) as nat, |i: int| misc_elem(op1, op2, size, v[i]))
}

/// Elements in reversed order within groups; `op2` selects the group size.
pub open spec fn reversed(s: CpuState, op2: u32, size: usize, q: bool, vm: usize) -> Seq<
    (u64, bool),
> {
    let v = lanes(s, vm, q, size);
    let n = per_d((op2 + size) as usize) as int;
    Seq::new(lane_count(q, size) as nat, |i: int| (v[i - i % n + (n - 1 - i % n)], false))
}

/// One pairwise sum at twice the width.
pub open spec fn long_pair(a: u64, b: u64, size: usize, unsigned: bool) -> u64 {
    (if unsigned {
        a.wrapping_add(b)
    } else {
        ((sx(a, size) + sx(b, size)) as i64) as u64
    }) & elem_mask((size + 1) as usize)
}

/// The pairwise sums of a vector, added to the destination on request.
pub open spec fn pairwise_results(
    s: CpuState,
    size: usize,
    unsigned: bool,
    accumulate: bool,
    q: bool,
    vd: usize,
    vm: usize,
) -> Seq<(u64, bool)> {
    let wide = (size + 1) as usize;
    let v = lanes(s, vm, q, size);
    let old = lanes(s, vd, q, wide);
    Seq::new(
        lane_count(q, wide) as nat,
        |i: int|
            {
                let pair = long_pair(v[2 * i], v[2 * i + 1], size, unsigned);
                (
                    if accumulate {
                        pair.wrapping_add(old[i]) & elem_mask(wide)
                    } else {
                        pair
                    },
                    false,
                )
            },
    )
}

/// How a narrowing move treats its elements.
#[derive(Debug, Clone, Copy, PartialEq, Eq, Structural)]
pub enum Narrowing {
    Truncate,
    SignedToUnsigned,
    Signed,
    Unsigned,
}

/// One element of a narrowing move.
pub open spec fn narrow_elem(kind: Narrowing, size: usize, v: u64) -> (u64, bool) {
    match kind {
        Narrowing::Truncate => (v & elem_mask(size), false),
        Narrowing::SignedToUnsigned => qmovun(v, size, true),
        Narrowing::Signed => qmovn(v, size),
        Narrowing::Unsigned => qmovn_unsigned(v, size),
    }
}

/// The results of a narrowing move.
pub open spec fn narrow_move_results(s: CpuState, kind: Narrowing, size: usize, vm: usize) -> Seq<
    (u64, bool),
> {
    let v = lanes(s, vm, true, (size + 1) as usize);
    Seq::new(per_d(size) as nat, |i: int| narrow_elem(kind, size, v[i]))
}

/// The results of a lengthening shift by the element width.
pub open spec fn shift_full_results(s: CpuState, size: usize, vm: usize) -> Seq<(u64, bool)> {
    let v = lanes(s, vm, false, size);
    Seq::new(
        per_d(size) as nat,
        |i: int| ((v[i] << elem_bits(size)) & elem_mask((size + 1) as usize), false),
    )
}

/// The first vector of a transposition, an unzip or a zip.
pub open spec fn permuted_first(op2: u32, a: Seq<u64>, b: Seq<u64>) -> Seq<u64> {
    Seq::new(
        a.len(),
        |i: int|
            if op2 == 1 {
                if i % 2 == 0 {
                    a[i]
                } else {
                    b[i - 1]
                }
            } else if op2 == 2 {
                joined(a, b, 2 * i)
            } else if i % 2 == 0 {
                a[i / 2]
            } else {
                b[i / 2]
            },
    )
}

/// The second vector of a transposition, an unzip or a zip.
pub open spec fn permuted_second(op2: u32, a: Seq<u64>, b: Seq<u64>) -> Seq<u64> {
    let n = a.len();
    Seq::new(
        n,
        |i: int|
            if op2 == 1 {
                if i % 2 == 0 {
                    a[i + 1]
                } else {
                    b[i]
                }
            } else if op2 == 2 {
                joined(a, b, 2 * i + 1)
            } else if (n + i) % 2 == 0 {
                a[(n + i) / 2]
            } else {
                b[(n + i) / 2]
            },
    )
}

/// VSWP, VTRN, VUZP and VZIP: both registers are written, the second operand
/// last.
pub open spec fn permuted(s: CpuState, op2: u32, size: usize, q: bool, vd: usize, vm: usize) -> CpuState {
    let a = lanes(s, vd, q, size);
    let b = lanes(s, vm, q, size);
    if op2 == 0 {
        with_lanes(with_lanes(s, vd, q, size, b), vm, q, size, a)
    } else {
        with_lanes(
            with_lanes(s, vd, q, size, permuted_first(op2, a, b)),
            vm,
            q,
            size,
            permuted_second(op2, a, b),
        )
    }
}

/// VSWP, VTRN, VUZP and VZIP on given registers.
pub open spec fn neon_permute(
    s: CpuState,
    instr: u32,
    pc: u32,
    size: usize,
    op2: u32,
    q: bool,
    vd: usize,
    vm: usize,
) -> (CpuState, Seen<bool>) {
    if vd >= 32 || vm >= 32 {
        unpredictable(s, "VFP double register out of range"@)
    } else if unaligned2(q, vd, vm) || size == 3 || (op2 >= 2 && !q && size == 2) {
        undefined(s, pc, instr)
    } else {
        took(permuted(s, op2, size, q, vd, vm))
    }
}

/// The operations on two registers that the second opcode field selects.
pub open spec fn neon_misc(s: CpuState, instr: u32, pc: u32) -> (CpuState, Seen<bool>) {
    let q = bit(instr, 6);
    let size = ((instr >> 18) & 3) as usize;
    let op1 = (instr >> 16) & 3;
    let op2 = (instr >> 7) & 0xf;
    let (vd, vm) = (dd(instr), dm(instr));
    let wide = (size + 1) as usize;
    if op1 == 0 && op2 <= 2 {
        if unaligned2(q, vd, vm) || op2 + size >= 3 {
            undefined(s, pc, instr)
        } else {
            took(put_results(s, vd, q, size, reversed(s, op2, size, q, vm)))
        }
    } else if op1 == 0 && (op2 == 4 || op2 == 5 || op2 == 12 || op2 == 13) {
        if size == 3 || unaligned2(q, vd, vm) {
            undefined(s, pc, instr)
        } else {
            took(
                put_results(
                    s,
                    vd,
                    q,
                    wide,
                    pairwise_results(s, size, op2 % 2 == 1, op2 >= 12, q, vd, vm),
                ),
            )
        }
    } else if is_elementwise(op1, op2) {
        if elementwise_refused(op1, op2, size) || unaligned2(q, vd, vm) {
            undefined(s, pc, instr)
        } else {
            took(put_results(s, vd, q, size, misc_results(s, op1, op2, size, q, vm)))
        }
    } else if op1 == 2 && op2 <= 3 {
        if unaligned2(q, vd, vm) || size == 3 || (op2 >= 2 && !q && size == 2) {
            undefined(s, pc, instr)
        } else {
            took(permuted(s, op2, size, q, vd, vm))
        }
    } else if op1 == 2 && (op2 == 4 || op2 == 5) {
        let kind = if op2 == 5 {
            if q {
                Narrowing::Unsigned
            } else {
                Narrowing::Signed
            }
        } else if q {
            Narrowing::SignedToUnsigned
        } else {
            Narrowing::Truncate
        };
        if size == 3 || odd(vm) {
            undefined(s, pc, instr)
        } else {
            took(put_results(s, vd, false, size, narrow_move_results(s, kind, size, vm)))
        }
    } else if op1 == 2 && op2 == 6 && !q {
        if size == 3 || odd(vd) {
            undefined(s, pc, instr)
        } else {
            took(put_results(s, vd, true, wide, shift_full_results(s, size, vm)))
        }
    } else {
        passed(s)
    }
}

fn misc_element(op1: u32, op2: u32, size: usize, v: u64) -> (r: (u64, bool))
    requires
        size <= 3,
        v <= elem_mask(size),
        is_elementwise(op1, op2),
        !elementwise_refused(op1, op2, size),
        op1 <= 3,
        op2 <= 15,
    ensures
        r == misc_elem(op1, op2, size, v),
{
    let mask = neon_elem_mask(size);
    let bits = neon_elem_bits(size);
    if op1 == 0 {
        match op2 {
            8 => {
                let part = if v & (1u64 << ((bits - 1) as u64)) != 0 {
                    !v & mask
                } else {
                    v
                };
                (neon_leading(part, bits - 1) as u64, false)
            },
            9 => (neon_leading(v, bits) as u64, false),
            10 => (count_ones(v as u32, 8) as u64, false),
            11 => (!v & 0xff, false),
            _ => {
                let x = neon_sign_extend(v, size);
                let max: i64 = match size {
                    0 => 0x7f,
                    1 => 0x7fff,
                    _ => 0x7fff_ffff,
                };
                if x == -max - 1 {
                    (max as u64, true)
                } else if op2 == 15 || x < 0 {
                    ((-x) as u64, false)
                } else {
                    (x as u64, false)
                }
            },
        }
    } else if op1 == 1 {
        match op2 {
            15 => (((v as u32) ^ 0x8000_0000) as u64, false),
            14 => (((v as u32) & 0x7fff_ffff) as u64, false),
            6 | 7 => {
                if op2 == 7 || neon_sign_extend(v, size) < 0 {
                    (0u64.wrapping_sub(v) & mask, false)
                } else {
                    (v & mask, false)
                }
            },
            8 => (neon_mask_if(less(0, v, false), 2), false),
            9 => (neon_mask_if(less(0, v, false) || equal(0, v, false), 2), false),
            10 => (neon_mask_if(equal(0, v, false), 2), false),
            11 => (neon_mask_if(less(v, 0, false) || equal(0, v, false), 2), false),
            12 => (neon_mask_if(less(v, 0, false), 2), false),
            _ => {
                let x = neon_sign_extend(v, size);
                let pass = match op2 {
                    0 => x > 0,
                    1 => x >= 0,
                    2 => x == 0,
                    3 => x <= 0,
                    _ => x < 0,
                };
                (neon_mask_if(pass, size), false)
            },
        }
    } else {
        let unsigned = op2 % 2 == 1;
        match op2 {
            8 => (neon_recpe_u32(v as u32) as u64, false),
            9 => (neon_rsqrte_u32(v as u32) as u64, false),
            10 => (over(0x3f80_0000, v, false), false),
            11 => (over(0x3f80_0000, root(v, false), false), false),
            12 | 13 => (
                from_integer(
                    if unsigned {
                        v as u32 as i64
                    } else {
                        v as u32 as i32 as i64
                    },
                    false,
                ),
                false,
            ),
            _ => (float_to_word(v, false, Rounding::Zero, unsigned).0 as u64, false),
        }
    }
}

fn narrow_element(kind: Narrowing, size: usize, v: u64) -> (r: (u64, bool))
    requires
        size <= 2,
    ensures
        r == narrow_elem(kind, size, v),
{
    match kind {
        Narrowing::Truncate => (v & neon_elem_mask(size), false),
        Narrowing::SignedToUnsigned => neon_saturating_narrow_to_unsigned(v, size, true),
        Narrowing::Signed => neon_saturating_narrow_to_signed(v, size),
        Narrowing::Unsigned => neon_saturating_narrow_unsigned_to_signed(v, size),
    }
}

impl Cpu {
    fn exec_neon_elementwise(
        &mut self,
        op1: u32,
        op2: u32,
        size: usize,
        q: bool,
        vd: usize,
        vm: usize,
    )
        requires
            size <= 3,
            op1 <= 3,
            op2 <= 15,
            is_elementwise(op1, op2),
            !elementwise_refused(op1, op2, size),
            vd < 32,
            vm < 32,
            q ==> vd < 31 && vm < 31,
        ensures
            final(self)@ == put_results(
                old(self)@,
                vd,
                q,
                size,
                misc_results(old(self)@, op1, op2, size, q, vm),
            ),
    {
        let n = neon_lanes(q, size);
        let src = self.neon_reg_lanes(vm, q, size);
        let ghost res = misc_results(self@, op1, op2, size, q, vm);
        let mut out: [u64; 16] = [0;16];
        let mut sat = false;
        let mut i: usize = 0;
        while i < n
            invariant
                i <= n <= 16,
                size <= 3,
                op1 <= 3,
                op2 <= 15,
                is_elementwise(op1, op2),
                !elementwise_refused(op1, op2, size),
                n == lane_count(q, size),
                src@.take(n as int) == lanes(self@, vm, q, size),
                forall|j: int| 0 <= j < n ==> src@[j] <= elem_mask(size),
                res == misc_results(self@, op1, op2, size, q, vm),
                forall|j: int| 0 <= j < i ==> out@[j] == (#[trigger] res[j]).0,
                sat == exists|j: int| 0 <= j < i && (#[trigger] res[j]).1,
            decreases n - i,
        {
            assert(src@[i as int] == src@.take(n as int)[i as int]);
            let (value, saturated) = misc_element(op1, op2, size, src[i]);
            assert((value, saturated) == res[i as int]);
            out[i] = value;
            sat = sat || saturated;
            i += 1;
        }
        self.put_neon_results(vd, q, size, out, sat, Ghost(res));
    }

    fn exec_neon_reverse(&mut self, op2: u32, size: usize, q: bool, vd: usize, vm: usize)
        requires
            op2 + size < 3,
            vd < 32,
            vm < 32,
            q ==> vd < 31 && vm < 31,
        ensures
            final(self)@ == put_results(
                old(self)@,
                vd,
                q,
                size,
                reversed(old(self)@, op2, size, q, vm),
            ),
    {
        let n = neon_lanes(q, size);
        let src = self.neon_reg_lanes(vm, q, size);
        let group = neon_per_d(op2 as usize + size);
        let ghost res = reversed(self@, op2, size, q, vm);
        let mut out: [u64; 16] = [0;16];
        let mut i: usize = 0;
        while i < n
            invariant
                i <= n <= 16,
                op2 + size < 3,
                n == lane_count(q, size),
                group == per_d((op2 + size) as usize),
                src@.take(n as int) == lanes(self@, vm, q, size),
                res == reversed(self@, op2, size, q, vm),
                forall|j: int| 0 <= j < i ==> out@[j] == (#[trigger] res[j]).0,
            decreases n - i,
        {
            assert(group == 8 || group == 4 || group == 2);
            assert(i - i % group + group <= n);
            let at = i - i % group + (group - 1 - i % group);
            assert(src@[at as int] == src@.take(n as int)[at as int]);
            out[i] = src[at];
            assert(out@[i as int] == res[i as int].0);
            i += 1;
        }
        self.put_neon_results(vd, q, size, out, false, Ghost(res));
    }

    fn exec_arm_neon_pairwise_add_long(
        &mut self,
        size: usize,
        unsigned: bool,
        accumulate: bool,
        q: bool,
        vd: usize,
        vm: usize,
    )
        requires
            size <= 2,
            vd < 32,
            vm < 32,
            q ==> vd < 31 && vm < 31,
        ensures
            final(self)@ == put_results(
                old(self)@,
                vd,
                q,
                (size + 1) as usize,
                pairwise_results(old(self)@, size, unsigned, accumulate, q, vd, vm),
            ),
    {
        let n = neon_lanes(q, size + 1);
        let src = self.neon_reg_lanes(vm, q, size);
        let old_dst = self.neon_reg_lanes(vd, q, size + 1);
        let mask = neon_elem_mask(size + 1);
        let ghost count = lane_count(q, size) as int;
        let ghost res = pairwise_results(self@, size, unsigned, accumulate, q, vd, vm);
        let mut out: [u64; 16] = [0;16];
        let mut i: usize = 0;
        while i < n
            invariant
                i <= n <= 8,
                size <= 2,
                mask == elem_mask((size + 1) as usize),
                n == lane_count(q, (size + 1) as usize),
                count == lane_count(q, size),
                count == 2 * n,
                src@.take(count) == lanes(self@, vm, q, size),
                old_dst@.take(n as int) == lanes(self@, vd, q, (size + 1) as usize),
                res == pairwise_results(self@, size, unsigned, accumulate, q, vd, vm),
                forall|j: int| 0 <= j < i ==> out@[j] == (#[trigger] res[j]).0,
            decreases n - i,
        {
            assert(src@[2 * i] == src@.take(count)[2 * i]);
            assert(src@[2 * i + 1] == src@.take(count)[2 * i + 1]);
            assert(old_dst@[i as int] == old_dst@.take(n as int)[i as int]);
            let a = src[2 * i];
            let b = src[2 * i + 1];
            let pair = (if unsigned {
                a.wrapping_add(b)
            } else {
                (neon_sign_extend(a, size) + neon_sign_extend(b, size)) as u64
            }) & mask;
            out[i] = if accumulate {
                pair.wrapping_add(old_dst[i]) & mask
            } else {
                pair
            };
            assert(out@[i as int] == res[i as int].0);
            i += 1;
        }
        self.put_neon_results(vd, q, size + 1, out, false, Ghost(res));
    }

    fn exec_neon_narrow_move(&mut self, kind: Narrowing, size: usize, vd: usize, vm: usize)
        requires
            size <= 2,
            vd < 32,
            vm < 31,
        ensures
            final(self)@ == put_results(
                old(self)@,
                vd,
                false,
                size,
                narrow_move_results(old(self)@, kind, size, vm),
            ),
    {
        let n = neon_per_d(size);
        let src = self.neon_reg_lanes(vm, true, size + 1);
        let ghost res = narrow_move_results(self@, kind, size, vm);
        let mut out: [u64; 16] = [0;16];
        let mut sat = false;
        let mut i: usize = 0;
        while i < n
            invariant
                i <= n <= 8,
                size <= 2,
                n == per_d(size),
                n == lane_count(true, (size + 1) as usize),
                src@.take(n as int) == lanes(self@, vm, true, (size + 1) as usize),
                res == narrow_move_results(self@, kind, size, vm),
                forall|j: int| 0 <= j < i ==> out@[j] == (#[trigger] res[j]).0,
                sat == exists|j: int| 0 <= j < i && (#[trigger] res[j]).1,
            decreases n - i,
        {
            assert(src@[i as int] == src@.take(n as int)[i as int]);
            let (value, saturated) = narrow_element(kind, size, src[i]);
            assert((value, saturated) == res[i as int]);
            out[i] = value;
            sat = sat || saturated;
            i += 1;
        }
        self.put_neon_results(vd, false, size, out, sat, Ghost(res));
    }

    fn exec_neon_shift_full(&mut self, size: usize, vd: usize, vm: usize)
        requires
            size <= 2,
            vd < 31,
            vm < 32,
        ensures
            final(self)@ == put_results(
                old(self)@,
                vd,
                true,
                (size + 1) as usize,
                shift_full_results(old(self)@, size, vm),
            ),
    {
        let n = neon_per_d(size);
        let src = self.neon_reg_lanes(vm, false, size);
        let mask = neon_elem_mask(size + 1);
        let bits = neon_elem_bits(size);
        let ghost res = shift_full_results(self@, size, vm);
        let mut out: [u64; 16] = [0;16];
        let mut i: usize = 0;
        while i < n
            invariant
                i <= n <= 8,
                size <= 2,
                bits == elem_bits(size),
                bits <= 32,
                mask == elem_mask((size + 1) as usize),
                n == per_d(size),
                n == lane_count(false, size),
                src@.take(n as int) == lanes(self@, vm, false, size),
                res == shift_full_results(self@, size, vm),
                forall|j: int| 0 <= j < i ==> out@[j] == (#[trigger] res[j]).0,
            decreases n - i,
        {
            assert(src@[i as int] == src@.take(n as int)[i as int]);
            out[i] = (src[i] << bits) & mask;
            assert(out@[i as int] == res[i as int].0);
            i += 1;
        }
        self.put_neon_results(vd, true, size + 1, out, false, Ghost(res));
    }

    fn permute_lanes(&mut self, op2: u32, size: usize, q: bool, vd: usize, vm: usize)
        requires
            size <= 2,
            op2 <= 3,
            op2 >= 2 ==> q || size < 2,
            vd < 32,
            vm < 32,
            q ==> vd < 31 && vm < 31,
        ensures
            final(self)@ == permuted(old(self)@, op2, size, q, vd, vm),
    {
        let n = neon_lanes(q, size);
        let a = self.neon_reg_lanes(vd, q, size);
        let b = self.neon_reg_lanes(vm, q, size);
        if op2 == 0 {
            self.set_neon_reg_lanes(vd, q, size, b);
            self.set_neon_reg_lanes(vm, q, size, a);
            return;
        }
        let ghost la = lanes(self@, vd, q, size);
        let ghost lb = lanes(self@, vm, q, size);
        let mut first: [u64; 16] = [0;16];
        let mut second: [u64; 16] = [0;16];
        let mut i: usize = 0;
        while i < n
            invariant
                i <= n <= 16,
                n % 2 == 0,
                1 <= op2 <= 3,
                n == lane_count(q, size),
                la.len() == n,
                lb.len() == n,
                a@.take(n as int) == la,
                b@.take(n as int) == lb,
                forall|j: int| 0 <= j < n ==> a@[j] == la[j] && b@[j] == lb[j],
                forall|j: int| 0 <= j < i ==> first@[j] == permuted_first(op2, la, lb)[j],
                forall|j: int| 0 <= j < i ==> second@[j] == permuted_second(op2, la, lb)[j],
            decreases n - i,
        {
            let (x, y) = match op2 {
                1 => {
                    if i % 2 == 0 {
                        (a[i], a[i + 1])
                    } else {
                        (b[i - 1], b[i])
                    }
                },
                2 => {
                    if 2 * i < n {
                        (a[2 * i], a[2 * i + 1])
                    } else {
                        (b[2 * i - n], b[2 * i + 1 - n])
                    }
                },
                _ => {
                    if i % 2 == 0 {
                        (a[i / 2], a[(n + i) / 2])
                    } else {
                        (b[i / 2], b[(n + i) / 2])
                    }
                },
            };
            assert((n + i) % 2 == i % 2);
            first[i] = x;
            second[i] = y;
            i += 1;
        }
        assert(first@.take(n as int) =~= permuted_first(op2, la, lb));
        assert(second@.take(n as int) =~= permuted_second(op2, la, lb));
        self.set_neon_reg_lanes(vd, q, size, first);
        self.set_neon_reg_lanes(vm, q, size, second);
    }

    /// VSWP, VTRN, VUZP and VZIP.
    pub fn exec_arm_neon_2reg_permute(
        &mut self,
        instr: u32,
        pc: u32,
        size: usize,
        op2: u32,
        q: bool,
        vd: usize,
        vm: usize,
    ) -> (r: Result<bool>)
        requires
            op2 <= 3,
            size <= 3,
        ensures
            (final(self)@, seen(r)) == neon_permute(old(self)@, instr, pc, size, op2, q, vd, vm),
    {
        if vd >= 32 || vm >= 32 {
            return Err(Trap::Unpredictable("VFP double register out of range"));
        }
        if q && (vd % 2 != 0 || vm % 2 != 0) {
            return Err(Trap::UndefinedArm { pc, instr });
        }
        if size == 3 || (op2 >= 2 && !q && size == 2) {
            return Err(Trap::UndefinedArm { pc, instr });
        }
        self.permute_lanes(op2, size, q, vd, vm);
        Ok(true)
    }

    pub(crate) fn exec_arm_neon_2reg_misc(&mut self, instr: u32, pc: u32) -> (r: Result<bool>)
        ensures
            (final(self)@, seen(r)) == neon_misc(old(self)@, instr, pc),
    {
        let vd = vfp_double_d(instr);
        let vm = vfp_double_m(instr);
        let q = bit_at(instr, 6);
        let size = ((instr >> 18) & 3) as usize;
        let op1 = (instr >> 16) & 3;
        let op2 = (instr >> 7) & 0xf;
        let unaligned = q && (vd % 2 != 0 || vm % 2 != 0);
        if op1 == 0 && op2 <= 2 {
            if unaligned || op2 as usize + size >= 3 {
                return Err(Trap::UndefinedArm { pc, instr });
            }
            self.exec_neon_reverse(op2, size, q, vd, vm);
            return Ok(true);
        }
        if op1 == 0 && (op2 == 4 || op2 == 5 || op2 == 12 || op2 == 13) {
            if size == 3 || unaligned {
                return Err(Trap::UndefinedArm { pc, instr });
            }
            self.exec_arm_neon_pairwise_add_long(size, op2 % 2 == 1, op2 >= 12, q, vd, vm);
            return Ok(true);
        }
        if (op1 == 0 && ((op2 >= 8 && op2 <= 11) || op2 >= 14)) || (op1 == 1 && op2 != 5 && op2
            != 13) || (op1 == 3 && op2 >= 8) {
            let refused = if op1 == 0 && (op2 == 10 || op2 == 11) {
                size != 0
            } else if op1 == 3 || (op1 == 1 && op2 >= 8) {
                size != 2
            } else {
                size == 3
            };
            if refused || unaligned {
                return Err(Trap::UndefinedArm { pc, instr });
            }
            self.exec_neon_elementwise(op1, op2, size, q, vd, vm);
            return Ok(true);
        }
        if op1 == 2 && op2 <= 3 {
            return self.exec_arm_neon_2reg_permute(instr, pc, size, op2, q, vd, vm);
        }
        if op1 == 2 && (op2 == 4 || op2 == 5) {
            if size == 3 || vm % 2 != 0 {
                return Err(Trap::UndefinedArm { pc, instr });
            }
            let kind = match (op2, q) {
                (5, true) => Narrowing::Unsigned,
                (5, false) => Narrowing::Signed,
                (_, true) => Narrowing::SignedToUnsigned,
                (_, false) => Narrowing::Truncate,
            };
            self.exec_neon_narrow_move(kind, size, vd, vm);
            return Ok(true);
        }
        if op1 == 2 && op2 == 6 && !q {
            if size == 3 || vd % 2 != 0 {
                return Err(Trap::UndefinedArm { pc, instr });
            }
            self.exec_neon_shift_full(size, vd, vm);
            return Ok(true);
        }
        Ok(false)
    }
}

} // verus!
