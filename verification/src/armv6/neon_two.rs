//! Vector instructions on two registers: shifts by immediates, permutations,
//! element-wise operations and immediates.

use super::bits::{bit, bit_at, group_masks};
use super::cpu::{passed, took, undefined, unpredictable, Cpu, CpuState, Seen, FPSCR_IXC};
use super::float::{
    equal, fdiv, feq, fmul, from_integer, narrow, narrowed, of_int, over, times, widen, widened,
    Rounding,
};
use super::neon_arith::{
    imm_doubleword, neon_decode_shift_imm, neon_expand_modified_imm, neon_extend_elem,
    neon_qshlu_immediate, neon_saturating_narrow_to_signed, neon_saturating_narrow_to_unsigned,
    neon_shift_right, neon_variable_shift, qmovn, qmovun, qshlu, shift_by, shift_imm, shr,
};
use super::neon_arith::widen as widen_elem;
use super::neon_lane::{
    elem_bits, elem_mask, lane, lane_count, lanes, neon_elem_bits, neon_elem_mask, neon_lanes,
    neon_per_d, neon_read_elem, per_d, put_results, with_lanes,
};
use super::neon_three::{joined, odd, unaligned3};
use super::trap::{seen, Result, Trap};
use super::vfp_math::{float_to_word, word_of_float, word_value};
use super::vfp_regs::{dd, dm, dn, vfp_double_d, vfp_double_m, vfp_double_n};
use vstd::prelude::*;

verus! {

broadcast use group_masks;

/// A quadword operation whose registers are not both even.
pub open spec fn unaligned2(q: bool, a: usize, b: usize) -> bool {
    q && (odd(a) || odd(b))
}

/// A doubleword under a modified immediate: set, cleared, complemented or
/// replaced.
pub open spec fn imm_applied(old: u64, imm: u64, cmode: u32, op: bool) -> u64 {
    if cmode % 2 == 1 && cmode < 12 {
        if op {
            old & !imm
        } else {
            old | imm
        }
    } else if op && cmode != 14 {
        !imm
    } else {
        imm
    }
}

/// The modified immediate instructions.
pub open spec fn neon_immediate(s: CpuState, instr: u32, pc: u32) -> (CpuState, Seen<bool>) {
    let vd = dd(instr);
    let q = bit(instr, 6);
    let op = bit(instr, 5);
    let cmode = (instr >> 8) & 0xf;
    let byte = ((instr >> 17) & 0x80) | ((instr >> 12) & 0x70) | (instr & 0xf);
    let imm = imm_doubleword(byte as u64, cmode, op);
    if (q && odd(vd)) || (cmode == 15 && op) {
        undefined(s, pc, instr)
    } else {
        let s1 = s.with_d(vd, imm_applied(s.d(vd), imm, cmode, op));
        let high = (vd + 1) as usize;
        took(
            if q {
                s1.with_d(high, imm_applied(s1.d(high), imm, cmode, op))
            } else {
                s1
            },
        )
    }
}

fn apply_imm(old: u64, imm: u64, cmode: u32, op: bool) -> (r: u64)
    ensures
        r == imm_applied(old, imm, cmode, op),
{
    if cmode % 2 == 1 && cmode < 12 {
        if op {
            old & !imm
        } else {
            old | imm
        }
    } else if op && cmode != 14 {
        !imm
    } else {
        imm
    }
}

/// Whether a shift opcode exists.
pub open spec fn shift_exists(opcode: u32, u: bool) -> bool {
    opcode <= 3 || opcode == 5 || opcode == 7 || ((opcode == 4 || opcode == 6) && u)
}

/// One element of a shift by an immediate.
pub open spec fn shift_elem(
    opcode: u32,
    u: bool,
    size: usize,
    shift: u32,
    v: u64,
    old: u64,
) -> (u64, bool) {
    let mask = elem_mask(size);
    if opcode == 0 {
        (shr(v, shift, size, !u, false), false)
    } else if opcode == 1 {
        (old.wrapping_add(shr(v, shift, size, !u, false)) & mask, false)
    } else if opcode == 2 {
        (shr(v, shift, size, !u, true), false)
    } else if opcode == 3 {
        (old.wrapping_add(shr(v, shift, size, !u, true)) & mask, false)
    } else if opcode == 4 {
        let insert = if shift == elem_bits(size) {
            0
        } else {
            mask >> shift
        };
        ((old & !insert) | (shr(v, shift, size, false, false) & insert), false)
    } else if opcode == 5 {
        if u {
            let insert = (mask << shift) & mask;
            ((old & !insert) | ((v << shift) & insert), false)
        } else {
            ((v << shift) & mask, false)
        }
    } else if opcode == 6 {
        qshlu(v, size, shift)
    } else {
        shift_by(v, shift as i64, size, !u, true, false)
    }
}

fn shift_element(opcode: u32, u: bool, size: usize, shift: u32, v: u64, old: u64) -> (r: (u64, bool))
    requires
        size <= 3,
        opcode <= 4 ==> 1 <= shift <= 64,
        opcode > 4 ==> shift < elem_bits(size),
        opcode == 4 ==> shift <= elem_bits(size),
    ensures
        r == shift_elem(opcode, u, size, shift, v, old),
{
    let mask = neon_elem_mask(size);
    match opcode {
        0 => (neon_shift_right(v, shift, size, !u, false), false),
        1 => (old.wrapping_add(neon_shift_right(v, shift, size, !u, false)) & mask, false),
        2 => (neon_shift_right(v, shift, size, !u, true), false),
        3 => (old.wrapping_add(neon_shift_right(v, shift, size, !u, true)) & mask, false),
        4 => {
            let shifted = neon_shift_right(v, shift, size, false, false);
            let insert = if shift == neon_elem_bits(size) {
                0
            } else {
                mask >> shift
            };
            ((old & !insert) | (shifted & insert), false)
        },
        5 => {
            if u {
                let insert = (mask << shift) & mask;
                ((old & !insert) | ((v << shift) & insert), false)
            } else {
                ((v << shift) & mask, false)
            }
        },
        6 => neon_qshlu_immediate(v, size, shift),
        _ => neon_variable_shift(v, shift as i64, size, !u, true, false),
    }
}

/// The element results of a shift by an immediate.
pub open spec fn shift_imm_results(
    s: CpuState,
    opcode: u32,
    u: bool,
    q: bool,
    size: usize,
    shift: u32,
    vd: usize,
    vm: usize,
) -> Seq<(u64, bool)> {
    let v = lanes(s, vm, q, size);
    let old = lanes(s, vd, q, size);
    Seq::new(
        lane_count(q, size) as nat,
        |i: int| shift_elem(opcode, u, size, shift, v[i], old[i]),
    )
}

/// The element results of a lengthening left shift.
pub open spec fn shift_long_results(s: CpuState, u: bool, size: usize, shift: u32, vm: usize) -> Seq<
    (u64, bool),
> {
    let v = lanes(s, vm, false, size);
    Seq::new(
        per_d(size) as nat,
        |i: int|
            (
                (widen_elem(v[i], size, !u) << shift) & elem_mask((size + 1) as usize),
                false,
            ),
    )
}

/// One element of a narrowing right shift.
pub open spec fn shift_narrow_elem(
    opcode: u32,
    u: bool,
    size: usize,
    shift: u32,
    rounding: bool,
    v: u64,
) -> (u64, bool) {
    let signed = (opcode == 8) == u;
    let shifted = shr(v, shift, (size + 1) as usize, signed, rounding);
    if opcode == 8 {
        if u {
            qmovun(shifted, size, true)
        } else {
            (shifted & elem_mask(size), false)
        }
    } else if u {
        qmovun(shifted, size, false)
    } else {
        qmovn(shifted, size)
    }
}

/// The element results of a narrowing right shift.
pub open spec fn shift_narrow_results(
    s: CpuState,
    opcode: u32,
    u: bool,
    size: usize,
    shift: u32,
    rounding: bool,
    vm: usize,
) -> Seq<(u64, bool)> {
    let v = lanes(s, vm, true, (size + 1) as usize);
    Seq::new(
        per_d(size) as nat,
        |i: int| shift_narrow_elem(opcode, u, size, shift, rounding, v[i]),
    )
}

/// `2^k` as a 64-bit number.
pub open spec fn power_f64(k: u32) -> u64 {
    ((1023 + k) * 0x10_0000_0000_0000) as u64
}

/// One element converted between floating and fixed point, with its flags.
pub open spec fn fixed_elem(v: u32, fbits: u32, unsigned: bool, to_fixed: bool) -> (u32, u32) {
    if to_fixed {
        word_of_float(fmul(widened(v), power_f64(fbits), true), true, Rounding::Zero, unsigned)
    } else {
        let x = fdiv(of_int(word_value(v, unsigned), true), power_f64(fbits), true);
        let r = narrowed(x);
        (
            r,
            if feq(widened(r), x, true) {
                0
            } else {
                FPSCR_IXC
            },
        )
    }
}

/// The conversions of the first `n` elements.
pub open spec fn fixed_results(
    s: CpuState,
    fbits: u32,
    unsigned: bool,
    to_fixed: bool,
    q: bool,
    vm: usize,
) -> Seq<(u32, u32)> {
    let v = lanes(s, vm, q, 2);
    Seq::new(
        lane_count(q, 2) as nat,
        |i: int| fixed_elem(v[i] as u32, fbits, unsigned, to_fixed),
    )
}

/// The flags of the first `n` conversions.
pub open spec fn flags_of(r: Seq<(u32, u32)>, n: nat) -> u32
    decreases n,
{
    if n == 0 {
        0
    } else {
        flags_of(r, (n - 1) as nat) | r[n - 1].1
    }
}

/// Conversions written with their flags.
pub open spec fn put_fixed(s: CpuState, vd: usize, q: bool, r: Seq<(u32, u32)>) -> CpuState {
    with_lanes(
        s.with_fpscr(s.fpscr | flags_of(r, r.len())),
        vd,
        q,
        2,
        Seq::new(r.len(), |i: int| r[i].0 as u64),
    )
}

/// The shifts by an immediate and the fixed-point conversions.
pub open spec fn neon_2reg_shift(s: CpuState, instr: u32, pc: u32) -> (CpuState, Seen<bool>) {
    let u = bit(instr, 24);
    let imm6 = (instr >> 16) & 0x3f;
    let opcode = (instr >> 8) & 0xf;
    let l = bit(instr, 7);
    let q = bit(instr, 6);
    let (vd, vm) = (dd(instr), dm(instr));
    if opcode == 10 {
        if q || odd(vd) {
            undefined(s, pc, instr)
        } else {
            match shift_imm(false, false, imm6) {
                None => passed(s),
                Some((size, shift)) => took(
                    put_results(
                        s,
                        vd,
                        true,
                        (size + 1) as usize,
                        shift_long_results(s, u, size, shift, vm),
                    ),
                ),
            }
        }
    } else if opcode == 14 || opcode == 15 {
        if l || imm6 & 0x20 == 0 {
            passed(s)
        } else if unaligned2(q, vd, vm) {
            undefined(s, pc, instr)
        } else {
            took(
                put_fixed(
                    s,
                    vd,
                    q,
                    fixed_results(s, (64 - imm6) as u32, u, opcode == 15, q, vm),
                ),
            )
        }
    } else if opcode == 8 || opcode == 9 {
        match shift_imm(true, false, imm6) {
            Some((size, shift)) if !q => if odd(vm) {
                undefined(s, pc, instr)
            } else {
                took(
                    put_results(
                        s,
                        vd,
                        false,
                        size,
                        shift_narrow_results(s, opcode, u, size, shift, l, vm),
                    ),
                )
            },
            _ => passed(s),
        }
    } else {
        match shift_imm(opcode <= 4, l, imm6) {
            None => passed(s),
            Some((size, shift)) => if unaligned2(q, vd, vm) {
                undefined(s, pc, instr)
            } else if !shift_exists(opcode, u) {
                passed(s)
            } else {
                took(
                    put_results(
                        s,
                        vd,
                        q,
                        size,
                        shift_imm_results(s, opcode, u, q, size, shift, vd, vm),
                    ),
                )
            },
        }
    }
}

/// VEXT: bytes from the middle of two vectors one behind the other.
pub open spec fn extract_results(s: CpuState, q: bool, imm: int, vn: usize, vm: usize) -> Seq<
    (u64, bool),
> {
    let a = lanes(s, vn, q, 0);
    let b = lanes(s, vm, q, 0);
    Seq::new(lane_count(q, 0) as nat, |i: int| (joined(a, b, i + imm), false))
}

/// VEXT.
pub open spec fn neon_extract(s: CpuState, instr: u32, pc: u32) -> (CpuState, Seen<bool>) {
    let q = bit(instr, 6);
    let imm = (instr >> 8) & 0xf;
    let (vd, vn, vm) = (dd(instr), dn(instr), dm(instr));
    if unaligned3(q, vd, vn, vm) || (!q && imm >= 8) {
        undefined(s, pc, instr)
    } else {
        took(put_results(s, vd, q, 0, extract_results(s, q, imm as int, vn, vm)))
    }
}

/// Byte `k` of a table of doublewords that starts at register `vn`.
pub open spec fn table_byte(s: CpuState, vn: usize, k: int) -> u64 {
    lane(s.d((vn + k / 8) as usize), (k % 8) as usize, 0)
}

/// VTBL and VTBX, byte by byte: an index behind the table gives zero, or
/// leaves the byte.
pub open spec fn table_results(
    s: CpuState,
    len: int,
    tbx: bool,
    vd: usize,
    vn: usize,
    vm: usize,
) -> Seq<(u64, bool)> {
    let idx = lanes(s, vm, false, 0);
    let old = lanes(s, vd, false, 0);
    Seq::new(
        8,
        |i: int|
            (
                if idx[i] < 8 * len {
                    table_byte(s, vn, idx[i] as int)
                } else if tbx {
                    old[i]
                } else {
                    0
                },
                false,
            ),
    )
}

/// VTBL and VTBX.
pub open spec fn neon_table(s: CpuState, instr: u32) -> (CpuState, Seen<bool>) {
    let len = ((instr >> 8) & 3) + 1;
    let (vd, vn, vm) = (dd(instr), dn(instr), dm(instr));
    if vn + len > 32 {
        unpredictable(s, "NEON table lookup register range"@)
    } else {
        took(put_results(s, vd, false, 0, table_results(s, len, bit(instr, 6), vd, vn, vm)))
    }
}

/// The element size of a scalar duplication: the lowest set bit of its field.
pub open spec fn dup_size(imm4: u32) -> usize {
    if imm4 & 1 != 0 {
        0
    } else if imm4 & 2 != 0 {
        1
    } else {
        2
    }
}

/// VDUP of a scalar.
pub open spec fn neon_duplicate(s: CpuState, instr: u32, pc: u32) -> (CpuState, Seen<bool>) {
    let q = bit(instr, 6);
    let imm4 = (instr >> 16) & 0xf;
    let (vd, vm) = (dd(instr), dm(instr));
    let size = dup_size(imm4);
    let idx = (imm4 >> ((size + 1) as u32)) as usize;
    if imm4 & 7 == 0 || (q && odd(vd)) {
        undefined(s, pc, instr)
    } else {
        took(
            put_results(
                s,
                vd,
                q,
                size,
                Seq::new(lane_count(q, size) as nat, |i: int| (lane(s.d(vm), idx, size), false)),
            ),
        )
    }
}

impl Cpu {
    pub(crate) fn exec_arm_neon_modified_immediate(&mut self, instr: u32, pc: u32) -> (r: Result<
        bool,
    >)
        ensures
            (final(self)@, seen(r)) == neon_immediate(old(self)@, instr, pc),
    {
        let vd = vfp_double_d(instr);
        let q = bit_at(instr, 6);
        let op = bit_at(instr, 5);
        let cmode = (instr >> 8) & 0xf;
        let imm = ((instr >> 17) & 0x80) | ((instr >> 12) & 0x70) | (instr & 0xf);
        if (q && vd % 2 != 0) || (cmode == 15 && op) {
            return Err(Trap::UndefinedArm { pc, instr });
        }
        let imm64 = neon_expand_modified_imm(imm as u64, cmode, op);
        let low = apply_imm(self.dreg(vd), imm64, cmode, op);
        self.set_dreg(vd, low);
        if q {
            let high = apply_imm(self.dreg(vd + 1), imm64, cmode, op);
            self.set_dreg(vd + 1, high);
        }
        Ok(true)
    }

    fn exec_neon_shift_imm(
        &mut self,
        opcode: u32,
        u: bool,
        q: bool,
        size: usize,
        shift: u32,
        vd: usize,
        vm: usize,
    )
        requires
            size <= 3,
            opcode <= 4 ==> 1 <= shift <= 64,
            opcode > 4 ==> shift < elem_bits(size),
            opcode == 4 ==> shift <= elem_bits(size),
            vd < 32,
            vm < 32,
            q ==> vd < 31 && vm < 31,
        ensures
            final(self)@ == put_results(
                old(self)@,
                vd,
                q,
                size,
                shift_imm_results(old(self)@, opcode, u, q, size, shift, vd, vm),
            ),
    {
        let n = neon_lanes(q, size);
        let src = self.neon_reg_lanes(vm, q, size);
        let old_dst = self.neon_reg_lanes(vd, q, size);
        let ghost res = shift_imm_results(self@, opcode, u, q, size, shift, vd, vm);
        let mut out: [u64; 16] = [0;16];
        let mut sat = false;
        let mut i: usize = 0;
        while i < n
            invariant
                i <= n <= 16,
                size <= 3,
                opcode <= 4 ==> 1 <= shift <= 64,
                opcode > 4 ==> shift < elem_bits(size),
                opcode == 4 ==> shift <= elem_bits(size),
                n == lane_count(q, size),
                src@.take(n as int) == lanes(self@, vm, q, size),
                old_dst@.take(n as int) == lanes(self@, vd, q, size),
                res == shift_imm_results(self@, opcode, u, q, size, shift, vd, vm),
                forall|j: int| 0 <= j < i ==> out@[j] == (#[trigger] res[j]).0,
                sat == exists|j: int| 0 <= j < i && (#[trigger] res[j]).1,
            decreases n - i,
        {
            assert(src@[i as int] == src@.take(n as int)[i as int]);
            assert(old_dst@[i as int] == old_dst@.take(n as int)[i as int]);
            let (value, saturated) = shift_element(opcode, u, size, shift, src[i], old_dst[i]);
            assert((value, saturated) == res[i as int]);
            out[i] = value;
            sat = sat || saturated;
            i += 1;
        }
        self.put_neon_results(vd, q, size, out, sat, Ghost(res));
    }

    fn exec_neon_shift_long(&mut self, u: bool, size: usize, shift: u32, vd: usize, vm: usize)
        requires
            size <= 2,
            shift < 64,
            vd < 31,
            vm < 32,
        ensures
            final(self)@ == put_results(
                old(self)@,
                vd,
                true,
                (size + 1) as usize,
                shift_long_results(old(self)@, u, size, shift, vm),
            ),
    {
        let n = neon_per_d(size);
        let src = self.neon_reg_lanes(vm, false, size);
        let mask = neon_elem_mask(size + 1);
        let ghost res = shift_long_results(self@, u, size, shift, vm);
        let mut out: [u64; 16] = [0;16];
        let mut i: usize = 0;
        while i < n
            invariant
                i <= n <= 8,
                size <= 2,
                shift < 64,
                n == per_d(size),
                n == lane_count(false, size),
                mask == elem_mask((size + 1) as usize),
                src@.take(n as int) == lanes(self@, vm, false, size),
                res == shift_long_results(self@, u, size, shift, vm),
                forall|j: int| 0 <= j < i ==> out@[j] == (#[trigger] res[j]).0,
            decreases n - i,
        {
            assert(src@[i as int] == src@.take(n as int)[i as int]);
            out[i] = (neon_extend_elem(src[i], size, !u) << shift) & mask;
            assert(out@[i as int] == res[i as int].0);
            i += 1;
        }
        self.put_neon_results(vd, true, size + 1, out, false, Ghost(res));
    }

    fn exec_neon_shift_narrow(
        &mut self,
        opcode: u32,
        u: bool,
        size: usize,
        shift: u32,
        rounding: bool,
        vd: usize,
        vm: usize,
    )
        requires
            size <= 2,
            vd < 32,
            vm < 31,
        ensures
            final(self)@ == put_results(
                old(self)@,
                vd,
                false,
                size,
                shift_narrow_results(old(self)@, opcode, u, size, shift, rounding, vm),
            ),
    {
        let n = neon_per_d(size);
        let src = self.neon_reg_lanes(vm, true, size + 1);
        let signed = (opcode == 8) == u;
        let ghost res = shift_narrow_results(self@, opcode, u, size, shift, rounding, vm);
        let mut out: [u64; 16] = [0;16];
        let mut sat = false;
        let mut i: usize = 0;
        while i < n
            invariant
                i <= n <= 8,
                size <= 2,
                signed == ((opcode == 8) == u),
                n == per_d(size),
                n == lane_count(true, (size + 1) as usize),
                src@.take(n as int) == lanes(self@, vm, true, (size + 1) as usize),
                res == shift_narrow_results(self@, opcode, u, size, shift, rounding, vm),
                forall|j: int| 0 <= j < i ==> out@[j] == (#[trigger] res[j]).0,
                sat == exists|j: int| 0 <= j < i && (#[trigger] res[j]).1,
            decreases n - i,
        {
            assert(src@[i as int] == src@.take(n as int)[i as int]);
            let shifted = neon_shift_right(src[i], shift, size + 1, signed, rounding);
            let (value, saturated) = if opcode == 8 {
                if u {
                    neon_saturating_narrow_to_unsigned(shifted, size, true)
                } else {
                    (shifted & neon_elem_mask(size), false)
                }
            } else if u {
                neon_saturating_narrow_to_unsigned(shifted, size, false)
            } else {
                neon_saturating_narrow_to_signed(shifted, size)
            };
            assert((value, saturated) == res[i as int]);
            out[i] = value;
            sat = sat || saturated;
            i += 1;
        }
        self.put_neon_results(vd, false, size, out, sat, Ghost(res));
    }

    fn exec_arm_neon_vcvt_fixed(
        &mut self,
        fbits: u32,
        unsigned: bool,
        to_fixed: bool,
        q: bool,
        vd: usize,
        vm: usize,
    )
        requires
            1 <= fbits <= 64,
            vd < 32,
            vm < 32,
            q ==> vd < 31 && vm < 31,
        ensures
            final(self)@ == put_fixed(
                old(self)@,
                vd,
                q,
                fixed_results(old(self)@, fbits, unsigned, to_fixed, q, vm),
            ),
    {
        let n = neon_lanes(q, 2);
        let src = self.neon_reg_lanes(vm, q, 2);
        let scale = (1023 + fbits as u64) * 0x10_0000_0000_0000;
        let ghost res = fixed_results(self@, fbits, unsigned, to_fixed, q, vm);
        let mut out: [u64; 16] = [0;16];
        let mut flags: u32 = 0;
        let mut i: usize = 0;
        while i < n
            invariant
                i <= n <= 16,
                n == lane_count(q, 2),
                1 <= fbits <= 64,
                scale == power_f64(fbits),
                src@.take(n as int) == lanes(self@, vm, q, 2),
                res == fixed_results(self@, fbits, unsigned, to_fixed, q, vm),
                forall|j: int| 0 <= j < i ==> out@[j] == (#[trigger] res[j]).0 as u64,
                flags == flags_of(res, i as nat),
            decreases n - i,
        {
            assert(src@[i as int] == src@.take(n as int)[i as int]);
            let v = src[i] as u32;
            let (value, raised) = if to_fixed {
                float_to_word(times(widen(v), scale, true), true, Rounding::Zero, unsigned)
            } else {
                let whole = if unsigned {
                    v as i64
                } else {
                    v as i32 as i64
                };
                let x = over(from_integer(whole, true), scale, true);
                let r = narrow(x);
                (
                    r,
                    if equal(widen(r), x, true) {
                        0
                    } else {
                        FPSCR_IXC
                    },
                )
            };
            assert((value, raised) == res[i as int]);
            out[i] = value as u64;
            flags = flags | raised;
            i += 1;
        }
        let status = self.fp_status();
        self.set_fp_status(status | flags);
        assert(out@.take(n as int) =~= Seq::new(res.len(), |i: int| res[i].0 as u64));
        self.set_neon_reg_lanes(vd, q, 2, out);
    }

    pub(crate) fn exec_arm_neon_2reg_shift(&mut self, instr: u32, pc: u32) -> (r: Result<bool>)
        ensures
            (final(self)@, seen(r)) == neon_2reg_shift(old(self)@, instr, pc),
    {
        let u = bit_at(instr, 24);
        let imm6 = (instr >> 16) & 0x3f;
        let vd = vfp_double_d(instr);
        let opcode = (instr >> 8) & 0xf;
        let l = bit_at(instr, 7);
        let q = bit_at(instr, 6);
        let vm = vfp_double_m(instr);
        if opcode == 10 {
            if q || vd % 2 != 0 {
                return Err(Trap::UndefinedArm { pc, instr });
            }
            let (size, shift) = match neon_decode_shift_imm(false, false, imm6) {
                Some(form) => form,
                None => return Ok(false),
            };
            self.exec_neon_shift_long(u, size, shift, vd, vm);
            return Ok(true);
        }
        if opcode == 14 || opcode == 15 {
            if l || imm6 & 0x20 == 0 {
                return Ok(false);
            }
            if q && (vd % 2 != 0 || vm % 2 != 0) {
                return Err(Trap::UndefinedArm { pc, instr });
            }
            self.exec_arm_neon_vcvt_fixed(64 - imm6, u, opcode == 15, q, vd, vm);
            return Ok(true);
        }
        if opcode == 8 || opcode == 9 {
            if q {
                return Ok(false);
            }
            let (size, shift) = match neon_decode_shift_imm(true, false, imm6) {
                Some(form) => form,
                None => return Ok(false),
            };
            if vm % 2 != 0 {
                return Err(Trap::UndefinedArm { pc, instr });
            }
            self.exec_neon_shift_narrow(opcode, u, size, shift, l, vd, vm);
            return Ok(true);
        }
        let (size, shift) = match neon_decode_shift_imm(opcode <= 4, l, imm6) {
            Some(form) => form,
            None => return Ok(false),
        };
        if q && (vd % 2 != 0 || vm % 2 != 0) {
            return Err(Trap::UndefinedArm { pc, instr });
        }
        if !(opcode <= 3 || opcode == 5 || opcode == 7 || ((opcode == 4 || opcode == 6) && u)) {
            return Ok(false);
        }
        self.exec_neon_shift_imm(opcode, u, q, size, shift, vd, vm);
        Ok(true)
    }

    pub(crate) fn exec_arm_neon_vext(&mut self, instr: u32, pc: u32) -> (r: Result<bool>)
        ensures
            (final(self)@, seen(r)) == neon_extract(old(self)@, instr, pc),
    {
        let vd = vfp_double_d(instr);
        let vn = vfp_double_n(instr);
        let vm = vfp_double_m(instr);
        let q = bit_at(instr, 6);
        let imm = ((instr >> 8) & 0xf) as usize;
        if (q && (vd % 2 != 0 || vn % 2 != 0 || vm % 2 != 0)) || (!q && imm >= 8) {
            return Err(Trap::UndefinedArm { pc, instr });
        }
        let n = neon_lanes(q, 0);
        let src_n = self.neon_reg_lanes(vn, q, 0);
        let src_m = self.neon_reg_lanes(vm, q, 0);
        let ghost res = extract_results(self@, q, imm as int, vn, vm);
        let mut out: [u64; 16] = [0;16];
        let mut i: usize = 0;
        while i < n
            invariant
                i <= n <= 16,
                imm < n,
                n == lane_count(q, 0),
                src_n@.take(n as int) == lanes(self@, vn, q, 0),
                src_m@.take(n as int) == lanes(self@, vm, q, 0),
                res == extract_results(self@, q, imm as int, vn, vm),
                forall|j: int| 0 <= j < i ==> out@[j] == (#[trigger] res[j]).0,
            decreases n - i,
        {
            let at = i + imm;
            let value = if at < n {
                assert(src_n@[at as int] == src_n@.take(n as int)[at as int]);
                src_n[at]
            } else {
                assert(src_m@[at - n] == src_m@.take(n as int)[at - n]);
                src_m[at - n]
            };
            out[i] = value;
            assert(out@[i as int] == res[i as int].0);
            i += 1;
        }
        self.put_neon_results(vd, q, 0, out, false, Ghost(res));
        Ok(true)
    }

    pub(crate) fn exec_arm_neon_table_lookup(&mut self, instr: u32) -> (r: Result<bool>)
        ensures
            (final(self)@, seen(r)) == neon_table(old(self)@, instr),
    {
        let vd = vfp_double_d(instr);
        let vn = vfp_double_n(instr);
        let vm = vfp_double_m(instr);
        let len = ((instr >> 8) & 3) as usize + 1;
        let tbx = bit_at(instr, 6);
        if vn + len > 32 {
            return Err(Trap::Unpredictable("NEON table lookup register range"));
        }
        let indices = self.neon_reg_lanes(vm, false, 0);
        let old_dst = self.neon_reg_lanes(vd, false, 0);
        let ghost res = table_results(self@, len as int, tbx, vd, vn, vm);
        let mut out: [u64; 16] = [0;16];
        let mut i: usize = 0;
        while i < 8
            invariant
                i <= 8,
                1 <= len <= 4,
                vn + len <= 32,
                indices@.take(8) == lanes(self@, vm, false, 0),
                old_dst@.take(8) == lanes(self@, vd, false, 0),
                res == table_results(self@, len as int, tbx, vd, vn, vm),
                forall|j: int| 0 <= j < i ==> out@[j] == (#[trigger] res[j]).0,
            decreases 8 - i,
        {
            assert(indices@[i as int] == indices@.take(8)[i as int]);
            assert(old_dst@[i as int] == old_dst@.take(8)[i as int]);
            let index = indices[i];
            out[i] = if index < 8 * len as u64 {
                let k = index as usize;
                neon_read_elem(self.dreg(vn + k / 8), k % 8, 0)
            } else if tbx {
                old_dst[i]
            } else {
                0
            };
            assert(out@[i as int] == res[i as int].0);
            i += 1;
        }
        self.put_neon_results(vd, false, 0, out, false, Ghost(res));
        Ok(true)
    }

    pub(crate) fn exec_arm_neon_vdup_scalar(&mut self, instr: u32, pc: u32) -> (r: Result<bool>)
        ensures
            (final(self)@, seen(r)) == neon_duplicate(old(self)@, instr, pc),
    {
        let vd = vfp_double_d(instr);
        let vm = vfp_double_m(instr);
        let q = bit_at(instr, 6);
        let imm4 = (instr >> 16) & 0xf;
        if imm4 & 7 == 0 || (q && vd % 2 != 0) {
            return Err(Trap::UndefinedArm { pc, instr });
        }
        let size: usize = if imm4 & 1 != 0 {
            0
        } else if imm4 & 2 != 0 {
            1
        } else {
            2
        };
        assert(imm4 >> 1 < 8 && imm4 >> 2 < 4 && imm4 >> 3 < 2) by (bit_vector)
            requires
                imm4 <= 15,
        ;
        let index = (imm4 >> ((size + 1) as u32)) as usize;
        let element = neon_read_elem(self.dreg(vm), index, size);
        let out: [u64; 16] = [element;16];
        let ghost res = Seq::new(
            lane_count(q, size) as nat,
            |i: int| (lane(self@.d(vm), index, size), false),
        );
        self.put_neon_results(vd, q, size, out, false, Ghost(res));
        Ok(true)
    }
}

} // verus!
