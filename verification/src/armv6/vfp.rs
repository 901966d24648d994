//! Floating-point instructions: transfers, moves, arithmetic and conversion.

use super::arm_transfer::{displace, displaced, store_pair};
use super::bits::{bit, bit_at, f4, field4, group_masks, sext, sign_extend};
use super::cpu::{
    beside, cpu_store32, faulted, passed, privileged, took, undefined, unpredictable, Cpsr, Cpu,
    CpuState, Seen, VFP_FPSID_ARM1136,
};
use super::float::{fits, from_integer, of_int, widen, widened, Rounding};
use super::memory::{MemState, Memory};
use super::neon_lane::{lane, neon_read_elem, neon_write_elem, per_d, put_lane};
use super::neon_mem::{all_lanes, splat};
use super::trap::{seen, Result, Trap};
use super::vfp_math::{
    compare_status, compared, f64_to_f32, float_of_word, float_to_word, mode_of, narrow_flags,
    rounding_mode, word_of_float, word_to_float, word_value, VfpBinaryOp, VfpUnaryOp,
};
use super::vfp_regs::{
    dd, dm, dn, sd, sm, sn, vfp_double_d, vfp_double_m, vfp_double_n, vfp_single_d, vfp_single_m,
    vfp_single_n,
};
use vstd::prelude::*;

verus! {

broadcast use group_masks;

/// Floating-point registers loaded from ascending words.
pub open spec fn fp_load_list(
    s: CpuState,
    m: MemState,
    dbl: bool,
    reg: usize,
    left: nat,
    addr: u32,
) -> (CpuState, MemState, Seen<()>)
    decreases left,
{
    if left == 0 {
        (s, m, Ok(()))
    } else {
        match fp_load(s, m, dbl, reg, addr) {
            (s1, m1, Ok(_)) => fp_load_list(
                s1,
                m1,
                dbl,
                (reg + 1) as usize,
                (left - 1) as nat,
                addr.wrapping_add(
                    if dbl {
                        8
                    } else {
                        4
                    },
                ),
            ),
            (s1, m1, Err(t)) => (s1, m1, Err(t)),
        }
    }
}

/// One floating-point register loaded.
pub open spec fn fp_load(s: CpuState, m: MemState, dbl: bool, reg: usize, addr: u32) -> (
    CpuState,
    MemState,
    Seen<()>,
) {
    if dbl {
        match (m.load32(addr), m.load32(addr.wrapping_add(4))) {
            (Err(t), _) => faulted(s, m, t),
            (_, Err(t)) => faulted(s, m, t),
            (Ok(lo), Ok(hi)) => (s.with_d(reg, (lo as u64) | ((hi as u64) << 32)), m, Ok(())),
        }
    } else {
        match m.load32(addr) {
            Ok(v) => (s.with_s(reg, v), m, Ok(())),
            Err(t) => faulted(s, m, t),
        }
    }
}

/// One floating-point register stored.
pub open spec fn fp_store(s: CpuState, m: MemState, dbl: bool, reg: usize, addr: u32) -> (
    CpuState,
    MemState,
    Seen<()>,
) {
    if dbl {
        store_pair(s, m, addr, s.d(reg) as u32, (s.d(reg) >> 32) as u32)
    } else {
        cpu_store32(s, m, addr, s.s(reg))
    }
}

/// Floating-point registers stored to ascending words.
pub open spec fn fp_store_list(
    s: CpuState,
    m: MemState,
    dbl: bool,
    reg: usize,
    left: nat,
    addr: u32,
) -> (CpuState, MemState, Seen<()>)
    decreases left,
{
    if left == 0 {
        (s, m, Ok(()))
    } else {
        match fp_store(s, m, dbl, reg, addr) {
            (s1, m1, Ok(_)) => fp_store_list(
                s1,
                m1,
                dbl,
                (reg + 1) as usize,
                (left - 1) as nat,
                addr.wrapping_add(
                    if dbl {
                        8
                    } else {
                        4
                    },
                ),
            ),
            (s1, m1, Err(t)) => (s1, m1, Err(t)),
        }
    }
}

/// VLDM, VSTM, VPUSH and VPOP.
pub open spec fn fp_multiple(s: CpuState, m: MemState, instr: u32, pc: u32) -> (
    CpuState,
    MemState,
    Seen<bool>,
) {
    let dbl = bit(instr, 8);
    let u = bit(instr, 23);
    let w = bit(instr, 21);
    let rn = f4(instr, 16);
    let words = instr & 0xff;
    let bytes = (4 * words) as u32;
    let first = if dbl {
        dd(instr)
    } else {
        sd(instr)
    };
    let regs = if dbl {
        words / 2
    } else {
        words
    };
    if rn == 15 && w {
        beside(unpredictable(s, "VFP multiple transfer writeback with PC base"@), m)
    } else if words == 0 {
        beside(unpredictable(s, "VFP multiple transfer empty register list"@), m)
    } else if regs == 0 || first + regs > 32 {
        beside(unpredictable(s, "VFP multiple transfer register range"@), m)
    } else {
        let base = s.ra(rn, pc);
        let end = displaced(base, bytes, u);
        let start = if u {
            base
        } else {
            end
        };
        match if bit(instr, 20) {
            fp_load_list(s, m, dbl, first, regs as nat, start)
        } else {
            fp_store_list(s, m, dbl, first, regs as nat, start)
        } {
            (s1, m1, Ok(_)) => (
                if w {
                    s1.wa(rn, end)
                } else {
                    s1
                },
                m1,
                Ok(true),
            ),
            (s1, m1, Err(t)) => (s1, m1, Err(t)),
        }
    }
}

/// VLDR and VSTR.
pub open spec fn fp_transfer(s: CpuState, m: MemState, instr: u32, pc: u32) -> (
    CpuState,
    MemState,
    Seen<bool>,
) {
    let dbl = instr & 0x0f00_0f00 == 0x0d00_0b00;
    let addr = displaced(
        s.ra(f4(instr, 16), pc),
        ((instr & 0xff) * 4) as u32,
        bit(instr, 23),
    );
    let reg = if dbl {
        dd(instr)
    } else {
        sd(instr)
    };
    match if bit(instr, 20) {
        fp_load(s, m, dbl, reg, addr)
    } else {
        fp_store(s, m, dbl, reg, addr)
    } {
        (s1, m1, Ok(_)) => (s1, m1, Ok(true)),
        (s1, m1, Err(t)) => (s1, m1, Err(t)),
    }
}

/// VMOV between two core registers and a doubleword, or two words.
pub open spec fn fp_move_pair(s: CpuState, instr: u32) -> (CpuState, Seen<bool>) {
    let (rt2, rt) = (f4(instr, 16), f4(instr, 12));
    let dbl = instr & 0x0f00 == 0x0b00;
    let reg = sm(instr);
    if instr & 0x0ff0_0fd0 == 0x0c40_0a10 || instr & 0x0ff0_0fd0 == 0x0c40_0b10 {
        if rt == 15 || rt2 == 15 {
            unpredictable(s, "VFP VMOV from PC"@)
        } else if dbl {
            took(s.with_d(dm(instr), (s.r(rt) as u64) | ((s.r(rt2) as u64) << 32)))
        } else if reg == 31 {
            unpredictable(s, "VFP VMOV past S31"@)
        } else {
            took(s.with_s(reg, s.r(rt)).with_s((reg + 1) as usize, s.r(rt2)))
        }
    } else if rt == 15 || rt2 == 15 || rt == rt2 {
        unpredictable(s, "VFP VMOV to invalid core registers"@)
    } else if dbl {
        let v = s.d(dm(instr));
        took(s.wa(rt, v as u32).wa(rt2, (v >> 32) as u32))
    } else if reg == 31 {
        unpredictable(s, "VFP VMOV past S31"@)
    } else {
        took(s.wa(rt, s.s(reg)).wa(rt2, s.s((reg + 1) as usize)))
    }
}

/// Whether a word is a two-register VMOV.
pub open spec fn is_move_pair(instr: u32) -> bool {
    let key = instr & 0x0ff0_0fd0;
    key == 0x0c40_0a10 || key == 0x0c40_0b10 || key == 0x0c50_0a10 || key == 0x0c50_0b10
}

/// The halfword lane of a scalar move.
pub open spec fn half_index(instr: u32) -> usize {
    ((((instr >> 21) & 1) << 1) | ((instr >> 6) & 1)) as usize
}

/// The byte lane of a scalar move.
pub open spec fn byte_index(instr: u32) -> usize {
    ((((instr >> 21) & 1) << 2) | ((instr >> 5) & 3)) as usize
}

/// A core register written to a lane.
pub open spec fn lane_from_core(s: CpuState, instr: u32, idx: usize, size: usize) -> (
    CpuState,
    Seen<bool>,
) {
    let rt = f4(instr, 12);
    if rt == 15 {
        unpredictable(s, "VFP VMOV from PC"@)
    } else {
        took(s.with_d(dn(instr), put_lane(s.d(dn(instr)), idx, size, s.r(rt) as u64)))
    }
}

/// A byte or halfword lane read into a core register, sign-extended unless
/// the instruction says otherwise.
pub open spec fn lane_to_core(s: CpuState, instr: u32, idx: usize, size: usize, bits: u32) -> (
    CpuState,
    Seen<bool>,
) {
    let rt = f4(instr, 12);
    let v = lane(s.d(dn(instr)), idx, size) as u32;
    if rt == 15 {
        unpredictable(s, "VFP VMOV to PC"@)
    } else {
        took(
            s.wa(
                rt,
                if bit(instr, 23) {
                    v
                } else {
                    sext(v, bits) as u32
                },
            ),
        )
    }
}

/// VDUP from a core register.
pub open spec fn fp_duplicate(s: CpuState, instr: u32, pc: u32) -> (CpuState, Seen<bool>) {
    let rt = f4(instr, 12);
    let vd = dn(instr);
    let q = bit(instr, 21);
    let be = ((instr >> 21) & 2) | ((instr >> 5) & 1);
    let size: usize = if be == 0 {
        2
    } else if be == 1 {
        1
    } else {
        0
    };
    let v = all_lanes(s.r(rt) as u64, size);
    if rt == 15 {
        unpredictable(s, "VFP VDUP from PC"@)
    } else if be == 3 || (q && vd % 2 != 0) {
        undefined(s, pc, instr)
    } else if q {
        took(s.with_d(vd, v).with_d((vd + 1) as usize, v))
    } else {
        took(s.with_d(vd, v))
    }
}

/// VMRS and VMSR.
pub open spec fn fp_system(s: CpuState, instr: u32, pc: u32) -> (CpuState, Seen<bool>) {
    let rt = f4(instr, 12);
    let sysreg = (instr >> 16) & 0xf;
    if bit(instr, 20) {
        let v = if sysreg == 0 {
            VFP_FPSID_ARM1136
        } else {
            s.fpscr
        };
        if sysreg == 8 {
            privileged(s, pc, instr, "VMRS FPEXC"@)
        } else if sysreg == 9 || sysreg == 10 {
            privileged(s, pc, instr, "VMRS FPINST"@)
        } else if sysreg > 1 {
            undefined(s, pc, instr)
        } else if rt != 15 {
            took(s.wa(rt, v))
        } else if sysreg != 1 {
            unpredictable(s, "VFP VMRS non-FPSCR to PC"@)
        } else {
            let c = Cpsr::of_word(v);
            took(s.with_cpsr(Cpsr { n: c.n, z: c.z, c: c.c, v: c.v, ..s.cpsr }))
        }
    } else if rt == 15 {
        unpredictable(s, "VFP VMSR from PC"@)
    } else if sysreg == 0 {
        took(s)
    } else if sysreg == 1 {
        took(s.with_fpscr(s.r(rt)))
    } else if sysreg == 8 {
        privileged(s, pc, instr, "VMSR FPEXC"@)
    } else if sysreg == 9 || sysreg == 10 {
        privileged(s, pc, instr, "VMSR FPINST"@)
    } else {
        undefined(s, pc, instr)
    }
}

/// The moves between core and floating-point registers.
pub open spec fn fp_moves(s: CpuState, instr: u32, pc: u32) -> (CpuState, Seen<bool>) {
    let rt = f4(instr, 12);
    let word = ((instr >> 21) & 1) as usize;
    if is_move_pair(instr) {
        fp_move_pair(s, instr)
    } else if instr & 0x0fd0_0f3f == 0x0e00_0b30 {
        lane_from_core(s, instr, half_index(instr), 1)
    } else if instr & 0x0fd0_0f1f == 0x0e40_0b10 {
        lane_from_core(s, instr, byte_index(instr), 0)
    } else if instr & 0x0f50_0f3f == 0x0e10_0b30 {
        lane_to_core(s, instr, half_index(instr), 1, 16)
    } else if instr & 0x0f50_0f1f == 0x0e50_0b10 {
        lane_to_core(s, instr, byte_index(instr), 0, 8)
    } else if instr & 0x0f90_0f5f == 0x0e80_0b10 {
        fp_duplicate(s, instr, pc)
    } else if instr & 0x0fb0_0f7f == 0x0e00_0a10 {
        if rt == 15 {
            unpredictable(s, "VFP VMOV from PC"@)
        } else {
            took(s.with_s(sn(instr), s.r(rt)))
        }
    } else if instr & 0x0fb0_0f7f == 0x0e10_0a10 {
        if rt == 15 {
            unpredictable(s, "VFP VMOV to PC"@)
        } else {
            took(s.wa(rt, s.s(sn(instr))))
        }
    } else if instr & 0x0f90_0f7f == 0x0e00_0b10 {
        lane_from_core(s, instr, word, 2)
    } else if instr & 0x0f90_0f7f == 0x0e10_0b10 {
        if rt == 15 {
            unpredictable(s, "VFP VMOV to PC"@)
        } else {
            took(s.wa(rt, lane(s.d(dn(instr)), word, 2) as u32))
        }
    } else if instr & 0x0fe0_0fff == 0x0ee0_0a10 {
        fp_system(s, instr, pc)
    } else {
        passed(s)
    }
}

/// The 64-bit number that an eight-bit immediate stands for.
pub open spec fn imm_f64(imm8: u32) -> u64 {
    ((if imm8 & 0x80 != 0 {
        0x8000u64
    } else {
        0
    }) | (if imm8 & 0x40 != 0 {
        0x3fc0u64
    } else {
        0x4000
    }) | ((imm8 & 0x3f) as u64)) << 48
}

/// The 32-bit number that an eight-bit immediate stands for.
pub open spec fn imm_f32(imm8: u32) -> u32 {
    ((if imm8 & 0x80 != 0 {
        0x8000u32
    } else {
        0
    }) | (if imm8 & 0x40 != 0 {
        0x3e00u32
    } else {
        0x4000
    }) | ((imm8 & 0x3f) << 3)) << 16
}

/// VMOV of an immediate, and the comparisons.
pub open spec fn fp_compare(s: CpuState, instr: u32) -> (CpuState, Seen<bool>) {
    let imm = instr & 0x0fb0_0ff0;
    let imm8 = (((instr >> 16) & 0xf) << 4) | (instr & 0xf);
    let all = instr & 0x80 != 0;
    let f = s.fpscr;
    if imm == 0x0eb0_0b00 {
        took(s.with_d(dd(instr), imm_f64(imm8)))
    } else if imm == 0x0eb0_0a00 {
        took(s.with_s(sd(instr), imm_f32(imm8)))
    } else if instr & 0x0fbf_0f40 == 0x0eb4_0a40 {
        took(
            s.with_fpscr(
                compared(f, s.s(sd(instr)) as u64, s.s(sm(instr)) as u64, all, false),
            ),
        )
    } else if instr & 0x0fbf_0f7f == 0x0eb5_0a40 {
        took(s.with_fpscr(compared(f, s.s(sd(instr)) as u64, 0, all, false)))
    } else if instr & 0x0fbf_0f40 == 0x0eb4_0b40 {
        took(s.with_fpscr(compared(f, s.d(dd(instr)), s.d(dm(instr)), all, true)))
    } else if instr & 0x0fbf_0f7f == 0x0eb5_0b40 {
        took(s.with_fpscr(compared(f, s.d(dd(instr)), 0, all, true)))
    } else {
        passed(s)
    }
}

/// A word result with its flags.
pub open spec fn put_word(s: CpuState, reg: usize, v: (u32, u32)) -> CpuState {
    let s1 = s.with_s(reg, v.0);
    s1.with_fpscr(s1.fpscr | v.1)
}

/// The conversions.
pub open spec fn fp_convert(s: CpuState, instr: u32) -> (CpuState, Seen<bool>) {
    let key = instr & 0x0fbf_0fc0;
    let to = sd(instr);
    let word = s.s(sm(instr));
    let wide = s.d(dm(instr));
    let current = mode_of(s.fpscr);
    if key == 0x0eb7_0ac0 {
        took(s.with_d(dd(instr), widened(word)))
    } else if key == 0x0eb7_0bc0 {
        took(put_word(s, to, (super::float::narrowed(wide), narrow_flags(wide))))
    } else if key == 0x0ebd_0ac0 {
        took(put_word(s, to, word_of_float(word as u64, false, Rounding::Zero, false)))
    } else if key == 0x0ebd_0a40 {
        took(put_word(s, to, word_of_float(word as u64, false, current, false)))
    } else if key == 0x0ebc_0ac0 {
        took(put_word(s, to, word_of_float(word as u64, false, Rounding::Zero, true)))
    } else if key == 0x0ebc_0a40 {
        took(put_word(s, to, word_of_float(word as u64, false, current, true)))
    } else if key == 0x0ebd_0bc0 {
        took(put_word(s, to, word_of_float(wide, true, Rounding::Zero, false)))
    } else if key == 0x0ebd_0b40 {
        took(put_word(s, to, word_of_float(wide, true, current, false)))
    } else if key == 0x0ebc_0bc0 {
        took(put_word(s, to, word_of_float(wide, true, Rounding::Zero, true)))
    } else if key == 0x0ebc_0b40 {
        took(put_word(s, to, word_of_float(wide, true, current, true)))
    } else if key == 0x0eb8_0ac0 {
        took(put_word(s, to, float_of_word(word, false)))
    } else if key == 0x0eb8_0a40 {
        took(put_word(s, to, float_of_word(word, true)))
    } else if key == 0x0eb8_0bc0 {
        took(s.with_d(dd(instr), of_int(word_value(word, false), true)))
    } else if key == 0x0eb8_0b40 {
        took(s.with_d(dd(instr), of_int(word_value(word, true), true)))
    } else {
        passed(s)
    }
}

/// How a short vector operation steps through the registers.
pub struct VfpVectorPlan {
    pub count: usize,
    pub delta_d: usize,
    pub delta_m: usize,
}

/// Whether a register lies in the scalar bank.
pub open spec fn is_scalar(reg: usize, dbl: bool) -> bool {
    if dbl {
        reg % 16 < 4
    } else {
        reg < 8
    }
}

/// The register `delta` places further on in its bank.
pub open spec fn advanced(reg: usize, delta: usize, dbl: bool) -> usize {
    let bank: int = if dbl {
        4
    } else {
        8
    };
    (reg - reg as int % bank + (reg + delta) % bank) as usize
}

/// The plan for an operation, from the length and stride fields of the status
/// register; a scalar destination makes the operation scalar.
pub open spec fn plan(fpscr: u32, dbl: bool, vd: usize, vm: usize) -> core::result::Result<
    VfpVectorPlan,
    Seq<char>,
> {
    let len = (((fpscr >> 16) & 7) + 1) as usize;
    let field = (fpscr >> 20) & 3;
    let stride: usize = if field == 0 {
        1
    } else {
        2
    };
    let bank: int = if dbl {
        4
    } else {
        8
    };
    if field != 0 && field != 3 {
        Err("invalid VFP vector stride"@)
    } else if len == 1 && stride != 1 {
        Err("invalid VFP vector stride"@)
    } else if len == 1 || is_scalar(vd, dbl) {
        Ok(VfpVectorPlan { count: 1, delta_d: 0, delta_m: 0 })
    } else if stride * len > bank {
        Err("invalid VFP vector length/stride"@)
    } else {
        Ok(
            VfpVectorPlan {
                count: len,
                delta_d: stride,
                delta_m: if is_scalar(vm, dbl) {
                    0
                } else {
                    stride
                },
            },
        )
    }
}

/// A floating-point register as a pattern.
pub open spec fn fp_get(s: CpuState, reg: usize, dbl: bool) -> u64 {
    if dbl {
        s.d(reg)
    } else {
        s.s(reg) as u64
    }
}

/// A floating-point register written with its flags.
pub open spec fn fp_put(s: CpuState, reg: usize, v: (u64, u32), dbl: bool) -> CpuState {
    let s1 = if dbl {
        s.with_d(reg, v.0)
    } else {
        s.with_s(reg, v.0 as u32)
    };
    s1.with_fpscr(s1.fpscr | v.1)
}

/// The `left` lanes of a one-operand operation that are still to be done.
pub open spec fn unary_lanes(
    s: CpuState,
    op: VfpUnaryOp,
    dbl: bool,
    vd: usize,
    vm: usize,
    src: u64,
    p: VfpVectorPlan,
    left: nat,
) -> CpuState
    decreases left,
{
    if left == 0 {
        s
    } else {
        let s1 = fp_put(s, vd, op.value(src, dbl), dbl);
        let vm1 = if p.delta_m == 0 {
            vm
        } else {
            advanced(vm, p.delta_m, dbl)
        };
        let src1 = if p.delta_m == 0 {
            src
        } else {
            fp_get(s1, vm1, dbl)
        };
        unary_lanes(
            s1,
            op,
            dbl,
            advanced(vd, p.delta_d, dbl),
            vm1,
            src1,
            p,
            (left - 1) as nat,
        )
    }
}

/// The `left` lanes of a two-operand operation that are still to be done.
pub open spec fn binary_lanes(
    s: CpuState,
    op: VfpBinaryOp,
    dbl: bool,
    vd: usize,
    vn: usize,
    vm: usize,
    rhs: u64,
    p: VfpVectorPlan,
    left: nat,
) -> CpuState
    decreases left,
{
    if left == 0 {
        s
    } else {
        let s1 = fp_put(
            s,
            vd,
            op.value(fp_get(s, vd, dbl), fp_get(s, vn, dbl), rhs, dbl),
            dbl,
        );
        let vm1 = if p.delta_m == 0 {
            vm
        } else {
            advanced(vm, p.delta_m, dbl)
        };
        let rhs1 = if p.delta_m == 0 {
            rhs
        } else {
            fp_get(s1, vm1, dbl)
        };
        binary_lanes(
            s1,
            op,
            dbl,
            advanced(vd, p.delta_d, dbl),
            advanced(vn, p.delta_d, dbl),
            vm1,
            rhs1,
            p,
            (left - 1) as nat,
        )
    }
}

/// A one-operand operation, on a scalar or a short vector.
pub open spec fn fp_unary(s: CpuState, op: VfpUnaryOp, dbl: bool, vd: usize, vm: usize) -> (
    CpuState,
    Seen<bool>,
) {
    match plan(s.fpscr, dbl, vd, vm) {
        Err(what) => unpredictable(s, what),
        Ok(p) => took(
            unary_lanes(s, op, dbl, vd, vm, fp_get(s, vm, dbl), p, p.count as nat),
        ),
    }
}

/// A two-operand operation, on a scalar or a short vector.
pub open spec fn fp_binary(
    s: CpuState,
    op: VfpBinaryOp,
    dbl: bool,
    vd: usize,
    vn: usize,
    vm: usize,
) -> (CpuState, Seen<bool>) {
    match plan(s.fpscr, dbl, vd, vm) {
        Err(what) => unpredictable(s, what),
        Ok(p) => took(
            binary_lanes(s, op, dbl, vd, vn, vm, fp_get(s, vm, dbl), p, p.count as nat),
        ),
    }
}

/// The one-operand operation that a word names.
pub open spec fn unary_op(instr: u32) -> Option<(VfpUnaryOp, bool)> {
    let key = instr & 0x0fbf_0fc0;
    if key == 0x0eb0_0a40 {
        Some((VfpUnaryOp::Mov, false))
    } else if key == 0x0eb1_0a40 {
        Some((VfpUnaryOp::Neg, false))
    } else if key == 0x0eb0_0ac0 {
        Some((VfpUnaryOp::Abs, false))
    } else if key == 0x0eb1_0ac0 {
        Some((VfpUnaryOp::Sqrt, false))
    } else if key == 0x0eb0_0b40 {
        Some((VfpUnaryOp::Mov, true))
    } else if key == 0x0eb1_0b40 {
        Some((VfpUnaryOp::Neg, true))
    } else if key == 0x0eb0_0bc0 {
        Some((VfpUnaryOp::Abs, true))
    } else if key == 0x0eb1_0bc0 {
        Some((VfpUnaryOp::Sqrt, true))
    } else {
        None
    }
}

/// The two-operand operation that a word names.
pub open spec fn binary_op(instr: u32) -> Option<VfpBinaryOp> {
    let key = instr & 0x0fb0_0f40 & !0x100u32;
    if key == 0x0e00_0a00 {
        Some(VfpBinaryOp::MulAdd)
    } else if key == 0x0e00_0a40 {
        Some(VfpBinaryOp::MulSub)
    } else if key == 0x0e10_0a00 {
        Some(VfpBinaryOp::NegMulSub)
    } else if key == 0x0e10_0a40 {
        Some(VfpBinaryOp::NegMulAdd)
    } else if key == 0x0e20_0a00 {
        Some(VfpBinaryOp::Mul)
    } else if key == 0x0e20_0a40 {
        Some(VfpBinaryOp::NegMul)
    } else if key == 0x0e30_0a00 {
        Some(VfpBinaryOp::Add)
    } else if key == 0x0e30_0a40 {
        Some(VfpBinaryOp::Sub)
    } else if key == 0x0e80_0a00 {
        Some(VfpBinaryOp::Div)
    } else {
        None
    }
}

/// The arithmetic.
pub open spec fn fp_arithmetic(s: CpuState, instr: u32) -> (CpuState, Seen<bool>) {
    if let Some((op, dbl)) = unary_op(instr) {
        if dbl {
            fp_unary(s, op, true, dd(instr), dm(instr))
        } else {
            fp_unary(s, op, false, sd(instr), sm(instr))
        }
    } else if let Some(op) = binary_op(instr) {
        if instr & 0x0fb0_0f40 & 0x100 != 0 {
            fp_binary(s, op, true, dd(instr), dn(instr), dm(instr))
        } else {
            fp_binary(s, op, false, sd(instr), sn(instr), sm(instr))
        }
    } else {
        passed(s)
    }
}

/// Whether a word is a multiple transfer.
pub open spec fn is_multiple(instr: u32) -> bool {
    let (p, u, w) = (bit(instr, 24), bit(instr, 23), bit(instr, 21));
    instr & 0x0e00_0a00 == 0x0c00_0a00 && ((!p && u) || (p && !u && w))
}

/// What a word does as a floating-point instruction, if it is one.
#[verifier::opaque]
pub open spec fn vfp(s: CpuState, m: MemState, instr: u32, pc: u32) -> (
    CpuState,
    MemState,
    Seen<bool>,
) {
    if is_multiple(instr) {
        fp_multiple(s, m, instr, pc)
    } else if instr & 0x0f00_0f00 == 0x0d00_0a00 || instr & 0x0f00_0f00 == 0x0d00_0b00 {
        fp_transfer(s, m, instr, pc)
    } else if fp_moves(s, instr, pc) != passed(s) {
        beside(fp_moves(s, instr, pc), m)
    } else if fp_compare(s, instr) != passed(s) {
        beside(fp_compare(s, instr), m)
    } else if fp_convert(s, instr) != passed(s) {
        beside(fp_convert(s, instr), m)
    } else {
        beside(fp_arithmetic(s, instr), m)
    }
}

fn vfp_expand_imm_f64(imm8: u32) -> (r: u64)
    ensures
        r == imm_f64(imm8),
{
    let sign: u64 = if imm8 & 0x80 != 0 {
        0x8000
    } else {
        0
    };
    let exponent: u64 = if imm8 & 0x40 != 0 {
        0x3fc0
    } else {
        0x4000
    };
    (sign | exponent | ((imm8 & 0x3f) as u64)) << 48
}

fn vfp_expand_imm_f32(imm8: u32) -> (r: u32)
    ensures
        r == imm_f32(imm8),
{
    let sign: u32 = if imm8 & 0x80 != 0 {
        0x8000
    } else {
        0
    };
    let exponent: u32 = if imm8 & 0x40 != 0 {
        0x3e00
    } else {
        0x4000
    };
    (sign | exponent | ((imm8 & 0x3f) << 3)) << 16
}

fn vfp_advance(reg: usize, delta: usize, dbl: bool) -> (r: usize)
    requires
        reg < 32,
        delta <= 2,
    ensures
        r == advanced(reg, delta, dbl),
        r < 32,
{
    if dbl {
        reg - reg % 4 + (reg + delta) % 4
    } else {
        reg - reg % 8 + (reg + delta) % 8
    }
}

fn vfp_is_scalar(reg: usize, dbl: bool) -> (r: bool)
    ensures
        r == is_scalar(reg, dbl),
{
    if dbl {
        reg % 16 < 4
    } else {
        reg < 8
    }
}

fn decode_unary(instr: u32) -> (r: Option<(VfpUnaryOp, bool)>)
    ensures
        r == unary_op(instr),
{
    match instr & 0x0fbf_0fc0 {
        0x0eb0_0a40 => Some((VfpUnaryOp::Mov, false)),
        0x0eb1_0a40 => Some((VfpUnaryOp::Neg, false)),
        0x0eb0_0ac0 => Some((VfpUnaryOp::Abs, false)),
        0x0eb1_0ac0 => Some((VfpUnaryOp::Sqrt, false)),
        0x0eb0_0b40 => Some((VfpUnaryOp::Mov, true)),
        0x0eb1_0b40 => Some((VfpUnaryOp::Neg, true)),
        0x0eb0_0bc0 => Some((VfpUnaryOp::Abs, true)),
        0x0eb1_0bc0 => Some((VfpUnaryOp::Sqrt, true)),
        _ => None,
    }
}

fn decode_binary(instr: u32) -> (r: Option<VfpBinaryOp>)
    ensures
        r == binary_op(instr),
{
    match instr & 0x0fb0_0f40 & !0x100u32 {
        0x0e00_0a00 => Some(VfpBinaryOp::MulAdd),
        0x0e00_0a40 => Some(VfpBinaryOp::MulSub),
        0x0e10_0a00 => Some(VfpBinaryOp::NegMulSub),
        0x0e10_0a40 => Some(VfpBinaryOp::NegMulAdd),
        0x0e20_0a00 => Some(VfpBinaryOp::Mul),
        0x0e20_0a40 => Some(VfpBinaryOp::NegMul),
        0x0e30_0a00 => Some(VfpBinaryOp::Add),
        0x0e30_0a40 => Some(VfpBinaryOp::Sub),
        0x0e80_0a00 => Some(VfpBinaryOp::Div),
        _ => None,
    }
}

impl Cpu {
    fn load_fp<M: Memory>(&mut self, dbl: bool, reg: usize, addr: u32, mem: &mut M) -> (r: Result<
        (),
    >)
        requires
            reg < 32,
        ensures
            (final(self)@, final(mem).state(), seen(r)) == fp_load(
                old(self)@,
                old(mem).state(),
                dbl,
                reg,
                addr,
            ),
    {
        if dbl {
            let lo = mem.load32(addr)? as u64;
            let hi = mem.load32(addr.wrapping_add(4))? as u64;
            self.set_dreg(reg, lo | (hi << 32));
        } else {
            let value = mem.load32(addr)?;
            self.set_sreg(reg, value);
        }
        Ok(())
    }

    fn store_fp<M: Memory>(&mut self, dbl: bool, reg: usize, addr: u32, mem: &mut M) -> (r: Result<
        (),
    >)
        requires
            reg < 32,
        ensures
            (final(self)@, final(mem).state(), seen(r)) == fp_store(
                old(self)@,
                old(mem).state(),
                dbl,
                reg,
                addr,
            ),
    {
        if dbl {
            let value = self.dreg(reg);
            self.store_pair(mem, addr, value as u32, (value >> 32) as u32)
        } else {
            let value = self.sreg(reg);
            self.store32(mem, addr, value)
        }
    }

    fn load_fp_list<M: Memory>(
        &mut self,
        dbl: bool,
        first: usize,
        regs: usize,
        start: u32,
        mem: &mut M,
    ) -> (r: Result<()>)
        requires
            first + regs <= 32,
        ensures
            (final(self)@, final(mem).state(), seen(r)) == fp_load_list(
                old(self)@,
                old(mem).state(),
                dbl,
                first,
                regs as nat,
                start,
            ),
    {
        let step: u32 = if dbl {
            8
        } else {
            4
        };
        let mut addr = start;
        let mut idx: usize = 0;
        while idx < regs
            invariant
                idx <= regs,
                first + regs <= 32,
                step == if dbl {
                    8u32
                } else {
                    4
                },
                fp_load_list(old(self)@, old(mem).state(), dbl, first, regs as nat, start)
                    == fp_load_list(
                    self@,
                    mem.state(),
                    dbl,
                    (first + idx) as usize,
                    (regs - idx) as nat,
                    addr,
                ),
            decreases regs - idx,
        {
            self.load_fp(dbl, first + idx, addr, mem)?;
            addr = addr.wrapping_add(step);
            idx += 1;
        }
        Ok(())
    }

    fn store_fp_list<M: Memory>(
        &mut self,
        dbl: bool,
        first: usize,
        regs: usize,
        start: u32,
        mem: &mut M,
    ) -> (r: Result<()>)
        requires
            first + regs <= 32,
        ensures
            (final(self)@, final(mem).state(), seen(r)) == fp_store_list(
                old(self)@,
                old(mem).state(),
                dbl,
                first,
                regs as nat,
                start,
            ),
    {
        let step: u32 = if dbl {
            8
        } else {
            4
        };
        let mut addr = start;
        let mut idx: usize = 0;
        while idx < regs
            invariant
                idx <= regs,
                first + regs <= 32,
                step == if dbl {
                    8u32
                } else {
                    4
                },
                fp_store_list(old(self)@, old(mem).state(), dbl, first, regs as nat, start)
                    == fp_store_list(
                    self@,
                    mem.state(),
                    dbl,
                    (first + idx) as usize,
                    (regs - idx) as nat,
                    addr,
                ),
            decreases regs - idx,
        {
            self.store_fp(dbl, first + idx, addr, mem)?;
            addr = addr.wrapping_add(step);
            idx += 1;
        }
        Ok(())
    }

    fn exec_vfp_multiple<M: Memory>(&mut self, instr: u32, pc: u32, mem: &mut M) -> (r: Result<
        bool,
    >)
        ensures
            (final(self)@, final(mem).state(), seen(r)) == fp_multiple(
                old(self)@,
                old(mem).state(),
                instr,
                pc,
            ),
    {
        let dbl = bit_at(instr, 8);
        let u = bit_at(instr, 23);
        let w = bit_at(instr, 21);
        let rn = field4(instr, 16);
        let words = instr & 0xff;
        if rn == 15 && w {
            return Err(Trap::Unpredictable("VFP multiple transfer writeback with PC base"));
        }
        if words == 0 {
            return Err(Trap::Unpredictable("VFP multiple transfer empty register list"));
        }
        let (first, regs) = if dbl {
            (vfp_double_d(instr), (words / 2) as usize)
        } else {
            (vfp_single_d(instr), words as usize)
        };
        if regs == 0 || first + regs > 32 {
            return Err(Trap::Unpredictable("VFP multiple transfer register range"));
        }
        let base = self.arm_read_reg(rn, pc);
        let end = displace(base, 4 * words, u);
        let start = if u {
            base
        } else {
            end
        };
        if bit_at(instr, 20) {
            self.load_fp_list(dbl, first, regs, start, mem)?;
        } else {
            self.store_fp_list(dbl, first, regs, start, mem)?;
        }
        if w {
            self.write_reg_arm(rn, end);
        }
        Ok(true)
    }

    fn exec_vfp_transfer<M: Memory>(&mut self, instr: u32, pc: u32, mem: &mut M) -> (r: Result<
        bool,
    >)
        ensures
            (final(self)@, final(mem).state(), seen(r)) == fp_transfer(
                old(self)@,
                old(mem).state(),
                instr,
                pc,
            ),
    {
        let dbl = instr & 0x0f00_0f00 == 0x0d00_0b00;
        let base = self.arm_read_reg(field4(instr, 16), pc);
        let addr = displace(base, (instr & 0xff) * 4, bit_at(instr, 23));
        let reg = if dbl {
            vfp_double_d(instr)
        } else {
            vfp_single_d(instr)
        };
        if bit_at(instr, 20) {
            self.load_fp(dbl, reg, addr, mem)?;
        } else {
            self.store_fp(dbl, reg, addr, mem)?;
        }
        Ok(true)
    }

    fn exec_vfp_move_pair(&mut self, instr: u32) -> (r: Result<bool>)
        requires
            is_move_pair(instr),
        ensures
            (final(self)@, seen(r)) == fp_move_pair(old(self)@, instr),
    {
        let key = instr & 0x0ff0_0fd0;
        let rt2 = field4(instr, 16);
        let rt = field4(instr, 12);
        let dbl = instr & 0x0f00 == 0x0b00;
        let sm = vfp_single_m(instr);
        if key == 0x0c40_0a10 || key == 0x0c40_0b10 {
            if rt == 15 || rt2 == 15 {
                return Err(Trap::Unpredictable("VFP VMOV from PC"));
            }
            let lo = self.reg(rt);
            let hi = self.reg(rt2);
            if dbl {
                self.set_dreg(vfp_double_m(instr), (lo as u64) | ((hi as u64) << 32));
            } else {
                if sm == 31 {
                    return Err(Trap::Unpredictable("VFP VMOV past S31"));
                }
                self.set_sreg(sm, lo);
                self.set_sreg(sm + 1, hi);
            }
        } else {
            if rt == 15 || rt2 == 15 || rt == rt2 {
                return Err(Trap::Unpredictable("VFP VMOV to invalid core registers"));
            }
            if dbl {
                let value = self.dreg(vfp_double_m(instr));
                self.write_reg_arm(rt, value as u32);
                self.write_reg_arm(rt2, (value >> 32) as u32);
            } else {
                if sm == 31 {
                    return Err(Trap::Unpredictable("VFP VMOV past S31"));
                }
                let lo = self.sreg(sm);
                let hi = self.sreg(sm + 1);
                self.write_reg_arm(rt, lo);
                self.write_reg_arm(rt2, hi);
            }
        }
        Ok(true)
    }

    fn exec_vfp_lane_from_core(&mut self, instr: u32, idx: usize, size: usize) -> (r: Result<bool>)
        requires
            size <= 2,
            idx < per_d(size),
        ensures
            (final(self)@, seen(r)) == lane_from_core(old(self)@, instr, idx, size),
    {
        let rt = field4(instr, 12);
        if rt == 15 {
            return Err(Trap::Unpredictable("VFP VMOV from PC"));
        }
        let dn = vfp_double_n(instr);
        let value = neon_write_elem(self.dreg(dn), idx, size, self.reg(rt) as u64);
        self.set_dreg(dn, value);
        Ok(true)
    }

    fn exec_vfp_lane_to_core(&mut self, instr: u32, idx: usize, size: usize, bits: u32) -> (r:
        Result<bool>)
        requires
            size <= 2,
            idx < per_d(size),
            1 <= bits <= 32,
        ensures
            (final(self)@, seen(r)) == lane_to_core(old(self)@, instr, idx, size, bits),
    {
        let rt = field4(instr, 12);
        if rt == 15 {
            return Err(Trap::Unpredictable("VFP VMOV to PC"));
        }
        let value = neon_read_elem(self.dreg(vfp_double_n(instr)), idx, size) as u32;
        self.write_reg_arm(
            rt,
            if bit_at(instr, 23) {
                value
            } else {
                sign_extend(value, bits) as u32
            },
        );
        Ok(true)
    }

    fn exec_vfp_duplicate(&mut self, instr: u32, pc: u32) -> (r: Result<bool>)
        ensures
            (final(self)@, seen(r)) == fp_duplicate(old(self)@, instr, pc),
    {
        let rt = field4(instr, 12);
        if rt == 15 {
            return Err(Trap::Unpredictable("VFP VDUP from PC"));
        }
        let vd = vfp_double_n(instr);
        let q = bit_at(instr, 21);
        let be = ((instr >> 21) & 2) | ((instr >> 5) & 1);
        if be == 3 || (q && vd % 2 != 0) {
            return Err(Trap::UndefinedArm { pc, instr });
        }
        let size: usize = match be {
            0 => 2,
            1 => 1,
            _ => 0,
        };
        let value = splat(self.reg(rt) as u64, size);
        self.set_dreg(vd, value);
        if q {
            self.set_dreg(vd + 1, value);
        }
        Ok(true)
    }

    fn exec_vfp_system(&mut self, instr: u32, pc: u32) -> (r: Result<bool>)
        ensures
            (final(self)@, seen(r)) == fp_system(old(self)@, instr, pc),
    {
        let rt = field4(instr, 12);
        let sysreg = (instr >> 16) & 0xf;
        if bit_at(instr, 20) {
            let value = match sysreg {
                0 => VFP_FPSID_ARM1136,
                1 => self.fp_status(),
                8 => return Err(Trap::Privileged { pc, instr, operation: "VMRS FPEXC" }),
                9 | 10 => return Err(Trap::Privileged { pc, instr, operation: "VMRS FPINST" }),
                _ => return Err(Trap::UndefinedArm { pc, instr }),
            };
            if rt == 15 {
                if sysreg != 1 {
                    return Err(Trap::Unpredictable("VFP VMRS non-FPSCR to PC"));
                }
                let new = Cpsr::from_u32(value);
                let mut c = self.flags();
                c.n = new.n;
                c.z = new.z;
                c.c = new.c;
                c.v = new.v;
                self.set_flags(c);
            } else {
                self.write_reg_arm(rt, value);
            }
        } else {
            if rt == 15 {
                return Err(Trap::Unpredictable("VFP VMSR from PC"));
            }
            match sysreg {
                0 => {},
                1 => {
                    let value = self.reg(rt);
                    self.set_fp_status(value);
                },
                8 => return Err(Trap::Privileged { pc, instr, operation: "VMSR FPEXC" }),
                9 | 10 => return Err(Trap::Privileged { pc, instr, operation: "VMSR FPINST" }),
                _ => return Err(Trap::UndefinedArm { pc, instr }),
            }
        }
        Ok(true)
    }

    fn exec_vfp_moves(&mut self, instr: u32, pc: u32) -> (r: Result<bool>)
        ensures
            (final(self)@, seen(r)) == fp_moves(old(self)@, instr, pc),
            r == Ok::<bool, Trap>(false) ==> final(self)@ == old(self)@,
    {
        let key = instr & 0x0ff0_0fd0;
        if key == 0x0c40_0a10 || key == 0x0c40_0b10 || key == 0x0c50_0a10 || key == 0x0c50_0b10 {
            return self.exec_vfp_move_pair(instr);
        }
        let rt = field4(instr, 12);
        let half = ((((instr >> 21) & 1) << 1) | ((instr >> 6) & 1)) as usize;
        let byte = ((((instr >> 21) & 1) << 2) | ((instr >> 5) & 3)) as usize;
        let word = ((instr >> 21) & 1) as usize;
        assert((((instr >> 21) & 1) << 1) | ((instr >> 6) & 1) < 4 && (((instr >> 21) & 1) << 2) | ((
        instr >> 5) & 3) < 8) by (bit_vector);
        if instr & 0x0fd0_0f3f == 0x0e00_0b30 {
            return self.exec_vfp_lane_from_core(instr, half, 1);
        }
        if instr & 0x0fd0_0f1f == 0x0e40_0b10 {
            return self.exec_vfp_lane_from_core(instr, byte, 0);
        }
        if instr & 0x0f50_0f3f == 0x0e10_0b30 {
            return self.exec_vfp_lane_to_core(instr, half, 1, 16);
        }
        if instr & 0x0f50_0f1f == 0x0e50_0b10 {
            return self.exec_vfp_lane_to_core(instr, byte, 0, 8);
        }
        if instr & 0x0f90_0f5f == 0x0e80_0b10 {
            return self.exec_vfp_duplicate(instr, pc);
        }
        if instr & 0x0fb0_0f7f == 0x0e00_0a10 {
            if rt == 15 {
                return Err(Trap::Unpredictable("VFP VMOV from PC"));
            }
            let value = self.reg(rt);
            self.set_sreg(vfp_single_n(instr), value);
            return Ok(true);
        }
        if instr & 0x0fb0_0f7f == 0x0e10_0a10 {
            if rt == 15 {
                return Err(Trap::Unpredictable("VFP VMOV to PC"));
            }
            let value = self.sreg(vfp_single_n(instr));
            self.write_reg_arm(rt, value);
            return Ok(true);
        }
        if instr & 0x0f90_0f7f == 0x0e00_0b10 {
            return self.exec_vfp_lane_from_core(instr, word, 2);
        }
        if instr & 0x0f90_0f7f == 0x0e10_0b10 {
            if rt == 15 {
                return Err(Trap::Unpredictable("VFP VMOV to PC"));
            }
            let value = neon_read_elem(self.dreg(vfp_double_n(instr)), word, 2) as u32;
            self.write_reg_arm(rt, value);
            return Ok(true);
        }
        if instr & 0x0fe0_0fff == 0x0ee0_0a10 {
            return self.exec_vfp_system(instr, pc);
        }
        Ok(false)
    }

    fn exec_vfp_compare(&mut self, instr: u32) -> (r: Result<bool>)
        ensures
            (final(self)@, seen(r)) == fp_compare(old(self)@, instr),
            r == Ok::<bool, Trap>(false) ==> final(self)@ == old(self)@,
    {
        let vfp_imm = instr & 0x0fb0_0ff0;
        let imm8 = (((instr >> 16) & 0xf) << 4) | (instr & 0xf);
        if vfp_imm == 0x0eb0_0b00 {
            self.set_dreg(vfp_double_d(instr), vfp_expand_imm_f64(imm8));
            return Ok(true);
        }
        if vfp_imm == 0x0eb0_0a00 {
            self.set_sreg(vfp_single_d(instr), vfp_expand_imm_f32(imm8));
            return Ok(true);
        }
        let all_nans = instr & 0x80 != 0;
        let status = self.fp_status();
        let single = self.sreg(vfp_single_d(instr)) as u64;
        let double = self.dreg(vfp_double_d(instr));
        let result = if instr & 0x0fbf_0f40 == 0x0eb4_0a40 {
            let other = self.sreg(vfp_single_m(instr)) as u64;
            compare_status(status, single, other, all_nans, false)
        } else if instr & 0x0fbf_0f7f == 0x0eb5_0a40 {
            compare_status(status, single, 0, all_nans, false)
        } else if instr & 0x0fbf_0f40 == 0x0eb4_0b40 {
            let other = self.dreg(vfp_double_m(instr));
            compare_status(status, double, other, all_nans, true)
        } else if instr & 0x0fbf_0f7f == 0x0eb5_0b40 {
            compare_status(status, double, 0, all_nans, true)
        } else {
            return Ok(false);
        };
        self.set_fp_status(result);
        Ok(true)
    }

    fn put_fp_word(&mut self, reg: usize, v: (u32, u32))
        requires
            reg < 64,
        ensures
            final(self)@ == put_word(old(self)@, reg, v),
    {
        self.set_sreg(reg, v.0);
        let status = self.fp_status();
        self.set_fp_status(status | v.1);
    }

    fn exec_vfp_convert(&mut self, instr: u32) -> (r: Result<bool>)
        ensures
            (final(self)@, seen(r)) == fp_convert(old(self)@, instr),
            r == Ok::<bool, Trap>(false) ==> final(self)@ == old(self)@,
    {
        let sd = vfp_single_d(instr);
        let word = self.sreg(vfp_single_m(instr));
        let wide = self.dreg(vfp_double_m(instr));
        let current = rounding_mode(self.fp_status());
        let narrow = word as u64;
        let v = match instr & 0x0fbf_0fc0 {
            0x0eb7_0ac0 => {
                self.set_dreg(vfp_double_d(instr), widen(word));
                return Ok(true);
            },
            0x0eb8_0bc0 => {
                self.set_dreg(vfp_double_d(instr), from_integer(word as i32 as i64, true));
                return Ok(true);
            },
            0x0eb8_0b40 => {
                self.set_dreg(vfp_double_d(instr), from_integer(word as i64, true));
                return Ok(true);
            },
            0x0eb7_0bc0 => f64_to_f32(wide),
            0x0ebd_0ac0 => float_to_word(narrow, false, Rounding::Zero, false),
            0x0ebd_0a40 => float_to_word(narrow, false, current, false),
            0x0ebc_0ac0 => float_to_word(narrow, false, Rounding::Zero, true),
            0x0ebc_0a40 => float_to_word(narrow, false, current, true),
            0x0ebd_0bc0 => float_to_word(wide, true, Rounding::Zero, false),
            0x0ebd_0b40 => float_to_word(wide, true, current, false),
            0x0ebc_0bc0 => float_to_word(wide, true, Rounding::Zero, true),
            0x0ebc_0b40 => float_to_word(wide, true, current, true),
            0x0eb8_0ac0 => word_to_float(word, false),
            0x0eb8_0a40 => word_to_float(word, true),
            _ => return Ok(false),
        };
        self.put_fp_word(sd, v);
        Ok(true)
    }

    fn vfp_vector_plan(&self, dbl: bool, vd: usize, vm: usize) -> (r: Result<VfpVectorPlan>)
        ensures
            match plan(self@.fpscr, dbl, vd, vm) {
                Ok(p) => r == Ok::<VfpVectorPlan, Trap>(p) && p.count <= 8 && p.delta_d <= 2
                    && p.delta_m <= 2 && p.count >= 1,
                Err(what) => seen(r) == Err::<VfpVectorPlan, super::trap::TrapView>(
                    super::trap::TrapView::Unpredictable(what),
                ),
            },
    {
        let status = self.fp_status();
        let len = ((status >> 16) & 7) as usize + 1;
        let stride: usize = match (status >> 20) & 3 {
            0 => 1,
            3 => 2,
            _ => return Err(Trap::Unpredictable("invalid VFP vector stride")),
        };
        if len == 1 && stride != 1 {
            return Err(Trap::Unpredictable("invalid VFP vector stride"));
        }
        if len == 1 || vfp_is_scalar(vd, dbl) {
            return Ok(VfpVectorPlan { count: 1, delta_d: 0, delta_m: 0 });
        }
        let bank_size: usize = if dbl {
            4
        } else {
            8
        };
        let span = if stride == 1 {
            len
        } else {
            2 * len
        };
        if span > bank_size {
            return Err(Trap::Unpredictable("invalid VFP vector length/stride"));
        }
        Ok(
            VfpVectorPlan {
                count: len,
                delta_d: stride,
                delta_m: if vfp_is_scalar(vm, dbl) {
                    0
                } else {
                    stride
                },
            },
        )
    }

    fn get_fp(&self, reg: usize, dbl: bool) -> (r: u64)
        requires
            reg < 32,
        ensures
            r == fp_get(self@, reg, dbl),
            fits(r, dbl),
    {
        if dbl {
            self.dreg(reg)
        } else {
            self.sreg(reg) as u64
        }
    }

    fn put_fp(&mut self, reg: usize, v: (u64, u32), dbl: bool)
        requires
            reg < 32,
        ensures
            final(self)@ == fp_put(old(self)@, reg, v, dbl),
    {
        if dbl {
            self.set_dreg(reg, v.0);
        } else {
            self.set_sreg(reg, v.0 as u32);
        }
        let status = self.fp_status();
        self.set_fp_status(status | v.1);
    }

    fn exec_vfp_2op(&mut self, op: VfpUnaryOp, dbl: bool, vd: usize, vm: usize) -> (r: Result<bool>)
        requires
            vd < 32,
            vm < 32,
        ensures
            (final(self)@, seen(r)) == fp_unary(old(self)@, op, dbl, vd, vm),
    {
        let p = self.vfp_vector_plan(dbl, vd, vm)?;
        let mut d = vd;
        let mut m = vm;
        let mut src = self.get_fp(vm, dbl);
        let ghost whole = unary_lanes(self@, op, dbl, vd, vm, src, p, p.count as nat);
        let mut left: usize = p.count;
        while left > 0
            invariant
                d < 32,
                m < 32,
                fits(src, dbl),
                p.delta_d <= 2,
                p.delta_m <= 2,
                whole == unary_lanes(self@, op, dbl, d, m, src, p, left as nat),
            decreases left,
        {
            self.put_fp(d, op.eval_with_flags(src, dbl), dbl);
            d = vfp_advance(d, p.delta_d, dbl);
            if p.delta_m != 0 {
                m = vfp_advance(m, p.delta_m, dbl);
                src = self.get_fp(m, dbl);
            }
            left -= 1;
        }
        Ok(true)
    }

    fn exec_vfp_3op(&mut self, op: VfpBinaryOp, dbl: bool, vd: usize, vn: usize, vm: usize) -> (r:
        Result<bool>)
        requires
            vd < 32,
            vn < 32,
            vm < 32,
        ensures
            (final(self)@, seen(r)) == fp_binary(old(self)@, op, dbl, vd, vn, vm),
    {
        let p = self.vfp_vector_plan(dbl, vd, vm)?;
        let mut d = vd;
        let mut n = vn;
        let mut m = vm;
        let mut rhs = self.get_fp(vm, dbl);
        let ghost whole = binary_lanes(self@, op, dbl, vd, vn, vm, rhs, p, p.count as nat);
        let mut left: usize = p.count;
        while left > 0
            invariant
                d < 32,
                n < 32,
                m < 32,
                fits(rhs, dbl),
                p.delta_d <= 2,
                p.delta_m <= 2,
                whole == binary_lanes(self@, op, dbl, d, n, m, rhs, p, left as nat),
            decreases left,
        {
            let dst = self.get_fp(d, dbl);
            let lhs = self.get_fp(n, dbl);
            self.put_fp(d, op.eval_with_flags(dst, lhs, rhs, dbl), dbl);
            d = vfp_advance(d, p.delta_d, dbl);
            n = vfp_advance(n, p.delta_d, dbl);
            if p.delta_m != 0 {
                m = vfp_advance(m, p.delta_m, dbl);
                rhs = self.get_fp(m, dbl);
            }
            left -= 1;
        }
        Ok(true)
    }

    fn exec_vfp_arithmetic(&mut self, instr: u32) -> (r: Result<bool>)
        ensures
            (final(self)@, seen(r)) == fp_arithmetic(old(self)@, instr),
    {
        if let Some((op, dbl)) = decode_unary(instr) {
            return if dbl {
                self.exec_vfp_2op(op, true, vfp_double_d(instr), vfp_double_m(instr))
            } else {
                self.exec_vfp_2op(op, false, vfp_single_d(instr), vfp_single_m(instr))
            };
        }
        if let Some(op) = decode_binary(instr) {
            return if instr & 0x0fb0_0f40 & 0x100 != 0 {
                self.exec_vfp_3op(
                    op,
                    true,
                    vfp_double_d(instr),
                    vfp_double_n(instr),
                    vfp_double_m(instr),
                )
            } else {
                self.exec_vfp_3op(
                    op,
                    false,
                    vfp_single_d(instr),
                    vfp_single_n(instr),
                    vfp_single_m(instr),
                )
            };
        }
        Ok(false)
    }

    pub(crate) fn exec_arm_vfp<M: Memory>(&mut self, instr: u32, pc: u32, mem: &mut M) -> (r:
        Result<bool>)
        ensures
            (final(self)@, final(mem).state(), seen(r)) == vfp(
                old(self)@,
                old(mem).state(),
                instr,
                pc,
            ),
    {
        reveal(vfp);
        if instr & 0x0e00_0a00 == 0x0c00_0a00 {
            let p = bit_at(instr, 24);
            let u = bit_at(instr, 23);
            let w = bit_at(instr, 21);
            if (!p && u) || (p && !u && w) {
                return self.exec_vfp_multiple(instr, pc, mem);
            }
        }
        if instr & 0x0f00_0f00 == 0x0d00_0a00 || instr & 0x0f00_0f00 == 0x0d00_0b00 {
            return self.exec_vfp_transfer(instr, pc, mem);
        }
        if self.exec_vfp_moves(instr, pc)? {
            return Ok(true);
        }
        if self.exec_vfp_compare(instr)? {
            return Ok(true);
        }
        if self.exec_vfp_convert(instr)? {
            return Ok(true);
        }
        self.exec_vfp_arithmetic(instr)
    }
}

} // verus!
