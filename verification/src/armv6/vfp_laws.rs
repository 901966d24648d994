//! The exception flags of the floating-point status are cumulative.

use super::bits::bit;
use super::cpu::CpuState;
use super::memory::MemState;
use super::vfp::{
    advanced, binary_lanes, fp_arithmetic, fp_compare, fp_convert, fp_get, fp_load, fp_load_list,
    fp_moves, fp_multiple, fp_put, fp_store, fp_store_list, fp_system, fp_transfer, unary_lanes,
    vfp, VfpVectorPlan,
};
use super::vfp_math::{VfpBinaryOp, VfpUnaryOp};
use vstd::prelude::*;

verus! {

/// Whether every exception flag of one status is set in another.
pub open spec fn flags_kept(before: u32, after: u32) -> bool {
    after & before & 0x1f == before & 0x1f
}

/// Adding bits and replacing the condition bits keeps the flags.
proof fn or_keeps(f: u32, v: u32, w: u32)
    ensures
        flags_kept(f, f),
        flags_kept(f, f | v),
        flags_kept(f, (f & !0xf000_0000u32) | v),
        flags_kept(f, ((f & !0xf000_0000u32) | v) | w),
{
    assert(f & f & 0x1f == f & 0x1f && (f | v) & f & 0x1f == f & 0x1f && ((f & !0xf000_0000u32) | v)
        & f & 0x1f == f & 0x1f && (((f & !0xf000_0000u32) | v) | w) & f & 0x1f == f & 0x1f)
        by (bit_vector);
}

/// What is kept twice is kept.
pub proof fn flags_stay_kept(a: u32, b: u32, c: u32)
    requires
        flags_kept(a, b),
        flags_kept(b, c),
    ensures
        flags_kept(a, c),
{
    assert(c & a & 0x1f == a & 0x1f) by (bit_vector)
        requires
            b & a & 0x1f == a & 0x1f,
            c & b & 0x1f == b & 0x1f,
    ;
}

proof fn load_list_keeps_status(
    s: CpuState,
    m: MemState,
    dbl: bool,
    reg: usize,
    left: nat,
    addr: u32,
)
    ensures
        fp_load_list(s, m, dbl, reg, left, addr).0.fpscr == s.fpscr,
    decreases left,
{
    if left > 0 {
        let (s1, m1, r) = fp_load(s, m, dbl, reg, addr);
        if r is Ok {
            load_list_keeps_status(
                s1,
                m1,
                dbl,
                (reg + 1) as usize,
                (left - 1) as nat,
                addr.wrapping_add(
                    if dbl {
                        8
                    } else {
                        4
                    },
                ),
            );
        }
    }
}

proof fn store_list_keeps_status(
    s: CpuState,
    m: MemState,
    dbl: bool,
    reg: usize,
    left: nat,
    addr: u32,
)
    ensures
        fp_store_list(s, m, dbl, reg, left, addr).0.fpscr == s.fpscr,
    decreases left,
{
    if left > 0 {
        let (s1, m1, r) = fp_store(s, m, dbl, reg, addr);
        if r is Ok {
            store_list_keeps_status(
                s1,
                m1,
                dbl,
                (reg + 1) as usize,
                (left - 1) as nat,
                addr.wrapping_add(
                    if dbl {
                        8
                    } else {
                        4
                    },
                ),
            );
        }
    }
}

proof fn unary_keeps_flags(
    s: CpuState,
    op: VfpUnaryOp,
    dbl: bool,
    vd: usize,
    vm: usize,
    src: u64,
    p: VfpVectorPlan,
    left: nat,
)
    ensures
        flags_kept(s.fpscr, unary_lanes(s, op, dbl, vd, vm, src, p, left).fpscr),
    decreases left,
{
    or_keeps(s.fpscr, op.value(src, dbl).1, 0);
    if left > 0 {
        let s1 = fp_put(s, vd, op.value(src, dbl), dbl);
        let vm1 = if p.delta_m == 0 {
            vm
        } else {
            advanced(vm, p.delta_m, dbl)
        };
        let src1 = if p.delta_m == 0 {
            src
        } else {
            fp_get(s1, vm1, dbl)
        };
        let vd1 = advanced(vd, p.delta_d, dbl);
        unary_keeps_flags(s1, op, dbl, vd1, vm1, src1, p, (left - 1) as nat);
        let last = unary_lanes(s1, op, dbl, vd1, vm1, src1, p, (left - 1) as nat);
        flags_stay_kept(s.fpscr, s1.fpscr, last.fpscr);
    }
}

proof fn binary_keeps_flags(
    s: CpuState,
    op: VfpBinaryOp,
    dbl: bool,
    vd: usize,
    vn: usize,
    vm: usize,
    rhs: u64,
    p: VfpVectorPlan,
    left: nat,
)
    ensures
        flags_kept(s.fpscr, binary_lanes(s, op, dbl, vd, vn, vm, rhs, p, left).fpscr),
    decreases left,
{
    let v = op.value(fp_get(s, vd, dbl), fp_get(s, vn, dbl), rhs, dbl);
    or_keeps(s.fpscr, v.1, 0);
    if left > 0 {
        let s1 = fp_put(s, vd, v, dbl);
        let vm1 = if p.delta_m == 0 {
            vm
        } else {
            advanced(vm, p.delta_m, dbl)
        };
        let rhs1 = if p.delta_m == 0 {
            rhs
        } else {
            fp_get(s1, vm1, dbl)
        };
        let vd1 = advanced(vd, p.delta_d, dbl);
        let vn1 = advanced(vn, p.delta_d, dbl);
        binary_keeps_flags(s1, op, dbl, vd1, vn1, vm1, rhs1, p, (left - 1) as nat);
        let last = binary_lanes(s1, op, dbl, vd1, vn1, vm1, rhs1, p, (left - 1) as nat);
        flags_stay_kept(s.fpscr, s1.fpscr, last.fpscr);
    }
}

proof fn arithmetic_keeps_flags(s: CpuState, instr: u32)
    ensures
        flags_kept(s.fpscr, fp_arithmetic(s, instr).0.fpscr),
{
    or_keeps(s.fpscr, 0, 0);
    assert forall|op: VfpUnaryOp, dbl: bool, vd: usize, vm: usize, src: u64, p: VfpVectorPlan, left: nat|
        flags_kept(
            s.fpscr,
            (#[trigger] unary_lanes(s, op, dbl, vd, vm, src, p, left)).fpscr,
        ) by {
        unary_keeps_flags(s, op, dbl, vd, vm, src, p, left);
    }
    assert forall|
        op: VfpBinaryOp,
        dbl: bool,
        vd: usize,
        vn: usize,
        vm: usize,
        rhs: u64,
        p: VfpVectorPlan,
        left: nat,
    |
        flags_kept(
            s.fpscr,
            (#[trigger] binary_lanes(s, op, dbl, vd, vn, vm, rhs, p, left)).fpscr,
        ) by {
        binary_keeps_flags(s, op, dbl, vd, vn, vm, rhs, p, left);
    }
}

proof fn convert_keeps_flags(s: CpuState, instr: u32)
    ensures
        flags_kept(s.fpscr, fp_convert(s, instr).0.fpscr),
{
    assert forall|v: u32| flags_kept(s.fpscr, #[trigger] (s.fpscr | v)) by {
        or_keeps(s.fpscr, v, 0);
    }
    or_keeps(s.fpscr, 0, 0);
}

proof fn compare_keeps_flags(s: CpuState, instr: u32)
    ensures
        flags_kept(s.fpscr, fp_compare(s, instr).0.fpscr),
{
    let f = s.fpscr & !0xf000_0000u32;
    assert forall|v: u32, w: u32| flags_kept(s.fpscr, #[trigger] ((f | v) | w)) by {
        or_keeps(s.fpscr, v, w);
    }
    assert forall|v: u32| flags_kept(s.fpscr, #[trigger] (f | v)) by {
        or_keeps(s.fpscr, v, 0);
    }
    or_keeps(s.fpscr, 0, 0);
}

proof fn moves_keep_status(s: CpuState, instr: u32, pc: u32)
    requires
        instr & 0x0fff_0fff != 0x0ee1_0a10,
    ensures
        fp_moves(s, instr, pc).0.fpscr == s.fpscr,
{
    if instr & 0x0fe0_0fff == 0x0ee0_0a10 {
        assert(!bit(instr, 20) && (instr >> 16) & 0xf == 1 ==> instr & 0x0fff_0fff == 0x0ee1_0a10) by {
            assert(instr & (1u32 << 20) == 0 && (instr >> 16) & 0xf == 1 ==> instr & 0x0fff_0fff
                == 0x0ee1_0a10) by (bit_vector)
                requires
                    instr & 0x0fe0_0fff == 0x0ee0_0a10,
            ;
        }
        assert(fp_system(s, instr, pc).0.fpscr == s.fpscr);
    }
}

/// No floating-point instruction but a move to the status register clears an
/// exception flag, whether it completes or not.
pub proof fn exception_flags_are_cumulative(s: CpuState, m: MemState, instr: u32, pc: u32)
    requires
        instr & 0x0fff_0fff != 0x0ee1_0a10,
    ensures
        flags_kept(s.fpscr, vfp(s, m, instr, pc).0.fpscr),
{
    reveal(vfp);
    or_keeps(s.fpscr, 0, 0);
    assert forall|dbl: bool, reg: usize, left: nat, addr: u32|
        (#[trigger] fp_load_list(s, m, dbl, reg, left, addr)).0.fpscr == s.fpscr by {
        load_list_keeps_status(s, m, dbl, reg, left, addr);
    }
    assert forall|dbl: bool, reg: usize, left: nat, addr: u32|
        (#[trigger] fp_store_list(s, m, dbl, reg, left, addr)).0.fpscr == s.fpscr by {
        store_list_keeps_status(s, m, dbl, reg, left, addr);
    }
    assert(fp_multiple(s, m, instr, pc).0.fpscr == s.fpscr);
    assert(fp_transfer(s, m, instr, pc).0.fpscr == s.fpscr);
    moves_keep_status(s, instr, pc);
    compare_keeps_flags(s, instr);
    convert_keeps_flags(s, instr);
    arithmetic_keeps_flags(s, instr);
}

/// The state after some floating-point instructions, each with its address, one
/// after the other and whatever each gives.
pub open spec fn after_all(s: CpuState, m: MemState, calls: Seq<(u32, u32)>) -> CpuState
    decreases calls.len(),
{
    if calls.len() == 0 {
        s
    } else {
        let (s1, m1, _) = vfp(s, m, calls[0].0, calls[0].1);
        after_all(s1, m1, calls.drop_first())
    }
}

/// Nor does any number of them.
pub proof fn exception_flags_accumulate(s: CpuState, m: MemState, calls: Seq<(u32, u32)>)
    requires
        forall|i: int| 0 <= i < calls.len() ==> (#[trigger] calls[i]).0 & 0x0fff_0fff != 0x0ee1_0a10,
    ensures
        flags_kept(s.fpscr, after_all(s, m, calls).fpscr),
    decreases calls.len(),
{
    or_keeps(s.fpscr, 0, 0);
    if calls.len() > 0 {
        let (instr, pc) = calls[0];
        exception_flags_are_cumulative(s, m, instr, pc);
        let (s1, m1, _) = vfp(s, m, instr, pc);
        let rest = calls.drop_first();
        assert forall|i: int| 0 <= i < rest.len() implies (#[trigger] rest[i]).0 & 0x0fff_0fff
            != 0x0ee1_0a10 by {
            assert(rest[i] == calls[i + 1]);
        }
        exception_flags_accumulate(s1, m1, rest);
        flags_stay_kept(s.fpscr, s1.fpscr, after_all(s1, m1, rest).fpscr);
    }
}

} // verus!
