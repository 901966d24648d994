//! Execution never changes which addresses can be read and written.

use super::arm_misc::{arm_load_exclusive, arm_misc, arm_store_exclusive, arm_swap, arm_sync, exclusive_write};
use super::arm_transfer::{arm_block_transfer, arm_halfword_transfer, arm_load, arm_load_list, arm_single_transfer, arm_store_list, halfword_access, store_pair};
use super::bits::bit;
use super::cpu::{cpu_store16, cpu_store32, cpu_store8, CpuState};
use super::exec::{arm, arm_class, arm_conditional, run, step, thumb32, try_neon};
use super::memory::MemState;
use super::neon::neon;
use super::neon_lane::{lane, lane_shift, per_d, put_lane};
use super::neon_mem::{all_lanes, elem_bytes, elem_load, elem_store, load_all, load_one, neon_all_lanes, neon_multiple, neon_one_lane, store_one, Walk, walk_load, walk_store};
use super::thumb::{byte_load, half_load, pop_list, thumb, thumb_alu_space, thumb_load_store, thumb_misc, thumb_multi_or_branch, thumb_multiple, thumb_pop, thumb_push, thumb_register_offset, word_load};
use super::thumb32::{t32_block, t32_core, t32_doubleword, t32_exclusive, t32_immediate, t32_load, t32_load_exclusive, t32_pop, t32_single, t32_store, t32_store_exclusive, t32_table_branch};
use super::vfp::{fp_load, fp_load_list, fp_multiple, fp_store, fp_store_list, fp_transfer, vfp};
use vstd::prelude::*;

verus! {

/// The same addresses can be read and written, refusing the others gives the
/// same traps, and the extent is the same.
pub open spec fn same_map(m: MemState, m1: MemState) -> bool {
    m1.load_faults == m.load_faults && m1.store_faults == m.store_faults && m1.extent == m.extent
}

broadcast proof fn cpu_store8_keeps(s: CpuState, m: MemState, addr: u32, v: u8)
    ensures
        same_map(m, (#[trigger] cpu_store8(s, m, addr, v)).1),
{

}

broadcast proof fn cpu_store16_keeps(s: CpuState, m: MemState, addr: u32, v: u16)
    ensures
        same_map(m, (#[trigger] cpu_store16(s, m, addr, v)).1),
{
    broadcast use cpu_store8_keeps;

}

broadcast proof fn cpu_store32_keeps(s: CpuState, m: MemState, addr: u32, v: u32)
    ensures
        same_map(m, (#[trigger] cpu_store32(s, m, addr, v)).1),
{
    broadcast use {cpu_store8_keeps, cpu_store16_keeps};

}

broadcast group cpu_all {
    cpu_store8_keeps,
    cpu_store16_keeps,
    cpu_store32_keeps,
}

broadcast proof fn arm_swap_keeps(s: CpuState, m: MemState, instr: u32, pc: u32)
    ensures
        same_map(m, (#[trigger] arm_swap(s, m, instr, pc)).1),
{
    broadcast use cpu_all;

}

broadcast proof fn arm_load_exclusive_keeps(s: CpuState, m: MemState, instr: u32, pc: u32)
    ensures
        same_map(m, (#[trigger] arm_load_exclusive(s, m, instr, pc)).1),
{
    broadcast use {arm_swap_keeps, cpu_all};

}

broadcast proof fn exclusive_write_keeps(s: CpuState, m: MemState, instr: u32, pc: u32)
    ensures
        same_map(m, (#[trigger] exclusive_write(s, m, instr, pc)).0),
{
    broadcast use {arm_swap_keeps, arm_load_exclusive_keeps, cpu_all};

}

broadcast proof fn arm_store_exclusive_keeps(s: CpuState, m: MemState, instr: u32, pc: u32)
    ensures
        same_map(m, (#[trigger] arm_store_exclusive(s, m, instr, pc)).1),
{
    broadcast use {arm_swap_keeps, arm_load_exclusive_keeps, exclusive_write_keeps, cpu_all};

}

broadcast proof fn arm_sync_keeps(s: CpuState, m: MemState, instr: u32, pc: u32)
    ensures
        same_map(m, (#[trigger] arm_sync(s, m, instr, pc)).1),
{
    broadcast use {arm_swap_keeps, arm_load_exclusive_keeps, exclusive_write_keeps, arm_store_exclusive_keeps, cpu_all};

}

broadcast proof fn arm_misc_keeps(s: CpuState, m: MemState, instr: u32, pc: u32)
    ensures
        same_map(m, (#[trigger] arm_misc(s, m, instr, pc)).1),
{
    broadcast use {arm_swap_keeps, arm_load_exclusive_keeps, exclusive_write_keeps, arm_store_exclusive_keeps, arm_sync_keeps, cpu_all};

    reveal(arm_misc);
}

broadcast group arm_misc_all {
    arm_swap_keeps,
    arm_load_exclusive_keeps,
    exclusive_write_keeps,
    arm_store_exclusive_keeps,
    arm_sync_keeps,
    arm_misc_keeps,
}

broadcast proof fn store_pair_keeps(s: CpuState, m: MemState, addr: u32, lo: u32, hi: u32)
    ensures
        same_map(m, (#[trigger] store_pair(s, m, addr, lo, hi)).1),
{
    broadcast use {cpu_all, arm_misc_all};

}

broadcast proof fn halfword_access_keeps(s: CpuState, m: MemState, instr: u32, pc: u32, addr: u32)
    ensures
        same_map(m, (#[trigger] halfword_access(s, m, instr, pc, addr)).1),
{
    broadcast use {store_pair_keeps, cpu_all, arm_misc_all};

}

broadcast proof fn arm_halfword_transfer_keeps(s: CpuState, m: MemState, instr: u32, pc: u32)
    ensures
        same_map(m, (#[trigger] arm_halfword_transfer(s, m, instr, pc)).1),
{
    broadcast use {store_pair_keeps, halfword_access_keeps, cpu_all, arm_misc_all};

    reveal(arm_halfword_transfer);
}

broadcast proof fn arm_load_keeps(s: CpuState, m: MemState, addr: u32, rd: usize, byte: bool)
    ensures
        same_map(m, (#[trigger] arm_load(s, m, addr, rd, byte)).1),
{
    broadcast use {store_pair_keeps, halfword_access_keeps, arm_halfword_transfer_keeps, cpu_all, arm_misc_all};

}

broadcast proof fn arm_single_transfer_keeps(s: CpuState, m: MemState, instr: u32, pc: u32)
    ensures
        same_map(m, (#[trigger] arm_single_transfer(s, m, instr, pc)).1),
{
    broadcast use {store_pair_keeps, halfword_access_keeps, arm_halfword_transfer_keeps, arm_load_keeps, cpu_all, arm_misc_all};

}

broadcast proof fn arm_load_list_keeps(s: CpuState, m: MemState, list: u32, reg: usize, addr: u32)
    ensures
        same_map(m, (#[trigger] arm_load_list(s, m, list, reg, addr)).1),
    decreases 16 - reg,
{
    if reg < 16 {
        let next = (reg + 1) as usize;
        if !bit(list, reg as u32) {
            arm_load_list_keeps(s, m, list, next, addr);
        } else if let Ok(v) = m.load32(addr) {
            arm_load_list_keeps(s.wa(reg, v), m, list, next, addr.wrapping_add(4));
        }
    }
}

broadcast proof fn arm_store_list_keeps(s: CpuState, m: MemState, list: u32, reg: usize, addr: u32, pc: u32)
    ensures
        same_map(m, (#[trigger] arm_store_list(s, m, list, reg, addr, pc)).1),
    decreases 16 - reg,
{
    if reg < 16 {
        let next = (reg + 1) as usize;
        if !bit(list, reg as u32) {
            arm_store_list_keeps(s, m, list, next, addr, pc);
        } else {
            let (s1, m1, r) = cpu_store32(s, m, addr, s.ra(reg, pc));
            arm_store_list_keeps(s1, m1, list, next, addr.wrapping_add(4), pc);
        }
    }
}

broadcast proof fn arm_block_transfer_keeps(s: CpuState, m: MemState, instr: u32, pc: u32)
    ensures
        same_map(m, (#[trigger] arm_block_transfer(s, m, instr, pc)).1),
{
    broadcast use {store_pair_keeps, halfword_access_keeps, arm_halfword_transfer_keeps, arm_load_keeps, arm_single_transfer_keeps, arm_load_list_keeps, arm_store_list_keeps, cpu_all, arm_misc_all};

}

broadcast group arm_transfer_all {
    store_pair_keeps,
    halfword_access_keeps,
    arm_halfword_transfer_keeps,
    arm_load_keeps,
    arm_single_transfer_keeps,
    arm_load_list_keeps,
    arm_store_list_keeps,
    arm_block_transfer_keeps,
}

broadcast proof fn elem_store_keeps(m: MemState, addr: u32, k: nat, n: nat, v: u64)
    ensures
        same_map(m, (#[trigger] elem_store(m, addr, k, n, v)).0),
    decreases n - k,
{
    if k < n {
        let (m1, r) = m.store8(addr.wrapping_add(k as u32), ((v >> ((8 * k) as u64)) & 0xff) as u8);
        elem_store_keeps(m1, addr, k + 1, n, v);
    }
}

broadcast proof fn walk_load_keeps(s: CpuState, m: MemState, w: Walk, r: usize, e: usize, i: usize, addr: u32)
    ensures
        same_map(m, (#[trigger] walk_load(s, m, w, r, e, i, addr)).1),
    decreases w.regs - r, per_d(w.size) - e, w.n - i,
{
    if r < w.regs {
        if e >= per_d(w.size) {
            walk_load_keeps(s, m, w, (r + 1) as usize, 0, 0, addr);
        } else if i >= w.n {
            walk_load_keeps(s, m, w, r, (e + 1) as usize, 0, addr);
        } else if let Ok(v) = elem_load(m, addr, elem_bytes(w.size)) {
            let reg = w.reg(r, i);
            walk_load_keeps(
                s.with_d(reg, s.d(reg) | (v << lane_shift(e, w.size))),
                m,
                w,
                r,
                e,
                (i + 1) as usize,
                addr.wrapping_add(elem_bytes(w.size) as u32),
            );
        }
    }
}

broadcast proof fn walk_store_keeps(s: CpuState, m: MemState, w: Walk, r: usize, e: usize, i: usize, addr: u32)
    ensures
        same_map(m, (#[trigger] walk_store(s, m, w, r, e, i, addr)).0),
    decreases w.regs - r, per_d(w.size) - e, w.n - i,
{
    if r < w.regs {
        if e >= per_d(w.size) {
            walk_store_keeps(s, m, w, (r + 1) as usize, 0, 0, addr);
        } else if i >= w.n {
            walk_store_keeps(s, m, w, r, (e + 1) as usize, 0, addr);
        } else {
            let v = lane(s.d(w.reg(r, i)), e, w.size);
            let (m1, out) = elem_store(m, addr, 0, elem_bytes(w.size), v);
            elem_store_keeps(m, addr, 0, elem_bytes(w.size), v);
            walk_store_keeps(
                s,
                m1,
                w,
                r,
                e,
                (i + 1) as usize,
                addr.wrapping_add(elem_bytes(w.size) as u32),
            );
        }
    }
}

broadcast proof fn neon_multiple_keeps(s: CpuState, m: MemState, instr: u32, pc: u32)
    ensures
        same_map(m, (#[trigger] neon_multiple(s, m, instr, pc)).1),
{
    broadcast use {elem_store_keeps, walk_load_keeps, walk_store_keeps, cpu_all, arm_misc_all, arm_transfer_all};

}

broadcast proof fn load_all_keeps(s: CpuState, m: MemState, reg: usize, left: nat, stride: usize, pair: bool, size: usize, addr: u32)
    ensures
        same_map(m, (#[trigger] load_all(s, m, reg, left, stride, pair, size, addr)).1),
    decreases left,
{
    if left > 0 {
        if let Ok(v) = elem_load(m, addr, elem_bytes(size)) {
            let s1 = s.with_d(reg, all_lanes(v, size));
            let s2 = if pair {
                s1.with_d((reg + 1) as usize, all_lanes(v, size))
            } else {
                s1
            };
            load_all_keeps(
                s2,
                m,
                (reg + stride) as usize,
                (left - 1) as nat,
                stride,
                pair,
                size,
                addr.wrapping_add(elem_bytes(size) as u32),
            );
        }
    }
}

broadcast proof fn neon_all_lanes_keeps(s: CpuState, m: MemState, instr: u32, pc: u32)
    ensures
        same_map(m, (#[trigger] neon_all_lanes(s, m, instr, pc)).1),
{
    broadcast use {elem_store_keeps, walk_load_keeps, walk_store_keeps, neon_multiple_keeps, load_all_keeps, cpu_all, arm_misc_all, arm_transfer_all};

}

broadcast proof fn load_one_keeps(s: CpuState, m: MemState, reg: usize, left: nat, stride: usize, idx: usize, size: usize, addr: u32)
    ensures
        same_map(m, (#[trigger] load_one(s, m, reg, left, stride, idx, size, addr)).1),
    decreases left,
{
    if left > 0 {
        if let Ok(v) = elem_load(m, addr, elem_bytes(size)) {
            load_one_keeps(
                s.with_d(reg, put_lane(s.d(reg), idx, size, v)),
                m,
                (reg + stride) as usize,
                (left - 1) as nat,
                stride,
                idx,
                size,
                addr.wrapping_add(elem_bytes(size) as u32),
            );
        }
    }
}

broadcast proof fn store_one_keeps(s: CpuState, m: MemState, reg: usize, left: nat, stride: usize, idx: usize, size: usize, addr: u32)
    ensures
        same_map(m, (#[trigger] store_one(s, m, reg, left, stride, idx, size, addr)).0),
    decreases left,
{
    if left > 0 {
        let v = lane(s.d(reg), idx, size);
        let (m1, out) = elem_store(m, addr, 0, elem_bytes(size), v);
        elem_store_keeps(m, addr, 0, elem_bytes(size), v);
        store_one_keeps(
            s,
            m1,
            (reg + stride) as usize,
            (left - 1) as nat,
            stride,
            idx,
            size,
            addr.wrapping_add(elem_bytes(size) as u32),
        );
    }
}

broadcast proof fn neon_one_lane_keeps(s: CpuState, m: MemState, instr: u32, pc: u32)
    ensures
        same_map(m, (#[trigger] neon_one_lane(s, m, instr, pc)).1),
{
    broadcast use {elem_store_keeps, walk_load_keeps, walk_store_keeps, neon_multiple_keeps, load_all_keeps, neon_all_lanes_keeps, load_one_keeps, store_one_keeps, cpu_all, arm_misc_all, arm_transfer_all};

}

broadcast proof fn neon_keeps(s: CpuState, m: MemState, instr: u32, pc: u32)
    ensures
        same_map(m, (#[trigger] neon(s, m, instr, pc)).1),
{
    broadcast use {elem_store_keeps, walk_load_keeps, walk_store_keeps, neon_multiple_keeps, load_all_keeps, neon_all_lanes_keeps, load_one_keeps, store_one_keeps, neon_one_lane_keeps, cpu_all, arm_misc_all, arm_transfer_all};

    reveal(neon);
}

broadcast group neon_mem_all {
    elem_store_keeps,
    walk_load_keeps,
    walk_store_keeps,
    neon_multiple_keeps,
    load_all_keeps,
    neon_all_lanes_keeps,
    load_one_keeps,
    store_one_keeps,
    neon_one_lane_keeps,
    neon_keeps,
}

broadcast proof fn fp_load_keeps(s: CpuState, m: MemState, dbl: bool, reg: usize, addr: u32)
    ensures
        same_map(m, (#[trigger] fp_load(s, m, dbl, reg, addr)).1),
{
    broadcast use {cpu_all, arm_misc_all, arm_transfer_all, neon_mem_all};

}

broadcast proof fn fp_store_keeps(s: CpuState, m: MemState, dbl: bool, reg: usize, addr: u32)
    ensures
        same_map(m, (#[trigger] fp_store(s, m, dbl, reg, addr)).1),
{
    broadcast use {fp_load_keeps, cpu_all, arm_misc_all, arm_transfer_all, neon_mem_all};

}

broadcast proof fn fp_load_list_keeps(s: CpuState, m: MemState, dbl: bool, reg: usize, left: nat, addr: u32)
    ensures
        same_map(m, (#[trigger] fp_load_list(s, m, dbl, reg, left, addr)).1),
    decreases left,
{
    if left > 0 {
        let (s1, m1, out) = fp_load(s, m, dbl, reg, addr);
        fp_load_list_keeps(
            s1,
            m1,
            dbl,
            (reg + 1) as usize,
            (left - 1) as nat,
            addr.wrapping_add(
                if dbl {
                    8
                } else {
                    4
                },
            ),
        );
    }
}

broadcast proof fn fp_store_list_keeps(s: CpuState, m: MemState, dbl: bool, reg: usize, left: nat, addr: u32)
    ensures
        same_map(m, (#[trigger] fp_store_list(s, m, dbl, reg, left, addr)).1),
    decreases left,
{
    if left > 0 {
        let (s1, m1, out) = fp_store(s, m, dbl, reg, addr);
        fp_store_keeps(s, m, dbl, reg, addr);
        fp_store_list_keeps(
            s1,
            m1,
            dbl,
            (reg + 1) as usize,
            (left - 1) as nat,
            addr.wrapping_add(
                if dbl {
                    8
                } else {
                    4
                },
            ),
        );
    }
}

broadcast proof fn fp_multiple_keeps(s: CpuState, m: MemState, instr: u32, pc: u32)
    ensures
        same_map(m, (#[trigger] fp_multiple(s, m, instr, pc)).1),
{
    broadcast use {fp_load_keeps, fp_store_keeps, fp_load_list_keeps, fp_store_list_keeps, cpu_all, arm_misc_all, arm_transfer_all, neon_mem_all};

}

broadcast proof fn fp_transfer_keeps(s: CpuState, m: MemState, instr: u32, pc: u32)
    ensures
        same_map(m, (#[trigger] fp_transfer(s, m, instr, pc)).1),
{
    broadcast use {fp_load_keeps, fp_store_keeps, fp_load_list_keeps, fp_store_list_keeps, fp_multiple_keeps, cpu_all, arm_misc_all, arm_transfer_all, neon_mem_all};

}

broadcast proof fn vfp_keeps(s: CpuState, m: MemState, instr: u32, pc: u32)
    ensures
        same_map(m, (#[trigger] vfp(s, m, instr, pc)).1),
{
    broadcast use {fp_load_keeps, fp_store_keeps, fp_load_list_keeps, fp_store_list_keeps, fp_multiple_keeps, fp_transfer_keeps, cpu_all, arm_misc_all, arm_transfer_all, neon_mem_all};

    reveal(vfp);
}

broadcast group vfp_all {
    fp_load_keeps,
    fp_store_keeps,
    fp_load_list_keeps,
    fp_store_list_keeps,
    fp_multiple_keeps,
    fp_transfer_keeps,
    vfp_keeps,
}

broadcast proof fn word_load_keeps(s: CpuState, m: MemState, addr: u32, rd: usize)
    ensures
        same_map(m, (#[trigger] word_load(s, m, addr, rd)).1),
{
    broadcast use {cpu_all, arm_misc_all, arm_transfer_all, neon_mem_all, vfp_all};

}

broadcast proof fn half_load_keeps(s: CpuState, m: MemState, addr: u32, rd: usize, signed: bool)
    ensures
        same_map(m, (#[trigger] half_load(s, m, addr, rd, signed)).1),
{
    broadcast use {word_load_keeps, cpu_all, arm_misc_all, arm_transfer_all, neon_mem_all, vfp_all};

}

broadcast proof fn byte_load_keeps(s: CpuState, m: MemState, addr: u32, rd: usize, signed: bool)
    ensures
        same_map(m, (#[trigger] byte_load(s, m, addr, rd, signed)).1),
{
    broadcast use {word_load_keeps, half_load_keeps, cpu_all, arm_misc_all, arm_transfer_all, neon_mem_all, vfp_all};

}

broadcast proof fn thumb_register_offset_keeps(s: CpuState, m: MemState, instr: u16)
    ensures
        same_map(m, (#[trigger] thumb_register_offset(s, m, instr)).1),
{
    broadcast use {word_load_keeps, half_load_keeps, byte_load_keeps, cpu_all, arm_misc_all, arm_transfer_all, neon_mem_all, vfp_all};

}

broadcast proof fn thumb_load_store_keeps(s: CpuState, m: MemState, instr: u16, pc: u32)
    ensures
        same_map(m, (#[trigger] thumb_load_store(s, m, instr, pc)).1),
{
    broadcast use {word_load_keeps, half_load_keeps, byte_load_keeps, thumb_register_offset_keeps, cpu_all, arm_misc_all, arm_transfer_all, neon_mem_all, vfp_all};

}

broadcast proof fn thumb_alu_space_keeps(s: CpuState, m: MemState, instr: u16, pc: u32)
    ensures
        same_map(m, (#[trigger] thumb_alu_space(s, m, instr, pc)).1),
{
    broadcast use {word_load_keeps, half_load_keeps, byte_load_keeps, thumb_register_offset_keeps, thumb_load_store_keeps, cpu_all, arm_misc_all, arm_transfer_all, neon_mem_all, vfp_all};

}

broadcast proof fn pop_list_keeps(s: CpuState, m: MemState, list: u32, reg: usize)
    ensures
        same_map(m, (#[trigger] pop_list(s, m, list, reg)).1),
    decreases 8 - reg,
{
    if reg < 8 {
        let next = (reg + 1) as usize;
        if !bit(list, reg as u32) {
            pop_list_keeps(s, m, list, next);
        } else if let Ok(v) = m.load32(s.r(13)) {
            let s1 = s.with_r(reg, v);
            pop_list_keeps(s1.with_r(13, s1.r(13).wrapping_add(4)), m, list, next);
        }
    }
}

broadcast proof fn thumb_pop_keeps(s: CpuState, m: MemState, instr: u16)
    ensures
        same_map(m, (#[trigger] thumb_pop(s, m, instr)).1),
{
    broadcast use {word_load_keeps, half_load_keeps, byte_load_keeps, thumb_register_offset_keeps, thumb_load_store_keeps, thumb_alu_space_keeps, pop_list_keeps, cpu_all, arm_misc_all, arm_transfer_all, neon_mem_all, vfp_all};

}

broadcast proof fn thumb_push_keeps(s: CpuState, m: MemState, instr: u16, pc: u32)
    ensures
        same_map(m, (#[trigger] thumb_push(s, m, instr, pc)).1),
{
    broadcast use {word_load_keeps, half_load_keeps, byte_load_keeps, thumb_register_offset_keeps, thumb_load_store_keeps, thumb_alu_space_keeps, pop_list_keeps, thumb_pop_keeps, cpu_all, arm_misc_all, arm_transfer_all, neon_mem_all, vfp_all};

}

broadcast proof fn thumb_misc_keeps(s: CpuState, m: MemState, instr: u16, pc: u32)
    ensures
        same_map(m, (#[trigger] thumb_misc(s, m, instr, pc)).1),
{
    broadcast use {word_load_keeps, half_load_keeps, byte_load_keeps, thumb_register_offset_keeps, thumb_load_store_keeps, thumb_alu_space_keeps, pop_list_keeps, thumb_pop_keeps, thumb_push_keeps, cpu_all, arm_misc_all, arm_transfer_all, neon_mem_all, vfp_all};

}

broadcast proof fn thumb_multiple_keeps(s: CpuState, m: MemState, instr: u16, pc: u32)
    ensures
        same_map(m, (#[trigger] thumb_multiple(s, m, instr, pc)).1),
{
    broadcast use {word_load_keeps, half_load_keeps, byte_load_keeps, thumb_register_offset_keeps, thumb_load_store_keeps, thumb_alu_space_keeps, pop_list_keeps, thumb_pop_keeps, thumb_push_keeps, thumb_misc_keeps, cpu_all, arm_misc_all, arm_transfer_all, neon_mem_all, vfp_all};

}

broadcast proof fn thumb_multi_or_branch_keeps(s: CpuState, m: MemState, instr: u16, pc: u32)
    ensures
        same_map(m, (#[trigger] thumb_multi_or_branch(s, m, instr, pc)).1),
{
    broadcast use {word_load_keeps, half_load_keeps, byte_load_keeps, thumb_register_offset_keeps, thumb_load_store_keeps, thumb_alu_space_keeps, pop_list_keeps, thumb_pop_keeps, thumb_push_keeps, thumb_misc_keeps, thumb_multiple_keeps, cpu_all, arm_misc_all, arm_transfer_all, neon_mem_all, vfp_all};

}

broadcast proof fn thumb_keeps(s: CpuState, m: MemState, instr: u16, pc: u32)
    ensures
        same_map(m, (#[trigger] thumb(s, m, instr, pc)).1),
{
    broadcast use {word_load_keeps, half_load_keeps, byte_load_keeps, thumb_register_offset_keeps, thumb_load_store_keeps, thumb_alu_space_keeps, pop_list_keeps, thumb_pop_keeps, thumb_push_keeps, thumb_misc_keeps, thumb_multiple_keeps, thumb_multi_or_branch_keeps, cpu_all, arm_misc_all, arm_transfer_all, neon_mem_all, vfp_all};

}

broadcast group thumb_all {
    word_load_keeps,
    half_load_keeps,
    byte_load_keeps,
    thumb_register_offset_keeps,
    thumb_load_store_keeps,
    thumb_alu_space_keeps,
    pop_list_keeps,
    thumb_pop_keeps,
    thumb_push_keeps,
    thumb_misc_keeps,
    thumb_multiple_keeps,
    thumb_multi_or_branch_keeps,
    thumb_keeps,
}

broadcast proof fn t32_store_exclusive_keeps(s: CpuState, m: MemState, rn: usize, rt: usize, rd: usize, addr: u32, size: u8)
    ensures
        same_map(m, (#[trigger] t32_store_exclusive(s, m, rn, rt, rd, addr, size)).1),
{
    broadcast use {cpu_all, arm_misc_all, arm_transfer_all, neon_mem_all, vfp_all, thumb_all};

}

broadcast proof fn t32_load_exclusive_keeps(s: CpuState, m: MemState, rn: usize, rt: usize, addr: u32, size: u8)
    ensures
        same_map(m, (#[trigger] t32_load_exclusive(s, m, rn, rt, addr, size)).1),
{
    broadcast use {t32_store_exclusive_keeps, cpu_all, arm_misc_all, arm_transfer_all, neon_mem_all, vfp_all, thumb_all};

}

broadcast proof fn t32_exclusive_keeps(s: CpuState, m: MemState, first: u16, second: u16)
    ensures
        same_map(m, (#[trigger] t32_exclusive(s, m, first, second)).1),
{
    broadcast use {t32_store_exclusive_keeps, t32_load_exclusive_keeps, cpu_all, arm_misc_all, arm_transfer_all, neon_mem_all, vfp_all, thumb_all};

}

broadcast proof fn t32_pop_keeps(s: CpuState, m: MemState, second: u16, pc: u32)
    ensures
        same_map(m, (#[trigger] t32_pop(s, m, second, pc)).1),
{
    broadcast use {t32_store_exclusive_keeps, t32_load_exclusive_keeps, t32_exclusive_keeps, cpu_all, arm_misc_all, arm_transfer_all, neon_mem_all, vfp_all, thumb_all};

}

broadcast proof fn t32_table_branch_keeps(s: CpuState, m: MemState, first: u16, second: u16, pc: u32)
    ensures
        same_map(m, (#[trigger] t32_table_branch(s, m, first, second, pc)).1),
{
    broadcast use {t32_store_exclusive_keeps, t32_load_exclusive_keeps, t32_exclusive_keeps, t32_pop_keeps, cpu_all, arm_misc_all, arm_transfer_all, neon_mem_all, vfp_all, thumb_all};

}

broadcast proof fn t32_block_keeps(s: CpuState, m: MemState, first: u16, second: u16, pc: u32)
    ensures
        same_map(m, (#[trigger] t32_block(s, m, first, second, pc)).1),
{
    broadcast use {t32_store_exclusive_keeps, t32_load_exclusive_keeps, t32_exclusive_keeps, t32_pop_keeps, t32_table_branch_keeps, cpu_all, arm_misc_all, arm_transfer_all, neon_mem_all, vfp_all, thumb_all};

}

broadcast proof fn t32_doubleword_keeps(s: CpuState, m: MemState, first: u16, second: u16)
    ensures
        same_map(m, (#[trigger] t32_doubleword(s, m, first, second)).1),
{
    broadcast use {t32_store_exclusive_keeps, t32_load_exclusive_keeps, t32_exclusive_keeps, t32_pop_keeps, t32_table_branch_keeps, t32_block_keeps, cpu_all, arm_misc_all, arm_transfer_all, neon_mem_all, vfp_all, thumb_all};

}

broadcast proof fn t32_load_keeps(s: CpuState, m: MemState, op: u16, addr: u32, rt: usize, rn: usize, back: Option<u32>)
    ensures
        same_map(m, (#[trigger] t32_load(s, m, op, addr, rt, rn, back)).1),
{
    broadcast use {t32_store_exclusive_keeps, t32_load_exclusive_keeps, t32_exclusive_keeps, t32_pop_keeps, t32_table_branch_keeps, t32_block_keeps, t32_doubleword_keeps, cpu_all, arm_misc_all, arm_transfer_all, neon_mem_all, vfp_all, thumb_all};

}

broadcast proof fn t32_store_keeps(s: CpuState, m: MemState, op: u16, addr: u32, v: u32)
    ensures
        same_map(m, (#[trigger] t32_store(s, m, op, addr, v)).1),
{
    broadcast use {t32_store_exclusive_keeps, t32_load_exclusive_keeps, t32_exclusive_keeps, t32_pop_keeps, t32_table_branch_keeps, t32_block_keeps, t32_doubleword_keeps, t32_load_keeps, cpu_all, arm_misc_all, arm_transfer_all, neon_mem_all, vfp_all, thumb_all};

}

broadcast proof fn t32_single_keeps(s: CpuState, m: MemState, first: u16, second: u16, pc: u32)
    ensures
        same_map(m, (#[trigger] t32_single(s, m, first, second, pc)).1),
{
    broadcast use {t32_store_exclusive_keeps, t32_load_exclusive_keeps, t32_exclusive_keeps, t32_pop_keeps, t32_table_branch_keeps, t32_block_keeps, t32_doubleword_keeps, t32_load_keeps, t32_store_keeps, cpu_all, arm_misc_all, arm_transfer_all, neon_mem_all, vfp_all, thumb_all};

}

broadcast proof fn t32_immediate_keeps(s: CpuState, m: MemState, op: u16, addr: u32, rt: usize, rn: usize, back: Option<u32>)
    ensures
        same_map(m, (#[trigger] t32_immediate(s, m, op, addr, rt, rn, back)).1),
{
    broadcast use {t32_store_exclusive_keeps, t32_load_exclusive_keeps, t32_exclusive_keeps, t32_pop_keeps, t32_table_branch_keeps, t32_block_keeps, t32_doubleword_keeps, t32_load_keeps, t32_store_keeps, t32_single_keeps, cpu_all, arm_misc_all, arm_transfer_all, neon_mem_all, vfp_all, thumb_all};

}

broadcast proof fn t32_core_keeps(s: CpuState, m: MemState, first: u16, second: u16, pc: u32)
    ensures
        same_map(m, (#[trigger] t32_core(s, m, first, second, pc)).1),
{
    broadcast use {t32_store_exclusive_keeps, t32_load_exclusive_keeps, t32_exclusive_keeps, t32_pop_keeps, t32_table_branch_keeps, t32_block_keeps, t32_doubleword_keeps, t32_load_keeps, t32_store_keeps, t32_single_keeps, t32_immediate_keeps, cpu_all, arm_misc_all, arm_transfer_all, neon_mem_all, vfp_all, thumb_all};

}

broadcast group thumb32_all {
    t32_store_exclusive_keeps,
    t32_load_exclusive_keeps,
    t32_exclusive_keeps,
    t32_pop_keeps,
    t32_table_branch_keeps,
    t32_block_keeps,
    t32_doubleword_keeps,
    t32_load_keeps,
    t32_store_keeps,
    t32_single_keeps,
    t32_immediate_keeps,
    t32_core_keeps,
}

broadcast proof fn arm_class_keeps(s: CpuState, m: MemState, instr: u32, pc: u32)
    ensures
        same_map(m, (#[trigger] arm_class(s, m, instr, pc)).1),
{
    broadcast use {cpu_all, arm_misc_all, arm_transfer_all, neon_mem_all, vfp_all, thumb_all, thumb32_all};

}

broadcast proof fn arm_conditional_keeps(s: CpuState, m: MemState, instr: u32, pc: u32)
    ensures
        same_map(m, (#[trigger] arm_conditional(s, m, instr, pc)).1),
{
    broadcast use {arm_class_keeps, cpu_all, arm_misc_all, arm_transfer_all, neon_mem_all, vfp_all, thumb_all, thumb32_all};

}

broadcast proof fn arm_keeps(s: CpuState, m: MemState, instr: u32, pc: u32)
    ensures
        same_map(m, (#[trigger] arm(s, m, instr, pc)).1),
{
    broadcast use {arm_class_keeps, arm_conditional_keeps, cpu_all, arm_misc_all, arm_transfer_all, neon_mem_all, vfp_all, thumb_all, thumb32_all};

}

broadcast proof fn try_neon_keeps(s: CpuState, m: MemState, word: Option<u32>, pc: u32)
    ensures
        same_map(m, (#[trigger] try_neon(s, m, word, pc)).1),
{
    broadcast use {arm_class_keeps, arm_conditional_keeps, arm_keeps, cpu_all, arm_misc_all, arm_transfer_all, neon_mem_all, vfp_all, thumb_all, thumb32_all};

}

broadcast proof fn thumb32_keeps(s: CpuState, m: MemState, first: u16, second: u16, pc: u32)
    ensures
        same_map(m, (#[trigger] thumb32(s, m, first, second, pc)).1),
{
    broadcast use {arm_class_keeps, arm_conditional_keeps, arm_keeps, try_neon_keeps, cpu_all, arm_misc_all, arm_transfer_all, neon_mem_all, vfp_all, thumb_all, thumb32_all};

}

broadcast proof fn step_keeps(s: CpuState, m: MemState)
    ensures
        same_map(m, (#[trigger] step(s, m)).1),
{
    broadcast use {arm_class_keeps, arm_conditional_keeps, arm_keeps, try_neon_keeps, thumb32_keeps, cpu_all, arm_misc_all, arm_transfer_all, neon_mem_all, vfp_all, thumb_all, thumb32_all};

}

broadcast group exec_all {
    arm_class_keeps,
    arm_conditional_keeps,
    arm_keeps,
    try_neon_keeps,
    thumb32_keeps,
    step_keeps,
}

/// However long a program runs and however it ends, the addresses that can be
/// read and written stay the same, and so does the extent of the memory.
pub proof fn running_keeps_the_memory_map(s: CpuState, m: MemState, n: nat)
    ensures
        same_map(m, run(s, m, n).1),
    decreases n,
{
    if n > 0 {
        step_keeps(s, m);
        let (s1, m1, _) = step(s, m);
        running_keeps_the_memory_map(s1, m1, (n - 1) as nat);
    }
}

} // verus!
