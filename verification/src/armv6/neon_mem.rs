//! Vector structure loads and stores.

use super::bits::{bit, bit_at, f4, field4, group_masks};
use super::cpu::{beside, faulted, passed, undefined, unpredictable, Cpu, CpuState, Seen};
use super::memory::{MemState, Memory};
use super::neon_lane::{
    lane, lane_shift, neon_elem_mask, neon_lane_shift, neon_per_d, neon_read_elem, neon_write_elem,
    pack, per_d, put_lane,
};
use super::trap::{seen, Result, Trap};
use super::vfp_regs::{dd, vfp_double_d};
use vstd::prelude::*;

verus! {

broadcast use group_masks;

/// The little-endian element of `n` bytes at `addr`.
pub open spec fn elem_load(m: MemState, addr: u32, n: nat) -> Seen<u64>
    decreases n,
{
    if n == 0 {
        Ok(0)
    } else {
        match elem_load(m, addr, (n - 1) as nat) {
            Err(t) => Err(t),
            Ok(v) => match m.load8(addr.wrapping_add((n - 1) as u32)) {
                Err(t) => Err(t),
                Ok(b) => Ok(v | ((b as u64) << ((8 * (n - 1)) as u64))),
            },
        }
    }
}

/// The memory after bytes `k` to `n` of an element are stored.
pub open spec fn elem_store(m: MemState, addr: u32, k: nat, n: nat, v: u64) -> (MemState, Seen<()>)
    decreases n - k,
{
    if k >= n {
        (m, Ok(()))
    } else {
        match m.store8(addr.wrapping_add(k as u32), ((v >> ((8 * k) as u64)) & 0xff) as u8) {
            (m1, Ok(_)) => elem_store(m1, addr, k + 1, n, v),
            (m1, Err(t)) => (m1, Err(t)),
        }
    }
}

/// The bytes of an element.
pub open spec fn elem_bytes(size: usize) -> nat {
    if size == 0 {
        1
    } else if size == 1 {
        2
    } else if size == 2 {
        4
    } else {
        8
    }
}

fn element_bytes(size: usize) -> (r: u32)
    ensures
        r == elem_bytes(size),
        1 <= r <= 8,
{
    match size {
        0 => 1,
        1 => 2,
        2 => 4,
        _ => 8,
    }
}

fn load_neon_memory_elem<M: Memory>(mem: &mut M, addr: u32, bytes: u32) -> (r: Result<u64>)
    requires
        bytes <= 8,
    ensures
        final(mem).state() == old(mem).state(),
        seen(r) == elem_load(old(mem).state(), addr, bytes as nat),
{
    let mut value: u64 = 0;
    let mut idx: u32 = 0;
    let ghost m = mem.state();
    while idx < bytes
        invariant
            idx <= bytes <= 8,
            mem.state() == m,
            m == old(mem).state(),
            elem_load(m, addr, idx as nat) == Ok::<u64, super::trap::TrapView>(value),
        decreases bytes - idx,
    {
        let loaded = mem.load8(addr.wrapping_add(idx));
        match loaded {
            Ok(b) => {
                value = value | ((b as u64) << ((8 * idx) as u64));
            },
            Err(t) => {
                proof {
                    elem_load_fails(m, addr, (idx + 1) as nat, bytes as nat, t@);
                }
                return Err(t);
            },
        }
        idx += 1;
    }
    Ok(value)
}

proof fn elem_load_fails(m: MemState, addr: u32, k: nat, n: nat, t: super::trap::TrapView)
    requires
        k <= n,
        elem_load(m, addr, k) == Err::<u64, super::trap::TrapView>(t),
    ensures
        elem_load(m, addr, n) == Err::<u64, super::trap::TrapView>(t),
    decreases n - k,
{
    if k < n {
        elem_load_fails(m, addr, k + 1, n, t);
    }
}

fn store_neon_memory_elem<M: Memory>(mem: &mut M, addr: u32, bytes: u32, value: u64) -> (r: Result<
    (),
>)
    requires
        bytes <= 8,
    ensures
        (final(mem).state(), seen(r)) == elem_store(
            old(mem).state(),
            addr,
            0,
            bytes as nat,
            value,
        ),
{
    let mut idx: u32 = 0;
    while idx < bytes
        invariant
            idx <= bytes <= 8,
            elem_store(old(mem).state(), addr, 0, bytes as nat, value) == elem_store(
                mem.state(),
                addr,
                idx as nat,
                bytes as nat,
                value,
            ),
        decreases bytes - idx,
    {
        mem.store8(addr.wrapping_add(idx), ((value >> ((8 * idx) as u64)) & 0xff) as u8)?;
        idx += 1;
    }
    Ok(())
}

/// The base register update of a structure transfer.
pub open spec fn structure_writeback(s: CpuState, rn: usize, rm: usize, bytes: u32) -> CpuState {
    if rm == 15 {
        s
    } else {
        s.with_r(
            rn,
            s.r(rn).wrapping_add(
                if rm == 13 {
                    bytes
                } else {
                    s.r(rm)
                },
            ),
        )
    }
}

/// Interleave, registers and register spacing of a multiple structure
/// transfer.
pub open spec fn multiple_form(itype: u32, size: usize, align: u32) -> Option<
    (usize, usize, usize),
> {
    if itype == 7 && align & 2 == 0 {
        Some((1, 1, 0))
    } else if itype == 10 && align != 3 {
        Some((1, 2, 0))
    } else if itype == 6 && align & 2 == 0 {
        Some((1, 3, 0))
    } else if itype == 2 {
        Some((1, 4, 0))
    } else if (itype == 8 || itype == 9) && size != 3 && align != 3 {
        Some(
            (
                2,
                1,
                if itype == 8 {
                    1
                } else {
                    2
                },
            ),
        )
    } else if itype == 3 && size != 3 {
        Some((2, 2, 2))
    } else if (itype == 4 || itype == 5) && size != 3 && align & 2 == 0 {
        Some(
            (
                3,
                1,
                if itype == 4 {
                    1
                } else {
                    2
                },
            ),
        )
    } else if (itype == 0 || itype == 1) && size != 3 {
        Some(
            (
                4,
                1,
                if itype == 0 {
                    1
                } else {
                    2
                },
            ),
        )
    } else {
        None
    }
}

fn neon_decode_ls_multiple(itype: u32, size: usize, align: u32) -> (r: Option<
    (usize, usize, usize),
>)
    ensures
        r == multiple_form(itype, size, align),
        match r {
            Some((n, regs, inc)) => 1 <= n <= 4 && 1 <= regs <= 4 && inc <= 2,
            None => true,
        },
{
    match itype {
        7 if align & 2 == 0 => Some((1, 1, 0)),
        10 if align != 3 => Some((1, 2, 0)),
        6 if align & 2 == 0 => Some((1, 3, 0)),
        2 => Some((1, 4, 0)),
        8 if size != 3 && align != 3 => Some((2, 1, 1)),
        9 if size != 3 && align != 3 => Some((2, 1, 2)),
        3 if size != 3 => Some((2, 2, 2)),
        4 if size != 3 && align & 2 == 0 => Some((3, 1, 1)),
        5 if size != 3 && align & 2 == 0 => Some((3, 1, 2)),
        0 if size != 3 => Some((4, 1, 1)),
        1 if size != 3 => Some((4, 1, 2)),
        _ => None,
    }
}

/// How a multiple structure transfer walks the registers: `n` interleaved
/// elements, `regs` rounds, `inc` registers apart.
pub struct Walk {
    pub vd: usize,
    pub n: usize,
    pub regs: usize,
    pub inc: usize,
    pub size: usize,
}

impl Walk {
    /// The register of element `i` in round `r`.
    pub open spec fn reg(self, r: usize, i: usize) -> usize {
        (self.vd + i * self.inc + r) as usize
    }

    /// The walk stays inside the register bank.
    pub open spec fn wf(self) -> bool {
        &&& 1 <= self.n <= 4
        &&& 1 <= self.regs <= 4
        &&& self.inc <= 2
        &&& self.vd < 32
        &&& self.vd + self.inc * (self.n - 1) + self.regs <= 32
    }
}

/// The registers of a walk cleared, from round `r` and element `i` on.
pub open spec fn cleared(s: CpuState, w: Walk, r: usize, i: usize) -> CpuState
    decreases w.regs - r, w.n - i,
{
    if r >= w.regs {
        s
    } else if i >= w.n {
        cleared(s, w, (r + 1) as usize, 0)
    } else {
        cleared(s.with_d(w.reg(r, i), 0), w, r, (i + 1) as usize)
    }
}

/// Elements loaded from ascending addresses into the registers of a walk.
pub open spec fn walk_load(
    s: CpuState,
    m: MemState,
    w: Walk,
    r: usize,
    e: usize,
    i: usize,
    addr: u32,
) -> (CpuState, MemState, Seen<()>)
    decreases w.regs - r, per_d(w.size) - e, w.n - i,
{
    if r >= w.regs {
        (s, m, Ok(()))
    } else if e >= per_d(w.size) {
        walk_load(s, m, w, (r + 1) as usize, 0, 0, addr)
    } else if i >= w.n {
        walk_load(s, m, w, r, (e + 1) as usize, 0, addr)
    } else {
        let reg = w.reg(r, i);
        match elem_load(m, addr, elem_bytes(w.size)) {
            Err(t) => faulted(s, m, t),
            Ok(v) => walk_load(
                s.with_d(reg, s.d(reg) | (v << lane_shift(e, w.size))),
                m,
                w,
                r,
                e,
                (i + 1) as usize,
                addr.wrapping_add(elem_bytes(w.size) as u32),
            ),
        }
    }
}

/// Elements of the registers of a walk stored to ascending addresses.
pub open spec fn walk_store(
    s: CpuState,
    m: MemState,
    w: Walk,
    r: usize,
    e: usize,
    i: usize,
    addr: u32,
) -> (MemState, Seen<()>)
    decreases w.regs - r, per_d(w.size) - e, w.n - i,
{
    if r >= w.regs {
        (m, Ok(()))
    } else if e >= per_d(w.size) {
        walk_store(s, m, w, (r + 1) as usize, 0, 0, addr)
    } else if i >= w.n {
        walk_store(s, m, w, r, (e + 1) as usize, 0, addr)
    } else {
        match elem_store(m, addr, 0, elem_bytes(w.size), lane(s.d(w.reg(r, i)), e, w.size)) {
            (m1, Err(t)) => (m1, Err(t)),
            (m1, Ok(_)) => walk_store(
                s,
                m1,
                w,
                r,
                e,
                (i + 1) as usize,
                addr.wrapping_add(elem_bytes(w.size) as u32),
            ),
        }
    }
}

/// VLD1 to VLD4 and VST1 to VST4 of multiple structures.
pub open spec fn neon_multiple(s: CpuState, m: MemState, instr: u32, pc: u32) -> (
    CpuState,
    MemState,
    Seen<bool>,
) {
    let rn = f4(instr, 16);
    let rm = f4(instr, 0);
    let size = ((instr >> 6) & 3) as usize;
    match multiple_form((instr >> 8) & 0xf, size, (instr >> 4) & 3) {
        None => beside(undefined(s, pc, instr), m),
        Some((n, regs, inc)) => {
            let w = Walk { vd: dd(instr), n, regs, inc, size };
            let bytes = (8 * n * regs) as u32;
            if rn == 15 || w.vd + inc * (n - 1) + regs > 32 {
                beside(unpredictable(s, "NEON multiple structure transfer register range"@), m)
            } else if bit(instr, 21) {
                match walk_load(cleared(s, w, 0, 0), m, w, 0, 0, 0, s.r(rn)) {
                    (s1, m1, Ok(_)) => (structure_writeback(s1, rn, rm, bytes), m1, Ok(true)),
                    (s1, m1, Err(t)) => (s1, m1, Err(t)),
                }
            } else {
                match walk_store(s, m, w, 0, 0, 0, s.r(rn)) {
                    (m1, Ok(_)) => (structure_writeback(s, rn, rm, bytes), m1, Ok(true)),
                    (m1, Err(t)) => faulted(s, m1, t),
                }
            }
        },
    }
}

/// The value that a single-structure load puts into every lane of a register.
pub open spec fn all_lanes(v: u64, size: usize) -> u64 {
    pack(Seq::new(8, |i: int| v), 0, size)
}

/// A structure loaded into every lane of `left` registers.
pub open spec fn load_all(
    s: CpuState,
    m: MemState,
    reg: usize,
    left: nat,
    stride: usize,
    pair: bool,
    size: usize,
    addr: u32,
) -> (CpuState, MemState, Seen<()>)
    decreases left,
{
    if left == 0 {
        (s, m, Ok(()))
    } else {
        match elem_load(m, addr, elem_bytes(size)) {
            Err(t) => faulted(s, m, t),
            Ok(v) => {
                let s1 = s.with_d(reg, all_lanes(v, size));
                let s2 = if pair {
                    s1.with_d((reg + 1) as usize, all_lanes(v, size))
                } else {
                    s1
                };
                load_all(
                    s2,
                    m,
                    (reg + stride) as usize,
                    (left - 1) as nat,
                    stride,
                    pair,
                    size,
                    addr.wrapping_add(elem_bytes(size) as u32),
                )
            },
        }
    }
}

/// VLD1 to VLD4 of one structure to all lanes.
pub open spec fn neon_all_lanes(s: CpuState, m: MemState, instr: u32, pc: u32) -> (
    CpuState,
    MemState,
    Seen<bool>,
) {
    let rn = f4(instr, 16);
    let rm = f4(instr, 0);
    let vd = dd(instr);
    let n = (((instr >> 8) & 3) + 1) as usize;
    let field = ((instr >> 6) & 3) as usize;
    let wide = bit(instr, 5);
    let align = bit(instr, 4);
    let refused = if field == 3 {
        n != 4 || !align
    } else {
        align && ((n == 1 && field == 0) || n == 3)
    };
    let size: usize = if field == 3 {
        2
    } else {
        field
    };
    let pair = n == 1 && wide;
    let stride: usize = if wide {
        2
    } else {
        1
    };
    let last = if pair {
        vd + 1
    } else {
        vd + stride * (n - 1)
    };
    if refused {
        beside(undefined(s, pc, instr), m)
    } else if rn == 15 || last >= 32 {
        beside(unpredictable(s, "NEON load single structure to all lanes register range"@), m)
    } else {
        match load_all(s, m, vd, n as nat, stride, pair, size, s.r(rn)) {
            (s1, m1, Ok(_)) => (
                structure_writeback(s1, rn, rm, (elem_bytes(size) * n) as u32),
                m1,
                Ok(true),
            ),
            (s1, m1, Err(t)) => (s1, m1, Err(t)),
        }
    }
}

/// One lane of `left` registers loaded.
pub open spec fn load_one(
    s: CpuState,
    m: MemState,
    reg: usize,
    left: nat,
    stride: usize,
    idx: usize,
    size: usize,
    addr: u32,
) -> (CpuState, MemState, Seen<()>)
    decreases left,
{
    if left == 0 {
        (s, m, Ok(()))
    } else {
        match elem_load(m, addr, elem_bytes(size)) {
            Err(t) => faulted(s, m, t),
            Ok(v) => load_one(
                s.with_d(reg, put_lane(s.d(reg), idx, size, v)),
                m,
                (reg + stride) as usize,
                (left - 1) as nat,
                stride,
                idx,
                size,
                addr.wrapping_add(elem_bytes(size) as u32),
            ),
        }
    }
}

/// One lane of `left` registers stored.
pub open spec fn store_one(
    s: CpuState,
    m: MemState,
    reg: usize,
    left: nat,
    stride: usize,
    idx: usize,
    size: usize,
    addr: u32,
) -> (MemState, Seen<()>)
    decreases left,
{
    if left == 0 {
        (m, Ok(()))
    } else {
        match elem_store(m, addr, 0, elem_bytes(size), lane(s.d(reg), idx, size)) {
            (m1, Err(t)) => (m1, Err(t)),
            (m1, Ok(_)) => store_one(
                s,
                m1,
                (reg + stride) as usize,
                (left - 1) as nat,
                stride,
                idx,
                size,
                addr.wrapping_add(elem_bytes(size) as u32),
            ),
        }
    }
}

/// Lane number, register spacing and alignment field of a one-lane transfer.
pub open spec fn one_lane_form(instr: u32) -> (usize, usize, u32) {
    let form = (instr >> 10) & 3;
    if form == 0 {
        (((instr >> 5) & 7) as usize, 1, (instr >> 4) & 1)
    } else if form == 1 {
        (((instr >> 6) & 3) as usize, (((instr >> 5) & 1) + 1) as usize, (instr >> 4) & 1)
    } else {
        (((instr >> 7) & 1) as usize, (((instr >> 6) & 1) + 1) as usize, (instr >> 4) & 3)
    }
}

/// Which one-lane forms are undefined.
pub open spec fn one_lane_refused(n: usize, size: usize, stride: usize, align: u32) -> bool {
    if n == 1 {
        stride != 1 || align & (1u32 << (size as u32)) != 0 || (size == 2 && (align == 1 || align
            == 2))
    } else if n == 2 {
        size == 2 && align & 2 != 0
    } else if n == 3 {
        align != 0
    } else {
        size == 2 && align == 3
    }
}

/// VLD1 to VLD4 and VST1 to VST4 of one lane.
pub open spec fn neon_one_lane(s: CpuState, m: MemState, instr: u32, pc: u32) -> (
    CpuState,
    MemState,
    Seen<bool>,
) {
    let rn = f4(instr, 16);
    let rm = f4(instr, 0);
    let vd = dd(instr);
    let n = (((instr >> 8) & 3) + 1) as usize;
    let size = ((instr >> 10) & 3) as usize;
    let (idx, stride, align) = one_lane_form(instr);
    let bytes = (elem_bytes(size) * n) as u32;
    if size == 3 {
        beside(passed(s), m)
    } else if one_lane_refused(n, size, stride, align) {
        beside(undefined(s, pc, instr), m)
    } else if rn == 15 || vd + stride * (n - 1) >= 32 {
        beside(unpredictable(s, "NEON single structure transfer register range"@), m)
    } else if bit(instr, 21) {
        match load_one(s, m, vd, n as nat, stride, idx, size, s.r(rn)) {
            (s1, m1, Ok(_)) => (structure_writeback(s1, rn, rm, bytes), m1, Ok(true)),
            (s1, m1, Err(t)) => (s1, m1, Err(t)),
        }
    } else {
        match store_one(s, m, vd, n as nat, stride, idx, size, s.r(rn)) {
            (m1, Ok(_)) => (structure_writeback(s, rn, rm, bytes), m1, Ok(true)),
            (m1, Err(t)) => faulted(s, m1, t),
        }
    }
}

fn walk_register(w: &Walk, r: usize, i: usize) -> (reg: usize)
    requires
        w.wf(),
        r < w.regs,
        i < w.n,
    ensures
        reg == w.reg(r, i),
        reg < 32,
{
    assert(i * w.inc <= w.inc * (w.n - 1) && i * w.inc <= 6) by (nonlinear_arith)
        requires
            0 <= i < w.n,
            w.n <= 4,
            0 <= w.inc <= 2,
    ;
    w.vd + i * w.inc + r
}

impl Cpu {
    fn writeback_structure(&mut self, rn: usize, rm: usize, bytes: u32)
        requires
            rn < 16,
            rm < 16,
        ensures
            final(self)@ == structure_writeback(old(self)@, rn, rm, bytes),
    {
        if rm != 15 {
            let increment = if rm == 13 {
                bytes
            } else {
                self.reg(rm)
            };
            let base = self.reg(rn);
            self.set_reg(rn, base.wrapping_add(increment));
        }
    }

    fn clear_walk(&mut self, w: &Walk)
        requires
            w.wf(),
        ensures
            final(self)@ == cleared(old(self)@, *w, 0, 0),
    {
        let mut r: usize = 0;
        let mut i: usize = 0;
        while r < w.regs
            invariant
                w.wf(),
                r <= w.regs,
                i <= w.n,
                cleared(old(self)@, *w, 0, 0) == cleared(self@, *w, r, i),
            decreases w.regs - r, w.n - i,
        {
            if i >= w.n {
                r += 1;
                i = 0;
            } else {
                let reg = walk_register(w, r, i);
                self.set_dreg(reg, 0);
                i += 1;
            }
        }
    }

    fn load_walk<M: Memory>(&mut self, w: &Walk, start: u32, mem: &mut M) -> (res: Result<()>)
        requires
            w.wf(),
            w.size <= 3,
        ensures
            (final(self)@, final(mem).state(), seen(res)) == walk_load(
                old(self)@,
                old(mem).state(),
                *w,
                0,
                0,
                0,
                start,
            ),
    {
        let elements = neon_per_d(w.size);
        let bytes = element_bytes(w.size);
        let mut addr = start;
        let mut r: usize = 0;
        let mut e: usize = 0;
        let mut i: usize = 0;
        while r < w.regs
            invariant
                w.wf(),
                w.size <= 3,
                elements == per_d(w.size),
                bytes == elem_bytes(w.size),
                bytes <= 8,
                r <= w.regs,
                e <= elements,
                i <= w.n,
                walk_load(old(self)@, old(mem).state(), *w, 0, 0, 0, start) == walk_load(
                    self@,
                    mem.state(),
                    *w,
                    r,
                    e,
                    i,
                    addr,
                ),
            decreases w.regs - r, elements - e, w.n - i,
        {
            if e >= elements {
                r += 1;
                e = 0;
                i = 0;
            } else if i >= w.n {
                e += 1;
                i = 0;
            } else {
                let reg = walk_register(w, r, i);
                let element = load_neon_memory_elem(mem, addr, bytes)?;
                let value = self.dreg(reg) | (element << neon_lane_shift(e, w.size));
                self.set_dreg(reg, value);
                addr = addr.wrapping_add(bytes);
                i += 1;
            }
        }
        Ok(())
    }

    fn store_walk<M: Memory>(&self, w: &Walk, start: u32, mem: &mut M) -> (res: Result<()>)
        requires
            w.wf(),
            w.size <= 3,
        ensures
            (final(mem).state(), seen(res)) == walk_store(
                self@,
                old(mem).state(),
                *w,
                0,
                0,
                0,
                start,
            ),
    {
        let elements = neon_per_d(w.size);
        let bytes = element_bytes(w.size);
        let mut addr = start;
        let mut r: usize = 0;
        let mut e: usize = 0;
        let mut i: usize = 0;
        while r < w.regs
            invariant
                w.wf(),
                w.size <= 3,
                elements == per_d(w.size),
                bytes == elem_bytes(w.size),
                bytes <= 8,
                r <= w.regs,
                e <= elements,
                i <= w.n,
                walk_store(self@, old(mem).state(), *w, 0, 0, 0, start) == walk_store(
                    self@,
                    mem.state(),
                    *w,
                    r,
                    e,
                    i,
                    addr,
                ),
            decreases w.regs - r, elements - e, w.n - i,
        {
            if e >= elements {
                r += 1;
                e = 0;
                i = 0;
            } else if i >= w.n {
                e += 1;
                i = 0;
            } else {
                let reg = walk_register(w, r, i);
                let element = neon_read_elem(self.dreg(reg), e, w.size);
                store_neon_memory_elem(mem, addr, bytes, element)?;
                addr = addr.wrapping_add(bytes);
                i += 1;
            }
        }
        Ok(())
    }

    pub(crate) fn exec_arm_neon_load_store_multiple<M: Memory>(
        &mut self,
        instr: u32,
        pc: u32,
        mem: &mut M,
    ) -> (r: Result<bool>)
        ensures
            (final(self)@, final(mem).state(), seen(r)) == neon_multiple(
                old(self)@,
                old(mem).state(),
                instr,
                pc,
            ),
    {
        let rn = field4(instr, 16);
        let rm = field4(instr, 0);
        let vd = vfp_double_d(instr);
        let size = ((instr >> 6) & 3) as usize;
        let (n, regs, inc) = match neon_decode_ls_multiple(
            (instr >> 8) & 0xf,
            size,
            (instr >> 4) & 3,
        ) {
            Some(form) => form,
            None => return Err(Trap::UndefinedArm { pc, instr }),
        };
        assert(inc * (n - 1) <= 6 && 8 * n * regs <= 128) by (nonlinear_arith)
            requires
                0 <= inc <= 2,
                1 <= n <= 4,
                1 <= regs <= 4,
        ;
        if rn == 15 || vd + inc * (n - 1) + regs > 32 {
            return Err(Trap::Unpredictable("NEON multiple structure transfer register range"));
        }
        let w = Walk { vd, n, regs, inc, size };
        let start = self.reg(rn);
        if bit_at(instr, 21) {
            self.clear_walk(&w);
            self.load_walk(&w, start, mem)?;
        } else {
            self.store_walk(&w, start, mem)?;
        }
        self.writeback_structure(rn, rm, (8 * n * regs) as u32);
        Ok(true)
    }

    #[verifier::loop_isolation(false)]
    pub(crate) fn exec_arm_neon_load_all_lanes<M: Memory>(
        &mut self,
        instr: u32,
        pc: u32,
        mem: &mut M,
    ) -> (r: Result<bool>)
        ensures
            (final(self)@, final(mem).state(), seen(r)) == neon_all_lanes(
                old(self)@,
                old(mem).state(),
                instr,
                pc,
            ),
    {
        let rn = field4(instr, 16);
        let rm = field4(instr, 0);
        let vd = vfp_double_d(instr);
        let nregs = ((instr >> 8) & 3) as usize + 1;
        let field = ((instr >> 6) & 3) as usize;
        let wide = bit_at(instr, 5);
        let align = bit_at(instr, 4);
        let mut size = field;
        if field == 3 {
            if nregs != 4 || !align {
                return Err(Trap::UndefinedArm { pc, instr });
            }
            size = 2;
        } else if align {
            if (nregs == 1 && field == 0) || nregs == 3 {
                return Err(Trap::UndefinedArm { pc, instr });
            }
        }
        let stride: usize = if wide {
            2
        } else {
            1
        };
        let pair = nregs == 1 && wide;
        assert(stride * (nregs - 1) <= 6) by (nonlinear_arith)
            requires
                1 <= stride <= 2,
                1 <= nregs <= 4,
        ;
        let last_reg = if pair {
            vd + 1
        } else {
            vd + stride * (nregs - 1)
        };
        if rn == 15 || last_reg >= 32 {
            return Err(
                Trap::Unpredictable("NEON load single structure to all lanes register range"),
            );
        }
        let bytes = element_bytes(size);
        let start = self.reg(rn);
        let mut addr = start;
        let mut left: usize = nregs;
        let mut reg = vd;
        let ghost s0 = self@;
        let ghost m0 = mem.state();
        assert(stride * (nregs - left) == 0) by (nonlinear_arith)
            requires
                nregs == left,
        ;
        while left > 0
            invariant
                left <= nregs <= 4,
                1 <= stride <= 2,
                size <= 2,
                bytes == elem_bytes(size),
                bytes <= 8,
                pair ==> nregs == 1 && vd < 31,
                !pair ==> vd + stride * (nregs - 1) < 32,
                vd < 32,
                reg == vd + stride * (nregs - left),
                load_all(s0, m0, vd, nregs as nat, stride, pair, size, start) == load_all(
                    self@,
                    mem.state(),
                    reg,
                    left as nat,
                    stride,
                    pair,
                    size,
                    addr,
                ),
            decreases left,
        {
            let value = load_neon_memory_elem(mem, addr, bytes)?;
            let out = splat(value, size);
            assert(reg < 32) by (nonlinear_arith)
                requires
                    reg == vd + stride * (nregs - left),
                    1 <= left <= nregs,
                    vd + stride * (nregs - 1) < 32 || (nregs == 1 && vd < 32),
                    1 <= stride,
            ;
            self.set_dreg(reg, out);
            if pair {
                self.set_dreg(reg + 1, out);
            }
            addr = addr.wrapping_add(bytes);
            assert(stride * (nregs - left) + stride == stride * (nregs - (left - 1)))
                by (nonlinear_arith);
            reg += stride;
            left -= 1;
        }
        assert(bytes * nregs <= 32) by (nonlinear_arith)
            requires
                0 <= bytes <= 8,
                1 <= nregs <= 4,
        ;
        self.writeback_structure(rn, rm, bytes * nregs as u32);
        Ok(true)
    }

    fn check_one_lane(n: usize, size: usize, stride: usize, align: u32) -> (r: bool)
        requires
            size <= 2,
        ensures
            r == one_lane_refused(n, size, stride, align),
    {
        match n {
            1 => stride != 1 || align & (1u32 << (size as u32)) != 0 || (size == 2 && (align == 1
                || align == 2)),
            2 => size == 2 && align & 2 != 0,
            3 => align != 0,
            _ => size == 2 && align == 3,
        }
    }

    #[verifier::loop_isolation(false)]
    pub(crate) fn exec_arm_neon_load_store_single<M: Memory>(
        &mut self,
        instr: u32,
        pc: u32,
        mem: &mut M,
    ) -> (r: Result<bool>)
        ensures
            (final(self)@, final(mem).state(), seen(r)) == neon_one_lane(
                old(self)@,
                old(mem).state(),
                instr,
                pc,
            ),
    {
        let rn = field4(instr, 16);
        let rm = field4(instr, 0);
        let vd = vfp_double_d(instr);
        let nregs = ((instr >> 8) & 3) as usize + 1;
        let size = ((instr >> 10) & 3) as usize;
        let (idx, stride, align) = match size {
            0 => (((instr >> 5) & 7) as usize, 1usize, (instr >> 4) & 1),
            1 => (
                ((instr >> 6) & 3) as usize,
                ((instr >> 5) & 1) as usize + 1,
                (instr >> 4) & 1,
            ),
            2 => (
                ((instr >> 7) & 1) as usize,
                ((instr >> 6) & 1) as usize + 1,
                (instr >> 4) & 3,
            ),
            _ => return Ok(false),
        };
        if Cpu::check_one_lane(nregs, size, stride, align) {
            return Err(Trap::UndefinedArm { pc, instr });
        }
        assert(stride * (nregs - 1) <= 6) by (nonlinear_arith)
            requires
                1 <= stride <= 2,
                1 <= nregs <= 4,
        ;
        if rn == 15 || vd + stride * (nregs - 1) >= 32 {
            return Err(Trap::Unpredictable("NEON single structure transfer register range"));
        }
        let load = bit_at(instr, 21);
        let bytes = element_bytes(size);
        let start = self.reg(rn);
        let mut addr = start;
        let mut left: usize = nregs;
        let mut reg = vd;
        let ghost s0 = self@;
        let ghost m0 = mem.state();
        assert(stride * (nregs - left) == 0) by (nonlinear_arith)
            requires
                nregs == left,
        ;
        while left > 0
            invariant
                left <= nregs <= 4,
                1 <= stride <= 2,
                size <= 2,
                idx < per_d(size),
                bytes == elem_bytes(size),
                bytes <= 8,
                vd + stride * (nregs - 1) < 32,
                reg == vd + stride * (nregs - left),
                load ==> load_one(s0, m0, vd, nregs as nat, stride, idx, size, start) == load_one(
                    self@,
                    mem.state(),
                    reg,
                    left as nat,
                    stride,
                    idx,
                    size,
                    addr,
                ),
                !load ==> self@ == s0 && store_one(
                    s0,
                    m0,
                    vd,
                    nregs as nat,
                    stride,
                    idx,
                    size,
                    start,
                ) == store_one(s0, mem.state(), reg, left as nat, stride, idx, size, addr),
            decreases left,
        {
            assert(reg < 32) by (nonlinear_arith)
                requires
                    reg == vd + stride * (nregs - left),
                    1 <= left <= nregs,
                    vd + stride * (nregs - 1) < 32,
                    1 <= stride,
            ;
            let d = self.dreg(reg);
            if load {
                let value = load_neon_memory_elem(mem, addr, bytes)?;
                self.set_dreg(reg, neon_write_elem(d, idx, size, value));
            } else {
                let value = neon_read_elem(d, idx, size);
                store_neon_memory_elem(mem, addr, bytes, value)?;
            }
            addr = addr.wrapping_add(bytes);
            assert(stride * (nregs - left) + stride == stride * (nregs - (left - 1)))
                by (nonlinear_arith);
            reg += stride;
            left -= 1;
        }
        assert(bytes * nregs <= 32) by (nonlinear_arith)
            requires
                0 <= bytes <= 8,
                1 <= nregs <= 4,
        ;
        self.writeback_structure(rn, rm, bytes * nregs as u32);
        Ok(true)
    }
}

/// Copies an element into every lane of a doubleword.
pub(crate) fn splat(value: u64, size: usize) -> (r: u64)
    ensures
        r == all_lanes(value, size),
{
    let per = neon_per_d(size);
    let ghost l = Seq::new(8, |i: int| value);
    let mut r: u64 = 0;
    let mut i: usize = 0;
    while i < per
        invariant
            i <= per <= 8,
            per == per_d(size),
            l == Seq::new(8, |i: int| value),
            r == super::neon_lane::pack_from(l, 0, i as nat, size),
        decreases per - i,
    {
        r = r | ((value & neon_elem_mask(size)) << neon_lane_shift(i, size));
        i += 1;
    }
    r
}

} // verus!
