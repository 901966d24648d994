//! Which element of memory each element of a structure load comes from.

use super::bits::{bit, f4};
use super::cpu::CpuState;
use super::laws::doublewords_read_back;
use super::memory::MemState;
use super::neon_lane::{elem_mask, lane, lane_of_joined, lane_of_nothing, lane_shift, per_d};
use super::neon_mem::{
    cleared, elem_bytes, elem_load, multiple_form, neon_multiple, structure_writeback, walk_load,
    Walk,
};
use super::neon_numbers::{elements, span};
use super::transfer_laws::ahead;
use super::trap::TrapView;
use super::vfp_regs::{dd, register_numbers, word_fields};
use super::wide_shifts::byte_above;
use vstd::arithmetic::power2::{lemma2_to64, lemma2_to64_rest, pow2};
use vstd::prelude::*;

verus! {

/// The number that `n` bytes of memory make, low byte first.
pub open spec fn element_number(m: MemState, addr: u32, n: nat) -> int
    decreases n,
{
    if n == 0 {
        0
    } else {
        element_number(m, addr, (n - 1) as nat) + m.bytes[ahead(addr, n - 1)] * pow2(
            (8 * (n - 1)) as nat,
        )
    }
}

/// An element that is loaded is the number of its bytes.
pub proof fn element_loads(m: MemState, addr: u32, n: nat)
    requires
        n <= 8,
        elem_load(m, addr, n) is Ok,
    ensures
        elem_load(m, addr, n)->Ok_0 == element_number(m, addr, n),
        0 <= element_number(m, addr, n) < pow2((8 * n) as nat),
    decreases n,
{
    lemma2_to64();
    if n > 0 {
        element_loads(m, addr, (n - 1) as nat);
        let v = elem_load(m, addr, (n - 1) as nat)->Ok_0;
        let b = m.bytes[ahead(addr, n - 1)];
        assert(addr.wrapping_add((n - 1) as u32) == ahead(addr, n - 1));
        if n == 1 {
            super::numbers::first_byte(b);
            assert(b * 1 == b);
        } else {
            byte_above(v, b, (8 * (n - 1)) as u32);
        }
    }
}

/// Whether the registers of a walk are told apart by their two numbers.
pub open spec fn distinct(w: Walk) -> bool {
    w.wf() && w.size <= 3 && (w.n == 1 || w.inc >= w.regs)
}

/// Whether one element comes before another: register by register, element by element,
/// and in each the members of a structure.
pub open spec fn sooner(r1: int, e1: int, i1: int, r: int, e: int, i: int) -> bool {
    r1 < r || (r1 == r && (e1 < e || (e1 == e && i1 < i)))
}

/// How many elements come before one.
pub open spec fn rank(w: Walk, r: int, e: int, i: int) -> int {
    (r * per_d(w.size) + e) * w.n + i
}

/// Where an element lies behind the start of a transfer.
#[verifier::opaque]
pub open spec fn element_place(w: Walk, r: int, e: int, i: int) -> int {
    rank(w, r, e, i) * elem_bytes(w.size)
}

/// Element `e` of register `r` of member `i`.
pub open spec fn member(s: CpuState, w: Walk, r: int, e: int, i: int) -> u64 {
    lane(s.d(w.reg(r as usize, i as usize)), e as usize, w.size)
}

/// Whether three numbers name an element of a walk.
pub open spec fn inside(w: Walk, r: int, e: int, i: int) -> bool {
    0 <= r < w.regs && 0 <= e < per_d(w.size) && 0 <= i < w.n
}

proof fn registers_differ(w: Walk, r: int, i: int, r1: int, i1: int)
    requires
        distinct(w),
        0 <= r < w.regs,
        0 <= i < w.n,
        0 <= r1 < w.regs,
        0 <= i1 < w.n,
    ensures
        w.reg(r as usize, i as usize) < 32,
        (w.reg(r as usize, i as usize) == w.reg(r1 as usize, i1 as usize)) == (r == r1 && i == i1),
{
    let k = w.inc as int;
    assert(i * k <= k * (w.n - 1) && i1 * k <= k * (w.n - 1) && 0 <= i * k && 0 <= i1 * k && (i < i1
        ==> i * k + k <= i1 * k) && (i1 < i ==> i1 * k + k <= i * k)) by (nonlinear_arith)
        requires
            0 <= i < w.n,
            0 <= i1 < w.n,
            k >= 0,
    ;
}

proof fn next_places(w: Walk, r: int, e: int, i: int)
    ensures
        element_place(w, r, e, i + 1) == element_place(w, r, e, i) + elem_bytes(w.size),
        element_place(w, r, e, w.n as int) == element_place(w, r, e + 1, 0),
        element_place(w, r, per_d(w.size) as int, 0) == element_place(w, r + 1, 0, 0),
{
    reveal(element_place);
    let (p, n, b) = (per_d(w.size) as int, w.n as int, elem_bytes(w.size) as int);
    assert(((r * p + e) * n + (i + 1)) * b == ((r * p + e) * n + i) * b + b && (r * p + e) * n + n == (r
        * p + (e + 1)) * n + 0 && (r * p + p) * n + 0 == ((r + 1) * p + 0) * n + 0) by (nonlinear_arith);
}

/// A structure load puts into element `e` of register `r` of member `i` the element that
/// comes in that place in memory: members lie side by side, elements follow each other,
/// and registers follow when all elements are done.
pub proof fn structure_elements(
    s: CpuState,
    m: MemState,
    w: Walk,
    r: usize,
    e: usize,
    i: usize,
    addr: u32,
    base: u32,
)
    requires
        s.wf(),
        distinct(w),
        r <= w.regs,
        e <= per_d(w.size),
        i <= w.n,
        e == per_d(w.size) ==> i == 0,
        r == w.regs ==> e == 0 && i == 0,
        addr == ahead(base, element_place(w, r as int, e as int, i as int)),
        forall|r1: int, e1: int, i1: int|
            inside(w, r1, e1, i1) && !sooner(r1, e1, i1, r as int, e as int, i as int)
                ==> #[trigger] member(s, w, r1, e1, i1) == 0,
        walk_load(s, m, w, r, e, i, addr).2 is Ok,
    ensures
        ({
            let (t, m1, _) = walk_load(s, m, w, r, e, i, addr);
            &&& m1 == m
            &&& t.wf()
            &&& forall|r1: int, e1: int, i1: int|
                inside(w, r1, e1, i1) ==> #[trigger] member(t, w, r1, e1, i1) == if sooner(
                    r1,
                    e1,
                    i1,
                    r as int,
                    e as int,
                    i as int,
                ) {
                    member(s, w, r1, e1, i1) as int
                } else {
                    element_number(
                        m,
                        ahead(base, element_place(w, r1, e1, i1)),
                        elem_bytes(w.size),
                    )
                }
        }),
    decreases w.regs - r, per_d(w.size) - e, w.n - i,
{
    next_places(w, r as int, e as int, i as int);
    if r >= w.regs {
    } else if e >= per_d(w.size) {
        structure_elements(s, m, w, (r + 1) as usize, 0, 0, addr, base);
    } else if i >= w.n {
        structure_elements(s, m, w, r, (e + 1) as usize, 0, addr, base);
    } else {
        let reg = w.reg(r, i);
        let n = elem_bytes(w.size);
        let v = elem_load(m, addr, n)->Ok_0;
        element_loads(m, addr, n);
        elements(v, w.size);
        fits(v, w.size);
        registers_differ(w, r as int, i as int, r as int, i as int);
        assert(!sooner(r as int, e as int, i as int, r as int, e as int, i as int));
        assert(member(s, w, r as int, e as int, i as int) == 0);
        one_element(s, w, r, e, i, v);
        let s1 = s.with_d(reg, s.d(reg) | (v << lane_shift(e, w.size)));
        let next = addr.wrapping_add(n as u32);
        further(base, element_place(w, r as int, e as int, i as int), n as u32);
        structure_elements(s1, m, w, r, e, (i + 1) as usize, next, base);
    }
}

proof fn one_element(s: CpuState, w: Walk, r: usize, e: usize, i: usize, v: u64)
    requires
        s.wf(),
        distinct(w),
        inside(w, r as int, e as int, i as int),
        v & elem_mask(w.size) == v,
        member(s, w, r as int, e as int, i as int) == 0,
    ensures
        ({
            let reg = w.reg(r, i);
            let s1 = s.with_d(reg, s.d(reg) | (v << lane_shift(e, w.size)));
            &&& s1.wf()
            &&& forall|r1: int, e1: int, i1: int|
                inside(w, r1, e1, i1) ==> #[trigger] member(s1, w, r1, e1, i1) == if r1 == r && e1 == e
                    && i1 == i {
                    v
                } else {
                    member(s, w, r1, e1, i1)
                }
        }),
{
    let reg = w.reg(r, i);
    registers_differ(w, r as int, i as int, r as int, i as int);
    let d = s.d(reg);
    let joined = d | (v << lane_shift(e, w.size));
    let s1 = s.with_d(reg, joined);
    doublewords_read_back(s, reg, reg, joined);
    assert forall|r1: int, e1: int, i1: int| inside(w, r1, e1, i1) implies #[trigger] member(
        s1,
        w,
        r1,
        e1,
        i1,
    ) == (if r1 == r && e1 == e && i1 == i {
        v
    } else {
        member(s, w, r1, e1, i1)
    }) by {
        registers_differ(w, r as int, i as int, r1, i1);
        registers_differ(w, r1, i1, r1, i1);
        doublewords_read_back(s, reg, w.reg(r1 as usize, i1 as usize), joined);
        lane_of_joined(d, e, e1 as usize, w.size, v);
    }
}

proof fn further(base: u32, p: int, n: u32)
    ensures
        ahead(base, p).wrapping_add(n) == ahead(base, p + n),
{
}

proof fn fits(v: u64, size: usize)
    requires
        size <= 3,
        v < pow2((8 * elem_bytes(size)) as nat),
    ensures
        v & elem_mask(size) == v,
{
    reveal(span);
    lemma2_to64();
    lemma2_to64_rest();
    elements(v, size);
}

proof fn clears(s: CpuState, w: Walk, r: usize, i: usize)
    requires
        s.wf(),
        distinct(w),
        r <= w.regs,
        i <= w.n,
        forall|r1: int, i1: int|
            0 <= r1 < w.regs && 0 <= i1 < w.n && (r1 < r || (r1 == r && i1 < i))
                ==> #[trigger] s.d(w.reg(r1 as usize, i1 as usize)) == 0,
    ensures
        cleared(s, w, r, i).wf(),
        forall|r1: int, i1: int|
            0 <= r1 < w.regs && 0 <= i1 < w.n ==> #[trigger] cleared(s, w, r, i).d(
                w.reg(r1 as usize, i1 as usize),
            ) == 0,
    decreases w.regs - r, w.n - i,
{
    if r >= w.regs {
    } else if i >= w.n {
        clears(s, w, (r + 1) as usize, 0);
    } else {
        let reg = w.reg(r, i);
        let s1 = s.with_d(reg, 0);
        registers_differ(w, r as int, i as int, r as int, i as int);
        doublewords_read_back(s, reg, reg, 0);
        assert forall|r1: int, i1: int|
            0 <= r1 < w.regs && 0 <= i1 < w.n && (r1 < r || (r1 == r && i1 < i + 1)) implies #[trigger] s1.d(
            w.reg(r1 as usize, i1 as usize),
        ) == 0 by {
            registers_differ(w, r as int, i as int, r1, i1);
            registers_differ(w, r1, i1, r1, i1);
            doublewords_read_back(s, reg, w.reg(r1 as usize, i1 as usize), 0);
            if !(r1 == r && i1 == i) {
                assert(s.d(w.reg(r1 as usize, i1 as usize)) == 0);
            }
        }
        clears(s1, w, r, (i + 1) as usize);
    }
}

/// VLD1 to VLD4 of whole registers: every element comes from its place in memory.
pub proof fn structure_loads(s: CpuState, m: MemState, w: Walk, base: u32, r: int, e: int, i: int)
    requires
        s.wf(),
        distinct(w),
        walk_load(cleared(s, w, 0, 0), m, w, 0, 0, 0, base).2 is Ok,
        inside(w, r, e, i),
    ensures
        member(walk_load(cleared(s, w, 0, 0), m, w, 0, 0, 0, base).0, w, r, e, i)
            == element_number(m, ahead(base, element_place(w, r, e, i)), elem_bytes(w.size)),
{
    let s0 = cleared(s, w, 0, 0);
    clears(s, w, 0, 0);
    assert forall|r1: int, e1: int, i1: int| inside(w, r1, e1, i1) implies #[trigger] member(
        s0,
        w,
        r1,
        e1,
        i1,
    ) == 0 by {
        assert(s0.d(w.reg(r1 as usize, i1 as usize)) == 0);
        lane_of_nothing(e1 as usize, w.size);
    }
    assert(element_place(w, 0, 0, 0) == 0) by {
        reveal(element_place);
        assert((0 * per_d(w.size) + 0) * w.n + 0 == 0) by (nonlinear_arith);
        assert(0 * elem_bytes(w.size) == 0) by (nonlinear_arith);
    }
    assert(ahead(base, 0) == base);
    structure_elements(s0, m, w, 0, 0, 0, base, base);
    assert(member(walk_load(s0, m, w, 0, 0, 0, base).0, w, r, e, i) == element_number(
        m,
        ahead(base, element_place(w, r, e, i)),
        elem_bytes(w.size),
    ));
}

/// Whether a walk is that of a multiple structure transfer: by its type, one to four
/// registers of one member, or two, three or four members, whose registers lie next to
/// each other or two apart.
#[verifier::opaque]
pub open spec fn walk_of(instr: u32, w: Walk) -> bool {
    let kind = instr as int / 0x100 % 16;
    &&& w.vd == dd(instr)
    &&& w.size == instr as int / 0x40 % 4
    &&& kind == 7 ==> w.n == 1 && w.regs == 1
    &&& kind == 10 ==> w.n == 1 && w.regs == 2
    &&& kind == 6 ==> w.n == 1 && w.regs == 3
    &&& kind == 2 ==> w.n == 1 && w.regs == 4
    &&& kind == 8 ==> w.n == 2 && w.regs == 1 && w.inc == 1
    &&& kind == 9 ==> w.n == 2 && w.regs == 1 && w.inc == 2
    &&& kind == 3 ==> w.n == 2 && w.regs == 2 && w.inc == 2
    &&& kind == 4 ==> w.n == 3 && w.regs == 1 && w.inc == 1
    &&& kind == 5 ==> w.n == 3 && w.regs == 1 && w.inc == 2
    &&& kind == 0 ==> w.n == 4 && w.regs == 1 && w.inc == 1
    &&& kind == 1 ==> w.n == 4 && w.regs == 1 && w.inc == 2
    &&& kind <= 10
}

/// A multiple structure load fills the registers of its walk from the base register on,
/// and moves the base over the transferred bytes or by a register, on request.
pub proof fn multiple_structure_loads(s: CpuState, m: MemState, instr: u32, pc: u32, r: int, e: int, i: int) -> (w: Walk)
    requires
        s.wf(),
        bit(instr, 21),
        neon_multiple(s, m, instr, pc).2 is Ok,
    ensures
        walk_of(instr, w),
        distinct(w),
        ({
            let (t, m1, _) = neon_multiple(s, m, instr, pc);
            let (rn, rm) = (f4(instr, 16), f4(instr, 0));
            &&& m1 == m
            &&& rn != 15
            &&& inside(w, r, e, i) ==> member(t, w, r, e, i) == element_number(
                m,
                ahead(s.r(rn), element_place(w, r, e, i)),
                elem_bytes(w.size),
            )
            &&& t.r(rn) == if rm == 15 {
                s.r(rn) as int
            } else if rm == 13 {
                (s.r(rn) + 8 * w.n * w.regs) % 0x1_0000_0000
            } else {
                (s.r(rn) + s.r(rm)) % 0x1_0000_0000
            }
        }),
{
    let (rn, rm) = (f4(instr, 16), f4(instr, 0));
    let w = shape(s, m, instr, pc);
    let base = s.r(rn);
    clears(s, w, 0, 0);
    core_registers_stay(s, w, 0, 0);
    let s0 = cleared(s, w, 0, 0);
    load_keeps_core_registers(s0, m, w, 0, 0, 0, base);
    all_from_base(s, m, w, base);
    if inside(w, r, e, i) {
        structure_loads(s, m, w, base, r, e, i);
        let s1 = walk_load(s0, m, w, 0, 0, 0, base).0;
        let t = neon_multiple(s, m, instr, pc).0;
        assert(t.sregs == s1.sregs);
        assert(member(t, w, r, e, i) == member(s1, w, r, e, i));
    }
    w
}

proof fn shape(s: CpuState, m: MemState, instr: u32, pc: u32) -> (w: Walk)
    requires
        s.wf(),
        bit(instr, 21),
        neon_multiple(s, m, instr, pc).2 is Ok,
    ensures
        walk_of(instr, w),
        distinct(w),
        f4(instr, 16) < 15,
        f4(instr, 0) < 16,
        1 <= w.n <= 4,
        1 <= w.regs <= 4,
        8 * w.n * w.regs <= 128,
        ({
            let rn = f4(instr, 16);
            let (s1, m1, r1) = walk_load(cleared(s, w, 0, 0), m, w, 0, 0, 0, s.r(rn));
            &&& r1 is Ok
            &&& neon_multiple(s, m, instr, pc) == (
                structure_writeback(s1, rn, f4(instr, 0), (8 * w.n * w.regs) as u32),
                m1,
                Ok::<bool, TrapView>(true),
            )
        }),
{
    reveal(walk_of);
    register_numbers(instr);
    word_fields(instr);
    let size = ((instr >> 6) & 3) as usize;
    let (n, regs, inc) = multiple_form((instr >> 8) & 0xf, size, (instr >> 4) & 3)->0;
    let w = Walk { vd: dd(instr), n, regs, inc, size };
    assert(8 * n * regs <= 128) by (nonlinear_arith)
        requires
            1 <= n <= 4,
            1 <= regs <= 4,
    ;
    w
}

proof fn all_from_base(s: CpuState, m: MemState, w: Walk, base: u32)
    requires
        s.wf(),
        distinct(w),
        walk_load(cleared(s, w, 0, 0), m, w, 0, 0, 0, base).2 is Ok,
    ensures
        walk_load(cleared(s, w, 0, 0), m, w, 0, 0, 0, base).0.wf(),
        walk_load(cleared(s, w, 0, 0), m, w, 0, 0, 0, base).1 == m,
{
    let s0 = cleared(s, w, 0, 0);
    clears(s, w, 0, 0);
    assert forall|r1: int, e1: int, i1: int| inside(w, r1, e1, i1) implies #[trigger] member(
        s0,
        w,
        r1,
        e1,
        i1,
    ) == 0 by {
        assert(s0.d(w.reg(r1 as usize, i1 as usize)) == 0);
        lane_of_nothing(e1 as usize, w.size);
    }
    assert(element_place(w, 0, 0, 0) == 0) by {
        reveal(element_place);
        assert((0 * per_d(w.size) + 0) * w.n + 0 == 0) by (nonlinear_arith);
        assert(0 * elem_bytes(w.size) == 0) by (nonlinear_arith);
    }
    assert(ahead(base, 0) == base);
    structure_elements(s0, m, w, 0, 0, 0, base, base);
}

proof fn core_registers_stay(s: CpuState, w: Walk, r: usize, i: usize)
    ensures
        cleared(s, w, r, i).regs == s.regs,
    decreases w.regs - r, w.n - i,
{
    if r >= w.regs {
    } else if i >= w.n {
        core_registers_stay(s, w, (r + 1) as usize, 0);
    } else {
        core_registers_stay(s.with_d(w.reg(r, i), 0), w, r, (i + 1) as usize);
    }
}

proof fn load_keeps_core_registers(
    s: CpuState,
    m: MemState,
    w: Walk,
    r: usize,
    e: usize,
    i: usize,
    addr: u32,
)
    ensures
        walk_load(s, m, w, r, e, i, addr).0.regs == s.regs,
    decreases w.regs - r, per_d(w.size) - e, w.n - i,
{
    if r >= w.regs {
    } else if e >= per_d(w.size) {
        load_keeps_core_registers(s, m, w, (r + 1) as usize, 0, 0, addr);
    } else if i >= w.n {
        load_keeps_core_registers(s, m, w, r, (e + 1) as usize, 0, addr);
    } else {
        match elem_load(m, addr, elem_bytes(w.size)) {
            Err(_) => {},
            Ok(v) => {
                let reg = w.reg(r, i);
                load_keeps_core_registers(
                    s.with_d(reg, s.d(reg) | (v << lane_shift(e, w.size))),
                    m,
                    w,
                    r,
                    e,
                    (i + 1) as usize,
                    addr.wrapping_add(elem_bytes(w.size) as u32),
                );
            },
        }
    }
}

} // verus!
