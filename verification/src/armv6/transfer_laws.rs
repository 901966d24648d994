//! What the A32 branches, loads and stores do to registers and memory.

use super::a32_decode::{
    block_words, branch_words, halfword_shape, halfword_words, is_block, is_branch, is_halfword,
    is_single, runs, single_words,
};
use super::alu::{shift_kind, shifted};
use super::arm_data::arm_blx;
use super::arm_transfer::{
    arm_halfword_transfer, arm_load_list, arm_store_list, displaced, halfword_access, halfword_refusal,
};
use super::bits::{bit, f4, ones_below, sext};
use super::cpu::{Cpsr, CpuState};
use super::exec::arm;
use super::memory::{little_endian, MemState};
use super::numbers::{low_parts, sign_casts, signed16, signed8};
use super::shift_laws::extensions;
use super::trap::TrapView;
use super::vfp_regs::word_fields;
use super::word_parts::immediates;
use vstd::prelude::*;

verus! {

/// The address `k` bytes behind another.
pub open spec fn ahead(addr: u32, k: int) -> u32 {
    ((addr + k) % 0x1_0000_0000) as u32
}

/// The number that `n` bytes of memory make, low byte first; `n` is one, two or
/// four.
#[verifier::opaque]
pub open spec fn memory_number(m: MemState, addr: u32, n: int) -> int {
    if n == 1 {
        m.bytes[addr] as int
    } else if n == 2 {
        m.bytes[addr] + 0x100 * m.bytes[ahead(addr, 1)]
    } else {
        m.bytes[addr] + 0x100 * m.bytes[ahead(addr, 1)] + 0x1_0000 * m.bytes[ahead(addr, 2)]
            + 0x100_0000 * m.bytes[ahead(addr, 3)]
    }
}

/// How far an address lies behind another.
#[verifier::opaque]
pub open spec fn distance_from(addr: u32, a: u32) -> int {
    (a - addr) % 0x1_0000_0000
}

/// Byte `k` of a number.
#[verifier::opaque]
pub open spec fn digit(v: int, k: int) -> int {
    if k == 0 {
        v % 0x100
    } else if k == 1 {
        v / 0x100 % 0x100
    } else if k == 2 {
        v / 0x1_0000 % 0x100
    } else {
        v / 0x100_0000 % 0x100
    }
}

/// Whether memory differs from what it was in the bytes of one number, low byte
/// first.
#[verifier::opaque]
pub open spec fn memory_takes(m: MemState, m1: MemState, addr: u32, v: int, n: int) -> bool {
    &&& m1 == (MemState { bytes: m1.bytes, ..m })
    &&& forall|a: u32|
        #[trigger] m1.bytes[a] == if distance_from(addr, a) < n {
            digit(v, distance_from(addr, a))
        } else {
            m.bytes[a] as int
        }
}

/// A load that is not refused gives the number in memory.
pub proof fn loads(m: MemState, addr: u32)
    ensures
        m.load8(addr) is Ok ==> m.load8(addr)->Ok_0 == memory_number(m, addr, 1),
        m.load16(addr) is Ok ==> m.load16(addr)->Ok_0 == memory_number(m, addr, 2),
        m.load32(addr) is Ok ==> m.load32(addr)->Ok_0 == memory_number(m, addr, 4),
{
    reveal(memory_number);
    little_endian(
        m.bytes[addr],
        m.bytes[ahead(addr, 1)],
        m.bytes[ahead(addr, 2)],
        m.bytes[ahead(addr, 3)],
    );
    assert(addr.wrapping_add(1) == ahead(addr, 1));
    assert(addr.wrapping_add(2) == ahead(addr, 2));
    assert(addr.wrapping_add(3) == ahead(addr, 3));
}

proof fn distances(addr: u32, a: u32)
    ensures
        0 <= distance_from(addr, a),
        distance_from(addr, a) == 0 <==> a == addr,
        distance_from(addr, a) == 1 <==> a == addr.wrapping_add(1),
        distance_from(addr, a) == 2 <==> a == addr.wrapping_add(2),
        distance_from(addr, a) == 3 <==> a == addr.wrapping_add(2).wrapping_add(1),
{
    reveal(distance_from);
}

proof fn digits(v: u32)
    ensures
        v as u8 == digit(v as int, 0),
        (v as u16) as u8 == digit(v as int, 0),
        ((v as u16) >> 8) as u8 == digit(v as int, 1),
        ((v >> 16) as u16) as u8 == digit(v as int, 2),
        (((v >> 16) as u16) >> 8) as u8 == digit(v as int, 3),
{
    reveal(digit);
    low_parts(v, 0, v as u16);
    low_parts(v >> 16, 0, (v >> 16) as u16);
    low_parts(0, 0, (v as u16) >> 8);
    low_parts(0, 0, ((v >> 16) as u16) >> 8);
}

/// A store that is not refused puts the low bytes of the number into memory.
pub proof fn stores(m: MemState, addr: u32, v: u32)
    ensures
        m.store8(addr, v as u8).1 is Ok ==> memory_takes(
            m,
            m.store8(addr, v as u8).0,
            addr,
            v as int,
            1,
        ),
        m.store16(addr, v as u16).1 is Ok ==> memory_takes(
            m,
            m.store16(addr, v as u16).0,
            addr,
            v as int,
            2,
        ),
        m.store32(addr, v).1 is Ok ==> memory_takes(m, m.store32(addr, v).0, addr, v as int, 4),
{
    reveal(memory_takes);
    digits(v);
    let (m1, m2, m4) = (
        m.store8(addr, v as u8).0,
        m.store16(addr, v as u16).0,
        m.store32(addr, v).0,
    );
    assert forall|a: u32| m.store8(addr, v as u8).1 is Ok implies #[trigger] m1.bytes[a] == if distance_from(addr, a)
        < 1 {
        digit(v as int, distance_from(addr, a))
    } else {
        m.bytes[a] as int
    } by {
        distances(addr, a);
    }
    assert forall|a: u32| m.store16(addr, v as u16).1 is Ok implies #[trigger] m2.bytes[a] == if distance_from(addr, a)
        < 2 {
        digit(v as int, distance_from(addr, a))
    } else {
        m.bytes[a] as int
    } by {
        distances(addr, a);
    }
    assert forall|a: u32| m.store32(addr, v).1 is Ok implies #[trigger] m4.bytes[a] == if distance_from(addr, a)
        < 4 {
        digit(v as int, distance_from(addr, a))
    } else {
        m.bytes[a] as int
    } by {
        distances(addr, a);
    }
}

/// Whether a claim is what a store of `n` bytes leaves of it: nothing, where the
/// two share a byte.
pub open spec fn claim_after(s: CpuState, t: CpuState, addr: u32, n: int) -> bool {
    t.reservation == match s.reservation {
        Some(r) => if addr < r.addr + r.size && r.addr < addr + n {
            None
        } else {
            Some(r)
        },
        None => None,
    }
}

/// B and BL go to the address that lies a signed number of words behind the second
/// instruction from here; BL leaves the address of the next instruction in the link
/// register.
pub proof fn branches(s: CpuState, m: MemState, instr: u32, pc: u32)
    requires
        s.wf(),
        runs(s, instr),
        is_branch(instr),
    ensures
        ({
            let field = instr as int % 0x100_0000;
            let words = if field < 0x80_0000 {
                field
            } else {
                field - 0x100_0000
            };
            let (t, m1, r) = arm(s, m, instr, pc);
            &&& r is Ok && m1 == m
            &&& t == (CpuState { regs: t.regs, ..s })
            &&& t.r(15) == (pc + 8 + 4 * words) % 0x1_0000_0000
            &&& t.r(14) == if bit(instr, 24) {
                (pc + 4) % 0x1_0000_0000
            } else {
                s.r(14) as int
            }
            &&& forall|i: usize| i < 14 ==> #[trigger] t.r(i) == s.r(i)
        }),
{
    branch_words(s, m, instr, pc);
    immediates(instr, 0);
    let offset = sext((instr & 0x00ff_ffff) << 2, 26);
    sign_casts(0, 0, 0, 0, offset, 0);
}

/// BLX with an immediate goes to Thumb code at a signed number of halfwords behind
/// the second instruction from here, and links.
pub proof fn branch_exchange(s: CpuState, instr: u32, pc: u32)
    requires
        s.wf(),
    ensures
        ({
            let field = instr as int % 0x100_0000;
            let words = if field < 0x80_0000 {
                field
            } else {
                field - 0x100_0000
            };
            let t = arm_blx(s, instr, pc);
            &&& t.r(15) == (pc + 8 + 4 * words + 2 * (instr as int / 0x100_0000 % 2))
                % 0x1_0000_0000
            &&& t.r(14) == (pc + 4) % 0x1_0000_0000
            &&& t.cpsr == (Cpsr { t: true, ..s.cpsr })
            &&& forall|i: usize| i < 14 ==> #[trigger] t.r(i) == s.r(i)
        }),
{
    immediates(instr, 0);
    let offset = sext(((instr & 0x00ff_ffff) << 2) | (((instr >> 24) & 1) << 1), 26);
    sign_casts(0, 0, 0, 0, offset, 0);
}

/// Where a transfer with a base and an offset goes: the displaced base, and the
/// address used.
#[verifier::opaque]
pub open spec fn target(s: CpuState, instr: u32, pc: u32, offset: u32) -> (int, int) {
    let base = s.ra(f4(instr, 16), pc);
    let moved = if bit(instr, 23) {
        (base + offset) % 0x1_0000_0000
    } else {
        (base - offset) % 0x1_0000_0000
    };
    (
        moved,
        if bit(instr, 24) {
            moved
        } else {
            base as int
        },
    )
}

/// The offset of a word or byte transfer: twelve bits, or a shifted register.
#[verifier::opaque]
pub open spec fn single_offset(s: CpuState, instr: u32, pc: u32) -> u32 {
    if bit(instr, 25) {
        shifted(
            s.ra(f4(instr, 0), pc),
            shift_kind((instr / 0x20 % 4) as u32),
            (instr / 0x80 % 32) as u32,
            s.cpsr.c,
            true,
        ).value
    } else {
        (instr % 0x1000) as u32
    }
}

proof fn targets(s: CpuState, instr: u32, pc: u32, offset: u32)
    ensures
        displaced(s.ra(f4(instr, 16), pc), offset, bit(instr, 23)) == target(
            s,
            instr,
            pc,
            offset,
        ).0,
        0 <= target(s, instr, pc, offset).0 < 0x1_0000_0000,
        target(s, instr, pc, offset).1 == if bit(instr, 24) {
            displaced(s.ra(f4(instr, 16), pc), offset, bit(instr, 23))
        } else {
            s.ra(f4(instr, 16), pc)
        },
{
    reveal(target);
}

proof fn transfer_fields(s: CpuState, instr: u32, pc: u32)
    ensures
        f4(instr, 0) < 16,
        f4(instr, 12) < 16,
        f4(instr, 16) < 16,
        single_offset(s, instr, pc) == if bit(instr, 25) {
            shifted(
                s.ra(f4(instr, 0), pc),
                shift_kind((instr >> 5) & 3),
                (instr >> 7) & 0x1f,
                s.cpsr.c,
                true,
            ).value
        } else {
            instr & 0xfff
        },
        half_offset(s, instr, pc) == if bit(instr, 22) {
            ((instr >> 4) & 0xf0) | (instr & 0xf)
        } else {
            s.ra(f4(instr, 0), pc)
        },
        (instr >> 5) & 3 == instr as int / 0x20 % 4,
{
    reveal(single_offset);
    reveal(half_offset);
    word_fields(instr);
    low_parts(instr, 0, 0);
    immediates(instr, 0);
}

/// Whether the base register is as the instruction leaves it: displaced after
/// post-indexing or on request.
pub open spec fn base_after(s: CpuState, t: CpuState, instr: u32, moved: int) -> bool {
    t.r(f4(instr, 16)) == if !bit(instr, 24) || bit(instr, 21) {
        moved
    } else {
        s.r(f4(instr, 16)) as int
    }
}

/// LDR and LDRB put the word or byte at the address into the register, whose other
/// bits a byte leaves zero; loads of the program counter jump.
pub proof fn single_loads(s: CpuState, m: MemState, instr: u32, pc: u32)
    requires
        s.wf(),
        runs(s, instr),
        is_single(instr),
        bit(instr, 20),
        arm(s, m, instr, pc).2 is Ok,
    ensures
        ({
            let (rn, rd) = (f4(instr, 16), f4(instr, 12));
            let (moved, addr) = target(s, instr, pc, single_offset(s, instr, pc));
            let v = memory_number(
                m,
                addr as u32,
                if bit(instr, 22) {
                    1
                } else {
                    4
                },
            );
            let (t, m1, _) = arm(s, m, instr, pc);
            &&& m1 == m
            &&& rd != 15 ==> t.r(rd) == v && t == (CpuState { regs: t.regs, ..s })
            &&& rd == 15 ==> t.r(15) == v - v % 2 && t.cpsr == (Cpsr { t: v % 2 == 1, ..s.cpsr })
            &&& rn != rd ==> base_after(s, t, instr, moved)
            &&& forall|i: usize| i < 16 && i != rd && i != rn ==> #[trigger] t.r(i) == s.r(i)
        }),
{
    single_words(s, m, instr, pc);
    transfer_fields(s, instr, pc);
    targets(s, instr, pc, single_offset(s, instr, pc));
    let addr = target(s, instr, pc, single_offset(s, instr, pc)).1 as u32;
    loads(m, addr);
    let v = if bit(instr, 22) {
        m.load8(addr)->Ok_0 as u32
    } else {
        m.load32(addr)->Ok_0
    };
    low_bit_dropped(v);
}

proof fn low_bit_dropped(v: u32)
    ensures
        v & !1u32 == v - v % 2,
        (v & 1 != 0) == (v % 2 == 1),
{
    immediates(v, 0);
}

/// STR and STRB put the register, or its low byte, at the address; the claim of an
/// exclusive load that the store touches is gone.
pub proof fn single_stores(s: CpuState, m: MemState, instr: u32, pc: u32)
    requires
        s.wf(),
        runs(s, instr),
        is_single(instr),
        !bit(instr, 20),
        arm(s, m, instr, pc).2 is Ok,
    ensures
        ({
            let rn = f4(instr, 16);
            let (moved, addr) = target(s, instr, pc, single_offset(s, instr, pc));
            let n: int = if bit(instr, 22) {
                1
            } else {
                4
            };
            let (t, m1, _) = arm(s, m, instr, pc);
            &&& memory_takes(m, m1, addr as u32, s.ra(f4(instr, 12), pc) as int, n)
            &&& claim_after(s, t, addr as u32, n)
            &&& t == (CpuState { regs: t.regs, reservation: t.reservation, ..s })
            &&& base_after(s, t, instr, moved)
            &&& forall|i: usize| i < 16 && i != rn ==> #[trigger] t.r(i) == s.r(i)
        }),
{
    single_words(s, m, instr, pc);
    transfer_fields(s, instr, pc);
    targets(s, instr, pc, single_offset(s, instr, pc));
    let addr = target(s, instr, pc, single_offset(s, instr, pc)).1 as u32;
    stores(m, addr, s.ra(f4(instr, 12), pc));
}

/// The offset of a halfword, signed or doubleword transfer: a byte in two parts, or
/// a register.
#[verifier::opaque]
pub open spec fn half_offset(s: CpuState, instr: u32, pc: u32) -> u32 {
    if bit(instr, 22) {
        (16 * (instr / 0x100 % 16) + instr % 16) as u32
    } else {
        s.ra(f4(instr, 0), pc)
    }
}

/// What is loaded with its sign.
pub proof fn signed_loads(m: MemState, addr: u32)
    ensures
        m.load8(addr) is Ok ==> (sext(m.load8(addr)->Ok_0 as u32, 8) as u32) == signed8(
            memory_number(m, addr, 1),
        ) % 0x1_0000_0000,
        m.load16(addr) is Ok ==> (sext(m.load16(addr)->Ok_0 as u32, 16) as u32) == signed16(
            memory_number(m, addr, 2),
        ) % 0x1_0000_0000,
        m.load16(addr) is Ok ==> memory_number(m, addr, 2) % 0x1_0000_0000 == memory_number(
            m,
            addr,
            2,
        ),
{
    loads(m, addr);
    if m.load8(addr) is Ok {
        extensions(m.load8(addr)->Ok_0 as u32);
        low_parts(m.load8(addr)->Ok_0 as u32, 0, 0);
    }
    if m.load16(addr) is Ok {
        extensions(m.load16(addr)->Ok_0 as u32);
        low_parts(m.load16(addr)->Ok_0 as u32, 0, 0);
    }
}

proof fn halfword_steps(s: CpuState, m: MemState, instr: u32, pc: u32)
    requires
        runs(s, instr),
        is_halfword(instr),
        arm(s, m, instr, pc).2 is Ok,
    ensures
        ({
            let (moved, addr) = target(s, instr, pc, half_offset(s, instr, pc));
            let (s1, m1, r) = halfword_access(s, m, instr, pc, addr as u32);
            &&& halfword_refusal(instr) is None
            &&& r is Ok
            &&& arm(s, m, instr, pc) == (
                if !bit(instr, 24) || bit(instr, 21) {
                    s1.wa(f4(instr, 16), moved as u32)
                } else {
                    s1
                },
                m1,
                Ok::<(), TrapView>(()),
            )
        }),
{
    halfword_words(s, m, instr, pc);
    halfword_shape(instr);
    reveal(arm_halfword_transfer);
    transfer_fields(s, instr, pc);
    targets(s, instr, pc, half_offset(s, instr, pc));
}

/// LDRH, LDRSB and LDRSH extend what they load, without and with its sign.
pub proof fn halfword_loads(s: CpuState, m: MemState, instr: u32, pc: u32)
    requires
        s.wf(),
        runs(s, instr),
        is_halfword(instr),
        bit(instr, 20),
        arm(s, m, instr, pc).2 is Ok,
    ensures
        ({
            let (rn, rd) = (f4(instr, 16), f4(instr, 12));
            let (moved, addr) = target(s, instr, pc, half_offset(s, instr, pc));
            let op = instr as int / 0x20 % 4;
            let v = if op == 1 {
                memory_number(m, addr as u32, 2)
            } else if op == 2 {
                signed8(memory_number(m, addr as u32, 1))
            } else {
                signed16(memory_number(m, addr as u32, 2))
            };
            let (t, m1, _) = arm(s, m, instr, pc);
            &&& m1 == m
            &&& t.r(rd) == v % 0x1_0000_0000
            &&& t == (CpuState { regs: t.regs, ..s })
            &&& rn != rd && rn != 15 ==> base_after(s, t, instr, moved)
            &&& forall|i: usize| i < 16 && i != rd && i != rn ==> #[trigger] t.r(i) == s.r(i)
        }),
{
    transfer_fields(s, instr, pc);
    targets(s, instr, pc, half_offset(s, instr, pc));
    halfword_steps(s, m, instr, pc);
    let addr = target(s, instr, pc, half_offset(s, instr, pc)).1 as u32;
    loads(m, addr);
    signed_loads(m, addr);
}

/// STRH stores the low half of a register.
pub proof fn halfword_stores(s: CpuState, m: MemState, instr: u32, pc: u32)
    requires
        s.wf(),
        runs(s, instr),
        is_halfword(instr),
        !bit(instr, 20),
        instr as int / 0x20 % 4 == 1,
        arm(s, m, instr, pc).2 is Ok,
    ensures
        ({
            let rn = f4(instr, 16);
            let (moved, addr) = target(s, instr, pc, half_offset(s, instr, pc));
            let (t, m1, _) = arm(s, m, instr, pc);
            &&& memory_takes(m, m1, addr as u32, s.r(f4(instr, 12)) as int, 2)
            &&& claim_after(s, t, addr as u32, 2)
            &&& t == (CpuState { regs: t.regs, reservation: t.reservation, ..s })
            &&& rn != 15 ==> base_after(s, t, instr, moved)
            &&& forall|i: usize| i < 16 && i != rn ==> #[trigger] t.r(i) == s.r(i)
        }),
{
    transfer_fields(s, instr, pc);
    targets(s, instr, pc, half_offset(s, instr, pc));
    halfword_steps(s, m, instr, pc);
    let addr = target(s, instr, pc, half_offset(s, instr, pc)).1 as u32;
    stores(m, addr, s.r(f4(instr, 12)));
}

/// LDRD loads two neighbouring words into two neighbouring registers.
pub proof fn doubleword_loads(s: CpuState, m: MemState, instr: u32, pc: u32)
    requires
        s.wf(),
        runs(s, instr),
        is_halfword(instr),
        !bit(instr, 20),
        instr as int / 0x20 % 4 == 2,
        arm(s, m, instr, pc).2 is Ok,
    ensures
        ({
            let (rn, rd) = (f4(instr, 16), f4(instr, 12));
            let (moved, addr) = target(s, instr, pc, half_offset(s, instr, pc));
            let (t, m1, _) = arm(s, m, instr, pc);
            &&& m1 == m
            &&& rd < 14
            &&& t.r(rd) == memory_number(m, addr as u32, 4)
            &&& t.r((rd + 1) as usize) == memory_number(m, ahead(addr as u32, 4), 4)
            &&& t == (CpuState { regs: t.regs, ..s })
            &&& rn != rd && rn != rd + 1 && rn != 15 ==> base_after(s, t, instr, moved)
            &&& forall|i: usize|
                i < 16 && i != rd && i != rd + 1 && i != rn ==> #[trigger] t.r(i) == s.r(i)
        }),
{
    transfer_fields(s, instr, pc);
    targets(s, instr, pc, half_offset(s, instr, pc));
    halfword_steps(s, m, instr, pc);
    let addr = target(s, instr, pc, half_offset(s, instr, pc)).1 as u32;
    loads(m, addr);
    loads(m, ahead(addr, 4));
    assert(addr.wrapping_add(4) == ahead(addr, 4));
}

/// The address of register `i` in a block that starts at `start`: a word behind for
/// each register of the list below it.
#[verifier::opaque]
pub open spec fn slot(start: int, list: u32, i: usize) -> u32 {
    ahead(0, start + 4 * ones_below(list, i as nat))
}

proof fn load_lists(s: CpuState, m: MemState, list: u32, reg: usize, addr: u32, start: int)
    requires
        s.wf(),
        reg <= 16,
        addr == slot(start, list, reg),
        arm_load_list(s, m, list, reg, addr).2 is Ok,
    ensures
        ({
            let (t, m1, _) = arm_load_list(s, m, list, reg, addr);
            &&& t.wf()
            &&& m1 == m
            &&& forall|i: usize|
                i < 15 && reg <= i && bit(list, i as u32) ==> #[trigger] t.r(i) == memory_number(
                    m,
                    slot(start, list, i),
                    4,
                )
            &&& forall|i: usize|
                i < 15 && (i < reg || !bit(list, i as u32)) ==> #[trigger] t.r(i) == s.r(i)
        }),
    decreases 16 - reg,
{
    if reg < 16 {
        let next = (reg + 1) as usize;
        reveal_with_fuel(ones_below, 2);
        reveal(slot);
        if !bit(list, reg as u32) {
            load_lists(s, m, list, next, addr, start);
        } else {
            loads(m, addr);
            let v = m.load32(addr)->Ok_0;
            assert(addr.wrapping_add(4) == slot(start, list, next));
            load_lists(s.wa(reg, v), m, list, next, addr.wrapping_add(4), start);
        }
    }
}

/// How many registers a block transfer moves.
pub open spec fn listed(instr: u32) -> int {
    ones_below(instr & 0xffff, 16) as int
}

/// Where the lowest word of a block transfer lies: at the base or a word behind it
/// where the block grows up, and below the base by the size of the block, or a word
/// behind that, where it grows down.
pub open spec fn block_start(s: CpuState, instr: u32) -> int {
    let base = s.r(f4(instr, 16)) as int;
    match (bit(instr, 24), bit(instr, 23)) {
        (false, true) => base,
        (true, true) => base + 4,
        (true, false) => base - 4 * listed(instr),
        (false, false) => base - 4 * listed(instr) + 4,
    }
}

/// The base register after a block transfer.
pub open spec fn block_base(s: CpuState, instr: u32) -> int {
    let base = s.r(f4(instr, 16)) as int;
    if !bit(instr, 21) {
        base
    } else if bit(instr, 23) {
        (base + 4 * listed(instr)) % 0x1_0000_0000
    } else {
        (base - 4 * listed(instr)) % 0x1_0000_0000
    }
}

/// LDM loads the registers of its list from ascending words, the lowest register
/// from the lowest word; the base register is moved over the block on request.
pub proof fn block_loads(s: CpuState, m: MemState, instr: u32, pc: u32)
    requires
        s.wf(),
        runs(s, instr),
        is_block(instr),
        bit(instr, 20),
        arm(s, m, instr, pc).2 is Ok,
    ensures
        ({
            let rn = f4(instr, 16);
            let list = instr & 0xffff;
            let (t, m1, _) = arm(s, m, instr, pc);
            &&& m1 == m
            &&& forall|i: usize|
                i < 15 && bit(list, i as u32) ==> #[trigger] t.r(i) == memory_number(
                    m,
                    slot(block_start(s, instr), list, i),
                    4,
                )
            &&& forall|i: usize|
                i < 15 && !bit(list, i as u32) && i != rn ==> #[trigger] t.r(i) == s.r(i)
            &&& !bit(list, rn as u32) ==> t.r(rn) == block_base(s, instr)
        }),
{
    block_words(s, m, instr, pc);
    transfer_fields(s, instr, pc);
    let list = instr & 0xffff;
    few_ones(list, 16);
    let start = block_start(s, instr);
    block_addresses(s, instr);
    load_lists(s, m, list, 0, slot(start, list, 0), start);
    let s1 = arm_load_list(s, m, list, 0, slot(start, list, 0)).0;
    let t = arm(s, m, instr, pc).0;
    assert forall|i: usize| i < 15 && i != f4(instr, 16) implies #[trigger] t.r(i) == s1.r(i) by {}
    assert(bit(list, f4(instr, 16) as u32) ==> t.r(f4(instr, 16)) == s1.r(f4(instr, 16)));
}

proof fn block_addresses(s: CpuState, instr: u32)
    requires
        s.wf(),
    ensures
        ({
            let (p, u) = (bit(instr, 24), bit(instr, 23));
            let base = s.r(f4(instr, 16));
            let list = instr & 0xffff;
            let size = (4 * ones_below(list, 16)) as u32;
            let end = displaced(base, size, u);
            let low = if u {
                base
            } else {
                end
            };
            let start = if p == u {
                low.wrapping_add(4)
            } else {
                low
            };
            &&& start == slot(block_start(s, instr), list, 0)
            &&& bit(instr, 21) ==> end == block_base(s, instr)
        }),
{
    reveal(slot);
    few_ones(instr & 0xffff, 16);
    assert(ones_below(instr & 0xffff, 0) == 0);
}

proof fn few_ones(x: u32, n: nat)
    ensures
        ones_below(x, n) <= n,
    decreases n,
{
    if n > 0 {
        few_ones(x, (n - 1) as nat);
    }
}

/// The registers of a list from `reg` on that are stored, and what stays.
proof fn store_lists(s: CpuState, m: MemState, list: u32, reg: usize, addr: u32, pc: u32, start: int)
    requires
        s.wf(),
        reg <= 16,
        addr == slot(start, list, reg),
        arm_store_list(s, m, list, reg, addr, pc).2 is Ok,
    ensures
        ({
            let (t, m1, _) = arm_store_list(s, m, list, reg, addr, pc);
            let left = 4 * (ones_below(list, 16) - ones_below(list, reg as nat));
            &&& t.regs == s.regs
            &&& left >= 0
            &&& forall|a: u32| distance_from(addr, a) >= left ==> #[trigger] m1.bytes[a] == m.bytes[a]
            &&& forall|i: usize|
                reg <= i < 16 && #[trigger] bit(list, i as u32) ==> memory_number(
                    m1,
                    slot(start, list, i),
                    4,
                ) == s.ra(i, pc)
        }),
    decreases 16 - reg,
{
    reveal_with_fuel(ones_below, 2);
    if reg < 16 {
        let next = (reg + 1) as usize;
        if !bit(list, reg as u32) {
            assert(slot(start, list, next) == addr) by {
                reveal(slot);
            }
            store_lists(s, m, list, next, addr, pc, start);
        } else {
            let v = s.ra(reg, pc);
            let (s1, m0, _) = super::cpu::cpu_store32(s, m, addr, v);
            stores(m, addr, v);
            let further = addr.wrapping_add(4);
            assert(further == slot(start, list, next)) by {
                reveal(slot);
            }
            store_lists(s1, m0, list, next, further, pc, start);
            let m1 = arm_store_list(s, m, list, reg, addr, pc).1;
            let left = 4 * (ones_below(list, 16) - ones_below(list, reg as nat));
            few_ones(list, 16);
            assert forall|a: u32| distance_from(addr, a) >= left implies #[trigger] m1.bytes[a]
                == m.bytes[a] by {
                a_word_further(addr, a);
                reveal(memory_takes);
                assert(m0.bytes[a] == m.bytes[a]);
            }
            assert(memory_number(m1, addr, 4) == v) by {
                word_stays(m, m0, m1, addr, v, left - 4);
            }
        }
    }
}

proof fn a_word_further(addr: u32, a: u32)
    ensures
        distance_from(addr, a) >= 4 ==> distance_from(addr.wrapping_add(4), a) == distance_from(
            addr,
            a,
        ) - 4,
        distance_from(addr, a) < 4 ==> distance_from(addr.wrapping_add(4), a) == distance_from(
            addr,
            a,
        ) + 0xffff_fffc,
{
    reveal(distance_from);
}

proof fn word_stays(m: MemState, m0: MemState, m1: MemState, addr: u32, v: u32, left: int)
    requires
        memory_takes(m, m0, addr, v as int, 4),
        0 <= left <= 64,
        forall|a: u32|
            distance_from(addr.wrapping_add(4), a) >= left ==> #[trigger] m1.bytes[a] == m0.bytes[a],
    ensures
        memory_number(m1, addr, 4) == v,
{
    reveal(memory_takes);
    let (a1, a2, a3) = (ahead(addr, 1), ahead(addr, 2), ahead(addr, 3));
    assert(a1 == addr.wrapping_add(1) && a2 == addr.wrapping_add(2) && a3 == addr.wrapping_add(2).wrapping_add(1));
    distances(addr, addr);
    distances(addr, a1);
    distances(addr, a2);
    distances(addr, a3);
    a_word_further(addr, addr);
    a_word_further(addr, a1);
    a_word_further(addr, a2);
    a_word_further(addr, a3);
    assert(m1.bytes[addr] == m0.bytes[addr] && m1.bytes[a1] == m0.bytes[a1]);
    assert(m1.bytes[a2] == m0.bytes[a2] && m1.bytes[a3] == m0.bytes[a3]);
    assert(m0.bytes[addr] == digit(v as int, 0) && m0.bytes[a1] == digit(v as int, 1));
    assert(m0.bytes[a2] == digit(v as int, 2) && m0.bytes[a3] == digit(v as int, 3));
    four_digits(v);
    reveal(memory_number);
}

proof fn four_digits(v: u32)
    ensures
        v == digit(v as int, 0) + 0x100 * digit(v as int, 1) + 0x1_0000 * digit(v as int, 2)
            + 0x100_0000 * digit(v as int, 3),
{
    reveal(digit);
}

/// STM stores the registers of its list to ascending words, the lowest register to the
/// lowest word, and moves the base register over the block on request.
pub proof fn block_stores(s: CpuState, m: MemState, instr: u32, pc: u32)
    requires
        s.wf(),
        runs(s, instr),
        is_block(instr),
        !bit(instr, 20),
        arm(s, m, instr, pc).2 is Ok,
    ensures
        ({
            let rn = f4(instr, 16);
            let list = instr & 0xffff;
            let (t, m1, _) = arm(s, m, instr, pc);
            &&& forall|i: usize|
                i < 16 && #[trigger] bit(list, i as u32) ==> memory_number(
                    m1,
                    slot(block_start(s, instr), list, i),
                    4,
                ) == s.ra(i, pc)
            &&& t.r(rn) == block_base(s, instr)
            &&& forall|i: usize| i < 16 && i != rn ==> #[trigger] t.r(i) == s.r(i)
        }),
{
    block_words(s, m, instr, pc);
    transfer_fields(s, instr, pc);
    let list = instr & 0xffff;
    few_ones(list, 16);
    let start = block_start(s, instr);
    block_addresses(s, instr);
    store_lists(s, m, list, 0, slot(start, list, 0), pc, start);
    let s1 = arm_store_list(s, m, list, 0, slot(start, list, 0), pc).0;
    let t = arm(s, m, instr, pc).0;
    assert forall|i: usize| i < 16 && i != f4(instr, 16) implies #[trigger] t.r(i) == s.r(i) by {
        assert(s1.r(i) == s.r(i));
    }
}

} // verus!
