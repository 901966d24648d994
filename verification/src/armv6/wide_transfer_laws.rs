//! What the 32-bit Thumb and the floating-point loads and stores move.

use super::arm_transfer::displaced;
use super::bits::{and_le_u16, bit, bith, f4, t4};
use super::cpu::CpuState;
use super::laws::doublewords_read_back;
use super::memory::MemState;
use super::numbers::{low_parts, pairs, signed16, signed8};
use super::thumb32::{
    has_imm12, is_load, is_signed_load, is_single, t32_doubleword, t32_single, t32_table_branch,
    width_of,
};
use super::thumb_laws::rounded;
use super::transfer_laws::{
    ahead, claim_after, loads, memory_number, memory_takes, signed_loads, stores,
};
use super::trap::TrapView;
use super::vfp::fp_transfer;
use super::vfp_regs::{dd, register_numbers, sd, word_fields};
use super::word_parts::{wide_offsets, word_offset};
use vstd::prelude::*;

verus! {

/// How many bytes a transfer moves: one, two or four, by a field of its operation.
pub open spec fn bytes_moved(op: u16) -> int {
    if op / 0x20 % 4 == 0 {
        1
    } else if op / 0x20 % 4 == 1 {
        2
    } else {
        4
    }
}

/// What a load leaves in its register: the number in memory, with its sign where the
/// operation says so.
pub open spec fn loaded(m: MemState, op: u16, addr: u32) -> int {
    let v = memory_number(m, addr, bytes_moved(op));
    if op >= 0xf900 && bytes_moved(op) == 1 {
        signed8(v) % 0x1_0000_0000
    } else if op >= 0xf900 {
        signed16(v) % 0x1_0000_0000
    } else {
        v
    }
}

proof fn operations(op: u16)
    requires
        is_single(op),
    ensures
        is_load(op) == (op / 0x10 % 2 == 1),
        is_signed_load(op) == (op >= 0xf900),
        has_imm12(op) == (op / 0x80 % 2 == 1),
        width_of(op) == bytes_moved(op),
        op >= 0xf900 ==> width_of(op) != 4,
{
}

/// The address of a transfer with a base other than the program counter, and what is
/// written back to the base: a shifted register, twelve bits, or eight bits up or down,
/// before or after the transfer.
pub open spec fn wide_target(s: CpuState, first: u16, second: u16) -> (int, Option<int>) {
    let base = s.r(t4(first, 0)) as int;
    let op = first & 0xfff0;
    let k = second as int / 0x10 % 4;
    let index = s.r(t4(second, 0)) as int;
    if op / 0x80 % 2 == 1 {
        ((base + second as int % 0x1000) % 0x1_0000_0000, None)
    } else if !bith(second, 11) {
        (
            (base + (if k == 0 {
                index
            } else if k == 1 {
                2 * index
            } else if k == 2 {
                4 * index
            } else {
                8 * index
            }) % 0x1_0000_0000) % 0x1_0000_0000,
            None,
        )
    } else {
        let moved = (if bith(second, 9) {
            base + second as int % 0x100
        } else {
            base - second as int % 0x100
        }) % 0x1_0000_0000;
        (
            if bith(second, 10) {
                moved
            } else {
                base
            },
            if bith(second, 8) {
                Some(moved)
            } else {
                None
            },
        )
    }
}

/// The loads and stores with a base register.
#[verifier::rlimit(50)]
pub proof fn wide_transfers(s: CpuState, m: MemState, first: u16, second: u16, pc: u32)
    requires
        s.wf(),
        is_single(first & 0xfff0),
        t4(first, 0) != 15,
        t4(second, 12) != 15,
        t32_single(s, m, first, second, pc).2 is Ok,
    ensures
        ({
            let op = first & 0xfff0;
            let (rn, rt) = (t4(first, 0), t4(second, 12));
            let (addr, back) = wide_target(s, first, second);
            let n = bytes_moved(op);
            let (t, m1, _) = t32_single(s, m, first, second, pc);
            &&& t == (CpuState { regs: t.regs, reservation: t.reservation, ..s })
            &&& op / 0x10 % 2 == 1 ==> m1 == m && t.r(rt) == loaded(m, op, addr as u32)
            &&& op / 0x10 % 2 == 0 ==> memory_takes(m, m1, addr as u32, s.r(rt) as int, n)
                && claim_after(s, t, addr as u32, n)
            &&& (op / 0x10 % 2 == 0 || rn != rt) ==> t.r(rn) == match back {
                Some(v) => v,
                None => s.r(rn) as int,
            }
            &&& forall|i: usize|
                i < 16 && i != rn && (op / 0x10 % 2 == 0 || i != rt) ==> #[trigger] t.r(i) == s.r(i)
        }),
{
    let op = first & 0xfff0;
    operations(op);
    and_le_u16(first >> 0, 0xf);
    and_le_u16(second >> 12, 0xf);
    and_le_u16(second >> 0, 0xf);
    target_words(s, first, second);
    let addr = wide_target(s, first, second).0 as u32;
    loads(m, addr);
    signed_loads(m, addr);
    stores(m, addr, s.r(t4(second, 12)));
}

proof fn target_words(s: CpuState, first: u16, second: u16)
    requires
        is_single(first & 0xfff0),
    ensures
        ({
            let base = s.r(t4(first, 0));
            let (addr, back) = wide_target(s, first, second);
            let moved = displaced(base, (second & 0xff) as u32, bith(second, 9));
            let op = first & 0xfff0;
            &&& has_imm12(op) ==> addr == base.wrapping_add((second & 0xfff) as u32) && back is None
            &&& !has_imm12(op) && !bith(second, 11) ==> addr == base.wrapping_add(
                s.r(t4(second, 0)) << (((second >> 4) & 3) as u32),
            ) && back is None
            &&& !has_imm12(op) && bith(second, 11) ==> {
                &&& addr == if bith(second, 10) {
                    moved
                } else {
                    base
                }
                &&& back == if bith(second, 8) {
                    Some(moved as int)
                } else {
                    None
                }
            }
        }),
{
    let op = first & 0xfff0;
    assert(has_imm12(op) == (op / 0x80 % 2 == 1)) by {
        operations(op);
    }
    transfer_offsets(s.r(t4(first, 0)), s.r(t4(second, 0)), second);
}

proof fn transfer_offsets(base: u32, index: u32, second: u16)
    ensures
        base.wrapping_add((second & 0xfff) as u32) == (base + second as int % 0x1000)
            % 0x1_0000_0000,
        displaced(base, (second & 0xff) as u32, true) == (base + second as int % 0x100)
            % 0x1_0000_0000,
        displaced(base, (second & 0xff) as u32, false) == (base - second as int % 0x100)
            % 0x1_0000_0000,
        ({
            let k = second as int / 0x10 % 4;
            base.wrapping_add(index << (((second >> 4) & 3) as u32)) == (base + (if k == 0 {
                index as int
            } else if k == 1 {
                2 * index
            } else if k == 2 {
                4 * index
            } else {
                8 * index
            }) % 0x1_0000_0000) % 0x1_0000_0000
        }),
{
    wide_offsets(index, second);
}

/// LDRD and STRD of the Thumb instruction set: two registers and two neighbouring words,
/// at a distance in words from the base.
#[verifier::rlimit(50)]
pub proof fn wide_doubleword_loads(s: CpuState, m: MemState, first: u16, second: u16)
    requires
        s.wf(),
        bith(first, 4),
        t32_doubleword(s, m, first, second).2 is Ok,
    ensures
        ({
            let (rn, rt, rt2) = (t4(first, 0), t4(second, 12), t4(second, 8));
            let base = s.r(rn) as int;
            let moved = (if bith(first, 7) {
                base + 4 * (second as int % 0x100)
            } else {
                base - 4 * (second as int % 0x100)
            }) % 0x1_0000_0000;
            let addr = if bith(first, 8) {
                moved
            } else {
                base
            };
            let (t, m1, _) = t32_doubleword(s, m, first, second);
            &&& m1 == m
            &&& t == (CpuState { regs: t.regs, ..s })
            &&& t.r(rt) == memory_number(m, addr as u32, 4)
            &&& t.r(rt2) == memory_number(m, ahead(addr as u32, 4), 4)
            &&& rn != rt && rn != rt2 ==> t.r(rn) == if bith(first, 5) {
                moved
            } else {
                base
            }
            &&& forall|i: usize|
                i < 16 && i != rn && i != rt && i != rt2 ==> #[trigger] t.r(i) == s.r(i)
        }),
{
    and_le_u16(first >> 0, 0xf);
    and_le_u16(second >> 12, 0xf);
    and_le_u16(second >> 8, 0xf);
    wide_offsets(0, second);
    let base = s.r(t4(first, 0));
    let moved = displaced(base, ((second & 0xff) as u32) << 2, bith(first, 7));
    let addr = if bith(first, 8) {
        moved
    } else {
        base
    };
    loads(m, addr);
    loads(m, ahead(addr, 4));
    assert(addr.wrapping_add(4) == ahead(addr, 4));
}

/// TBB and TBH go forward by twice an entry of a table of bytes or halfwords.
#[verifier::rlimit(50)]
pub proof fn table_branches(s: CpuState, m: MemState, first: u16, second: u16, pc: u32)
    requires
        s.wf(),
        t4(first, 0) != 15,
        t32_table_branch(s, m, first, second, pc).2 is Ok,
    ensures
        ({
            let (base, index) = (s.r(t4(first, 0)), s.r(t4(second, 0)));
            let entry = if bith(second, 4) {
                memory_number(m, ahead(base, 2 * index), 2)
            } else {
                memory_number(m, ahead(base, index as int), 1)
            };
            let (t, m1, _) = t32_table_branch(s, m, first, second, pc);
            &&& m1 == m
            &&& t.r(15) == (pc + 4 + 2 * entry) % 0x1_0000_0000
            &&& forall|i: usize| i < 15 ==> #[trigger] t.r(i) == s.r(i)
            &&& t == (CpuState { regs: t.regs, ..s })
        }),
{
    let (base, index) = (s.r(t4(first, 0)), s.r(t4(second, 0)));
    let at = if bith(second, 4) {
        base.wrapping_add(index.wrapping_mul(2))
    } else {
        base.wrapping_add(index)
    };
    table_addresses(base, index);
    loads(m, at);
    let v = if bith(second, 4) {
        m.load16(at)->Ok_0 as u32
    } else {
        m.load8(at)->Ok_0 as u32
    };
    table_target(pc, v);
}

proof fn table_addresses(base: u32, index: u32)
    ensures
        base.wrapping_add(index.wrapping_mul(2)) == ahead(base, 2 * index),
        base.wrapping_add(index) == ahead(base, index as int),
{
    assert(index.wrapping_mul(2) == (2 * index) % 0x1_0000_0000);
}

proof fn table_target(pc: u32, v: u32)
    requires
        v < 0x1_0000,
    ensures
        pc.wrapping_add(4).wrapping_add(v << 1) == (pc + 4 + 2 * v) % 0x1_0000_0000,
{
    wide_offsets(v, 0);
    assert(v << 1 == 2 * v);
}

/// VLDR: a word, or two words low one first, from a distance in words before or behind
/// the base.
#[verifier::rlimit(50)]
pub proof fn float_loads(s: CpuState, m: MemState, instr: u32, pc: u32)
    requires
        s.wf(),
        bit(instr, 20),
        fp_transfer(s, m, instr, pc).2 is Ok,
    ensures
        ({
            let base = s.ra(f4(instr, 16), pc) as int;
            let addr = ((if bit(instr, 23) {
                base + 4 * (instr as int % 0x100)
            } else {
                base - 4 * (instr as int % 0x100)
            }) % 0x1_0000_0000) as u32;
            let dbl = instr & 0x0f00_0f00 == 0x0d00_0b00;
            let (t, m1, _) = fp_transfer(s, m, instr, pc);
            &&& m1 == m
            &&& t == (CpuState { sregs: t.sregs, ..s })
            &&& dbl ==> t.d(dd(instr)) == memory_number(m, addr, 4) + 0x1_0000_0000 * memory_number(
                m,
                ahead(addr, 4),
                4,
            )
            &&& !dbl ==> t.s(sd(instr)) == memory_number(m, addr, 4) && forall|j: usize|
                j < 64 && j != sd(instr) ==> #[trigger] t.s(j) == s.s(j)
        }),
{
    register_numbers(instr);
    word_offset(instr);
    let addr = displaced(s.ra(f4(instr, 16), pc), ((instr & 0xff) * 4) as u32, bit(instr, 23));
    loads(m, addr);
    loads(m, ahead(addr, 4));
    assert(addr.wrapping_add(4) == ahead(addr, 4));
    if instr & 0x0f00_0f00 == 0x0d00_0b00 {
        let (lo, hi) = (m.load32(addr)->Ok_0, m.load32(ahead(addr, 4))->Ok_0);
        super::numbers::joined_words(hi, lo);
        doublewords_read_back(s, dd(instr), dd(instr), (lo as u64) | ((hi as u64) << 32));
    }
}

/// VSTR of a word register.
pub proof fn float_stores(s: CpuState, m: MemState, instr: u32, pc: u32)
    requires
        s.wf(),
        !bit(instr, 20),
        instr & 0x0f00_0f00 != 0x0d00_0b00,
        fp_transfer(s, m, instr, pc).2 is Ok,
    ensures
        ({
            let base = s.ra(f4(instr, 16), pc) as int;
            let addr = ((if bit(instr, 23) {
                base + 4 * (instr as int % 0x100)
            } else {
                base - 4 * (instr as int % 0x100)
            }) % 0x1_0000_0000) as u32;
            let (t, m1, _) = fp_transfer(s, m, instr, pc);
            &&& memory_takes(m, m1, addr, s.s(sd(instr)) as int, 4)
            &&& claim_after(s, t, addr, 4)
            &&& t == (CpuState { reservation: t.reservation, ..s })
        }),
{
    register_numbers(instr);
    word_offset(instr);
    let addr = displaced(s.ra(f4(instr, 16), pc), ((instr & 0xff) * 4) as u32, bit(instr, 23));
    stores(m, addr, s.s(sd(instr)));
}

} // verus!
