//! What holds of the machine across instructions.

use super::arm_misc::{
    arm_extract, arm_insert, arm_load_exclusive, arm_store_exclusive, inserted, is_load_exclusive,
    is_store_exclusive,
};
use super::arm_transfer::{arm_block_transfer, arm_load_list, arm_store_list};
use super::bits::{bit, f4, low_mask, ones_below, t4};
use super::cpu::{CpuState, ExclusiveReservation};
use super::exec::step;
use super::memory::{
    block_state, in_block, load16_after_store16, load32_after_store32, MemState,
};
use super::thumb32::t32_exclusive;
use super::thumb::{pop_list, pushed_list, thumb_misc};
use super::trap::TrapView;
use vstd::prelude::*;

verus! {

/// A register that was set reads back, and every other keeps its value.
pub proof fn registers_read_back(s: CpuState, i: usize, j: usize, v: u32)
    requires
        s.wf(),
        i < 16,
        j < 16,
    ensures
        s.with_r(i, v).wf(),
        s.with_r(i, v).r(i) == v,
        i != j ==> s.with_r(i, v).r(j) == s.r(j),
        s.with_r(i, v).sregs == s.sregs,
{
}

/// A doubleword register that was set reads back, as a doubleword and as its two
/// words, and every other keeps its value.
pub proof fn doublewords_read_back(s: CpuState, i: usize, j: usize, v: u64)
    requires
        s.wf(),
        i < 32,
        j < 32,
    ensures
        s.with_d(i, v).wf(),
        s.with_d(i, v).d(i) == v,
        s.with_d(i, v).s((2 * i) as usize) == v as u32,
        s.with_d(i, v).s((2 * i + 1) as usize) == (v >> 32) as u32,
        i != j ==> s.with_d(i, v).d(j) == s.d(j),
        s.with_d(i, v).regs == s.regs,
{
    assert(((v as u32) as u64) | ((((v >> 32) as u32) as u64) << 32) == v) by (bit_vector);
}

/// A jump goes to an even address, and the lowest bit of its target selects the
/// instruction set.
pub proof fn jumps_select_the_instruction_set(s: CpuState, target: u32)
    requires
        s.wf(),
    ensures
        s.jump(target).r(15) == target - target % 2,
        s.jump(target).cpsr.t == (target % 2 == 1),
        forall|i: usize| i < 15 ==> #[trigger] s.jump(target).r(i) == s.r(i),
{
    super::word_parts::immediates(target, 0);
}

/// Where nothing can be fetched, a step changes nothing and gives the fault.
pub proof fn a_step_needs_code(s: CpuState, m: MemState)
    requires
        m.load_faults.contains_key(s.r(15)),
    ensures
        step(s, m) == (s, m, Err::<(), TrapView>(m.load_faults[s.r(15)])),
{
}

/// How far into a list of stored registers the word of register `reg` lies.
pub open spec fn list_offset(list: u32, reg: int) -> int {
    4 * ones_below(list, reg as nat) as int
}

proof fn offsets_ascend(list: u32, reg: int, to: int)
    requires
        0 <= reg <= to <= 16,
    ensures
        list_offset(list, reg) <= list_offset(list, to) <= 4 * to,
    decreases to,
{
    if reg < to {
        offsets_ascend(list, reg, to - 1);
    } else if to > 0 {
        offsets_ascend(list, to - 1, to - 1);
    }
}

/// The address of the word of register `reg`.
pub open spec fn word_of_list(start: u32, list: u32, reg: int) -> u32 {
    start.wrapping_add(list_offset(list, reg) as u32)
}

proof fn part_is_accessible(m: MemState, start: u32, len: nat, off: nat)
    requires
        m.accessible(start, len),
        off + 4 <= len <= 64,
    ensures
        m.accessible(start.wrapping_add(off as u32), 4),
{
    let addr = start.wrapping_add(off as u32);
    assert forall|i: u32| i < 4 implies {
        &&& !m.load_faults.contains_key(#[trigger] addr.wrapping_add(i))
        &&& !m.store_faults.contains_key(addr.wrapping_add(i))
    } by {
        let j = (off + i) as u32;
        assert(addr.wrapping_add(i) == start.wrapping_add(j));
        assert(!m.load_faults.contains_key(start.wrapping_add(j)));
    }
}

/// Storing the registers of a list from `reg` on goes through, keeps the
/// registers, and keeps what lies before the word of `reg` and behind the list.
proof fn list_is_stored(s: CpuState, m: MemState, list: u32, reg: usize, start: u32, pc: u32)
    requires
        s.wf(),
        reg <= 16,
        m.accessible(start, list_offset(list, 16) as nat),
    ensures
        ({
            let (s1, m1, r) = arm_store_list(
                s,
                m,
                list,
                reg,
                word_of_list(start, list, reg as int),
                pc,
            );
            &&& r is Ok
            &&& s1.regs == s.regs
            &&& m1.load_faults == m.load_faults
            &&& m1.store_faults == m.store_faults
            &&& m1.extent == m.extent
            &&& forall|x: u32|
                x < list_offset(list, reg as int) || x >= list_offset(list, 16)
                    ==> #[trigger] m1.bytes[start.wrapping_add(x)] == m.bytes[start.wrapping_add(x)]
        }),
    decreases 16 - reg,
{
    offsets_ascend(list, reg as int, 16);
    if reg < 16 {
        offsets_ascend(list, reg + 1, 16);
        let next = (reg + 1) as usize;
        if bit(list, reg as u32) {
            let off = list_offset(list, reg as int);
            let addr = word_of_list(start, list, reg as int);
            part_is_accessible(m, start, list_offset(list, 16) as nat, off as nat);
            load32_after_store32(m, addr, s.ra(reg, pc));
            let (m1, _) = m.store32(addr, s.ra(reg, pc));
            let s1 = s.after_store(addr, 4);
            assert(addr.wrapping_add(4) == word_of_list(start, list, next as int));
            list_is_stored(s1, m1, list, next, start, pc);
            assert forall|x: u32|
                x < off || x >= list_offset(list, 16) implies #[trigger] m1.bytes[start.wrapping_add(
                x,
            )] == m.bytes[start.wrapping_add(x)] by {}
        } else {
            list_is_stored(s, m, list, next, start, pc);
        }
    }
}

/// The registers of a list, taken from `s` where they are in it and not below
/// `reg`.
pub open spec fn taken(s: CpuState, s2: CpuState, list: u32, reg: int) -> Seq<u32> {
    Seq::new(
        16,
        |i: int|
            if reg <= i && bit(list, i as u32) {
                s.regs[i]
            } else {
                s2.regs[i]
            },
    )
}

/// What was stored from a list of registers loads back into them.
proof fn list_loads_back(
    s: CpuState,
    m: MemState,
    s2: CpuState,
    list: u32,
    reg: usize,
    start: u32,
    pc: u32,
)
    requires
        s.wf(),
        s2.wf(),
        reg <= 16,
        !bit(list, 15),
        m.accessible(start, list_offset(list, 16) as nat),
    ensures
        ({
            let addr = word_of_list(start, list, reg as int);
            let m1 = arm_store_list(s, m, list, reg, addr, pc).1;
            arm_load_list(s2, m1, list, reg, addr) == (
                CpuState { regs: taken(s, s2, list, reg as int), ..s2 },
                m1,
                Ok::<(), TrapView>(()),
            )
        }),
    decreases 16 - reg,
{
    offsets_ascend(list, reg as int, 16);
    let addr = word_of_list(start, list, reg as int);
    let last = arm_store_list(s, m, list, reg, addr, pc).1;
    if reg >= 16 {
        assert(taken(s, s2, list, reg as int) =~= s2.regs);
    } else {
        let next = (reg + 1) as usize;
        offsets_ascend(list, reg + 1, 16);
        if bit(list, reg as u32) {
            let off = list_offset(list, reg as int);
            let v = s.ra(reg, pc);
            part_is_accessible(m, start, list_offset(list, 16) as nat, off as nat);
            load32_after_store32(m, addr, v);
            let (m1, _) = m.store32(addr, v);
            let s1 = s.after_store(addr, 4);
            assert(addr.wrapping_add(4) == word_of_list(start, list, next as int));
            list_is_stored(s1, m1, list, next, start, pc);
            assert(last == arm_store_list(
                s1,
                m1,
                list,
                next,
                word_of_list(start, list, next as int),
                pc,
            ).1);
            assert(off + 4 == list_offset(list, next as int));
            let (o0, o1, o2, o3) = (
                off as u32,
                (off + 1) as u32,
                (off + 2) as u32,
                (off + 3) as u32,
            );
            assert(addr == start.wrapping_add(o0));
            assert(addr.wrapping_add(1) == start.wrapping_add(o1));
            assert(addr.wrapping_add(2) == start.wrapping_add(o2));
            assert(addr.wrapping_add(3) == start.wrapping_add(o3));
            assert(last.bytes[start.wrapping_add(o0)] == m1.bytes[start.wrapping_add(o0)]);
            assert(last.bytes[start.wrapping_add(o1)] == m1.bytes[start.wrapping_add(o1)]);
            assert(last.bytes[start.wrapping_add(o2)] == m1.bytes[start.wrapping_add(o2)]);
            assert(last.bytes[start.wrapping_add(o3)] == m1.bytes[start.wrapping_add(o3)]);
            assert(last.load32(addr) == m1.load32(addr));
            let s3 = s2.wa(reg, v);
            list_loads_back(s1, m1, s3, list, next, start, pc);
            assert(taken(s1, s3, list, next as int) =~= taken(s, s2, list, reg as int));
        } else {
            list_loads_back(s, m, s2, list, next, start, pc);
            assert(taken(s, s2, list, next as int) =~= taken(s, s2, list, reg as int));
        }
    }
}

/// A push of registers (a decrementing store with writeback) and a pop of the
/// same registers (an incrementing load with writeback) undo each other: the
/// stack pointer and the registers of the list come back, whatever happened to
/// the registers in between, as long as the stack pointer and the memory are as
/// the push left them.
pub proof fn push_then_pop(
    s: CpuState,
    m: MemState,
    push: u32,
    pop: u32,
    pc: u32,
    later: CpuState,
    later_pc: u32,
)
    requires
        s.wf(),
        later.wf(),
        bit(push, 24) && !bit(push, 23) && !bit(push, 22) && bit(push, 21) && !bit(push, 20),
        !bit(pop, 24) && bit(pop, 23) && !bit(pop, 22) && bit(pop, 21) && bit(pop, 20),
        f4(push, 16) == f4(pop, 16),
        f4(push, 16) < 15,
        push & 0xffff == pop & 0xffff,
        push & 0xffff != 0,
        !bit(push & 0xffff, 15),
        !bit(push & 0xffff, f4(push, 16) as u32),
        m.accessible(
            s.r(f4(push, 16)).wrapping_sub(list_offset(push & 0xffff, 16) as u32),
            list_offset(push & 0xffff, 16) as nat,
        ),
        later.r(f4(push, 16)) == arm_block_transfer(s, m, push, pc).0.r(f4(push, 16)),
    ensures
        ({
            let rn = f4(push, 16);
            let list = push & 0xffff;
            let (s1, m1, r1) = arm_block_transfer(s, m, push, pc);
            let (s2, m2, r2) = arm_block_transfer(later, m1, pop, later_pc);
            &&& r1 is Ok
            &&& r2 is Ok
            &&& m2 == m1
            &&& s2.r(rn) == s.r(rn)
            &&& forall|i: usize|
                i < 15 && bit(list, i as u32) ==> #[trigger] s2.r(i) == s.r(i)
            &&& forall|i: usize|
                i < 16 && i != rn && !bit(list, i as u32) ==> #[trigger] s2.r(i) == later.r(i)
        }),
{
    let rn = f4(push, 16);
    let list = push & 0xffff;
    offsets_ascend(list, 0, 16);
    let size = list_offset(list, 16) as u32;
    let start = s.r(rn).wrapping_sub(size);
    assert(word_of_list(start, list, 0) == start);
    list_is_stored(s, m, list, 0, start, pc);
    list_loads_back(s, m, later, list, 0, start, pc);
    assert(start.wrapping_add(size) == s.r(rn));
}

/// The word of a stored register reads back.
proof fn stored_word(
    s: CpuState,
    m: MemState,
    list: u32,
    reg: usize,
    start: u32,
    pc: u32,
    k: usize,
)
    requires
        s.wf(),
        reg <= k < 15,
        bit(list, k as u32),
        m.accessible(start, list_offset(list, 16) as nat),
    ensures
        arm_store_list(s, m, list, reg, word_of_list(start, list, reg as int), pc).1.load32(
            word_of_list(start, list, k as int),
        ) == Ok::<u32, TrapView>(s.r(k)),
    decreases 16 - reg,
{
    offsets_ascend(list, reg as int, 16);
    let next = (reg + 1) as usize;
    offsets_ascend(list, reg + 1, 16);
    if !bit(list, reg as u32) {
        stored_word(s, m, list, next, start, pc, k);
    } else {
        let off = list_offset(list, reg as int);
        let addr = word_of_list(start, list, reg as int);
        let v = s.ra(reg, pc);
        part_is_accessible(m, start, list_offset(list, 16) as nat, off as nat);
        load32_after_store32(m, addr, v);
        let (m1, _) = m.store32(addr, v);
        let s1 = s.after_store(addr, 4);
        assert(addr.wrapping_add(4) == word_of_list(start, list, next as int));
        if reg < k {
            stored_word(s1, m1, list, next, start, pc, k);
        } else {
            list_is_stored(s1, m1, list, next, start, pc);
            let last = arm_store_list(
                s1,
                m1,
                list,
                next,
                word_of_list(start, list, next as int),
                pc,
            ).1;
            let (o1, o2, o3) = ((off + 1) as u32, (off + 2) as u32, (off + 3) as u32);
            assert(addr.wrapping_add(1) == start.wrapping_add(o1));
            assert(addr.wrapping_add(2) == start.wrapping_add(o2));
            assert(addr.wrapping_add(3) == start.wrapping_add(o3));
            assert(last.bytes[start.wrapping_add(off as u32)] == m1.bytes[addr]);
            assert(last.bytes[start.wrapping_add(o1)] == m1.bytes[start.wrapping_add(o1)]);
            assert(last.bytes[start.wrapping_add(o2)] == m1.bytes[start.wrapping_add(o2)]);
            assert(last.bytes[start.wrapping_add(o3)] == m1.bytes[start.wrapping_add(o3)]);
        }
    }
}

/// The bits of a byte list end at the eighth.
proof fn short_lists(list: u32, n: nat)
    requires
        list < 256,
        8 <= n <= 16,
    ensures
        ones_below(list, n) == ones_below(list, 8),
        forall|k: u32| 8 <= k < 32 ==> !#[trigger] bit(list, k),
    decreases n,
{
    assert forall|k: u32| 8 <= k < 32 implies !#[trigger] bit(list, k) by {
        assert(list & (1u32 << k) == 0) by (bit_vector)
            requires
                list < 256,
                8 <= k < 32,
        ;
    }
    if n > 8 {
        short_lists(list, (n - 1) as nat);
    }
}

/// Popping a list of low registers gives them the words that lie on the stack.
proof fn list_pops(s: CpuState, m: MemState, s2: CpuState, list: u32, reg: usize, start: u32)
    requires
        s2.wf(),
        reg <= 8,
        list < 256,
        s2.r(13) == word_of_list(start, list, reg as int),
        forall|k: usize|
            reg <= k < 8 && bit(list, k as u32) ==> #[trigger] m.load32(
                word_of_list(start, list, k as int),
            ) == Ok::<u32, TrapView>(s.r(k)),
    ensures
        pop_list(s2, m, list, reg) == (
            CpuState {
                regs: taken(s, s2, list, reg as int).update(13, word_of_list(start, list, 8)),
                ..s2
            },
            m,
            Ok::<(), TrapView>(()),
        ),
    decreases 8 - reg,
{
    short_lists(list, 16);
    if reg >= 8 {
        assert(taken(s, s2, list, 8).update(13, word_of_list(start, list, 8)) =~= s2.regs);
    } else {
        let next = (reg + 1) as usize;
        offsets_ascend(list, reg as int, 16);
        offsets_ascend(list, reg + 1, 16);
        if bit(list, reg as u32) {
            let v = s.r(reg);
            assert(m.load32(word_of_list(start, list, reg as int)) == Ok::<u32, TrapView>(v));
            let s3 = s2.with_r(reg, v).with_r(13, s2.r(13).wrapping_add(4));
            assert(s3.r(13) == word_of_list(start, list, next as int));
            list_pops(s, m, s3, list, next, start);
            assert(taken(s, s3, list, next as int).update(13, word_of_list(start, list, 8))
                =~= taken(s, s2, list, reg as int).update(13, word_of_list(start, list, 8)));
        } else {
            list_pops(s, m, s2, list, next, start);
            assert(taken(s, s2, list, next as int) =~= taken(s, s2, list, reg as int));
        }
    }
}

/// A Thumb push of low registers puts them on the stack, the lowest register
/// lowest, and changes nothing else but the stack pointer. A pop of the same
/// registers undoes it: the stack pointer and the registers of the list come
/// back, whatever happened to the registers in between, as long as the stack
/// pointer and the memory are as the push left them.
pub proof fn thumb_push_then_pop(
    s: CpuState,
    m: MemState,
    list: u16,
    pc: u32,
    later: CpuState,
    later_pc: u32,
)
    requires
        s.wf(),
        later.wf(),
        1 <= list <= 255,
        m.accessible(
            s.r(13).wrapping_sub(list_offset(list as u32, 16) as u32),
            list_offset(list as u32, 16) as nat,
        ),
        later.r(13) == thumb_misc(s, m, 0xb400 | list, pc).0.r(13),
    ensures
        ({
            let size = list_offset(list as u32, 16);
            let start = s.r(13).wrapping_sub(size as u32);
            let (s1, m1, r1) = thumb_misc(s, m, 0xb400 | list, pc);
            let (s2, m2, r2) = thumb_misc(later, m1, 0xbc00 | list, later_pc);
            &&& r1 is Ok
            &&& s1.regs == s.regs.update(13, start)
            &&& same_outside(m, m1, start, size as nat)
            &&& forall|k: usize|
                k < 8 && bit(list as u32, k as u32) ==> #[trigger] m1.load32(
                    word_of_list(start, list as u32, k as int),
                ) == Ok::<u32, TrapView>(s.r(k))
            &&& r2 is Ok
            &&& m2 == m1
            &&& s2.r(13) == s.r(13)
            &&& forall|i: usize|
                i < 8 && bit(list as u32, i as u32) ==> #[trigger] s2.r(i) == s.r(i)
            &&& forall|i: usize|
                i < 16 && i != 13 && !bit(list as u32, i as u32) ==> #[trigger] s2.r(i) == later.r(
                    i,
                )
        }),
{
    let push: u16 = 0xb400 | list;
    let pop: u16 = 0xbc00 | list;
    let wide = list as u32;
    assert(push & 0xff == list && push & 0x0100 == 0 && push & 0x0800 == 0 && push & 0xf600 == 0xb400
        && push & 0xff00 == 0xb400 && push & 0xfff7 != 0xb650 && push & 0xffe8 != 0xb660 && push
        & 0xf000 == 0xb000 && push & 0xf500 == 0xb400 && ((push & 0xff) as u32) | 0u32
        == list as u32 && pop & 0xff == list && pop & 0x0100 == 0 && pop & 0x0800 != 0 && pop & 0xf600
        == 0xb400 && pop & 0xff00 == 0xbc00 && pop & 0xfff7 != 0xb650 && pop & 0xffe8 != 0xb660 && pop
        & 0xf000 == 0xb000 && pop & 0xf500 == 0xb400) by (bit_vector)
        requires
            push == 0xb400 | list,
            pop == 0xbc00 | list,
            1 <= list <= 255,
    ;
    short_lists(wide, 16);
    offsets_ascend(wide, 0, 16);
    offsets_ascend(wide, 8, 16);
    let size = list_offset(wide, 16) as u32;
    let start = s.r(13).wrapping_sub(size);
    let s0 = s.with_r(13, start);
    assert(pushed_list(push) == wide);
    assert(word_of_list(start, wide, 0) == start);
    list_is_stored(s0, m, wide, 0, start, pc);
    let m1 = arm_store_list(s0, m, wide, 0, start, pc).1;
    assert forall|k: usize| k < 8 && bit(wide, k as u32) implies #[trigger] m1.load32(
        word_of_list(start, wide, k as int),
    ) == Ok::<u32, TrapView>(s.r(k)) by {
        stored_word(s0, m, wide, 0, start, pc, k);
    }
    assert forall|a: u32| a.wrapping_sub(start) >= size implies #[trigger] m1.bytes[a]
        == m.bytes[a] by {
        let x = a.wrapping_sub(start);
        assert(start.wrapping_add(x) == a);
        assert(m1.bytes[start.wrapping_add(x)] == m.bytes[start.wrapping_add(x)]);
    }
    list_pops(s, m1, later, wide, 0, start);
    assert(start.wrapping_add(size) == s.r(13));
}

/// The bytes that an exclusive load claims.
pub open spec fn claimed_bytes(load: u32) -> u8 {
    let key = load & 0x0ff0_0fff;
    if key == 0x0190_0f9f {
        4
    } else if key == 0x01b0_0f9f {
        8
    } else if key == 0x01d0_0f9f {
        1
    } else {
        2
    }
}

/// The bytes that an exclusive store writes.
pub open spec fn stored_bytes(store: u32) -> u8 {
    let key = store & 0x0ff0_0ff0;
    if key == 0x0180_0f90 {
        4
    } else if key == 0x01a0_0f90 {
        8
    } else if key == 0x01c0_0f90 {
        1
    } else {
        2
    }
}

/// Whether `size` bytes at `addr` hold the low bytes of `lo`, and for a
/// doubleword `hi` behind it.
pub open spec fn holds(m: MemState, addr: u32, size: u8, lo: u32, hi: u32) -> bool {
    if size == 1 {
        m.load8(addr) == Ok::<u8, TrapView>(lo as u8)
    } else if size == 2 {
        m.load16(addr) == Ok::<u16, TrapView>(lo as u16)
    } else if size == 4 {
        m.load32(addr) == Ok::<u32, TrapView>(lo)
    } else {
        m.load32(addr) == Ok::<u32, TrapView>(lo) && m.load32(addr.wrapping_add(4)) == Ok::<
            u32,
            TrapView,
        >(hi)
    }
}

proof fn start_is_accessible(m: MemState, addr: u32, len: nat, part: nat)
    requires
        m.accessible(addr, len),
        part <= len,
    ensures
        m.accessible(addr, part),
{
    assert forall|i: u32| i < part implies {
        &&& !m.load_faults.contains_key(#[trigger] addr.wrapping_add(i))
        &&& !m.store_faults.contains_key(addr.wrapping_add(i))
    } by {}
}

/// Two words stored one behind the other both read back.
proof fn two_words(m: MemState, addr: u32, lo: u32, hi: u32)
    requires
        m.accessible(addr, 8),
    ensures
        m.store32(addr, lo).1 is Ok,
        m.store32(addr, lo).0.store32(addr.wrapping_add(4), hi).1 is Ok,
        holds(m.store32(addr, lo).0.store32(addr.wrapping_add(4), hi).0, addr, 8, lo, hi),
{
    let next = addr.wrapping_add(4);
    start_is_accessible(m, addr, 8, 4);
    tail_is_accessible(m, addr, 8, 4);
    load32_after_store32(m, addr, lo);
    let m1 = m.store32(addr, lo).0;
    assert(m1.accessible(next, 4));
    load32_after_store32(m1, next, hi);
    let m2 = m1.store32(next, hi).0;
    assert(m2.bytes[addr] == m1.bytes[addr]);
    assert(m2.bytes[addr.wrapping_add(1)] == m1.bytes[addr.wrapping_add(1)]);
    assert(m2.bytes[addr.wrapping_add(2)] == m1.bytes[addr.wrapping_add(2)]);
    assert(m2.bytes[addr.wrapping_add(3)] == m1.bytes[addr.wrapping_add(3)]);
}

/// A byte, halfword or word that was stored reads back.
proof fn stored_value(m: MemState, addr: u32, size: u8, v: u32)
    requires
        size == 1 || size == 2 || size == 4,
        m.accessible(addr, size as nat),
    ensures
        size == 1 ==> m.store8(addr, v as u8).1 is Ok && holds(
            m.store8(addr, v as u8).0,
            addr,
            1,
            v,
            0,
        ),
        size == 2 ==> m.store16(addr, v as u16).1 is Ok && holds(
            m.store16(addr, v as u16).0,
            addr,
            2,
            v,
            0,
        ),
        size == 4 ==> m.store32(addr, v).1 is Ok && holds(m.store32(addr, v).0, addr, 4, v, 0),
{
    assert(addr.wrapping_add(0) == addr);
    assert(!m.load_faults.contains_key(addr.wrapping_add(0)));
    if size == 2 {
        load16_after_store16(m, addr, v as u16);
    } else if size == 4 {
        load32_after_store32(m, addr, v);
    }
}

/// An exclusive store goes through where the claim of an exclusive load of its
/// address still stands. It reports success, the claim is gone, and what was
/// stored reads back. This holds of words, doublewords, bytes and halfwords,
/// wherever the processor allows both instructions.
pub proof fn exclusive_pair_succeeds(
    s: CpuState,
    m: MemState,
    load: u32,
    store: u32,
    pc: u32,
    store_pc: u32,
)
    requires
        s.wf(),
        is_load_exclusive(load),
        is_store_exclusive(store),
        claimed_bytes(load) == stored_bytes(store),
        f4(load, 16) == f4(store, 16),
        f4(load, 12) != f4(load, 16),
        claimed_bytes(load) == 8 ==> f4(load, 12) + 1 != f4(load, 16),
        arm_load_exclusive(s, m, load, pc).2 is Ok,
        arm_store_exclusive(
            arm_load_exclusive(s, m, load, pc).0.with_reservation(None),
            m,
            store,
            store_pc,
        ).2 is Ok,
        m.accessible(s.r(f4(load, 16)), claimed_bytes(load) as nat),
    ensures
        ({
            let addr = s.r(f4(load, 16));
            let (s1, m1, r1) = arm_load_exclusive(s, m, load, pc);
            let (s2, m2, r2) = arm_store_exclusive(s1, m1, store, store_pc);
            let rm = f4(store, 0);
            &&& r1 == Ok::<bool, TrapView>(true)
            &&& m1 == m
            &&& r2 == Ok::<bool, TrapView>(true)
            &&& s2.r(f4(store, 12)) == 0
            &&& s2.reservation is None
            &&& holds(m2, addr, claimed_bytes(load), s1.r(rm), s1.r((rm + 1) as usize))
        }),
{
    let addr = s.r(f4(load, 16));
    let size = claimed_bytes(load);
    fields_are_small(load, 12);
    fields_are_small(load, 16);
    fields_are_small(store, 12);
    fields_are_small(store, 0);
    let (s1, m1, r1) = arm_load_exclusive(s, m, load, pc);
    let rm = f4(store, 0);
    assert(m1 == m && s1.reservation is Some && s1.reservation->0.addr == addr);
    assert(s1.r(f4(load, 16)) == addr);
    if size == 8 {
        two_words(m, addr, s1.r(rm), s1.r((rm + 1) as usize));
    } else {
        stored_value(m, addr, size, s1.r(rm));
    }
}

/// The same of the Thumb forms, for words, bytes and halfwords.
pub proof fn thumb_exclusive_pair_succeeds(
    s: CpuState,
    m: MemState,
    load: (u16, u16),
    store: (u16, u16),
)
    requires
        s.wf(),
        (load.0 & 0xfff0 == 0xe850 && load.1 & 0x0f00 == 0x0f00 && store.0 & 0xfff0 == 0xe840
            && load.1 & 0xff == store.1 & 0xff) || (load.0 & 0xfff0 == 0xe8d0 && load.1 & 0x0f0f
            == 0x0f0f && store.0 & 0xfff0 == 0xe8c0 && store.1 & 0x0f00 == 0x0f00 && ((load.1 >> 4)
            & 0xf == 4 || (load.1 >> 4) & 0xf == 5) && (store.1 >> 4) & 0xf == (load.1 >> 4) & 0xf
            && store.1 & 0xf0 == load.1 & 0xf0),
        t4(load.0, 0) == t4(store.0, 0),
        t4(load.1, 12) != t4(load.0, 0),
        t32_exclusive(s, m, load.0, load.1).2 is Ok,
        t32_exclusive(
            t32_exclusive(s, m, load.0, load.1).0.with_reservation(None),
            m,
            store.0,
            store.1,
        ).2 is Ok,
        m.accessible(thumb_claim(s, load).addr, thumb_claim(s, load).size as nat),
    ensures
        ({
            let claim = thumb_claim(s, load);
            let (s1, m1, r1) = t32_exclusive(s, m, load.0, load.1);
            let (s2, m2, r2) = t32_exclusive(s1, m1, store.0, store.1);
            let rd = if claim.size == 4 {
                t4(store.1, 8)
            } else {
                t4(store.1, 0)
            };
            &&& r1 == Ok::<bool, TrapView>(true)
            &&& m1 == m
            &&& s1.reservation == Some(claim)
            &&& r2 == Ok::<bool, TrapView>(true)
            &&& s2.r(rd) == 0
            &&& s2.reservation is None
            &&& holds(m2, claim.addr, claim.size, s1.r(t4(store.1, 12)), 0)
        }),
{
    let claim = thumb_claim(s, load);
    halfword_fields_are_small(load.1, 12);
    halfword_fields_are_small(load.0, 0);
    halfword_fields_are_small(store.1, 12);
    halfword_fields_are_small(store.1, 8);
    halfword_fields_are_small(store.1, 0);
    let (s1, m1, r1) = t32_exclusive(s, m, load.0, load.1);
    assert(m1 == m && s1.reservation == Some(claim));
    assert(s1.r(t4(load.0, 0)) == s.r(t4(load.0, 0)));
    stored_value(m, claim.addr, claim.size, s1.r(t4(store.1, 12)));
}

/// What an exclusive Thumb load claims.
pub open spec fn thumb_claim(s: CpuState, load: (u16, u16)) -> ExclusiveReservation {
    let base = s.r(t4(load.0, 0));
    if load.0 & 0xfff0 == 0xe850 {
        ExclusiveReservation {
            addr: base.wrapping_add(((load.1 & 0xff) as u32) << 2),
            size: 4,
        }
    } else {
        ExclusiveReservation {
            addr: base,
            size: if load.1 & 0xf0 == 0x40 {
                1
            } else {
                2
            },
        }
    }
}

proof fn halfword_fields_are_small(instr: u16, k: u16)
    ensures
        t4(instr, k) < 16,
{
    super::bits::and_le_u16(instr >> k, 0xf);
}

proof fn fields_are_small(instr: u32, k: u32)
    ensures
        f4(instr, k) < 16,
{
    super::bits::and_le_u32(instr >> k, 0xf);
}

/// Without a standing claim on its address an exclusive store that is allowed
/// writes nothing, reports failure and leaves no claim.
pub proof fn exclusive_store_needs_a_claim(s: CpuState, m: MemState, store: u32, pc: u32)
    requires
        s.wf(),
        s.reservation is None || s.reservation->0.addr != s.ra(f4(store, 16), pc),
        arm_store_exclusive(s, m, store, pc).2 is Ok,
    ensures
        ({
            let (s1, m1, _) = arm_store_exclusive(s, m, store, pc);
            &&& m1 == m
            &&& s1.r(f4(store, 12)) == 1
            &&& s1.reservation is None
        }),
{
    fields_are_small(store, 12);
}

/// A bit field that was inserted reads back, and the other bits keep their
/// values.
pub proof fn inserted_bits_read_back(old: u32, source: u32, lsb: u32, msb: u32)
    requires
        lsb <= msb < 32,
    ensures
        ({
            let field = low_mask((msb - lsb + 1) as u32);
            let after = inserted(old, source, lsb, msb);
            &&& (after >> lsb) & field == source & field
            &&& after & !(field << lsb) == old & !(field << lsb)
        }),
{
    let width = (msb - lsb + 1) as u32;
    let field = low_mask(width);
    assert((field << lsb) >> lsb == field) by (bit_vector)
        requires
            (width < 32 && field == ((1u32 << width) - 1) as u32 && width + lsb <= 32) || (field
                == 0xffff_ffff && lsb == 0),
    ;
    let mask = field << lsb;
    assert((((old & !mask) | ((source << lsb) & mask)) >> lsb) & field == source & field && ((old
        & !mask) | ((source << lsb) & mask)) & !mask == old & !mask) by (bit_vector)
        requires
            mask == field << lsb,
            (field << lsb) >> lsb == field,
            lsb < 32,
    ;
}

/// Extracting a bit field without its sign (UBFX) that was just inserted (BFI)
/// gives the low bits of what was inserted.
pub proof fn extract_after_insert(
    s: CpuState,
    insert: u32,
    extract: u32,
    pc: u32,
    later_pc: u32,
)
    requires
        s.wf(),
        arm_insert(s, insert, pc).1 is Ok,
        f4(insert, 0) != 15,
        extract & 0x0fe0_0070 != 0x07a0_0050,
        f4(extract, 0) == f4(insert, 12),
        f4(extract, 12) != 15,
        (extract >> 7) & 0x1f == (insert >> 7) & 0x1f,
        ((extract >> 16) & 0x1f) + ((insert >> 7) & 0x1f) == (insert >> 16) & 0x1f,
    ensures
        ({
            let width = (((extract >> 16) & 0x1f) + 1) as u32;
            let (s1, _) = arm_insert(s, insert, pc);
            let (s2, r2) = arm_extract(s1, extract, later_pc);
            &&& r2 == Ok::<bool, TrapView>(true)
            &&& s2.r(f4(extract, 12)) == s.r(f4(insert, 0)) & low_mask(width)
        }),
{
    fields_are_small(insert, 12);
    fields_are_small(insert, 0);
    fields_are_small(extract, 12);
    super::bits::and_le_u32(insert >> 16, 0x1f);
    let (lsb, msb) = ((insert >> 7) & 0x1f, (insert >> 16) & 0x1f);
    inserted_bits_read_back(s.r(f4(insert, 12)), s.r(f4(insert, 0)), lsb, msb);
}

/// Words as bytes, the low byte first.
pub open spec fn bytes_of_words(words: Seq<u32>) -> Seq<u8>
    decreases words.len(),
{
    if words.len() == 0 {
        Seq::empty()
    } else {
        let w = words[0];
        seq![w as u8, (w >> 8) as u8, (w >> 16) as u8, (w >> 24) as u8] + bytes_of_words(
            words.drop_first(),
        )
    }
}

/// Halfwords as bytes, the low byte first.
pub open spec fn bytes_of_halfwords(halfwords: Seq<u16>) -> Seq<u8>
    decreases halfwords.len(),
{
    if halfwords.len() == 0 {
        Seq::empty()
    } else {
        let h = halfwords[0];
        seq![h as u8, (h >> 8) as u8] + bytes_of_halfwords(halfwords.drop_first())
    }
}

proof fn first_byte(m: MemState, addr: u32, b: u8, rest: Seq<u8>)
    ensures
        m.store_bytes(addr, seq![b] + rest) == match m.store8(addr, b) {
            (m1, Ok(_)) => m1.store_bytes(addr.wrapping_add(1), rest),
            (m1, Err(t)) => (m1, Err(t)),
        },
{
    assert((seq![b] + rest).drop_first() =~= rest);
}

proof fn first_halfword(m: MemState, addr: u32, h: u16, rest: Seq<u8>)
    ensures
        m.store_bytes(addr, seq![h as u8, (h >> 8) as u8] + rest) == match m.store16(addr, h) {
            (m1, Ok(_)) => m1.store_bytes(addr.wrapping_add(2), rest),
            (m1, Err(t)) => (m1, Err(t)),
        },
{
    let (b0, b1) = (h as u8, (h >> 8) as u8);
    let tail = seq![b1] + rest;
    assert(seq![b0, b1] + rest =~= seq![b0] + tail);
    first_byte(m, addr, b0, tail);
    first_byte(m.store8(addr, b0).0, addr.wrapping_add(1), b1, rest);
    assert(addr.wrapping_add(1).wrapping_add(1) == addr.wrapping_add(2));
}

/// Loading halfwords leaves the memory, and gives the result, that loading their
/// bytes does.
pub proof fn halfwords_load_as_bytes(m: MemState, addr: u32, halfwords: Seq<u16>)
    ensures
        m.store_halfwords(addr, halfwords) == m.store_bytes(addr, bytes_of_halfwords(halfwords)),
    decreases halfwords.len(),
{
    if halfwords.len() > 0 {
        let rest = halfwords.drop_first();
        first_halfword(m, addr, halfwords[0], bytes_of_halfwords(rest));
        halfwords_load_as_bytes(
            m.store16(addr, halfwords[0]).0,
            addr.wrapping_add(2),
            rest,
        );
    }
}

/// Loading words leaves the memory, and gives the result, that loading their
/// bytes does.
pub proof fn words_load_as_bytes(m: MemState, addr: u32, words: Seq<u32>)
    ensures
        m.store_words(addr, words) == m.store_bytes(addr, bytes_of_words(words)),
    decreases words.len(),
{
    if words.len() > 0 {
        let w = words[0];
        let rest = words.drop_first();
        let tail = bytes_of_words(rest);
        let (lo, hi) = (w as u16, (w >> 16) as u16);
        super::memory::bytes_of_halves(w);
        let high = seq![hi as u8, (hi >> 8) as u8] + tail;
        assert(bytes_of_words(words) =~= seq![lo as u8, (lo >> 8) as u8] + high);
        first_halfword(m, addr, lo, high);
        let m1 = m.store16(addr, lo).0;
        first_halfword(m1, addr.wrapping_add(2), hi, tail);
        assert(addr.wrapping_add(2).wrapping_add(2) == addr.wrapping_add(4));
        words_load_as_bytes(m.store32(addr, w).0, addr.wrapping_add(4), rest);
    }
}

/// The bytes that lie `len` or more behind `addr` are the same in two memories,
/// and so are the faults and the extent.
pub open spec fn same_outside(m: MemState, m1: MemState, addr: u32, len: nat) -> bool {
    &&& m1.load_faults == m.load_faults
    &&& m1.store_faults == m.store_faults
    &&& m1.extent == m.extent
    &&& forall|a: u32|
        a.wrapping_sub(addr) >= len ==> #[trigger] m1.bytes[a] == m.bytes[a]
}

proof fn tail_is_accessible(m: MemState, addr: u32, len: nat, step: u32)
    requires
        m.accessible(addr, len),
        step <= len <= 0x1_0000_0000,
    ensures
        m.accessible(addr.wrapping_add(step), (len - step) as nat),
{
    let next = addr.wrapping_add(step);
    assert forall|i: u32| i < len - step implies {
        &&& !m.load_faults.contains_key(#[trigger] next.wrapping_add(i))
        &&& !m.store_faults.contains_key(next.wrapping_add(i))
    } by {
        let j = (step + i) as u32;
        assert(next.wrapping_add(i) == addr.wrapping_add(j));
        assert(!m.load_faults.contains_key(addr.wrapping_add(j)));
    }
}

/// Bytes that were loaded into accessible memory read back, and nothing else
/// changes.
pub proof fn loaded_bytes_read_back(m: MemState, addr: u32, data: Seq<u8>)
    requires
        m.accessible(addr, data.len()),
        data.len() <= 0x1_0000_0000,
    ensures
        m.store_bytes(addr, data).1 is Ok,
        same_outside(m, m.store_bytes(addr, data).0, addr, data.len()),
        forall|i: u32|
            i < data.len() ==> (#[trigger] m.store_bytes(addr, data).0.load8(addr.wrapping_add(i)))
                == Ok::<u8, TrapView>(data[i as int]),
    decreases data.len(),
{
    if data.len() > 0 {
        let rest = data.drop_first();
        let next = addr.wrapping_add(1);
        assert(addr.wrapping_add(0) == addr);
        assert(!m.store_faults.contains_key(addr.wrapping_add(0)));
        let (m1, _) = m.store8(addr, data[0]);
        tail_is_accessible(m, addr, data.len(), 1);
        assert(m1.accessible(next, rest.len()));
        loaded_bytes_read_back(m1, next, rest);
        let last = m1.store_bytes(next, rest).0;
        assert(last == m.store_bytes(addr, data).0);
        assert forall|a: u32| a.wrapping_sub(addr) >= data.len() implies #[trigger] last.bytes[a]
            == m.bytes[a] by {
            assert(a.wrapping_sub(next) >= rest.len());
        }
        assert forall|i: u32| i < data.len() implies (#[trigger] last.load8(addr.wrapping_add(i)))
            == Ok::<u8, TrapView>(data[i as int]) by {
            assert(!m.load_faults.contains_key(addr.wrapping_add(i)));
            if i > 0 {
                let j = (i - 1) as u32;
                assert(addr.wrapping_add(i) == next.wrapping_add(j));
                assert(last.load8(next.wrapping_add(j)) == Ok::<u8, TrapView>(rest[j as int]));
            } else {
                assert(addr.wrapping_sub(next) >= rest.len());
            }
        }
    }
}

/// How many of `n` bytes from `addr` on lie in a block of `len` bytes at `base`,
/// counted up to the first that does not.
pub open spec fn fitting(base: u32, len: int, addr: u32, n: int) -> int {
    if !in_block(addr, base, len) {
        0
    } else if n <= len - (addr - base) {
        n
    } else {
        len - (addr - base)
    }
}

/// The bytes of a block with others laid over them from `off` on.
pub open spec fn overlaid(data: Seq<u8>, off: int, bytes: Seq<u8>) -> Seq<u8> {
    Seq::new(
        data.len(),
        |i: int|
            if off <= i < off + bytes.len() {
                bytes[i - off]
            } else {
                data[i]
            },
    )
}

/// Loading bytes into a block writes exactly the bytes before the first that
/// lies outside, keeps the extent of the block, and succeeds exactly when all of
/// them lie inside. What refuses the others is a memory trap.
pub proof fn blocks_take_what_fits(base: u32, data: Seq<u8>, addr: u32, bytes: Seq<u8>)
    requires
        addr + bytes.len() <= 0x1_0000_0000,
    ensures
        ({
            let n = fitting(base, data.len() as int, addr, bytes.len() as int);
            let (m, r) = block_state(base, data).store_bytes(addr, bytes);
            &&& 0 <= n <= bytes.len()
            &&& m == block_state(base, overlaid(data, addr - base, bytes.take(n)))
            &&& r is Ok <==> n == bytes.len()
            &&& r is Err ==> r->Err_0 is Memory
            &&& n == bytes.len() <==> bytes.len() == 0 || (base <= addr && addr - base
                + bytes.len() <= data.len())
        }),
    decreases bytes.len(),
{
    let n = fitting(base, data.len() as int, addr, bytes.len() as int);
    let off = addr - base;
    if bytes.len() == 0 || n == 0 {
        assert(overlaid(data, off, bytes.take(n)) =~= data);
        if bytes.len() > 0 {
            assert(!in_block(addr, base, data.len() as int));
            assert(block_state(base, data).store_faults.contains_key(addr));
        }
    } else {
        let data1 = data.update(off, bytes[0]);
        let rest = bytes.drop_first();
        assert(block_state(base, data).store8(addr, bytes[0]).0 =~= block_state(base, data1)) by {
            assert(block_state(base, data).bytes.insert(addr, bytes[0]) =~= block_state(
                base,
                data1,
            ).bytes);
        }
        if rest.len() > 0 {
            let next = addr.wrapping_add(1);
            assert(next == addr + 1);
            blocks_take_what_fits(base, data1, next, rest);
            let k = fitting(base, data1.len() as int, next, rest.len() as int);
            assert(k == n - 1);
            assert(overlaid(data1, off + 1, rest.take(k)) =~= overlaid(data, off, bytes.take(n)));
        } else {
            assert(overlaid(data, off, bytes.take(n)) =~= data1);
            let m1 = block_state(base, data1);
            assert(m1.store_bytes(addr.wrapping_add(1), rest) == (m1, Ok::<(), TrapView>(())));
        }
    }
}

proof fn same_words(m: MemState, m1: MemState, addr: u32, from: u32, len: nat)
    requires
        same_outside(m, m1, from, len),
        addr.wrapping_sub(from) >= len,
        addr.wrapping_add(1).wrapping_sub(from) >= len,
        addr.wrapping_add(2).wrapping_sub(from) >= len,
        addr.wrapping_add(3).wrapping_sub(from) >= len,
    ensures
        m1.load32(addr) == m.load32(addr),
{
    assert(m1.bytes[addr] == m.bytes[addr]);
    assert(m1.bytes[addr.wrapping_add(1)] == m.bytes[addr.wrapping_add(1)]);
    assert(m1.bytes[addr.wrapping_add(2)] == m.bytes[addr.wrapping_add(2)]);
    assert(m1.bytes[addr.wrapping_add(3)] == m.bytes[addr.wrapping_add(3)]);
}

/// Words that were loaded into accessible memory read back, and nothing else
/// changes.
pub proof fn loaded_words_read_back(m: MemState, addr: u32, words: Seq<u32>)
    requires
        m.accessible(addr, 4 * words.len()),
        4 * words.len() <= 0x1_0000_0000,
    ensures
        m.store_words(addr, words).1 is Ok,
        same_outside(m, m.store_words(addr, words).0, addr, 4 * words.len()),
        forall|i: u32|
            i < words.len() ==> (#[trigger] m.store_words(addr, words).0.load32(
                addr.wrapping_add((4 * i) as u32),
            )) == Ok::<u32, TrapView>(words[i as int]),
    decreases words.len(),
{
    if words.len() > 0 {
        let rest = words.drop_first();
        let next = addr.wrapping_add(4);
        assert(m.accessible(addr, 4)) by {
            assert forall|i: u32| i < 4 implies {
                &&& !m.load_faults.contains_key(#[trigger] addr.wrapping_add(i))
                &&& !m.store_faults.contains_key(addr.wrapping_add(i))
            } by {}
        }
        load32_after_store32(m, addr, words[0]);
        let (m1, _) = m.store32(addr, words[0]);
        tail_is_accessible(m, addr, 4 * words.len(), 4);
        assert(m1.accessible(next, 4 * rest.len()));
        loaded_words_read_back(m1, next, rest);
        let last = m1.store_words(next, rest).0;
        assert(last == m.store_words(addr, words).0);
        assert forall|a: u32| a.wrapping_sub(addr) >= 4 * words.len() implies #[trigger] last.bytes[a]
            == m.bytes[a] by {
            assert(a.wrapping_sub(next) >= 4 * rest.len());
            assert(m1.bytes[a] == m.bytes[a]);
        }
        assert forall|i: u32| i < words.len() implies (#[trigger] last.load32(
            addr.wrapping_add((4 * i) as u32),
        )) == Ok::<u32, TrapView>(words[i as int]) by {
            if i > 0 {
                let j = (i - 1) as u32;
                assert(addr.wrapping_add((4 * i) as u32) == next.wrapping_add((4 * j) as u32));
                assert(last.load32(next.wrapping_add((4 * j) as u32)) == Ok::<u32, TrapView>(
                    rest[j as int],
                ));
            } else {
                assert(addr.wrapping_add((4 * i) as u32) == addr);
                same_words(m1, last, addr, next, 4 * rest.len());
            }
        }
    }
}

/// Halfwords that were loaded into accessible memory read back, and nothing else
/// changes.
pub proof fn loaded_halfwords_read_back(m: MemState, addr: u32, halfwords: Seq<u16>)
    requires
        m.accessible(addr, 2 * halfwords.len()),
        2 * halfwords.len() <= 0x1_0000_0000,
    ensures
        m.store_halfwords(addr, halfwords).1 is Ok,
        same_outside(m, m.store_halfwords(addr, halfwords).0, addr, 2 * halfwords.len()),
        forall|i: u32|
            i < halfwords.len() ==> (#[trigger] m.store_halfwords(addr, halfwords).0.load16(
                addr.wrapping_add((2 * i) as u32),
            )) == Ok::<u16, TrapView>(halfwords[i as int]),
    decreases halfwords.len(),
{
    if halfwords.len() > 0 {
        let rest = halfwords.drop_first();
        let next = addr.wrapping_add(2);
        assert(m.accessible(addr, 2)) by {
            assert forall|i: u32| i < 2 implies {
                &&& !m.load_faults.contains_key(#[trigger] addr.wrapping_add(i))
                &&& !m.store_faults.contains_key(addr.wrapping_add(i))
            } by {}
        }
        load16_after_store16(m, addr, halfwords[0]);
        assert(addr.wrapping_add(0) == addr);
        assert(!m.store_faults.contains_key(addr.wrapping_add(0)));
        assert(!m.store_faults.contains_key(addr.wrapping_add(1)));
        let (m1, _) = m.store16(addr, halfwords[0]);
        tail_is_accessible(m, addr, 2 * halfwords.len(), 2);
        assert(m1.accessible(next, 2 * rest.len()));
        loaded_halfwords_read_back(m1, next, rest);
        let last = m1.store_halfwords(next, rest).0;
        assert(last == m.store_halfwords(addr, halfwords).0);
        assert forall|a: u32| a.wrapping_sub(addr) >= 2 * halfwords.len() implies #[trigger] last.bytes[a]
            == m.bytes[a] by {
            assert(a.wrapping_sub(next) >= 2 * rest.len());
            assert(m1.bytes[a] == m.bytes[a]);
        }
        assert forall|i: u32| i < halfwords.len() implies (#[trigger] last.load16(
            addr.wrapping_add((2 * i) as u32),
        )) == Ok::<u16, TrapView>(halfwords[i as int]) by {
            if i > 0 {
                let j = (i - 1) as u32;
                assert(addr.wrapping_add((2 * i) as u32) == next.wrapping_add((2 * j) as u32));
                assert(last.load16(next.wrapping_add((2 * j) as u32)) == Ok::<u16, TrapView>(
                    rest[j as int],
                ));
            } else {
                assert(addr.wrapping_add((2 * i) as u32) == addr);
                assert(addr.wrapping_sub(next) >= 2 * rest.len());
                assert(addr.wrapping_add(1).wrapping_sub(next) >= 2 * rest.len());
                assert(last.bytes[addr] == m1.bytes[addr]);
                assert(last.bytes[addr.wrapping_add(1)] == m1.bytes[addr.wrapping_add(1)]);
            }
        }
    }
}

} // verus!
