//! Rearrangements of vectors that undo themselves or each other.

use super::bits::{and_le_u32, bit};
use super::cpu::CpuState;
use super::laws::doublewords_read_back;
use super::neon_lane::{
    any_saturated, elem_mask, lane, lane_count, lane_of_pack, lanes, pack, pack_from, per_d,
    put_results, values, with_lanes,
};
use super::neon_misc::{neon_misc, neon_permute, permuted, permuted_first, permuted_second, reversed};
use super::neon_three::joined;
use super::trap::TrapView;
use super::vfp_regs::{dd, dm, register_numbers_are_small};
use vstd::prelude::*;

verus! {

/// Elements hold no more than their bits.
proof fn lanes_are_masked(s: CpuState, reg: usize, q: bool, size: usize)
    ensures
        forall|i: int|
            0 <= i < lane_count(q, size) ==> (#[trigger] lanes(s, reg, q, size)[i]) & elem_mask(size)
                == lanes(s, reg, q, size)[i],
{
    let mask = elem_mask(size);
    assert forall|x: u64| #![auto] (x & mask) & mask == x & mask by {
        assert((x & mask) & mask == x & mask) by (bit_vector);
    }
}

/// The elements of a doubleword packed are the doubleword.
proof fn pack_of_lanes(l: Seq<u64>, from: int, d: u64, size: usize)
    requires
        size <= 3,
        forall|i: usize| i < per_d(size) ==> l[from + i] == #[trigger] lane(d, i, size),
    ensures
        pack(l, from, size) == d,
{
    reveal_with_fuel(pack_from, 9);
    assert(d == 0 | (((d >> 0u32) & 0xff) & 0xff) << 0u32 | (((d >> 8u32) & 0xff) & 0xff) << 8u32 | (((d
        >> 16u32) & 0xff) & 0xff) << 16u32 | (((d >> 24u32) & 0xff) & 0xff) << 24u32 | (((d >> 32u32)
        & 0xff) & 0xff) << 32u32 | (((d >> 40u32) & 0xff) & 0xff) << 40u32 | (((d >> 48u32) & 0xff)
        & 0xff) << 48u32 | (((d >> 56u32) & 0xff) & 0xff) << 56u32 && d == 0 | (((d >> 0u32) & 0xffff)
        & 0xffff) << 0u32 | (((d >> 16u32) & 0xffff) & 0xffff) << 16u32 | (((d >> 32u32) & 0xffff)
        & 0xffff) << 32u32 | (((d >> 48u32) & 0xffff) & 0xffff) << 48u32 && d == 0 | (((d >> 0u32)
        & 0xffff_ffff) & 0xffff_ffff) << 0u32 | (((d >> 32u32) & 0xffff_ffff) & 0xffff_ffff) << 32u32
        && d == 0 | (((d >> 0u32) & 0xffff_ffff_ffff_ffff) & 0xffff_ffff_ffff_ffff) << 0u32)
        by (bit_vector);
    if size == 0 {
        assert(l[from + 0] == lane(d, 0, 0) && l[from + 1] == lane(d, 1, 0) && l[from + 2] == lane(
            d,
            2,
            0,
        ) && l[from + 3] == lane(d, 3, 0) && l[from + 4] == lane(d, 4, 0) && l[from + 5] == lane(
            d,
            5,
            0,
        ) && l[from + 6] == lane(d, 6, 0) && l[from + 7] == lane(d, 7, 0));
    } else if size == 1 {
        assert(l[from + 0] == lane(d, 0, 1) && l[from + 1] == lane(d, 1, 1) && l[from + 2] == lane(
            d,
            2,
            1,
        ) && l[from + 3] == lane(d, 3, 1));
    } else if size == 2 {
        assert(l[from + 0] == lane(d, 0, 2) && l[from + 1] == lane(d, 1, 2));
    } else {
        assert(l[from + 0] == lane(d, 0, 3));
    }
}

/// The elements of a vector packed are the vector's doublewords.
proof fn own_lanes_pack(s: CpuState, reg: usize, q: bool, size: usize)
    requires
        size <= 3,
    ensures
        pack(lanes(s, reg, q, size), 0, size) == s.d(reg),
        q ==> pack(lanes(s, reg, q, size), per_d(size) as int, size) == s.d((reg + 1) as usize),
{
    let l = lanes(s, reg, q, size);
    assert forall|i: usize| i < per_d(size) implies l[0 + i] == #[trigger] lane(
        s.d(reg),
        i,
        size,
    ) by {}
    pack_of_lanes(l, 0, s.d(reg), size);
    if q {
        let high = s.d((reg + 1) as usize);
        assert forall|i: usize| i < per_d(size) implies l[per_d(size) + i] == #[trigger] lane(
            high,
            i,
            size,
        ) by {}
        pack_of_lanes(l, per_d(size) as int, high, size);
    }
}

/// Whether doubleword register `j` is part of the vector at `reg`.
pub open spec fn part_of(j: usize, reg: usize, q: bool) -> bool {
    j == reg || (q && j == reg + 1)
}

/// Elements that were written read back, and no other register changes.
pub proof fn written_lanes(s: CpuState, reg: usize, q: bool, size: usize, l: Seq<u64>)
    requires
        s.wf(),
        size <= 3,
        reg < 32,
        q ==> reg < 31,
        l.len() == lane_count(q, size),
        forall|i: int| 0 <= i < l.len() ==> (#[trigger] l[i]) & elem_mask(size) == l[i],
    ensures
        with_lanes(s, reg, q, size, l).wf(),
        lanes(with_lanes(s, reg, q, size, l), reg, q, size) == l,
        forall|j: usize|
            j < 32 && !part_of(j, reg, q) ==> #[trigger] with_lanes(s, reg, q, size, l).d(j) == s.d(
                j,
            ),
{
    let low = pack(l, 0, size);
    let high = pack(l, per_d(size) as int, size);
    let s1 = s.with_d(reg, low);
    let last = with_lanes(s, reg, q, size, l);
    doublewords_read_back(s, reg, reg, low);
    if q {
        doublewords_read_back(s1, (reg + 1) as usize, reg, high);
    }
    assert(last.d(reg) == low);
    assert(q ==> last.d((reg + 1) as usize) == high);
    assert forall|i: int| 0 <= i < l.len() implies lanes(last, reg, q, size)[i] == l[i] by {
        if i < per_d(size) {
            lane_of_pack(l, 0, i as usize, size);
        } else {
            lane_of_pack(l, per_d(size) as int, (i - per_d(size)) as usize, size);
        }
    }
    assert(lanes(last, reg, q, size) =~= l);
    assert forall|j: usize| j < 32 && !part_of(j, reg, q) implies #[trigger] last.d(j) == s.d(j) by {
        doublewords_read_back(s, reg, j, low);
        if q {
            doublewords_read_back(s1, (reg + 1) as usize, j, high);
        }
    }
}

/// Vectors with the same elements are the same.
proof fn same_lanes(s: CpuState, a: usize, t: CpuState, b: usize, q: bool, size: usize)
    requires
        size <= 3,
        lanes(s, a, q, size) == lanes(t, b, q, size),
    ensures
        s.d(a) == t.d(b),
        q ==> s.d((a + 1) as usize) == t.d((b + 1) as usize),
{
    own_lanes_pack(s, a, q, size);
    own_lanes_pack(t, b, q, size);
}

/// Where element `i` goes when groups of `n` elements are reversed.
#[verifier::opaque]
pub open spec fn mirrored(i: int, n: int) -> int {
    i - i % n + (n - 1 - i % n)
}

/// Reversing groups moves each element to one place of the vector, and twice is
/// back.
proof fn mirrored_twice(i: int, op2: u32, size: usize, q: bool)
    requires
        op2 + size < 3,
        0 <= i < lane_count(q, size),
    ensures
        0 <= mirrored(i, per_d((op2 + size) as usize) as int) < lane_count(q, size),
        mirrored(
            mirrored(i, per_d((op2 + size) as usize) as int),
            per_d((op2 + size) as usize) as int,
        ) == i,
{
    reveal(mirrored);
}

/// Two states differ in one vector only.
pub open spec fn same_but(s: CpuState, t: CpuState, reg: usize, q: bool) -> bool {
    &&& t == (CpuState { sregs: t.sregs, ..s })
    &&& forall|j: usize| j < 32 && !part_of(j, reg, q) ==> #[trigger] t.d(j) == s.d(j)
}

proof fn reversed_lanes(s: CpuState, op2: u32, size: usize, q: bool, vd: usize, vm: usize)
    requires
        s.wf(),
        op2 + size < 3,
        vd < 32,
        q ==> vd < 31,
    ensures
        ({
            let t = put_results(s, vd, q, size, reversed(s, op2, size, q, vm));
            let n = per_d((op2 + size) as usize) as int;
            &&& t.wf()
            &&& same_but(s, t, vd, q)
            &&& forall|i: int|
                0 <= i < lane_count(q, size) ==> #[trigger] lanes(t, vd, q, size)[i] == lanes(
                    s,
                    vm,
                    q,
                    size,
                )[mirrored(i, n)]
        }),
{
    let r = reversed(s, op2, size, q, vm);
    let l = values(r);
    let n = per_d((op2 + size) as usize) as int;
    let v = lanes(s, vm, q, size);
    let s0 = s.sticky(any_saturated(r));
    assert(s0 == s);
    lanes_are_masked(s, vm, q, size);
    assert forall|i: int| 0 <= i < l.len() implies (#[trigger] l[i]) & elem_mask(size) == l[i]
        && l[i] == v[mirrored(i, n)] by {
        mirrored_twice(i, op2, size, q);
        reveal(mirrored);
    }
    written_lanes(s, vd, q, size, l);
}

/// Reversing the result of a reversal gives the source back.
proof fn reversed_back(s: CpuState, op2: u32, size: usize, q: bool, vd: usize, vm: usize)
    requires
        s.wf(),
        op2 + size < 3,
        vd < 32,
        q ==> vd < 31,
    ensures
        ({
            let s1 = put_results(s, vd, q, size, reversed(s, op2, size, q, vm));
            let s2 = put_results(s1, vd, q, size, reversed(s1, op2, size, q, vd));
            &&& same_but(s, s2, vd, q)
            &&& s2.d(vd) == s.d(vm)
            &&& q ==> s2.d((vd + 1) as usize) == s.d((vm + 1) as usize)
        }),
{
    let n = per_d((op2 + size) as usize) as int;
    let s1 = put_results(s, vd, q, size, reversed(s, op2, size, q, vm));
    let s2 = put_results(s1, vd, q, size, reversed(s1, op2, size, q, vd));
    reversed_lanes(s, op2, size, q, vd, vm);
    reversed_lanes(s1, op2, size, q, vd, vd);
    let v = lanes(s, vm, q, size);
    assert forall|i: int| 0 <= i < lane_count(q, size) implies #[trigger] lanes(s2, vd, q, size)[i]
        == v[i] by {
        mirrored_twice(i, op2, size, q);
        assert(lanes(s1, vd, q, size)[mirrored(i, n)] == v[i]);
    }
    assert(lanes(s2, vd, q, size) =~= v);
    same_lanes(s2, vd, s, vm, q, size);
    assert forall|j: usize| j < 32 && !part_of(j, vd, q) implies #[trigger] s2.d(j) == s.d(j) by {
        assert(s1.d(j) == s.d(j));
    }
}

/// VREV64, VREV32 and VREV16 mirror the elements of each group, and change no
/// other register. The same reversal of the result gives the source back.
pub proof fn reversing_twice(s: CpuState, first: u32, second: u32, pc: u32, later_pc: u32)
    requires
        s.wf(),
        (first >> 16) & 3 == 0,
        (first >> 7) & 0xf <= 2,
        neon_misc(s, first, pc).1 == Ok::<bool, TrapView>(true),
        (second >> 16) & 3 == 0,
        (second >> 7) & 0xf == (first >> 7) & 0xf,
        (second >> 18) & 3 == (first >> 18) & 3,
        bit(second, 6) == bit(first, 6),
        dd(second) == dd(first),
        dm(second) == dd(first),
    ensures
        ({
            let q = bit(first, 6);
            let size = ((first >> 18) & 3) as usize;
            let n = per_d((((first >> 7) & 0xf) + size) as usize) as int;
            let (vd, vm) = (dd(first), dm(first));
            let (s1, _) = neon_misc(s, first, pc);
            let (s2, r2) = neon_misc(s1, second, later_pc);
            &&& same_but(s, s1, vd, q)
            &&& forall|i: int|
                0 <= i < lane_count(q, size) ==> {
                    &&& #[trigger] lanes(s1, vd, q, size)[i] == lanes(s, vm, q, size)[mirrored(
                        i,
                        n,
                    )]
                    &&& 0 <= mirrored(i, n) < lane_count(q, size)
                    &&& mirrored(mirrored(i, n), n) == i
                }
            &&& r2 == Ok::<bool, TrapView>(true)
            &&& same_but(s, s2, vd, q)
            &&& s2.d(vd) == s.d(vm)
            &&& q ==> s2.d((vd + 1) as usize) == s.d((vm + 1) as usize)
        }),
{
    register_numbers_are_small(first, 12, 22);
    let q = bit(first, 6);
    let size = ((first >> 18) & 3) as usize;
    let op2 = (first >> 7) & 0xf;
    let (vd, vm) = (dd(first), dm(first));
    let s1 = put_results(s, vd, q, size, reversed(s, op2, size, q, vm));
    assert(neon_misc(s, first, pc).0 == s1);
    reversed_lanes(s, op2, size, q, vd, vm);
    reversed_back(s, op2, size, q, vd, vm);
    let n = per_d((op2 + size) as usize) as int;
    assert forall|i: int| 0 <= i < lane_count(q, size) implies 0 <= #[trigger] mirrored(
        i,
        n,
    ) < lane_count(q, size) && mirrored(mirrored(i, n), n) == i by {
        mirrored_twice(i, op2, size, q);
    }
}

/// The elements that a permutation leaves.
proof fn permuted_lanes(s: CpuState, op2: u32, size: usize, q: bool, vd: usize, vm: usize)
    requires
        s.wf(),
        op2 <= 3,
        size <= 2,
        op2 >= 2 ==> q || size < 2,
        vd < 32,
        vm < 32,
        vd != vm,
        q ==> vd % 2 == 0 && vm % 2 == 0,
    ensures
        ({
            let t = permuted(s, op2, size, q, vd, vm);
            let a = lanes(s, vd, q, size);
            let b = lanes(s, vm, q, size);
            &&& t.wf()
            &&& t == (CpuState { sregs: t.sregs, ..s })
            &&& lanes(t, vd, q, size) == if op2 == 0 {
                b
            } else {
                permuted_first(op2, a, b)
            }
            &&& lanes(t, vm, q, size) == if op2 == 0 {
                a
            } else {
                permuted_second(op2, a, b)
            }
            &&& forall|j: usize|
                j < 32 && !part_of(j, vd, q) && !part_of(j, vm, q) ==> #[trigger] t.d(j) == s.d(j)
        }),
{
    let a = lanes(s, vd, q, size);
    let b = lanes(s, vm, q, size);
    let (x, y) = if op2 == 0 {
        (b, a)
    } else {
        (permuted_first(op2, a, b), permuted_second(op2, a, b))
    };
    lanes_are_masked(s, vd, q, size);
    lanes_are_masked(s, vm, q, size);
    assert forall|i: int| 0 <= i < x.len() implies (#[trigger] x[i]) & elem_mask(size) == x[i] by {}
    assert forall|i: int| 0 <= i < y.len() implies (#[trigger] y[i]) & elem_mask(size) == y[i] by {}
    written_lanes(s, vd, q, size, x);
    let s1 = with_lanes(s, vd, q, size, x);
    written_lanes(s1, vm, q, size, y);
    let t = with_lanes(s1, vm, q, size, y);
    assert(t.d(vd) == s1.d(vd));
    assert(q ==> t.d((vd + 1) as usize) == s1.d((vd + 1) as usize));
    assert(lanes(t, vd, q, size) =~= lanes(s1, vd, q, size));
}

/// A doubleword determines its two words.
proof fn words_of_doublewords(s: CpuState, t: CpuState)
    requires
        s.wf(),
        t.wf(),
        forall|j: usize| j < 32 ==> #[trigger] t.d(j) == s.d(j),
    ensures
        t.sregs == s.sregs,
{
    assert forall|i: int| 0 <= i < 64 implies t.sregs[i] == s.sregs[i] by {
        let j = (i / 2) as usize;
        let (a, b) = (s.sregs[2 * j], s.sregs[2 * j + 1]);
        let (c, d) = (t.sregs[2 * j], t.sregs[2 * j + 1]);
        assert(t.d(j) == s.d(j));
        assert(a == c && b == d) by (bit_vector)
            requires
                (c as u64) | ((d as u64) << 32) == (a as u64) | ((b as u64) << 32),
        ;
    }
    assert(t.sregs =~= s.sregs);
}

/// Whether one permutation undoes another: VSWP and VTRN undo themselves, VUZP
/// undoes VZIP and VZIP undoes VUZP.
pub open spec fn undoes(first: u32, second: u32) -> bool {
    (first == 0 && second == 0) || (first == 1 && second == 1) || (first == 3 && second == 2) || (
    first == 2 && second == 3)
}

/// The permutation that undoes another gives the elements back.
proof fn elements_come_back(first: u32, second: u32, a: Seq<u64>, b: Seq<u64>)
    requires
        undoes(first, second),
        first != 0,
        a.len() == b.len(),
        a.len() % 2 == 0,
    ensures
        permuted_first(second, permuted_first(first, a, b), permuted_second(first, a, b)) == a,
        permuted_second(second, permuted_first(first, a, b), permuted_second(first, a, b)) == b,
{
    let (x, y) = (permuted_first(first, a, b), permuted_second(first, a, b));
    let n = a.len() as int;
    if first == 1 {
        assert(permuted_first(1, x, y) =~= a);
        assert(permuted_second(1, x, y) =~= b);
    } else if first == 3 {
        assert forall|i: int| 0 <= i < n implies permuted_first(2, x, y)[i] == a[i]
            && permuted_second(2, x, y)[i] == b[i] by {
            if 2 * i < n {
                assert(x[2 * i] == a[i]);
                assert(x[2 * i + 1] == b[i]);
            } else {
                assert(y[2 * i - n] == a[i]);
                assert(y[2 * i + 1 - n] == b[i]);
            }
        }
        assert(permuted_first(2, x, y) =~= a);
        assert(permuted_second(2, x, y) =~= b);
    } else {
        assert forall|i: int| 0 <= i < n implies permuted_first(3, x, y)[i] == a[i]
            && permuted_second(3, x, y)[i] == b[i] by {
            assert(x[i / 2] == joined(a, b, 2 * (i / 2)));
            assert(y[i / 2] == joined(a, b, 2 * (i / 2) + 1));
            assert(x[(n + i) / 2] == joined(a, b, 2 * ((n + i) / 2)));
            assert(y[(n + i) / 2] == joined(a, b, 2 * ((n + i) / 2) + 1));
        }
        assert(permuted_first(3, x, y) =~= a);
        assert(permuted_second(3, x, y) =~= b);
    }
}

/// A permutation of two different vectors and the one that undoes it leave the
/// processor as it was.
pub proof fn permute_and_back(
    s: CpuState,
    instr: u32,
    pc: u32,
    size: usize,
    op: u32,
    back: u32,
    q: bool,
    vd: usize,
    vm: usize,
)
    requires
        s.wf(),
        undoes(op, back),
        size <= 3,
        vd != vm,
        neon_permute(s, instr, pc, size, op, q, vd, vm).1 == Ok::<bool, TrapView>(true),
    ensures
        ({
            let (s1, _) = neon_permute(s, instr, pc, size, op, q, vd, vm);
            neon_permute(s1, instr, pc, size, back, q, vd, vm) == (s, Ok::<bool, TrapView>(true))
        }),
{
    let s1 = permuted(s, op, size, q, vd, vm);
    permuted_lanes(s, op, size, q, vd, vm);
    permuted_lanes(s1, back, size, q, vd, vm);
    let s2 = permuted(s1, back, size, q, vd, vm);
    let a = lanes(s, vd, q, size);
    let b = lanes(s, vm, q, size);
    if op != 0 {
        elements_come_back(op, back, a, b);
    }
    same_lanes(s2, vd, s, vd, q, size);
    same_lanes(s2, vm, s, vm, q, size);
    assert forall|j: usize| j < 32 implies #[trigger] s2.d(j) == s.d(j) by {
        if !part_of(j, vd, q) && !part_of(j, vm, q) {
            assert(s1.d(j) == s.d(j));
        }
    }
    words_of_doublewords(s, s2);
}

/// The same of two instruction words.
pub proof fn permuting_and_back(s: CpuState, first: u32, second: u32, pc: u32, later_pc: u32)
    requires
        s.wf(),
        (first >> 16) & 3 == 2,
        undoes((first >> 7) & 0xf, (second >> 7) & 0xf),
        neon_misc(s, first, pc).1 == Ok::<bool, TrapView>(true),
        (second >> 16) & 3 == 2,
        (second >> 18) & 3 == (first >> 18) & 3,
        bit(second, 6) == bit(first, 6),
        dd(second) == dd(first),
        dm(second) == dm(first),
        dd(first) != dm(first),
    ensures
        ({
            let (s1, _) = neon_misc(s, first, pc);
            neon_misc(s1, second, later_pc) == (s, Ok::<bool, TrapView>(true))
        }),
{
    register_numbers_are_small(first, 12, 22);
    register_numbers_are_small(first, 0, 5);
    and_le_u32(first >> 18, 3);
    let size = ((first >> 18) & 3) as usize;
    let (op, back) = ((first >> 7) & 0xf, (second >> 7) & 0xf);
    permute_and_back(s, first, pc, size, op, back, bit(first, 6), dd(first), dm(first));
}

} // verus!
