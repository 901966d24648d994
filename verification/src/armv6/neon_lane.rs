//! Vector lanes: how registers divide into elements, and the arithmetic of one
//! element.

use super::bits::group_masks;
use super::cpu::{Cpu, CpuState};
use vstd::prelude::*;

verus! {

broadcast use group_masks;

/// The width of an element of size class `size` in bits.
pub open spec fn elem_bits(size: usize) -> u32 {
    if size == 0 {
        8
    } else if size == 1 {
        16
    } else if size == 2 {
        32
    } else {
        64
    }
}

pub(crate) fn neon_elem_bits(size: usize) -> (r: u32)
    ensures
        r == elem_bits(size),
{
    match size {
        0 => 8,
        1 => 16,
        2 => 32,
        _ => 64,
    }
}

/// The largest unsigned element.
pub open spec fn elem_mask(size: usize) -> u64 {
    if size == 0 {
        0xff
    } else if size == 1 {
        0xffff
    } else if size == 2 {
        0xffff_ffff
    } else {
        0xffff_ffff_ffff_ffff
    }
}

pub(crate) fn neon_elem_mask(size: usize) -> (r: u64)
    ensures
        r == elem_mask(size),
{
    match size {
        0 => 0xff,
        1 => 0xffff,
        2 => 0xffff_ffff,
        _ => 0xffff_ffff_ffff_ffff,
    }
}

/// How many elements a doubleword register holds.
pub open spec fn per_d(size: usize) -> usize {
    if size == 0 {
        8
    } else if size == 1 {
        4
    } else if size == 2 {
        2
    } else {
        1
    }
}

/// How many elements a vector holds.
pub open spec fn lane_count(q: bool, size: usize) -> usize {
    if q {
        (2 * per_d(size)) as usize
    } else {
        per_d(size)
    }
}

pub(crate) fn neon_per_d(size: usize) -> (r: usize)
    ensures
        r == per_d(size),
        1 <= r <= 8,
{
    match size {
        0 => 8,
        1 => 4,
        2 => 2,
        _ => 1,
    }
}

pub(crate) fn neon_lanes(q: bool, size: usize) -> (r: usize)
    ensures
        r == lane_count(q, size),
        1 <= r <= 16,
{
    if q {
        2 * neon_per_d(size)
    } else {
        neon_per_d(size)
    }
}

/// Where element `i` of a doubleword starts.
pub open spec fn lane_shift(i: usize, size: usize) -> u32 {
    if size == 0 {
        (8 * i) as u32
    } else if size == 1 {
        (16 * i) as u32
    } else if size == 2 {
        (32 * i) as u32
    } else {
        (64 * i) as u32
    }
}

pub(crate) fn neon_lane_shift(i: usize, size: usize) -> (r: u32)
    requires
        i < per_d(size),
    ensures
        r == lane_shift(i, size),
        r < 64,
{
    match size {
        0 => 8 * i as u32,
        1 => 16 * i as u32,
        2 => 32 * i as u32,
        _ => 64 * i as u32,
    }
}

/// Element `i` of a doubleword.
pub open spec fn lane(d: u64, i: usize, size: usize) -> u64 {
    (d >> lane_shift(i, size)) & elem_mask(size)
}

/// A doubleword with element `i` replaced by the low bits of `v`.
pub open spec fn put_lane(d: u64, i: usize, size: usize, v: u64) -> u64 {
    (d & !(elem_mask(size) << lane_shift(i, size))) | ((v & elem_mask(size)) << lane_shift(i, size))
}

/// Reads one element of a doubleword.
pub(crate) fn neon_read_elem(d: u64, i: usize, size: usize) -> (r: u64)
    requires
        i < per_d(size),
    ensures
        r == lane(d, i, size),
        r <= elem_mask(size),
{
    (d >> neon_lane_shift(i, size)) & neon_elem_mask(size)
}

/// Replaces one element of a doubleword.
pub(crate) fn neon_write_elem(d: u64, i: usize, size: usize, v: u64) -> (r: u64)
    requires
        i < per_d(size),
    ensures
        r == put_lane(d, i, size, v),
{
    let shift = neon_lane_shift(i, size);
    let mask = neon_elem_mask(size);
    (d & !(mask << shift)) | ((v & mask) << shift)
}

/// A replaced element reads back, and its neighbours keep their values.
pub proof fn lane_of_put_lane(d: u64, i: usize, j: usize, size: usize, v: u64)
    requires
        i < per_d(size),
        j < per_d(size),
    ensures
        lane(put_lane(d, i, size, v), j, size) == if i == j {
            v & elem_mask(size)
        } else {
            lane(d, j, size)
        },
{
    lane_masks(d, i, j, size, v);
}

/// An element that is joined to a doubleword which has zeros in its place.
pub proof fn lane_of_joined(d: u64, i: usize, j: usize, size: usize, v: u64)
    requires
        i < per_d(size),
        j < per_d(size),
        v & elem_mask(size) == v,
        lane(d, i, size) == 0,
    ensures
        lane(d | (v << lane_shift(i, size)), j, size) == if i == j {
            v
        } else {
            lane(d, j, size)
        },
{
    lane_masks(d, i, j, size, v);
}

/// The elements of zero are zero.
pub proof fn lane_of_nothing(j: usize, size: usize)
    requires
        j < per_d(size),
    ensures
        lane(0, j, size) == 0,
{
    lane_masks(0, j, j, size, 0);
}

proof fn lane_masks(d: u64, i: usize, j: usize, size: usize, v: u64)
    requires
        i < per_d(size),
        j < per_d(size),
    ensures
        lane(put_lane(d, i, size, v), j, size) == if i == j {
            v & elem_mask(size)
        } else {
            lane(d, j, size)
        },
        v & elem_mask(size) == v && lane(d, i, size) == 0 ==> lane(
            d | (v << lane_shift(i, size)),
            j,
            size,
        ) == if i == j {
            v
        } else {
            lane(d, j, size)
        },
        lane(0, j, size) == 0,
{
    let (a, b, mask) = (lane_shift(i, size), lane_shift(j, size), elem_mask(size));
    assert(((((d & !(mask << a)) | ((v & mask) << a)) >> b) & mask) == (if a == b {
        v & mask
    } else {
        (d >> b) & mask
    }) && (v & mask == v && (d >> a) & mask == 0 ==> ((d | (v << a)) >> b) & mask == (if a == b {
        v
    } else {
        (d >> b) & mask
    })) && (0u64 >> b) & mask == 0) by (bit_vector)
        requires
            (mask == 0xff && a < 64 && b < 64 && a % 8 == 0 && b % 8 == 0) || (mask == 0xffff && a
                < 64 && b < 64 && a % 16 == 0 && b % 16 == 0) || (mask == 0xffff_ffff && a < 64 && b
                < 64 && a % 32 == 0 && b % 32 == 0) || (mask == 0xffff_ffff_ffff_ffff && a == 0
                && b == 0),
    ;
}

/// The first `n` elements from `from` on, packed into a doubleword.
pub open spec fn pack_from(l: Seq<u64>, from: int, n: nat, size: usize) -> u64
    decreases n,
{
    if n == 0 {
        0
    } else {
        pack_from(l, from, (n - 1) as nat, size) | ((l[from + n - 1] & elem_mask(size))
            << lane_shift((n - 1) as usize, size))
    }
}

/// A doubleword's worth of elements packed.
pub open spec fn pack(l: Seq<u64>, from: int, size: usize) -> u64 {
    pack_from(l, from, per_d(size) as nat, size)
}

/// The elements of the vector that starts at doubleword register `reg`.
pub open spec fn lanes(s: CpuState, reg: usize, q: bool, size: usize) -> Seq<u64> {
    Seq::new(
        lane_count(q, size) as nat,
        |i: int|
            if i < per_d(size) {
                lane(s.d(reg), i as usize, size)
            } else {
                lane(s.d((reg + 1) as usize), (i - per_d(size)) as usize, size)
            },
    )
}

/// The vector that starts at doubleword register `reg` replaced.
pub open spec fn with_lanes(s: CpuState, reg: usize, q: bool, size: usize, l: Seq<u64>) -> CpuState {
    let s1 = s.with_d(reg, pack(l, 0, size));
    if q {
        s1.with_d((reg + 1) as usize, pack(l, per_d(size) as int, size))
    } else {
        s1
    }
}

/// Element results: a value each, and whether it was saturated.
pub open spec fn values(r: Seq<(u64, bool)>) -> Seq<u64> {
    Seq::new(r.len(), |i: int| r[i].0)
}

/// Whether any element was saturated.
pub open spec fn any_saturated(r: Seq<(u64, bool)>) -> bool {
    exists|i: int| 0 <= i < r.len() && (#[trigger] r[i]).1
}

/// Element results written to a vector; a saturated one sets the sticky flag.
pub open spec fn put_results(
    s: CpuState,
    reg: usize,
    q: bool,
    size: usize,
    r: Seq<(u64, bool)>,
) -> CpuState {
    with_lanes(s.sticky(any_saturated(r)), reg, q, size, values(r))
}

impl Cpu {
    /// The elements of a vector, followed by zeros.
    pub(crate) fn neon_reg_lanes(&self, reg: usize, q: bool, size: usize) -> (r: [u64; 16])
        requires
            reg < 32,
            q ==> reg < 31,
        ensures
            r@.take(lane_count(q, size) as int) == lanes(self@, reg, q, size),
            forall|i: int|
                0 <= i < lane_count(q, size) ==> r@[i] == lanes(self@, reg, q, size)[i] && r@[i]
                    <= elem_mask(size),
            forall|i: int| lane_count(q, size) <= i < 16 ==> r@[i] == 0,
    {
        let mut out: [u64; 16] = [0;16];
        let per = neon_per_d(size);
        let low = self.dreg(reg);
        let mut i: usize = 0;
        while i < per
            invariant
                i <= per <= 8,
                per == per_d(size),
                low == self@.d(reg),
                forall|j: int| i <= j < 16 ==> out@[j] == 0,
                forall|j: int|
                    0 <= j < i ==> out@[j] == lane(low, j as usize, size) && out@[j] <= elem_mask(
                        size,
                    ),
            decreases per - i,
        {
            out[i] = neon_read_elem(low, i, size);
            i += 1;
        }
        if q {
            let high = self.dreg(reg + 1);
            let mut i: usize = 0;
            while i < per
                invariant
                    i <= per <= 8,
                    per == per_d(size),
                    low == self@.d(reg),
                    high == self@.d((reg + 1) as usize),
                    forall|j: int| per + i <= j < 16 ==> out@[j] == 0,
                    forall|j: int|
                        0 <= j < per ==> out@[j] == lane(low, j as usize, size) && out@[j]
                            <= elem_mask(size),
                    forall|j: int|
                        per <= j < per + i ==> out@[j] == lane(high, (j - per) as usize, size)
                            && out@[j] <= elem_mask(size),
                decreases per - i,
            {
                out[per + i] = neon_read_elem(high, i, size);
                i += 1;
            }
        }
        assert(out@.take(lane_count(q, size) as int) =~= lanes(self@, reg, q, size));
        out
    }

    /// Replaces a vector by the first elements of `l`.
    pub(crate) fn set_neon_reg_lanes(&mut self, reg: usize, q: bool, size: usize, l: [u64; 16])
        requires
            reg < 32,
            q ==> reg < 31,
        ensures
            final(self)@ == with_lanes(
                old(self)@,
                reg,
                q,
                size,
                l@.take(lane_count(q, size) as int),
            ),
    {
        let per = neon_per_d(size);
        let ghost taken = l@.take(lane_count(q, size) as int);
        let low = pack_lanes(&l, 0, size);
        proof {
            pack_of_take(l@, 0, per as nat, lane_count(q, size) as int, size);
        }
        self.set_dreg(reg, low);
        if q {
            let high = pack_lanes(&l, per, size);
            proof {
                pack_of_take(l@, per as int, per as nat, lane_count(q, size) as int, size);
            }
            self.set_dreg(reg + 1, high);
        }
    }

    /// Writes element results.
    pub(crate) fn put_neon_results(
        &mut self,
        reg: usize,
        q: bool,
        size: usize,
        out: [u64; 16],
        saturated: bool,
        r: Ghost<Seq<(u64, bool)>>,
    )
        requires
            reg < 32,
            q ==> reg < 31,
            r@.len() == lane_count(q, size),
            forall|j: int| 0 <= j < r@.len() ==> out@[j] == (#[trigger] r@[j]).0,
            saturated == any_saturated(r@),
        ensures
            final(self)@ == put_results(old(self)@, reg, q, size, r@),
    {
        self.saturated(saturated);
        assert(out@.take(lane_count(q, size) as int) =~= values(r@));
        self.set_neon_reg_lanes(reg, q, size, out);
    }
}

fn pack_lanes(l: &[u64; 16], from: usize, size: usize) -> (r: u64)
    requires
        from + per_d(size) <= 16,
    ensures
        r == pack(l@, from as int, size),
{
    let per = neon_per_d(size);
    let mask = neon_elem_mask(size);
    let mut r: u64 = 0;
    let mut i: usize = 0;
    while i < per
        invariant
            i <= per <= 8,
            per == per_d(size),
            mask == elem_mask(size),
            from + per <= 16,
            r == pack_from(l@, from as int, i as nat, size),
        decreases per - i,
    {
        r = r | ((l[from + i] & mask) << neon_lane_shift(i, size));
        i += 1;
    }
    r
}

/// Packing reads only the elements that it packs.
proof fn pack_of_take(l: Seq<u64>, from: int, n: nat, len: int, size: usize)
    requires
        0 <= from,
        from + n <= len <= l.len(),
    ensures
        pack_from(l.take(len), from, n, size) == pack_from(l, from, n, size),
    decreases n,
{
    if n > 0 {
        pack_of_take(l, from, (n - 1) as nat, len, size);
    }
}

/// An element of a packed doubleword reads back.
pub proof fn lane_of_pack(l: Seq<u64>, from: int, i: usize, size: usize)
    requires
        size <= 3,
        i < per_d(size),
    ensures
        lane(pack(l, from, size), i, size) == l[from + i] & elem_mask(size),
{
    reveal_with_fuel(pack_from, 9);
    let (a, b, c, d) = (l[from], l[from + 1], l[from + 2], l[from + 3]);
    let (e, f, g, h) = (l[from + 4], l[from + 5], l[from + 6], l[from + 7]);
    assert(({
        let w = 0 | ((a & 0xff) << 0u32) | ((b & 0xff) << 8u32) | ((c & 0xff) << 16u32) | ((d & 0xff)
            << 24u32) | ((e & 0xff) << 32u32) | ((f & 0xff) << 40u32) | ((g & 0xff) << 48u32) | ((h
            & 0xff) << 56u32);
        &&& (w >> 0u32) & 0xff == a & 0xff && (w >> 8u32) & 0xff == b & 0xff && (w >> 16u32) & 0xff
            == c & 0xff && (w >> 24u32) & 0xff == d & 0xff
        &&& (w >> 32u32) & 0xff == e & 0xff && (w >> 40u32) & 0xff == f & 0xff && (w >> 48u32) & 0xff
            == g & 0xff && (w >> 56u32) & 0xff == h & 0xff
    }) && ({
        let w = 0 | ((a & 0xffff) << 0u32) | ((b & 0xffff) << 16u32) | ((c & 0xffff) << 32u32) | ((d
            & 0xffff) << 48u32);
        (w >> 0u32) & 0xffff == a & 0xffff && (w >> 16u32) & 0xffff == b & 0xffff && (w >> 32u32)
            & 0xffff == c & 0xffff && (w >> 48u32) & 0xffff == d & 0xffff
    }) && ({
        let w = 0 | ((a & 0xffff_ffff) << 0u32) | ((b & 0xffff_ffff) << 32u32);
        (w >> 0u32) & 0xffff_ffff == a & 0xffff_ffff && (w >> 32u32) & 0xffff_ffff == b & 0xffff_ffff
    }) && ({
        let w = 0 | ((a & 0xffff_ffff_ffff_ffff) << 0u32);
        (w >> 0u32) & 0xffff_ffff_ffff_ffff == a & 0xffff_ffff_ffff_ffff
    })) by (bit_vector);
}

} // verus!
