//! What the A32 media, bit-field and reversal instructions compute.

use super::a32_laws::{leaves_signed, same_but_register};
use super::alu::{
    byte_distance, byte_distances, extend16, ge16, ge8, par16, par8, sat32, sat_signed,
    sat_unsigned, shifted, Shift,
};
use super::arm_media::{
    arm_distances, arm_media, arm_pack, arm_parallel, arm_saturate, arm_saturate16,
    arm_saturating, arm_select, byte_of, extended, is_extend, is_parallel, parallel_flags,
    parallel_result,
};
use super::bits::{bit, f4, ror32, sext};
use super::cpu::{Cpsr, CpuState};
use super::numbers::{low_parts, sign_casts, signed16, signed32, signed8};
use super::shift_laws::{
    extensions, moved_left, moved_right_signed, shift_by_amount, shift_by_immediate,
};
use super::trap::TrapView;
use super::vfp_regs::word_fields;
use super::word_parts::{
    byte_at, bytes_of, ge_flag, greatest_numbers, joined_flags, joined_halves, media_fields,
    media_keys, of_bytes, parts, rotated_bytes, selected_bytes,
};
use vstd::arithmetic::power2::pow2;
use vstd::prelude::*;

verus! {

/// The nearest number between two bounds.
pub open spec fn between(v: int, lo: int, hi: int) -> int {
    if v < lo {
        lo
    } else if v > hi {
        hi
    } else {
        v
    }
}

/// A halfword lane as a number.
pub open spec fn half_number(x: u16, unsigned: bool) -> int {
    if unsigned {
        x as int
    } else {
        signed16(x as int)
    }
}

/// A byte lane as a number.
pub open spec fn byte_number(x: u8, unsigned: bool) -> int {
    if unsigned {
        x as int
    } else {
        signed8(x as int)
    }
}

/// A number in a lane of `span` values: as it is modulo the span, halved, or
/// brought into range.
pub open spec fn lane_result(v: int, span: int, unsigned: bool, sat: bool, half: bool) -> int {
    if sat {
        (if unsigned {
            between(v, 0, span - 1)
        } else {
            between(v, -(span / 2), span / 2 - 1)
        }) % span
    } else if half {
        (v / 2) % span
    } else {
        v % span
    }
}

/// The lanes of a parallel addition or subtraction.
pub proof fn parallel_lanes(a: u16, b: u16, x: u8, y: u8, unsigned: bool, sat: bool, half: bool)
    ensures
        par16(a, b, true, unsigned, sat, half) == lane_result(
            half_number(a, unsigned) + half_number(b, unsigned),
            0x1_0000,
            unsigned,
            sat,
            half,
        ),
        par16(a, b, false, unsigned, sat, half) == lane_result(
            half_number(a, unsigned) - half_number(b, unsigned),
            0x1_0000,
            unsigned,
            sat,
            half,
        ),
        par8(x, y, true, unsigned, sat, half) == lane_result(
            byte_number(x, unsigned) + byte_number(y, unsigned),
            0x100,
            unsigned,
            sat,
            half,
        ),
        par8(x, y, false, unsigned, sat, half) == lane_result(
            byte_number(x, unsigned) - byte_number(y, unsigned),
            0x100,
            unsigned,
            sat,
            half,
        ),
{
    sign_casts(x, a, 0, 0, 0, 0);
    sign_casts(y, b, 0, 0, 0, 0);
    lane_bits(half_number(a, unsigned) + half_number(b, unsigned), unsigned);
    lane_bits(half_number(a, unsigned) - half_number(b, unsigned), unsigned);
    lane_bits(byte_number(x, unsigned) + byte_number(y, unsigned), unsigned);
    lane_bits(byte_number(x, unsigned) - byte_number(y, unsigned), unsigned);
}

/// The GE flags of the lanes.
pub proof fn lane_flags(a: u16, b: u16, x: u8, y: u8, unsigned: bool)
    ensures
        ge16(a, b, true, unsigned) == if unsigned {
            a + b >= 0x1_0000
        } else {
            half_number(a, false) + half_number(b, false) >= 0
        },
        ge16(a, b, false, unsigned) == (half_number(a, unsigned) >= half_number(b, unsigned)),
        ge8(x, y, true, unsigned) == if unsigned {
            x + y >= 0x100
        } else {
            byte_number(x, false) + byte_number(y, false) >= 0
        },
        ge8(x, y, false, unsigned) == (byte_number(x, unsigned) >= byte_number(y, unsigned)),
{
    sign_casts(x, a, 0, 0, 0, 0);
    sign_casts(y, b, 0, 0, 0, 0);
}

proof fn low_lane(v: int)
    requires
        -0x2_0000 <= v <= 0x2_0000,
    ensures
        ((v as i32) as u16) == v % 0x1_0000,
        ((v as i32) as u8) == v % 0x100,
{
    sign_casts(0, 0, 0, 0, v as i32, 0);
    low_parts((v as i32) as u32, 0, 0);
}

proof fn lane_bits(v: int, unsigned: bool)
    requires
        -0x2_0000 <= v <= 0x2_0000,
    ensures
        ((v as i32) as u16) == v % 0x1_0000,
        ((v as i32) as u8) == v % 0x100,
        (((v as i32) >> 1) as u16) == v / 2 % 0x1_0000,
        (((v as i32) >> 1) as u8) == v / 2 % 0x100,
        ((between(v, 0, 0xffff) as i32) as u16) == between(v, 0, 0xffff) % 0x1_0000,
        ((between(v, 0, 0xff) as i32) as u8) == between(v, 0, 0xff) % 0x100,
        ((between(v, -0x8000, 0x7fff) as i32) as u16) == between(v, -0x8000, 0x7fff) % 0x1_0000,
        ((between(v, -0x80, 0x7f) as i32) as u8) == between(v, -0x80, 0x7f) % 0x100,
{
    low_lane(v);
    low_lane(v / 2);
    low_lane(between(v, 0, 0xffff));
    low_lane(between(v, 0, 0xff));
    low_lane(between(v, -0x8000, 0x7fff));
    low_lane(between(v, -0x80, 0x7f));
    parts(0, 0, 0, 0, 0, 0, 0, 0, 0, 0, 0, v as i32);
}

/// The low and the high half of a word.
pub open spec fn half_at(v: u32, k: int) -> u16 {
    if k == 0 {
        (v % 0x1_0000) as u16
    } else {
        (v / 0x1_0000) as u16
    }
}

/// The result of one lane for a family: 1 and 5 modular, 2 and 6 saturating, 3 and
/// 7 halving; from 5 on without signs.
pub open spec fn family_lane(family: u32, v: int, span: int) -> int {
    lane_result(v, span, family >= 5, family == 2 || family == 6, family == 3 || family == 7)
}

/// The halfword operations add or subtract the halves of two words: ADD16 and
/// SUB16 half by half, ASX the low half of the second to the high half of the
/// first and SAX the other way round.
pub proof fn parallel_halfwords(family: u32, op: u32, n: u32, m: u32)
    requires
        op <= 3,
    ensures
        ({
            let u = family >= 5;
            let (nl, nh) = (half_number(half_at(n, 0), u), half_number(half_at(n, 1), u));
            let (ml, mh) = (half_number(half_at(m, 0), u), half_number(half_at(m, 1), u));
            let (lo, hi) = if op == 0 {
                (nl + ml, nh + mh)
            } else if op == 1 {
                (nl - mh, nh + ml)
            } else if op == 2 {
                (nl + mh, nh - ml)
            } else {
                (nl - ml, nh - mh)
            };
            parallel_result(family, op, n, m) == family_lane(family, lo, 0x1_0000) + 0x1_0000
                * family_lane(family, hi, 0x1_0000)
        }),
{
    let (u, sat, half) = (family >= 5, family == 2 || family == 6, family == 3 || family == 7);
    low_parts(n, 0, 0);
    low_parts(m, 0, 0);
    low_parts(n >> 16, 0, 0);
    low_parts(m >> 16, 0, 0);
    let (nl, nh) = (half_at(n, 0), half_at(n, 1));
    let (ml, mh) = (half_at(m, 0), half_at(m, 1));
    parallel_lanes(nl, ml, 0, 0, u, sat, half);
    parallel_lanes(nl, mh, 0, 0, u, sat, half);
    parallel_lanes(nh, ml, 0, 0, u, sat, half);
    parallel_lanes(nh, mh, 0, 0, u, sat, half);
    let crossed = op == 1 || op == 2;
    let lo = par16(
        nl,
        if crossed {
            mh
        } else {
            ml
        },
        op == 0 || op == 2,
        u,
        sat,
        half,
    );
    let hi = par16(
        nh,
        if crossed {
            ml
        } else {
            mh
        },
        op == 0 || op == 1,
        u,
        sat,
        half,
    );
    parts(0, 0, 0, 0, 0, 0, 0, 0, lo, hi, 0, 0);
}

/// ADD8 and SUB8 add or subtract the bytes of two words.
pub proof fn parallel_bytes(family: u32, op: u32, n: u32, m: u32)
    requires
        op == 4 || op == 7,
    ensures
        ({
            let u = family >= 5;
            let r = |k: int|
                {
                    let (x, y) = (
                        byte_number(byte_at(n, k) as u8, u),
                        byte_number(byte_at(m, k) as u8, u),
                    );
                    family_lane(
                        family,
                        if op == 4 {
                            x + y
                        } else {
                            x - y
                        },
                        0x100,
                    )
                };
            parallel_result(family, op, n, m) == of_bytes(r(0), r(1), r(2), r(3))
        }),
{
    let (u, sat, half) = (family >= 5, family == 2 || family == 6, family == 3 || family == 7);
    bytes_of(n);
    bytes_of(m);
    parallel_lanes(0, 0, byte_of(n, 0), byte_of(m, 0), u, sat, half);
    parallel_lanes(0, 0, byte_of(n, 1), byte_of(m, 1), u, sat, half);
    parallel_lanes(0, 0, byte_of(n, 2), byte_of(m, 2), u, sat, half);
    parallel_lanes(0, 0, byte_of(n, 3), byte_of(m, 3), u, sat, half);
    let r = |k: u32| par8(byte_of(n, k), byte_of(m, k), op == 4, u, sat, half);
    parts(0, 0, 0, 0, r(0), r(1), r(2), r(3), 0, 0, 0, 0);
}

/// The GE flags of a modular halfword operation, two for each half: set where an
/// unsigned sum carries, where an unsigned difference does not borrow, and where a
/// signed result is not negative.
pub proof fn halfword_flags(family: u32, op: u32, n: u32, m: u32)
    requires
        op <= 3,
    ensures
        ({
            let u = family >= 5;
            let (nl, nh) = (half_number(half_at(n, 0), u), half_number(half_at(n, 1), u));
            let (ml, mh) = (half_number(half_at(m, 0), u), half_number(half_at(m, 1), u));
            let low = if op == 0 {
                nl + ml >= if u {
                    0x1_0000int
                } else {
                    0
                }
            } else if op == 1 {
                nl >= mh
            } else if op == 2 {
                nl + mh >= if u {
                    0x1_0000int
                } else {
                    0
                }
            } else {
                nl >= ml
            };
            let high = if op == 0 {
                nh + mh >= if u {
                    0x1_0000int
                } else {
                    0
                }
            } else if op == 1 {
                nh + ml >= if u {
                    0x1_0000int
                } else {
                    0
                }
            } else if op == 2 {
                nh >= ml
            } else {
                nh >= mh
            };
            let ge = parallel_flags(family, op, n, m);
            &&& ge < 16
            &&& ge_flag(ge, 0) == low && ge_flag(ge, 1) == low
            &&& ge_flag(ge, 2) == high && ge_flag(ge, 3) == high
        }),
{
    let u = family >= 5;
    low_parts(n, 0, 0);
    low_parts(m, 0, 0);
    low_parts(n >> 16, 0, 0);
    low_parts(m >> 16, 0, 0);
    let (nl, nh) = (half_at(n, 0), half_at(n, 1));
    let (ml, mh) = (half_at(m, 0), half_at(m, 1));
    lane_flags(nl, ml, 0, 0, u);
    lane_flags(nl, mh, 0, 0, u);
    lane_flags(nh, ml, 0, 0, u);
    lane_flags(nh, mh, 0, 0, u);
    joined_flags(3, 12, 0, 0);
    joined_flags(0, 12, 0, 0);
    joined_flags(3, 0, 0, 0);
    joined_flags(0, 0, 0, 0);
}

/// The GE flag of each byte of a modular byte operation.
pub proof fn byte_flags(family: u32, op: u32, n: u32, m: u32)
    requires
        op == 4 || op == 7,
    ensures
        ({
            let u = family >= 5;
            let f = |k: int|
                {
                    let (x, y) = (
                        byte_number(byte_at(n, k) as u8, u),
                        byte_number(byte_at(m, k) as u8, u),
                    );
                    if op == 7 {
                        x >= y
                    } else if u {
                        x + y >= 0x100
                    } else {
                        x + y >= 0
                    }
                };
            let ge = parallel_flags(family, op, n, m);
            &&& ge < 16
            &&& ge_flag(ge, 0) == f(0) && ge_flag(ge, 1) == f(1)
            &&& ge_flag(ge, 2) == f(2) && ge_flag(ge, 3) == f(3)
        }),
{
    let u = family >= 5;
    bytes_of(n);
    bytes_of(m);
    lane_flags(0, 0, byte_of(n, 0), byte_of(m, 0), u);
    lane_flags(0, 0, byte_of(n, 1), byte_of(m, 1), u);
    lane_flags(0, 0, byte_of(n, 2), byte_of(m, 2), u);
    lane_flags(0, 0, byte_of(n, 3), byte_of(m, 3), u);
    let f = |k: u32, w: u8|
        if ge8(byte_of(n, k), byte_of(m, k), op == 4, u) {
            w
        } else {
            0
        };
    joined_flags(f(0, 1), f(1, 2), f(2, 4), f(3, 8));
    joined_flags(0, 0, 0, 0);
}

/// Whether a word is taken as a media instruction and completes.
pub open spec fn runs_media(s: CpuState, instr: u32, pc: u32) -> bool {
    s.wf() && arm_media(s, instr, pc).1 == Ok::<bool, TrapView>(true)
}

/// Which of the media instructions a word is.
pub proof fn media_group(s: CpuState, i: u32, pc: u32)
    ensures
        i & 0x0ff0_00f0 == 0x0780_0010 ==> arm_media(s, i, pc) == arm_distances(s, i, pc),
        i & 0x0ff0_0090 == 0x0680_0010 && !is_extend(i & 0x0ff0_0070) && i & 0x0ff0_00f0
            != 0x0780_0010 ==> arm_media(s, i, pc) == arm_pack(s, i, pc),
        i & 0x0ff0_0ff0 == 0x0680_0fb0 ==> arm_media(s, i, pc) == arm_select(s, i, pc),
        i & 0x0f80_0f10 == 0x0600_0f10 && is_parallel((i >> 20) & 7, (i >> 5) & 7) ==> arm_media(
            s,
            i,
            pc,
        ) == arm_parallel(s, i, pc),
        i & 0x0f90_0ff0 == 0x0100_0050 ==> arm_media(s, i, pc) == arm_saturating(s, i, pc),
        (i & 0x0ff0_0ff0 == 0x06a0_0f30 || i & 0x0ff0_0ff0 == 0x06e0_0f30) ==> arm_media(s, i, pc)
            == arm_saturate16(s, i, pc),
        (i & 0x0fe0_0030 == 0x06a0_0010 || i & 0x0fe0_0030 == 0x06e0_0010) ==> arm_media(s, i, pc)
            == arm_saturate(s, i, pc),
{
    media_keys(i, 0);
}

/// The number of a byte, with or without its sign.
pub open spec fn byte_value(v: int, signed: bool) -> int {
    if signed {
        signed8(v)
    } else {
        v
    }
}

/// The number of a halfword, with or without its sign.
pub open spec fn half_value(v: int, signed: bool) -> int {
    if signed {
        signed16(v)
    } else {
        v
    }
}

proof fn extended_operand(key: u32, base: u32, r: u32)
    ensures
        key == 0x06a0_0070 ==> extended(key, base, r) == (base + signed8(byte_at(r, 0)))
            % 0x1_0000_0000,
        key == 0x06b0_0070 ==> extended(key, base, r) == (base + signed16(r as int % 0x1_0000))
            % 0x1_0000_0000,
        key == 0x06e0_0070 ==> extended(key, base, r) == (base + byte_at(r, 0)) % 0x1_0000_0000,
        key == 0x06f0_0070 ==> extended(key, base, r) == (base + r as int % 0x1_0000)
            % 0x1_0000_0000,
{
    extensions(r);
    low_parts(r, 0, 0);
}

proof fn extended_pair(base: u32, r: u32, signed: bool)
    ensures
        extend16(base, r, signed) == (base % 0x1_0000 + byte_value(byte_at(r, 0), signed))
            % 0x1_0000 + 0x1_0000 * ((base / 0x1_0000 + byte_value(byte_at(r, 2), signed))
            % 0x1_0000),
{
    let low = if signed {
        sext(r & 0xff, 8) as u32
    } else {
        r & 0xff
    };
    let high = if signed {
        sext((r >> 16) & 0xff, 8) as u32
    } else {
        (r >> 16) & 0xff
    };
    bytes_of(r);
    low_parts(base, 0, 0);
    let (x, y) = ((base >> 16).wrapping_add(high), base.wrapping_add(low));
    joined_halves(x, y);
    byte_added(base >> 16, r >> 16, signed);
    byte_added(base, r, signed);
    low_parts(r, 0, 0);
    assert((r >> 16) as int % 0x100 == byte_at(r, 2));
    assert((base % 0x1_0000 + byte_value(byte_at(r, 0), signed)) % 0x1_0000 == (base + byte_value(
        byte_at(r, 0),
        signed,
    )) % 0x1_0000);
}

proof fn byte_added(base: u32, r: u32, signed: bool)
    ensures
        base.wrapping_add(
            if signed {
                sext(r & 0xff, 8) as u32
            } else {
                r & 0xff
            },
        ) as int % 0x1_0000 == (base + byte_value(r as int % 0x100, signed)) % 0x1_0000,
{
    extensions(r);
    low_parts(r, 0, 0);
}

proof fn low_half_by_bytes(r: u32)
    ensures
        r as int % 0x1_0000 == byte_at(r, 0) + 0x100 * byte_at(r, 1),
{
}

/// SXTAB and UXTAB, SXTAH and UXTAH, SXTAB16 and UXTAB16 add a byte, a halfword or
/// two bytes of the second operand, taken from byte `k` on and with or without
/// signs, to the first operand, which is zero where it is named as the program
/// counter.
pub proof fn extend_and_add(s: CpuState, instr: u32, pc: u32)
    requires
        runs_media(s, instr, pc),
        is_extend(instr & 0x0ff0_0070),
    ensures
        ({
            let (rd, rn) = (f4(instr, 12), f4(instr, 16));
            let v = s.r(f4(instr, 0));
            let base: int = if rn == 15 {
                0
            } else {
                s.r(rn) as int
            };
            let k = instr as int / 0x400 % 4;
            let b = |j: int| byte_at(v, (k + j) % 4);
            let key = instr & 0x0ff0_0070;
            let t = arm_media(s, instr, pc).0;
            &&& same_but_register(s, t, rd) && t.cpsr == s.cpsr
            &&& key == 0x06a0_0070 ==> t.r(rd) == (base + signed8(b(0))) % 0x1_0000_0000
            &&& key == 0x06e0_0070 ==> t.r(rd) == (base + b(0)) % 0x1_0000_0000
            &&& key == 0x06b0_0070 ==> t.r(rd) == (base + signed16(b(0) + 0x100 * b(1)))
                % 0x1_0000_0000
            &&& key == 0x06f0_0070 ==> t.r(rd) == (base + b(0) + 0x100 * b(1)) % 0x1_0000_0000
            &&& (key == 0x0680_0070 || key == 0x06c0_0070) ==> {
                let signed = key == 0x0680_0070;
                t.r(rd) == (base % 0x1_0000 + byte_value(b(0), signed)) % 0x1_0000 + 0x1_0000 * ((
                base / 0x1_0000 + byte_value(b(2), signed)) % 0x1_0000)
            }
        }),
{
    word_fields(instr);
    let (rd, rn) = (f4(instr, 12), f4(instr, 16));
    let v = s.r(f4(instr, 0));
    let k = (instr >> 10) & 3;
    let r = ror32(v, (k * 8) as u32);
    let base = if rn == 15 {
        0
    } else {
        s.r(rn)
    };
    rotated_bytes(v, k);
    let key = instr & 0x0ff0_0070;
    extended_operand(key, base, r);
    extended_pair(base, r, key == 0x0680_0070);
    low_half_by_bytes(r);
}

/// The distance of two bytes.
pub open spec fn bytes_apart(n: u32, m: u32, k: int) -> int {
    if byte_at(n, k) >= byte_at(m, k) {
        byte_at(n, k) - byte_at(m, k)
    } else {
        byte_at(m, k) - byte_at(n, k)
    }
}

/// USAD8 leaves the sum of the distances of the four bytes, USADA8 adds it.
pub proof fn sums_of_distances(s: CpuState, instr: u32, pc: u32)
    requires
        runs_media(s, instr, pc),
        instr & 0x0ff0_00f0 == 0x0780_0010,
    ensures
        ({
            let (rd, rn) = (f4(instr, 16), f4(instr, 12));
            let (n, m) = (s.r(f4(instr, 0)), s.r(f4(instr, 8)));
            let base: int = if rn == 15 {
                0
            } else {
                s.r(rn) as int
            };
            let t = arm_media(s, instr, pc).0;
            &&& same_but_register(s, t, rd) && t.cpsr == s.cpsr
            &&& t.r(rd) == (base + bytes_apart(n, m, 0) + bytes_apart(n, m, 1) + bytes_apart(
                n,
                m,
                2,
            ) + bytes_apart(n, m, 3)) % 0x1_0000_0000
        }),
{
    word_fields(instr);
    media_group(s, instr, pc);
    media_fields(instr);
    distances_by_bytes(s.r(f4(instr, 0)), s.r(f4(instr, 8)));
}

pub proof fn distances_by_bytes(n: u32, m: u32)
    ensures
        byte_distances(n, m) == bytes_apart(n, m, 0) + bytes_apart(n, m, 1) + bytes_apart(n, m, 2)
            + bytes_apart(n, m, 3),
        0 <= byte_distances(n, m) <= 1020,
{
    bytes_of(n);
    bytes_of(m);
    assert(byte_distance(n, m, 0) == bytes_apart(n, m, 0));
    assert(byte_distance(n, m, 8) == bytes_apart(n, m, 1));
    assert(byte_distance(n, m, 16) == bytes_apart(n, m, 2));
    assert(byte_distance(n, m, 24) == bytes_apart(n, m, 3));
}

/// PKHBT joins the low half of the first operand with the high half of the second,
/// shifted left; PKHTB the high half of the first with the low half of the second,
/// shifted right with its sign, where no places stand for thirty-two.
pub proof fn packed_halves(s: CpuState, instr: u32, pc: u32)
    requires
        runs_media(s, instr, pc),
        !is_extend(instr & 0x0ff0_0070),
        instr & 0x0ff0_00f0 != 0x0780_0010,
        instr & 0x0ff0_0090 == 0x0680_0010,
    ensures
        ({
            let rd = f4(instr, 12);
            let (n, m) = (s.r(f4(instr, 16)), s.r(f4(instr, 0)));
            let shift = instr as int / 0x80 % 32;
            let t = arm_media(s, instr, pc).0;
            &&& same_but_register(s, t, rd) && t.cpsr == s.cpsr
            &&& instr as int / 0x40 % 2 == 0 ==> exists|w: u32|
                #![trigger half_at(w, 1)]
                moved_left(m, shift, w) && t.r(rd) == n as int % 0x1_0000 + 0x1_0000 * half_at(w, 1)
            &&& instr as int / 0x40 % 2 == 1 ==> exists|w: u32|
                #![trigger half_at(w, 0)]
                moved_right_signed(
                    m,
                    if shift == 0 {
                        32
                    } else {
                        shift
                    },
                    w,
                ) && t.r(rd) == half_at(w, 0) + 0x1_0000 * (n as int / 0x1_0000)
        }),
{
    word_fields(instr);
    media_group(s, instr, pc);
    media_fields(instr);
    let (n, m) = (s.r(f4(instr, 16)), s.r(f4(instr, 0)));
    let shift = (instr >> 7) & 0x1f;
    let left = m.wrapping_shl(shift);
    let right = shifted(m, Shift::Asr, shift, false, true).value;
    operand_shifts(m, shift, false);
    joined_halves(n, left);
    joined_halves(n, right);
    assert(half_at(left, 1) == left / 0x1_0000);
    assert(half_at(right, 0) == right % 0x1_0000);
}

proof fn operand_shifts(m: u32, shift: u32, c: bool)
    requires
        shift < 32,
    ensures
        moved_left(m, shift as int, m.wrapping_shl(shift)),
        moved_right_signed(
            m,
            if shift == 0 {
                32
            } else {
                shift as int
            },
            shifted(m, Shift::Asr, shift, c, true).value,
        ),
{
    media_fields(m);
    assert(m.wrapping_shl(shift) == m << shift);
    shift_by_amount(m, Shift::Lsl, shift, c);
    assert(shifted(m, Shift::Lsl, shift, c, false).value == m << shift);
    shift_by_immediate(m, Shift::Asr, shift, c);
    shift_by_amount(m, Shift::Asr, shift, c);
    shift_by_amount(m, Shift::Asr, 32, c);
}

/// SEL takes each byte from the first operand where its GE flag is set and from the
/// second elsewhere.
pub proof fn selection(s: CpuState, instr: u32, pc: u32)
    requires
        runs_media(s, instr, pc),
        instr & 0x0ff0_0ff0 == 0x0680_0fb0,
    ensures
        ({
            let rd = f4(instr, 12);
            let (n, m) = (s.r(f4(instr, 16)), s.r(f4(instr, 0)));
            let b = |k: int|
                byte_at(
                    if ge_flag(s.cpsr.ge, k) {
                        n
                    } else {
                        m
                    },
                    k,
                );
            let t = arm_media(s, instr, pc).0;
            &&& same_but_register(s, t, rd) && t.cpsr == s.cpsr
            &&& t.r(rd) == of_bytes(b(0), b(1), b(2), b(3))
        }),
{
    word_fields(instr);
    media_group(s, instr, pc);
    media_fields(instr);
    selected_bytes(s.cpsr.ge, s.r(f4(instr, 16)), s.r(f4(instr, 0)));
}

/// A parallel addition or subtraction works on the first and the second operand;
/// only the modular families set the GE flags.
pub proof fn parallel_instruction(s: CpuState, instr: u32, pc: u32)
    requires
        runs_media(s, instr, pc),
        instr & 0x0f80_0f10 == 0x0600_0f10,
        is_parallel((instr >> 20) & 7, (instr >> 5) & 7),
    ensures
        ({
            let rd = f4(instr, 12);
            let (n, m) = (s.r(f4(instr, 16)), s.r(f4(instr, 0)));
            let (family, op) = ((instr / 0x10_0000 % 8) as u32, (instr / 0x20 % 8) as u32);
            let t = arm_media(s, instr, pc).0;
            &&& same_but_register(s, t, rd)
            &&& t.r(rd) == parallel_result(family, op, n, m)
            &&& t.cpsr == if family == 1 || family == 5 {
                Cpsr { ge: parallel_flags(family, op, n, m), ..s.cpsr }
            } else {
                s.cpsr
            }
        }),
{
    word_fields(instr);
    media_group(s, instr, pc);
    media_fields(instr);
}

/// QADD, QSUB, QDADD and QDSUB: the sum or difference of the second operand and the
/// first, doubled on request, each brought into the signed words; where a number
/// had to be brought back, the sticky flag is set.
pub proof fn saturating_arithmetic(s: CpuState, instr: u32, pc: u32)
    requires
        runs_media(s, instr, pc),
        instr & 0x0f90_0ff0 == 0x0100_0050,
    ensures
        ({
            let rd = f4(instr, 12);
            let (n, m) = (signed32(s.r(f4(instr, 16))), signed32(s.r(f4(instr, 0))));
            let op = instr as int / 0x20_0000 % 4;
            let x = if op >= 2 {
                between(2 * n, -0x8000_0000, 0x7fff_ffff)
            } else {
                n
            };
            let v = if op % 2 == 0 {
                m + x
            } else {
                m - x
            };
            let t = arm_media(s, instr, pc).0;
            &&& same_but_register(s, t, rd)
            &&& t.r(rd) == between(v, -0x8000_0000, 0x7fff_ffff) % 0x1_0000_0000
            &&& t.cpsr == (Cpsr {
                q: s.cpsr.q || leaves_signed(v) || (op >= 2 && leaves_signed(2 * n)),
                ..s.cpsr
            })
        }),
{
    word_fields(instr);
    media_group(s, instr, pc);
    media_fields(instr);
    let (n, m) = (s.r(f4(instr, 16)), s.r(f4(instr, 0)));
    sign_casts(0, 0, n, 0, 0, 0);
    sign_casts(0, 0, m, 0, 0, 0);
    let op = (instr >> 21) & 3;
    let x = if op >= 2 {
        between(2 * signed32(n), -0x8000_0000, 0x7fff_ffff)
    } else {
        signed32(n)
    };
    let v = if op % 2 == 0 {
        signed32(m) + x
    } else {
        signed32(m) - x
    };
    sign_casts(0, 0, 0, 0, sat32(v), 0);
}

/// SSAT16 and USAT16 bring each half, read with its sign, into a number of bits.
pub proof fn saturated_halves(s: CpuState, instr: u32, pc: u32)
    requires
        runs_media(s, instr, pc),
        instr & 0x0ff0_0ff0 == 0x06a0_0f30 || instr & 0x0ff0_0ff0 == 0x06e0_0f30,
    ensures
        ({
            let rd = f4(instr, 12);
            let v = s.r(f4(instr, 0));
            let n = (instr / 0x1_0000 % 16) as nat;
            let (lo, hi) = if instr & 0x0ff0_0ff0 == 0x06e0_0f30 {
                (0, pow2(n) - 1)
            } else {
                (-pow2(n), pow2(n) - 1)
            };
            let (x, y) = (
                signed16(half_at(v, 0) as int),
                signed16(half_at(v, 1) as int),
            );
            let t = arm_media(s, instr, pc).0;
            &&& same_but_register(s, t, rd)
            &&& t.r(rd) == between(x, lo, hi) % 0x1_0000 + 0x1_0000 * (between(y, lo, hi)
                % 0x1_0000)
            &&& t.cpsr == (Cpsr {
                q: s.cpsr.q || between(x, lo, hi) != x || between(y, lo, hi) != y,
                ..s.cpsr
            })
        }),
{
    word_fields(instr);
    media_group(s, instr, pc);
    media_fields(instr);
    let v = s.r(f4(instr, 0));
    low_parts(v, 0, 0);
    low_parts(v >> 16, 0, 0);
    sign_casts(0, v as u16, 0, 0, 0, 0);
    sign_casts(0, (v >> 16) as u16, 0, 0, 0, 0);
    let unsigned = instr & 0x0ff0_0ff0 == 0x06e0_0f30;
    let n = (instr >> 16) & 0xf;
    let bits = if unsigned {
        n
    } else {
        (n + 1) as u32
    };
    greatest_numbers(bits);
    let (x, y) = (((v as u16) as i16) as i32, (((v >> 16) as u16) as i16) as i32);
    half_in_range(x, bits, unsigned);
    half_in_range(y, bits, unsigned);
    let (p, q) = (
        if unsigned {
            sat_unsigned(x, bits)
        } else {
            sat_signed(x, bits) as u32
        },
        if unsigned {
            sat_unsigned(y, bits)
        } else {
            sat_signed(y, bits) as u32
        },
    );
    joined_halves(q, p);
}

proof fn half_in_range(v: i32, bits: u32, unsigned: bool)
    requires
        -0x8000 <= v <= 0x7fff,
        bits <= 16,
        !unsigned ==> 1 <= bits,
    ensures
        ({
            let (lo, hi) = if unsigned {
                (0, pow2(bits as nat) - 1)
            } else {
                (-pow2((bits - 1) as nat), pow2((bits - 1) as nat) - 1)
            };
            let w = between(v as int, lo, hi);
            &&& (if unsigned {
                sat_unsigned(v, bits)
            } else {
                sat_signed(v, bits) as u32
            }) as int % 0x1_0000 == w % 0x1_0000
            &&& unsigned ==> sat_unsigned(v, bits) == w
            &&& !unsigned ==> sat_signed(v, bits) == w
        }),
{
    greatest_numbers(bits);
    if !unsigned {
        sign_casts(0, 0, 0, 0, sat_signed(v, bits), 0);
    }
}

/// SSAT and USAT bring a shifted operand, read with its sign, into a number of bits:
/// shifted left, or shifted right with the sign, where no places stand for
/// thirty-two.
pub proof fn saturated_word(s: CpuState, instr: u32, pc: u32)
    requires
        runs_media(s, instr, pc),
        instr & 0x0fe0_0030 == 0x06a0_0010 || instr & 0x0fe0_0030 == 0x06e0_0010,
    ensures
        ({
            let rd = f4(instr, 12);
            let m = s.r(f4(instr, 0));
            let n = (instr / 0x1_0000 % 32) as nat;
            let shift = instr as int / 0x80 % 32;
            let (lo, hi) = if instr & 0x0fe0_0030 == 0x06e0_0010 {
                (0, pow2(n) - 1)
            } else {
                (-pow2(n), pow2(n) - 1)
            };
            let t = arm_media(s, instr, pc).0;
            &&& same_but_register(s, t, rd)
            &&& exists|w: u32|
                {
                    &&& !bit(instr, 6) ==> moved_left(m, shift, w)
                    &&& bit(instr, 6) ==> moved_right_signed(
                        m,
                        if shift == 0 {
                            32
                        } else {
                            shift
                        },
                        w,
                    )
                    &&& t.r(rd) == between(#[trigger] signed32(w), lo, hi) % 0x1_0000_0000
                    &&& t.cpsr == (Cpsr {
                        q: s.cpsr.q || between(signed32(w), lo, hi) != signed32(w),
                        ..s.cpsr
                    })
                }
        }),
{
    word_fields(instr);
    media_group(s, instr, pc);
    media_fields(instr);
    let m = s.r(f4(instr, 0));
    let shift = (instr >> 7) & 0x1f;
    let left = m.wrapping_shl(shift);
    let right = shifted(m, Shift::Asr, shift, s.cpsr.c, true).value;
    operand_shifts(m, shift, s.cpsr.c);
    let w = if bit(instr, 6) {
        right
    } else {
        left
    };
    let v = w as i32;
    sign_casts(0, 0, w, 0, 0, 0);
    let field = (instr >> 16) & 0x1f;
    let unsigned = instr & 0x0fe0_0030 == 0x06e0_0010;
    greatest_numbers(field);
    greatest_numbers((field + 1) as u32);
    if !unsigned {
        sign_casts(0, 0, 0, 0, sat_signed(v, (field + 1) as u32), 0);
    }
    assert(v == signed32(w));
}

} // verus!
