//! What a load plan holds of the program headers of a file, and what relocations write.

use crate::bytes::{fields_are_numbers, pair_at, quad_at};
use crate::elf_dynamic::ArmRelocationKind;
use crate::elf_linker::relocated_word;
use crate::elf_loader::{
    blank, drafted, header_of, plan_of, program_at, with_program, Draft, ElfHeader,
    ElfLoadErrorView, ElfLoadSegment,
};
use vstd::prelude::*;

verus! {

/// Whether a segment is the one of the program header at `at`, moved by a bias.
pub open spec fn loads_header(b: Seq<u8>, at: int, bias: u32, s: ElfLoadSegment) -> bool {
    &&& quad_at(b, at) == 1
    &&& s.file_offset == quad_at(b, at + 4)
    &&& s.memory_addr == bias + quad_at(b, at + 8)
    &&& s.file_size == quad_at(b, at + 16)
    &&& s.memory_size == quad_at(b, at + 20)
    &&& s.flags == quad_at(b, at + 24)
    &&& s.align == quad_at(b, at + 28)
    &&& s.file_size <= s.memory_size
    &&& s.file_offset + s.file_size <= b.len()
}

proof fn header_numbers(b: Seq<u8>, at: int)
    ensures
        ({
            let p = program_at(b, at);
            &&& p.p_type == quad_at(b, at)
            &&& p.offset == quad_at(b, at + 4)
            &&& p.vaddr == quad_at(b, at + 8)
            &&& p.filesz == quad_at(b, at + 16)
            &&& p.memsz == quad_at(b, at + 20)
            &&& p.flags == quad_at(b, at + 24)
            &&& p.align == quad_at(b, at + 28)
        }),
{
    fields_are_numbers(b, at);
    fields_are_numbers(b, at + 4);
    fields_are_numbers(b, at + 8);
    fields_are_numbers(b, at + 16);
    fields_are_numbers(b, at + 20);
    fields_are_numbers(b, at + 24);
    fields_are_numbers(b, at + 28);
}

/// Whether page-aligned bounds hold a segment.
pub open spec fn pages_hold(base: u32, end: u32, s: ElfLoadSegment) -> bool {
    &&& base <= s.memory_addr
    &&& s.memory_addr + s.memory_size <= end
}

/// Whether a bound is where some segment makes it: its start rounded down, or its end
/// rounded up, to a page.
pub open spec fn page_of_start(base: u32, s: ElfLoadSegment) -> bool {
    base % 0x1000 == 0 && base <= s.memory_addr < base + 0x1000
}

/// See [`page_of_start`].
pub open spec fn page_of_end(end: u32, s: ElfLoadSegment) -> bool {
    end % 0x1000 == 0 && end - 0x1000 < s.memory_addr + s.memory_size <= end
}

/// The segments of a plan are the load headers of the table, in order and without
/// another.
pub proof fn planned_segments(b: Seq<u8>, h: ElfHeader, bias: u32, from: nat, d: Draft, out: Draft) -> (which: Seq<
    int,
>)
    requires
        from <= h.phnum,
        drafted(b, h, bias, from, d) == Ok::<Draft, ElfLoadErrorView>(out),
    ensures
        out.segments.len() == d.segments.len() + which.len(),
        forall|j: int| 0 <= j < d.segments.len() ==> #[trigger] out.segments[j] == d.segments[j],
        forall|j: int|
            0 <= j < which.len() ==> from <= #[trigger] which[j] < h.phnum && loads_header(
                b,
                h.phoff + which[j] * h.phentsize,
                bias,
                out.segments[d.segments.len() + j],
            ),
        forall|j: int, k: int| 0 <= j < k < which.len() ==> #[trigger] which[j] < #[trigger] which[k],
        forall|i: int|
            from <= i < h.phnum && quad_at(b, #[trigger] header_place(h, i)) == 1 ==> which.contains(i),
    decreases h.phnum - from,
{
    if from >= h.phnum {
        Seq::empty()
    } else {
        let at = h.phoff + from * h.phentsize;
        header_numbers(b, at);
        let ph = program_at(b, at);
        let d1 = with_program(d, ph, b.len(), bias)->Ok_0;
        let rest = planned_segments(b, h, bias, from + 1, d1, out);
        if ph.p_type == 1 {
            let which = seq![from as int] + rest;
            let n = d.segments.len() as int;
            assert(out.segments[n] == d1.segments[n]);
            assert(loads_header(b, at, bias, out.segments[n]));
            assert forall|j: int| 0 <= j < n implies #[trigger] out.segments[j] == d.segments[j] by {
                assert(out.segments[j] == d1.segments[j]);
            }
            assert forall|j: int| 0 <= j < which.len() implies from <= #[trigger] which[j] < h.phnum
                && loads_header(
                b,
                h.phoff + which[j] * h.phentsize,
                bias,
                out.segments[n + j],
            ) by {
                if j > 0 {
                    assert(which[j] == rest[j - 1]);
                    assert(out.segments[n + j] == out.segments[d1.segments.len() + (j - 1)]);
                }
            }
            assert forall|i: int|
                from <= i < h.phnum && quad_at(
                    b,
                    #[trigger] header_place(h, i),
                ) == 1 implies which.contains(i) by {
                if i == from {
                    assert(which[0] == i);
                } else {
                    assert(rest.contains(i));
                    let j = choose|j: int| 0 <= j < rest.len() && rest[j] == i;
                    assert(which[j + 1] == i);
                }
            }
            which
        } else {
            assert(d1.segments == d.segments);
            assert forall|i: int|
                from <= i < h.phnum && quad_at(
                    b,
                    #[trigger] header_place(h, i),
                ) == 1 implies rest.contains(i) by {
                if i == from {
                    assert(header_place(h, i) == at);
                }
            }
            rest
        }
    }
}

/// Where program header `i` stands.
pub open spec fn header_place(h: ElfHeader, i: int) -> int {
    h.phoff + i * h.phentsize
}

/// Whether the bounds of a draft are the pages of its segments: they hold every segment,
/// and some segment starts in the first page and some ends in the last.
pub open spec fn tight(d: Draft) -> bool {
    &&& forall|i: int| 0 <= i < d.segments.len() ==> #[trigger] pages_hold(d.base, d.end, d.segments[i])
    &&& d.segments.len() > 0 ==> exists|i: int|
        0 <= i < d.segments.len() && #[trigger] page_of_start(d.base, d.segments[i])
    &&& d.end > 0 ==> exists|i: int|
        0 <= i < d.segments.len() && #[trigger] page_of_end(d.end, d.segments[i])
    &&& d.segments.len() == 0 ==> d.base == u32::MAX && d.end == 0
}

proof fn stays_tight(d: Draft, b: Seq<u8>, at: int, bias: u32)
    requires
        tight(d),
        with_program(d, program_at(b, at), b.len(), bias) is Ok,
    ensures
        tight(with_program(d, program_at(b, at), b.len(), bias)->Ok_0),
{
    let ph = program_at(b, at);
    let out = with_program(d, ph, b.len(), bias)->Ok_0;
    if ph.p_type == 1 {
        let n = d.segments.len() as int;
        let s = out.segments[n];
        let low = s.memory_addr - s.memory_addr % 0x1000;
        assert(low <= 0xffff_f000);
        assert(pages_hold(out.base, out.end, s));
        assert forall|i: int| 0 <= i < out.segments.len() implies #[trigger] pages_hold(
            out.base,
            out.end,
            out.segments[i],
        ) by {
            if i < n {
                assert(pages_hold(d.base, d.end, d.segments[i]));
            }
        }
        if out.base == low {
            assert(page_of_start(out.base, out.segments[n]));
        } else {
            assert(out.base == d.base && n > 0);
            let i = choose|i: int|
                0 <= i < d.segments.len() && #[trigger] page_of_start(d.base, d.segments[i]);
            assert(page_of_start(out.base, out.segments[i]));
        }
        if d.end != 0 && out.end == d.end {
            let i = choose|i: int|
                0 <= i < d.segments.len() && #[trigger] page_of_end(d.end, d.segments[i]);
            assert(page_of_end(out.end, out.segments[i]));
        } else if out.end > 0 {
            assert(page_of_end(out.end, out.segments[n]));
        }
    } else {
        assert(out.segments == d.segments && out.base == d.base && out.end == d.end);
        assert forall|i: int| 0 <= i < out.segments.len() implies #[trigger] pages_hold(
            out.base,
            out.end,
            out.segments[i],
        ) by {
            assert(pages_hold(d.base, d.end, d.segments[i]));
        }
        if d.segments.len() > 0 {
            let i = choose|i: int|
                0 <= i < d.segments.len() && #[trigger] page_of_start(d.base, d.segments[i]);
            assert(page_of_start(out.base, out.segments[i]));
        }
        if d.end > 0 {
            let j = choose|j: int|
                0 <= j < d.segments.len() && #[trigger] page_of_end(d.end, d.segments[j]);
            assert(page_of_end(out.end, out.segments[j]));
        }
    }
}

proof fn drafts_stay_tight(b: Seq<u8>, h: ElfHeader, bias: u32, from: nat, d: Draft)
    requires
        tight(d),
        drafted(b, h, bias, from, d) is Ok,
    ensures
        tight(drafted(b, h, bias, from, d)->Ok_0),
    decreases h.phnum - from,
{
    if from < h.phnum {
        let at = h.phoff + from * h.phentsize;
        stays_tight(d, b, at, bias);
        drafts_stay_tight(b, h, bias, from + 1, with_program(d, program_at(b, at), b.len(), bias)->Ok_0);
    }
}

/// The memory of a plan reaches from the page of the lowest segment to the page of the
/// highest end, and the entry point is that of the file moved by the bias.
pub proof fn planned_range(b: Seq<u8>, bias: u32, entry: u32, d: Draft)
    requires
        plan_of(b, bias) == Ok::<(u32, Draft), ElfLoadErrorView>((entry, d)),
    ensures
        entry == bias + quad_at(b, 24),
        d.segments.len() > 0,
        tight(d),
        header_of(b) is Ok,
        header_of(b)->Ok_0.phoff == quad_at(b, 28),
        header_of(b)->Ok_0.phentsize == pair_at(b, 42),
        header_of(b)->Ok_0.phnum == pair_at(b, 44),
        drafted(b, header_of(b)->Ok_0, bias, 0, blank()) == Ok::<Draft, ElfLoadErrorView>(d),
{
    fields_are_numbers(b, 24);
    fields_are_numbers(b, 28);
    fields_are_numbers(b, 42);
    fields_are_numbers(b, 44);
    drafts_stay_tight(b, header_of(b)->Ok_0, bias, 0, blank());
}

/// What a relocation writes, in numbers modulo 2^32: the bias or the symbol plus the word
/// that was there, the same less the place, or the symbol itself.
pub proof fn relocated_numbers(kind: ArmRelocationKind, place: u32, bias: u32, symbol: u32, addend: u32)
    ensures
        ({
            let r = relocated_word(kind, place, bias, symbol, addend);
            match kind {
                ArmRelocationKind::Relative => r == (bias + addend) % 0x1_0000_0000,
                ArmRelocationKind::Abs32 => r == (symbol + addend) % 0x1_0000_0000,
                ArmRelocationKind::Target1 => r == (symbol + addend) % 0x1_0000_0000,
                ArmRelocationKind::Rel32 => r == (symbol + addend - place) % 0x1_0000_0000,
                ArmRelocationKind::GlobDat => r == symbol,
                ArmRelocationKind::JumpSlot => r == symbol,
                _ => r == addend,
            }
        }),
{
}

} // verus!
