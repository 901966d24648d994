//! What the dynamic section of a file means: which symbols are imports, which
//! libraries are needed, and where the tables lie.

use crate::armv6::memory::nibbles;
use crate::bytes::{fields_are_numbers, pair_at, quad_at, u32_at};
use crate::elf_dynamic::{
    dynamic_of, dynamics_of, entries_between, file_offset_of, header_of, imports_from, names_from,
    needed_of, programs_of, section_imports, sections_of, string_at, table_of, undefined_from,
    value_of, DynamicEntry, DynamicView, ElfDynamicErrorView, ElfTableRange, ImportView,
    PltRelKind, ProgramHeader, SectionHeader, SymbolBinding, SymbolKind,
};
use crate::strings::terminated_text;
use vstd::prelude::*;

verus! {

/// The name of symbol `i` of a table, by the string table.
pub open spec fn symbol_name(symbols: Seq<u8>, strings: Seq<u8>, size: int, i: int) -> Option<
    Seq<char>,
> {
    terminated_text(strings, quad_at(symbols, i * size))
}

/// Whether symbol `i` is an import: its section is number zero, and it has a name.
pub open spec fn is_import(symbols: Seq<u8>, strings: Seq<u8>, size: int, i: int) -> bool {
    &&& pair_at(symbols, i * size + 14) == 0
    &&& quad_at(symbols, i * size) != 0
    &&& match symbol_name(symbols, strings, size, i) {
        Some(name) => name.len() > 0,
        None => true,
    }
}

/// Whether a binding is that of a number.
pub open spec fn binds(v: int, b: SymbolBinding) -> bool {
    match b {
        SymbolBinding::Local => v == 0,
        SymbolBinding::Global => v == 1,
        SymbolBinding::Weak => v == 2,
        SymbolBinding::Other(n) => v == n && v > 2,
    }
}

/// Whether a symbol kind is that of a number.
pub open spec fn is_kind(v: int, k: SymbolKind) -> bool {
    match k {
        SymbolKind::NoType => v == 0,
        SymbolKind::Object => v == 1,
        SymbolKind::Func => v == 2,
        SymbolKind::Section => v == 3,
        SymbolKind::File => v == 4,
        SymbolKind::Common => v == 5,
        SymbolKind::Tls => v == 6,
        SymbolKind::Other(n) => v == n && v > 6,
    }
}

/// Whether an import is symbol `i`: it has the symbol's name, and its binding and
/// kind are the high and the low half of the symbol's information byte.
pub open spec fn imports_symbol(symbols: Seq<u8>, strings: Seq<u8>, size: int, i: int, v: ImportView) -> bool {
    &&& symbol_name(symbols, strings, size, i) == Some(v.name)
    &&& binds(symbols[i * size + 12] as int / 16, v.binding)
    &&& is_kind(symbols[i * size + 12] as int % 16, v.kind)
}

/// The symbols of a table that are imports, from symbol `from` on and in order.
pub open spec fn import_indices(symbols: Seq<u8>, strings: Seq<u8>, size: int, from: int, which: Seq<int>) -> bool {
    let count = symbols.len() as int / size;
    &&& forall|j: int| 0 <= j < which.len() ==> from <= #[trigger] which[j] < count && is_import(
        symbols,
        strings,
        size,
        which[j],
    )
    &&& forall|j: int, k: int| 0 <= j < k < which.len() ==> #[trigger] which[j] < #[trigger] which[k]
    &&& forall|i: int|
        from <= i < count && #[trigger] is_import(symbols, strings, size, i) ==> which.contains(i)
}

/// The imports of a symbol table are exactly its symbols that are undefined and
/// have a name, each once and in the order of the table, behind what was there.
pub proof fn undefined_symbols(
    symbols: Seq<u8>,
    strings: Seq<u8>,
    size: int,
    from: int,
    acc: Seq<ImportView>,
    out: Seq<ImportView>,
) -> (which: Seq<int>)
    requires
        size >= 16,
        0 <= from,
        undefined_from(symbols, strings, size, from, acc) == Ok::<
            Seq<ImportView>,
            ElfDynamicErrorView,
        >(out),
    ensures
        import_indices(symbols, strings, size, from, which),
        out.len() == acc.len() + which.len(),
        forall|j: int| 0 <= j < acc.len() ==> #[trigger] out[j] == acc[j],
        forall|j: int|
            0 <= j < which.len() ==> imports_symbol(
                symbols,
                strings,
                size,
                #[trigger] which[j],
                out[acc.len() + j],
            ),
    decreases symbols.len() as int / size - from,
{
    let count = symbols.len() as int / size;
    if from >= count {
        Seq::empty()
    } else {
        let off = from * size;
        fields_are_numbers(symbols, off);
        fields_are_numbers(symbols, off + 14);
        nibbles(symbols[off + 12]);
        if !is_import(symbols, strings, size, from) {
            let which = undefined_symbols(symbols, strings, size, from + 1, acc, out);
            assert forall|i: int|
                from <= i < count && #[trigger] is_import(
                    symbols,
                    strings,
                    size,
                    i,
                ) implies which.contains(i) by {
                assert(i != from);
            }
            which
        } else {
            let name = string_at(strings, u32_at(symbols, off) as int)->Ok_0;
            let v = ImportView {
                name,
                binding: crate::elf_dynamic::binding_of(symbols[off + 12] >> 4),
                kind: crate::elf_dynamic::kind_of(symbols[off + 12] & 0xf),
            };
            assert(imports_symbol(symbols, strings, size, from, v));
            let rest = undefined_symbols(symbols, strings, size, from + 1, acc.push(v), out);
            let which = seq![from] + rest;
            assert(out[acc.len() as int] == acc.push(v)[acc.len() as int]);
            assert forall|j: int| 0 <= j < acc.len() implies #[trigger] out[j] == acc[j] by {
                assert(out[j] == acc.push(v)[j]);
            }
            assert forall|i: int|
                from <= i < count && #[trigger] is_import(
                    symbols,
                    strings,
                    size,
                    i,
                ) implies which.contains(i) by {
                if i == from {
                    assert(which[0] == i);
                } else {
                    assert(rest.contains(i));
                    let j = choose|j: int| 0 <= j < rest.len() && rest[j] == i;
                    assert(which[j + 1] == i);
                }
            }
            assert forall|j: int| 0 <= j < which.len() implies imports_symbol(
                symbols,
                strings,
                size,
                #[trigger] which[j],
                out[acc.len() + j],
            ) by {
                if j > 0 {
                    assert(which[j] == rest[j - 1]);
                    assert(out[acc.len() + j] == out[acc.push(v).len() + (j - 1)]);
                }
            }
            which
        }
    }
}

/// The bytes that a section covers, cut at the end of the file.
pub open spec fn covered(b: Seq<u8>, s: SectionHeader) -> Seq<u8> {
    if s.size == u32::MAX || s.offset + s.size > b.len() {
        b.subrange(s.offset as int, b.len() as int)
    } else {
        b.subrange(s.offset as int, s.offset + s.size)
    }
}

/// The size of the symbols of a section.
pub open spec fn entry_size(s: SectionHeader) -> int {
    if s.entsize == 0 {
        16
    } else {
        s.entsize as int
    }
}

/// Whether symbol `i` of section `k` is an import.
pub open spec fn section_import(b: Seq<u8>, sections: Seq<SectionHeader>, k: int, i: int) -> bool {
    let s = sections[k];
    &&& 0 <= k < sections.len()
    &&& s.sh_type == 11
    &&& 0 <= i < covered(b, s).len() as int / entry_size(s)
    &&& is_import(covered(b, s), covered(b, sections[s.link as int]), entry_size(s), i)
}

/// Whether one symbol stands before another: in an earlier section, or earlier in
/// the same one.
pub open spec fn earlier(a: (int, int), b: (int, int)) -> bool {
    a.0 < b.0 || (a.0 == b.0 && a.1 < b.1)
}

/// The imports of a file are exactly the undefined named symbols of its dynamic
/// symbol sections, in the order of the sections and of their symbols.
pub proof fn imported_symbols(
    b: Seq<u8>,
    sections: Seq<SectionHeader>,
    from: int,
    acc: Seq<ImportView>,
    out: Seq<ImportView>,
) -> (which: Seq<(int, int)>)
    requires
        0 <= from <= sections.len(),
        imports_from(b, sections, from, acc) == Ok::<Seq<ImportView>, ElfDynamicErrorView>(out),
    ensures
        out.len() == acc.len() + which.len(),
        forall|j: int| 0 <= j < acc.len() ==> #[trigger] out[j] == acc[j],
        forall|j: int|
            0 <= j < which.len() ==> {
                let (k, i) = #[trigger] which[j];
                let s = sections[k];
                &&& from <= k
                &&& section_import(b, sections, k, i)
                &&& imports_symbol(
                    covered(b, s),
                    covered(b, sections[s.link as int]),
                    entry_size(s),
                    i,
                    out[acc.len() + j],
                )
            },
        forall|j: int, k: int|
            0 <= j < k < which.len() ==> earlier(#[trigger] which[j], #[trigger] which[k]),
        forall|k: int, i: int|
            from <= k && #[trigger] section_import(b, sections, k, i) ==> which.contains((k, i)),
    decreases sections.len() - from,
{
    if from >= sections.len() {
        Seq::empty()
    } else if sections[from].sh_type != 11 {
        let which = imported_symbols(b, sections, from + 1, acc, out);
        assert forall|k: int, i: int|
            from <= k && #[trigger] section_import(b, sections, k, i) implies which.contains(
            (k, i),
        ) by {
            assert(k != from);
        }
        which
    } else {
        let s = sections[from];
        let mid = section_imports(b, sections, s, acc)->Ok_0;
        let symbols = covered(b, s);
        let strings = covered(b, sections[s.link as int]);
        assert(b.skip(s.offset as int) =~= b.subrange(s.offset as int, b.len() as int));
        let t = sections[s.link as int];
        assert(b.skip(t.offset as int) =~= b.subrange(t.offset as int, b.len() as int));
        assert(table_of(b, s.offset, s.size) == Ok::<Seq<u8>, ElfDynamicErrorView>(symbols));
        assert(table_of(b, t.offset, t.size) == Ok::<Seq<u8>, ElfDynamicErrorView>(strings));
        let here = undefined_symbols(symbols, strings, entry_size(s), 0, acc, mid);
        let rest = imported_symbols(b, sections, from + 1, mid, out);
        let mine = Seq::new(here.len(), |j: int| (from, here[j]));
        let which = mine + rest;
        assert forall|j: int| 0 <= j < acc.len() implies #[trigger] out[j] == acc[j] by {
            assert(out[j] == mid[j]);
        }
        assert forall|j: int| 0 <= j < which.len() implies ({
            let (k, i) = #[trigger] which[j];
            let s = sections[k];
            &&& from <= k
            &&& section_import(b, sections, k, i)
            &&& imports_symbol(
                covered(b, s),
                covered(b, sections[s.link as int]),
                entry_size(s),
                i,
                out[acc.len() + j],
            )
        }) by {
            if j < here.len() {
                assert(which[j] == (from, here[j]));
                assert(out[acc.len() + j] == mid[acc.len() + j]);
            } else {
                assert(which[j] == rest[j - here.len()]);
                assert(out[acc.len() + j] == out[mid.len() + (j - here.len())]);
            }
        }
        assert forall|j: int, k: int| 0 <= j < k < which.len() implies earlier(
            #[trigger] which[j],
            #[trigger] which[k],
        ) by {
            if k < here.len() {
                assert(here[j] < here[k]);
            } else if j < here.len() {
                assert(which[k] == rest[k - here.len()]);
            } else {
                assert(earlier(rest[j - here.len()], rest[k - here.len()]));
            }
        }
        assert forall|k: int, i: int|
            from <= k && #[trigger] section_import(b, sections, k, i) implies which.contains(
            (k, i),
        ) by {
            if k == from {
                assert(here.contains(i));
                let j = choose|j: int| 0 <= j < here.len() && here[j] == i;
                assert(which[j] == (k, i));
            } else {
                assert(rest.contains((k, i)));
                let j = choose|j: int| 0 <= j < rest.len() && rest[j] == (k, i);
                assert(which[here.len() + j] == (k, i));
            }
        }
        which
    }
}

/// The value of a tag is that of the first entry that has it; without such an
/// entry there is none.
pub proof fn first_value(ds: Seq<DynamicEntry>, tag: u32)
    ensures
        match value_of(ds, tag) {
            Some(v) => exists|i: int|
                0 <= i < ds.len() && (#[trigger] ds[i]).tag == tag && ds[i].value == v && (forall|
                    j: int,
                |
                    0 <= j < i ==> (#[trigger] ds[j]).tag != tag),
            None => forall|j: int| 0 <= j < ds.len() ==> (#[trigger] ds[j]).tag != tag,
        },
    decreases ds.len(),
{
    if ds.len() > 0 {
        let rest = ds.drop_first();
        first_value(rest, tag);
        if ds[0].tag == tag {
            assert(ds[0].value == ds[0].value);
        } else {
            match value_of(rest, tag) {
                Some(v) => {
                    let i = choose|i: int|
                        0 <= i < rest.len() && (#[trigger] rest[i]).tag == tag && rest[i].value == v
                            && (forall|j: int| 0 <= j < i ==> (#[trigger] rest[j]).tag != tag);
                    assert(ds[i + 1] == rest[i]);
                    assert forall|j: int| 0 <= j < i + 1 implies (#[trigger] ds[j]).tag != tag by {
                        if j > 0 {
                            assert(ds[j] == rest[j - 1]);
                        }
                    }
                },
                None => {
                    assert forall|j: int| 0 <= j < ds.len() implies (#[trigger] ds[j]).tag != tag by {
                        if j > 0 {
                            assert(ds[j] == rest[j - 1]);
                        }
                    }
                },
            }
        }
    }
}

/// Entry `k` of a dynamic table is the pair of words eight times `k` behind its
/// start. The table ends before the first entry with tag zero, or where no whole
/// entry is left.
pub proof fn dynamic_entries(b: Seq<u8>, pos: int, end: int)
    requires
        pos <= end,
    ensures
        ({
            let ds = entries_between(b, pos, end);
            &&& forall|k: int|
                0 <= k < ds.len() ==> (#[trigger] ds[k]).tag == quad_at(b, pos + 8 * k) && ds[k].value
                    == quad_at(b, pos + 8 * k + 4) && ds[k].tag != 0
            &&& pos + 8 * ds.len() <= end
            &&& pos + 8 * ds.len() + 8 > end || quad_at(b, pos + 8 * ds.len()) == 0
        }),
    decreases end - pos,
{
    let ds = entries_between(b, pos, end);
    fields_are_numbers(b, pos);
    fields_are_numbers(b, pos + 4);
    if !(pos + 8 > end || u32_at(b, pos) == 0) {
        dynamic_entries(b, pos + 8, end);
        let rest = entries_between(b, pos + 8, end);
        assert forall|k: int| 0 <= k < ds.len() implies (#[trigger] ds[k]).tag == quad_at(
            b,
            pos + 8 * k,
        ) && ds[k].value == quad_at(b, pos + 8 * k + 4) && ds[k].tag != 0 by {
            if k > 0 {
                assert(ds[k] == rest[k - 1]);
            }
        }
    }
}

/// Whether a load segment keeps an address from being looked up further: it holds
/// the address in its part from the file, or its range leaves the address space.
pub open spec fn decides(p: ProgramHeader, addr: u32) -> bool {
    &&& p.p_type == 1
    &&& p.vaddr + p.memsz > u32::MAX || p.vaddr + p.filesz > u32::MAX || (p.vaddr <= addr < p.vaddr
        + p.memsz && addr < p.vaddr + p.filesz)
}

/// A loaded address lies in the file where the first load segment that holds it
/// puts it: as far behind the segment's offset as the address lies behind the
/// segment's start.
pub proof fn file_offsets(ps: Seq<ProgramHeader>, addr: u32)
    ensures
        match file_offset_of(ps, addr) {
            Some(off) => exists|i: int|
                0 <= i < ps.len() && (#[trigger] ps[i]).p_type == 1 && ps[i].vaddr <= addr
                    < ps[i].vaddr + ps[i].filesz && addr < ps[i].vaddr + ps[i].memsz && off
                    - ps[i].offset == addr - ps[i].vaddr && (forall|j: int|
                    0 <= j < i ==> !decides(#[trigger] ps[j], addr)),
            None => forall|i: int|
                0 <= i < ps.len() && decides(#[trigger] ps[i], addr) && (forall|j: int|
                    0 <= j < i ==> !decides(#[trigger] ps[j], addr)) ==> ps[i].vaddr + ps[i].memsz
                    > u32::MAX || ps[i].vaddr + ps[i].filesz > u32::MAX || ps[i].offset + addr
                    - ps[i].vaddr > u32::MAX,
        },
    decreases ps.len(),
{
    if ps.len() > 0 {
        let rest = ps.drop_first();
        file_offsets(rest, addr);
        if !decides(ps[0], addr) {
            match file_offset_of(rest, addr) {
                Some(off) => {
                    let i = choose|i: int|
                        0 <= i < rest.len() && (#[trigger] rest[i]).p_type == 1 && rest[i].vaddr
                            <= addr < rest[i].vaddr + rest[i].filesz && addr < rest[i].vaddr
                            + rest[i].memsz && off - rest[i].offset == addr - rest[i].vaddr && (
                        forall|j: int| 0 <= j < i ==> !decides(#[trigger] rest[j], addr));
                    assert(ps[i + 1] == rest[i]);
                    assert forall|j: int| 0 <= j < i + 1 implies !decides(#[trigger] ps[j], addr) by {
                        if j > 0 {
                            assert(ps[j] == rest[j - 1]);
                        }
                    }
                },
                None => {
                    assert forall|i: int|
                        0 <= i < ps.len() && decides(#[trigger] ps[i], addr) && (forall|j: int|
                            0 <= j < i ==> !decides(#[trigger] ps[j], addr)) implies ps[i].vaddr
                        + ps[i].memsz > u32::MAX || ps[i].vaddr + ps[i].filesz > u32::MAX
                        || ps[i].offset + addr - ps[i].vaddr > u32::MAX by {
                        assert(i > 0);
                        assert(ps[i] == rest[i - 1]);
                        assert forall|j: int| 0 <= j < i - 1 implies !decides(
                            #[trigger] rest[j],
                            addr,
                        ) by {
                            assert(rest[j] == ps[j + 1]);
                        }
                    }
                },
            }
        } else {
            assert forall|i: int|
                0 <= i < ps.len() && decides(#[trigger] ps[i], addr) && (forall|j: int|
                    0 <= j < i ==> !decides(#[trigger] ps[j], addr)) implies i == 0 by {
                if i > 0 {
                    assert(decides(ps[0], addr));
                }
            }
        }
    }
}

/// The names of the needed libraries are the texts of the entries with tag one, in
/// the order of the table.
pub proof fn needed_names(
    table: Seq<u8>,
    ds: Seq<DynamicEntry>,
    from: int,
    acc: Seq<Seq<char>>,
    out: Seq<Seq<char>>,
) -> (which: Seq<int>)
    requires
        0 <= from <= ds.len(),
        names_from(table, ds, from, acc) == Ok::<Seq<Seq<char>>, ElfDynamicErrorView>(out),
    ensures
        out.len() == acc.len() + which.len(),
        forall|j: int| 0 <= j < acc.len() ==> #[trigger] out[j] == acc[j],
        forall|j: int|
            0 <= j < which.len() ==> from <= #[trigger] which[j] < ds.len() && ds[which[j]].tag == 1
                && terminated_text(table, ds[which[j]].value as int) == Some(out[acc.len() + j]),
        forall|j: int, k: int| 0 <= j < k < which.len() ==> #[trigger] which[j] < #[trigger] which[k],
        forall|i: int|
            from <= i < ds.len() && (#[trigger] ds[i]).tag == 1 ==> which.contains(i),
    decreases ds.len() - from,
{
    if from >= ds.len() {
        Seq::empty()
    } else if ds[from].tag != 1 {
        needed_names(table, ds, from + 1, acc, out)
    } else {
        let name = string_at(table, ds[from].value as int)->Ok_0;
        let rest = needed_names(table, ds, from + 1, acc.push(name), out);
        let which = seq![from] + rest;
        assert(out[acc.len() as int] == acc.push(name)[acc.len() as int]);
        assert forall|j: int| 0 <= j < acc.len() implies #[trigger] out[j] == acc[j] by {
            assert(out[j] == acc.push(name)[j]);
        }
        assert forall|j: int| 0 <= j < which.len() implies from <= #[trigger] which[j] < ds.len()
            && ds[which[j]].tag == 1 && terminated_text(table, ds[which[j]].value as int) == Some(
            out[acc.len() + j],
        ) by {
            if j > 0 {
                assert(which[j] == rest[j - 1]);
                assert(out[acc.len() + j] == out[acc.push(name).len() + (j - 1)]);
            }
        }
        assert forall|i: int| from <= i < ds.len() && (#[trigger] ds[i]).tag == 1 implies which.contains(
            i,
        ) by {
            if i == from {
                assert(which[0] == i);
            } else {
                assert(rest.contains(i));
                let j = choose|j: int| 0 <= j < rest.len() && rest[j] == i;
                assert(which[j + 1] == i);
            }
        }
        which
    }
}

/// Whether an address and a size, each the first value of a tag, give a table:
/// both are there and the size is not zero.
pub open spec fn gives_range(ds: Seq<DynamicEntry>, at: u32, size: u32, r: Option<ElfTableRange>) -> bool {
    match r {
        Some(t) => value_of(ds, at) == Some(t.addr) && value_of(ds, size) == Some(t.size) && t.size
            != 0,
        None => value_of(ds, at) is None || value_of(ds, size) is None || value_of(ds, size) == Some(
            0u32,
        ),
    }
}

/// The program headers and section headers of a file stand where its header says,
/// each as far behind the one before as the header says.
pub open spec fn headers_of(b: Seq<u8>, ps: Seq<ProgramHeader>, sections: Seq<SectionHeader>) -> bool {
    &&& ps.len() == pair_at(b, 44)
    &&& sections.len() == pair_at(b, 48)
    &&& forall|i: int|
        0 <= i < ps.len() ==> {
            let p = #[trigger] ps[i];
            let at = quad_at(b, 28) + i * pair_at(b, 42);
            &&& p.p_type == quad_at(b, at)
            &&& p.offset == quad_at(b, at + 4)
            &&& p.vaddr == quad_at(b, at + 8)
            &&& p.filesz == quad_at(b, at + 16)
            &&& p.memsz == quad_at(b, at + 20)
        }
    &&& forall|i: int|
        0 <= i < sections.len() ==> {
            let s = #[trigger] sections[i];
            let at = quad_at(b, 32) + i * pair_at(b, 46);
            &&& s.sh_type == quad_at(b, at + 4)
            &&& s.offset == quad_at(b, at + 16)
            &&& s.size == quad_at(b, at + 20)
            &&& s.link == quad_at(b, at + 24)
            &&& s.entsize == quad_at(b, at + 36)
        }
}

/// A file that is read is a little-endian 32-bit ARM file, and its headers stand
/// where its first bytes say.
pub proof fn headers_stand_where_the_file_says(
    b: Seq<u8>,
    ps: Seq<ProgramHeader>,
    sections: Seq<SectionHeader>,
)
    requires
        header_of(b) is Ok,
        programs_of(b, header_of(b)->Ok_0) == Ok::<Seq<ProgramHeader>, ElfDynamicErrorView>(ps),
        sections_of(b, header_of(b)->Ok_0) == Ok::<Seq<SectionHeader>, ElfDynamicErrorView>(
            sections,
        ),
    ensures
        b.len() >= 52,
        b[0] == 0x7f && b[1] == 0x45 && b[2] == 0x4c && b[3] == 0x46,
        b[4] == 1 && b[5] == 1,
        pair_at(b, 18) == 40,
        headers_of(b, ps, sections),
{
    fields_are_numbers(b, 18);
    fields_are_numbers(b, 28);
    fields_are_numbers(b, 32);
    fields_are_numbers(b, 42);
    fields_are_numbers(b, 44);
    fields_are_numbers(b, 46);
    fields_are_numbers(b, 48);
    assert forall|i: int| 0 <= i < ps.len() implies ({
        let p = #[trigger] ps[i];
        let at = quad_at(b, 28) + i * pair_at(b, 42);
        &&& p.p_type == quad_at(b, at)
        &&& p.offset == quad_at(b, at + 4)
        &&& p.vaddr == quad_at(b, at + 8)
        &&& p.filesz == quad_at(b, at + 16)
        &&& p.memsz == quad_at(b, at + 20)
    }) by {
        let at = quad_at(b, 28) + i * pair_at(b, 42);
        fields_are_numbers(b, at);
        fields_are_numbers(b, at + 4);
        fields_are_numbers(b, at + 8);
        fields_are_numbers(b, at + 16);
        fields_are_numbers(b, at + 20);
    }
    assert forall|i: int| 0 <= i < sections.len() implies ({
        let s = #[trigger] sections[i];
        let at = quad_at(b, 32) + i * pair_at(b, 46);
        &&& s.sh_type == quad_at(b, at + 4)
        &&& s.offset == quad_at(b, at + 16)
        &&& s.size == quad_at(b, at + 20)
        &&& s.link == quad_at(b, at + 24)
        &&& s.entsize == quad_at(b, at + 36)
    }) by {
        let at = quad_at(b, 32) + i * pair_at(b, 46);
        fields_are_numbers(b, at + 4);
        fields_are_numbers(b, at + 16);
        fields_are_numbers(b, at + 20);
        fields_are_numbers(b, at + 24);
        fields_are_numbers(b, at + 36);
    }
}

/// What is reported of a file: the symbol table, the relocation tables and the
/// initialisers are what the entries with their tags say.
pub proof fn tables_by_tag(b: Seq<u8>, v: DynamicView) -> (ds: Seq<DynamicEntry>)
    requires
        dynamic_of(b) == Ok::<DynamicView, ElfDynamicErrorView>(v),
    ensures
        dynamics_of(b, programs_of(b, header_of(b)->Ok_0)->Ok_0) == Ok::<
            Seq<DynamicEntry>,
            ElfDynamicErrorView,
        >(ds),
        imports_from(b, sections_of(b, header_of(b)->Ok_0)->Ok_0, 0, Seq::empty()) == Ok::<
            Seq<ImportView>,
            ElfDynamicErrorView,
        >(v.imports),
        v.init == value_of(ds, 12),
        gives_range(ds, 25, 27, v.init_array),
        gives_range(ds, 17, 18, v.relocations.rel),
        gives_range(ds, 23, 2, v.relocations.plt_rel),
        v.relocations.rel_entry_size == value_of(ds, 19),
        match v.relocations.plt_rel_kind {
            Some(PltRelKind::Rel) => value_of(ds, 20) == Some(17u32),
            Some(PltRelKind::Rela) => value_of(ds, 20) == Some(7u32),
            Some(PltRelKind::Other(n)) => value_of(ds, 20) == Some(n) && n != 7 && n != 17,
            None => value_of(ds, 20) is None,
        },
        match v.dynsym {
            Some(t) => value_of(ds, 6) == Some(t.addr) && value_of(ds, 11) == t.entry_size,
            None => value_of(ds, 6) is None,
        },
{
    dynamics_of(b, programs_of(b, header_of(b)->Ok_0)->Ok_0)->Ok_0
}

/// The needed libraries of a file are named by the string table that tags five and
/// ten describe; without tag five there are none.
pub proof fn needed_libraries(
    b: Seq<u8>,
    ps: Seq<ProgramHeader>,
    ds: Seq<DynamicEntry>,
    out: Seq<Seq<char>>,
)
    requires
        needed_of(b, ps, ds) == Ok::<Seq<Seq<char>>, ElfDynamicErrorView>(out),
    ensures
        value_of(ds, 5) is None ==> out.len() == 0,
        value_of(ds, 5) is Some ==> {
            let off = file_offset_of(ps, value_of(ds, 5)->0);
            &&& off is Some
            &&& off->0 <= b.len()
            &&& exists|table: Seq<u8>| #[trigger]
                names_from(table, ds, 0, Seq::empty()) == Ok::<Seq<Seq<char>>, ElfDynamicErrorView>(
                    out,
                ) && table == b.subrange(
                    off->0 as int,
                    match value_of(ds, 10) {
                        Some(size) => if off->0 + size <= b.len() && size != u32::MAX {
                            off->0 + size
                        } else {
                            b.len() as int
                        },
                        None => b.len() as int,
                    },
                )
        },
{
    if value_of(ds, 5) is Some {
        let off = file_offset_of(ps, value_of(ds, 5)->0)->0;
        let size = match value_of(ds, 10) {
            Some(size) => size,
            None => u32::MAX,
        };
        let table = table_of(b, off, size)->Ok_0;
        assert(b.skip(off as int) =~= b.subrange(off as int, b.len() as int));
        assert(names_from(table, ds, 0, Seq::empty()) == Ok::<Seq<Seq<char>>, ElfDynamicErrorView>(
            out,
        ));
    }
}

} // verus!
