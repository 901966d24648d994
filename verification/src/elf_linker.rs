//! Applying relocations to a loaded image.

use crate::armv6::memory::{load32_after_store32, MemState, Memory};
use crate::armv6::trap::TrapView;
use crate::elf_dynamic::{ArmRelocationKind, ElfRelocation};
use crate::text::{dec, dec_text, hex32, hex32_text, join};
use vstd::prelude::*;

verus! {

/// Gives the addresses of symbols.
pub trait SymbolResolver {
    /// Whether this resolver may be asked for `name`.
    spec fn answers(&self, name: Seq<char>) -> bool;

    /// Whether `address` can be the answer for `name`.
    spec fn resolves(&self, name: Seq<char>, address: Option<u32>) -> bool;

    /// The address of `name`, if it has one.
    fn resolve(&self, name: &str) -> (r: Option<u32>)
        requires
            self.answers(name@),
        ensures
            self.resolves(name@, r),
    ;
}

impl<F> SymbolResolver for F where F: for <'a>Fn(&'a str) -> Option<u32> {
    open spec fn answers(&self, name: Seq<char>) -> bool {
        forall|s: &str| s@ == name ==> call_requires(*self, (s,))
    }

    open spec fn resolves(&self, name: Seq<char>, address: Option<u32>) -> bool {
        exists|s: &str| s@ == name && call_ensures(*self, (s,), address)
    }

    fn resolve(&self, name: &str) -> (r: Option<u32>) {
        self(name)
    }
}

/// A function that may be called on every text of a name may be asked for the name.
pub proof fn functions_answer<F>(f: F, name: Seq<char>) where
    F: for <'a>Fn(&'a str) -> Option<u32>,

    requires
        forall|s: &str| s@ == name ==> #[trigger] call_requires(f, (s,)),
    ensures
        f.answers(name),
{
}

/// What a function resolves a name to is what it returns for a text of that name.
pub proof fn functions_resolve<F>(f: F, name: Seq<char>, address: Option<u32>) where
    F: for <'a>Fn(&'a str) -> Option<u32>,

    ensures
        f.resolves(name, address) <==> exists|s: &str|
            s@ == name && #[trigger] call_ensures(f, (s,), address),
{
}

/// Why a relocation cannot be applied.
#[derive(Debug, Clone, PartialEq, Eq)]
pub enum ElfLinkError {
    AddressOverflow { offset: u32 },
    MissingSymbolName { symbol_index: u32 },
    UnresolvedSymbol(String),
    UnsupportedRelocation(ArmRelocationKind),
    Memory(String),
}

/// An [`ElfLinkError`] as a mathematical value.
pub enum ElfLinkErrorView {
    AddressOverflow { offset: u32 },
    MissingSymbolName { symbol_index: u32 },
    UnresolvedSymbol(Seq<char>),
    UnsupportedRelocation(ArmRelocationKind),
    Memory(Seq<char>),
}

impl View for ElfLinkError {
    type V = ElfLinkErrorView;

    open spec fn view(&self) -> ElfLinkErrorView {
        match self {
            ElfLinkError::AddressOverflow { offset } => ElfLinkErrorView::AddressOverflow {
                offset: *offset,
            },
            ElfLinkError::MissingSymbolName { symbol_index } =>
                ElfLinkErrorView::MissingSymbolName { symbol_index: *symbol_index },
            ElfLinkError::UnresolvedSymbol(name) => ElfLinkErrorView::UnresolvedSymbol(name@),
            ElfLinkError::UnsupportedRelocation(kind) => ElfLinkErrorView::UnsupportedRelocation(
                *kind,
            ),
            ElfLinkError::Memory(err) => ElfLinkErrorView::Memory(err@),
        }
    }
}

impl ElfLinkErrorView {
    /// The message for this error.
    pub open spec fn text(self) -> Seq<char> {
        match self {
            ElfLinkErrorView::AddressOverflow { offset } =>
                "relocation address overflow for offset "@ + hex32_text(offset),
            ElfLinkErrorView::MissingSymbolName { symbol_index } =>
                "relocation references unnamed symbol index "@ + dec_text(symbol_index as nat),
            ElfLinkErrorView::UnresolvedSymbol(name) => "unresolved symbol: "@ + name,
            ElfLinkErrorView::UnsupportedRelocation(kind) => "unsupported relocation: "@
                + kind.text(),
            ElfLinkErrorView::Memory(err) => err,
        }
    }
}

impl ElfLinkError {
    /// The message for this error.
    pub fn to_string(&self) -> (r: String)
        ensures
            r@ == self@.text(),
    {
        match self {
            ElfLinkError::AddressOverflow { offset } => join(
                "relocation address overflow for offset ",
                hex32(*offset).as_str(),
            ),
            ElfLinkError::MissingSymbolName { symbol_index } => join(
                "relocation references unnamed symbol index ",
                dec(*symbol_index as u64).as_str(),
            ),
            ElfLinkError::UnresolvedSymbol(name) => join("unresolved symbol: ", name.as_str()),
            ElfLinkError::UnsupportedRelocation(kind) => join(
                "unsupported relocation: ",
                kind.to_string().as_str(),
            ),
            ElfLinkError::Memory(err) => err.clone(),
        }
    }
}

/// A result with its error taken by view.
pub type Linked<T> = core::result::Result<T, ElfLinkErrorView>;

/// A result with its error taken by view.
pub open spec fn linked<T>(r: Result<T, ElfLinkError>) -> Linked<T> {
    match r {
        Ok(v) => Ok(v),
        Err(e) => Err(e@),
    }
}

/// The name of the symbol that a relocation refers to.
pub open spec fn name_of(rel: ElfRelocation) -> Option<Seq<char>> {
    match rel.symbol_name {
        Some(name) => Some(name@),
        None => None,
    }
}

/// Whether a kind of relocation needs the address of a symbol.
pub open spec fn needs_symbol(kind: ArmRelocationKind) -> bool {
    match kind {
        ArmRelocationKind::Abs32 => true,
        ArmRelocationKind::Target1 => true,
        ArmRelocationKind::Rel32 => true,
        ArmRelocationKind::GlobDat => true,
        ArmRelocationKind::JumpSlot => true,
        _ => false,
    }
}

/// Whether applying a relocation asks for the address of a symbol.
pub open spec fn asks(rel: ElfRelocation) -> bool {
    needs_symbol(rel.kind) && name_of(rel) is Some
}

/// The address of the symbol of a relocation, given what the resolver answered.
pub open spec fn symbol_of(rel: ElfRelocation, answer: Option<u32>) -> Linked<u32> {
    match (name_of(rel), answer) {
        (None, _) => Err(ElfLinkErrorView::MissingSymbolName { symbol_index: rel.symbol_index }),
        (Some(name), None) => Err(ElfLinkErrorView::UnresolvedSymbol(name)),
        (Some(_), Some(address)) => Ok(address),
    }
}

/// A load with its trap as a link error.
pub open spec fn load_linked(m: MemState, addr: u32) -> Linked<u32> {
    match m.load32(addr) {
        Ok(v) => Ok(v),
        Err(t) => Err(ElfLinkErrorView::Memory(t.text())),
    }
}

/// A store with its trap as a link error.
pub open spec fn store_linked(m: MemState, addr: u32, value: u32) -> (MemState, Linked<()>) {
    match m.store32(addr, value) {
        (m1, Ok(_)) => (m1, Ok(())),
        (m1, Err(t)) => (m1, Err(ElfLinkErrorView::Memory(t.text()))),
    }
}

/// The memory after the word at `place` was replaced by its sum with `base`,
/// modulo the word size.
pub open spec fn shifted(m: MemState, place: u32, base: u32) -> (MemState, Linked<()>) {
    match load_linked(m, place) {
        Err(e) => (m, Err(e)),
        Ok(addend) => store_linked(m, place, base.wrapping_add(addend)),
    }
}

/// The memory after one relocation at `place`.
pub open spec fn relocated(
    m: MemState,
    place: u32,
    bias: u32,
    rel: ElfRelocation,
    answer: Option<u32>,
) -> (MemState, Linked<()>) {
    match rel.kind {
        ArmRelocationKind::Relative => shifted(m, place, bias),
        ArmRelocationKind::V4Bx => (m, Ok(())),
        ArmRelocationKind::Copy => (m, Err(ElfLinkErrorView::UnsupportedRelocation(rel.kind))),
        ArmRelocationKind::Other(_) => (m, Err(ElfLinkErrorView::UnsupportedRelocation(rel.kind))),
        _ => match symbol_of(rel, answer) {
            Err(e) => (m, Err(e)),
            Ok(symbol) => match rel.kind {
                ArmRelocationKind::GlobDat => store_linked(m, place, symbol),
                ArmRelocationKind::JumpSlot => store_linked(m, place, symbol),
                ArmRelocationKind::Rel32 => match load_linked(m, place) {
                    Err(e) => (m, Err(e)),
                    Ok(addend) => store_linked(
                        m,
                        place,
                        symbol.wrapping_add(addend).wrapping_sub(place),
                    ),
                },
                _ => shifted(m, place, symbol),
            },
        },
    }
}

/// The memory after one relocation of an image that was loaded at `bias`.
pub open spec fn relocated_at_bias(
    m: MemState,
    bias: u32,
    rel: ElfRelocation,
    answer: Option<u32>,
) -> (MemState, Linked<()>) {
    if bias + rel.offset > u32::MAX {
        (m, Err(ElfLinkErrorView::AddressOverflow { offset: rel.offset }))
    } else {
        relocated(m, (bias + rel.offset) as u32, bias, rel, answer)
    }
}

/// Whether a resolver may answer `answer` when a relocation is applied: any
/// value will do where it is not asked.
pub open spec fn can_answer<R: SymbolResolver>(
    resolver: R,
    bias: u32,
    rel: ElfRelocation,
    answer: Option<u32>,
) -> bool {
    asks(rel) && bias + rel.offset <= u32::MAX ==> resolver.resolves(name_of(rel)->0, answer)
}

/// Whether the relocations, applied in order up to the first that fails, can
/// lead from `m` to the outcome `after`, with the symbols that the resolver gives.
pub open spec fn can_link<R: SymbolResolver>(
    m: MemState,
    bias: u32,
    rels: Seq<ElfRelocation>,
    resolver: R,
    after: (MemState, Linked<()>),
) -> bool
    decreases rels.len(),
{
    if rels.len() == 0 {
        after == (m, Ok::<(), ElfLinkErrorView>(()))
    } else {
        exists|answer: Option<u32>| #[trigger]
            can_answer(resolver, bias, rels[0], answer) && {
                let (m1, r1) = relocated_at_bias(m, bias, rels[0], answer);
                match r1 {
                    Ok(_) => can_link(m1, bias, rels.drop_first(), resolver, after),
                    Err(e) => after == (m1, Err::<(), ElfLinkErrorView>(e)),
                }
            }
    }
}

/// The memory after the relocations, applied in order up to the first that
/// fails, with the symbols of a table.
pub open spec fn linked_by(
    m: MemState,
    bias: u32,
    rels: Seq<ElfRelocation>,
    table: spec_fn(Seq<char>) -> Option<u32>,
) -> (MemState, Linked<()>)
    decreases rels.len(),
{
    if rels.len() == 0 {
        (m, Ok(()))
    } else {
        let answer = if asks(rels[0]) {
            table(name_of(rels[0])->0)
        } else {
            None
        };
        match relocated_at_bias(m, bias, rels[0], answer) {
            (m1, Ok(_)) => linked_by(m1, bias, rels.drop_first(), table),
            (m1, Err(e)) => (m1, Err(e)),
        }
    }
}

/// A resolver that answers as a table does leads to one outcome: that of the table.
pub proof fn linking_follows_the_table<R: SymbolResolver>(
    m: MemState,
    bias: u32,
    rels: Seq<ElfRelocation>,
    resolver: R,
    table: spec_fn(Seq<char>) -> Option<u32>,
    after: (MemState, Linked<()>),
)
    requires
        forall|name: Seq<char>, answer: Option<u32>| #[trigger]
            resolver.resolves(name, answer) ==> answer == table(name),
        can_link(m, bias, rels, resolver, after),
    ensures
        after == linked_by(m, bias, rels, table),
    decreases rels.len(),
{
    if rels.len() > 0 {
        let answer = choose|answer: Option<u32>| #[trigger]
            can_answer(resolver, bias, rels[0], answer) && {
                let (m1, r1) = relocated_at_bias(m, bias, rels[0], answer);
                match r1 {
                    Ok(_) => can_link(m1, bias, rels.drop_first(), resolver, after),
                    Err(e) => after == (m1, Err::<(), ElfLinkErrorView>(e)),
                }
            };
        let (m1, r1) = relocated_at_bias(m, bias, rels[0], answer);
        if r1 is Ok {
            linking_follows_the_table(m1, bias, rels.drop_first(), resolver, table, after);
        }
    }
}

/// With the symbols of a table, relocating with one list behind another is
/// relocating with each in turn. The second has no part where the first fails.
pub proof fn linking_in_two_parts(
    m: MemState,
    bias: u32,
    first: Seq<ElfRelocation>,
    second: Seq<ElfRelocation>,
    table: spec_fn(Seq<char>) -> Option<u32>,
)
    ensures
        linked_by(m, bias, first + second, table) == match linked_by(m, bias, first, table) {
            (m1, Ok(_)) => linked_by(m1, bias, second, table),
            (m1, Err(e)) => (m1, Err(e)),
        },
    decreases first.len(),
{
    if first.len() == 0 {
        assert(first + second =~= second);
    } else {
        assert((first + second).drop_first() =~= first.drop_first() + second);
        let answer = if asks(first[0]) {
            table(name_of(first[0])->0)
        } else {
            None
        };
        let (m1, r1) = relocated_at_bias(m, bias, first[0], answer);
        if r1 is Ok {
            linking_in_two_parts(m1, bias, first.drop_first(), second, table);
        }
    }
}

/// Whether the two lists, one after the other, can lead from `m` to `after`.
pub open spec fn can_link_in_turn<R: SymbolResolver>(
    m: MemState,
    bias: u32,
    first: Seq<ElfRelocation>,
    second: Seq<ElfRelocation>,
    resolver: R,
    after: (MemState, Linked<()>),
) -> bool {
    ||| after.1 is Err && can_link(m, bias, first, resolver, after)
    ||| exists|mid: MemState| #[trigger]
        can_link(m, bias, first, resolver, (mid, Ok::<(), ElfLinkErrorView>(()))) && can_link(
            mid,
            bias,
            second,
            resolver,
            after,
        )
}

/// With any resolver, what relocating with one list behind another can lead to
/// is what relocating with each in turn can lead to.
pub proof fn any_linking_in_two_parts<R: SymbolResolver>(
    m: MemState,
    bias: u32,
    first: Seq<ElfRelocation>,
    second: Seq<ElfRelocation>,
    resolver: R,
    after: (MemState, Linked<()>),
)
    ensures
        can_link(m, bias, first + second, resolver, after) <==> can_link_in_turn(
            m,
            bias,
            first,
            second,
            resolver,
            after,
        ),
    decreases first.len(),
{
    let whole = first + second;
    let done = Ok::<(), ElfLinkErrorView>(());
    if first.len() == 0 {
        assert(whole =~= second);
        if can_link(m, bias, whole, resolver, after) {
            assert(can_link(m, bias, first, resolver, (m, done)));
        }
    } else {
        let rest = first.drop_first();
        assert(whole.drop_first() =~= rest + second);
        assert(whole[0] == first[0]);
        assert forall|answer: Option<u32>| #[trigger]
            can_answer(resolver, bias, first[0], answer) implies can_link(
            relocated_at_bias(m, bias, first[0], answer).0,
            bias,
            rest + second,
            resolver,
            after,
        ) == can_link_in_turn(
            relocated_at_bias(m, bias, first[0], answer).0,
            bias,
            rest,
            second,
            resolver,
            after,
        ) by {
            any_linking_in_two_parts(
                relocated_at_bias(m, bias, first[0], answer).0,
                bias,
                rest,
                second,
                resolver,
                after,
            );
        }
        if can_link(m, bias, whole, resolver, after) {
            let answer = choose|answer: Option<u32>| #[trigger]
                can_answer(resolver, bias, first[0], answer) && {
                    let (m1, r1) = relocated_at_bias(m, bias, first[0], answer);
                    match r1 {
                        Ok(_) => can_link(m1, bias, rest + second, resolver, after),
                        Err(e) => after == (m1, Err::<(), ElfLinkErrorView>(e)),
                    }
                };
            let (m1, r1) = relocated_at_bias(m, bias, first[0], answer);
            if r1 is Ok {
                if after.1 is Err && can_link(m1, bias, rest, resolver, after) {
                    assert(can_link(m, bias, first, resolver, after));
                } else {
                    let mid = choose|mid: MemState| #[trigger]
                        can_link(m1, bias, rest, resolver, (mid, done)) && can_link(
                            mid,
                            bias,
                            second,
                            resolver,
                            after,
                        );
                    assert(can_link(m, bias, first, resolver, (mid, done)));
                }
            } else {
                assert(can_link(m, bias, first, resolver, after));
            }
        }
        if can_link_in_turn(m, bias, first, second, resolver, after) {
            let early = after.1 is Err && can_link(m, bias, first, resolver, after);
            let mid = choose|mid: MemState| #[trigger]
                can_link(m, bias, first, resolver, (mid, done)) && can_link(
                    mid,
                    bias,
                    second,
                    resolver,
                    after,
                );
            let reached = if early {
                after
            } else {
                (mid, done)
            };
            assert(can_link(m, bias, first, resolver, reached));
            let answer = choose|answer: Option<u32>| #[trigger]
                can_answer(resolver, bias, first[0], answer) && {
                    let (m1, r1) = relocated_at_bias(m, bias, first[0], answer);
                    match r1 {
                        Ok(_) => can_link(m1, bias, rest, resolver, reached),
                        Err(e) => reached == (m1, Err::<(), ElfLinkErrorView>(e)),
                    }
                };
            assert(can_answer(resolver, bias, whole[0], answer));
            let (m1, r1) = relocated_at_bias(m, bias, first[0], answer);
            if r1 is Ok {
                assert(can_link_in_turn(m1, bias, rest, second, resolver, after));
            }
        }
    }
}

/// Relocations never change which addresses can be read and written, nor the
/// extent of the memory.
pub proof fn linking_keeps_the_faults<R: SymbolResolver>(
    m: MemState,
    bias: u32,
    rels: Seq<ElfRelocation>,
    resolver: R,
    after: (MemState, Linked<()>),
)
    requires
        can_link(m, bias, rels, resolver, after),
    ensures
        after.0.load_faults == m.load_faults,
        after.0.store_faults == m.store_faults,
        after.0.extent == m.extent,
    decreases rels.len(),
{
    if rels.len() > 0 {
        let answer = choose|answer: Option<u32>| #[trigger]
            can_answer(resolver, bias, rels[0], answer) && {
                let (m1, r1) = relocated_at_bias(m, bias, rels[0], answer);
                match r1 {
                    Ok(_) => can_link(m1, bias, rels.drop_first(), resolver, after),
                    Err(e) => after == (m1, Err::<(), ElfLinkErrorView>(e)),
                }
            };
        let (m1, r1) = relocated_at_bias(m, bias, rels[0], answer);
        if r1 is Ok {
            linking_keeps_the_faults(m1, bias, rels.drop_first(), resolver, after);
        }
    }
}

/// The word that a relocation writes where memory can be read and written.
pub open spec fn relocated_word(kind: ArmRelocationKind, place: u32, bias: u32, symbol: u32, addend: u32) -> u32 {
    match kind {
        ArmRelocationKind::Relative => bias.wrapping_add(addend),
        ArmRelocationKind::Abs32 => symbol.wrapping_add(addend),
        ArmRelocationKind::Target1 => symbol.wrapping_add(addend),
        ArmRelocationKind::Rel32 => symbol.wrapping_add(addend).wrapping_sub(place),
        ArmRelocationKind::GlobDat => symbol,
        ArmRelocationKind::JumpSlot => symbol,
        _ => addend,
    }
}

/// In memory that can be read and written, a supported relocation whose symbol
/// is known succeeds, the relocated word reads back, and every other byte keeps
/// its value.
pub proof fn relocation_reads_back(
    m: MemState,
    place: u32,
    bias: u32,
    rel: ElfRelocation,
    symbol: u32,
)
    requires
        m.accessible(place, 4),
        name_of(rel) is Some,
        !(rel.kind is Copy),
        !(rel.kind is Other),
    ensures
        m.load32(place) is Ok,
        relocated(m, place, bias, rel, Some(symbol)).1 is Ok,
        relocated(m, place, bias, rel, Some(symbol)).0.load32(place) == Ok::<u32, TrapView>(
            relocated_word(rel.kind, place, bias, symbol, m.load32(place)->Ok_0),
        ),
        forall|a: u32|
            #![trigger relocated(m, place, bias, rel, Some(symbol)).0.bytes[a]]
            a != place && a != place.wrapping_add(1) && a != place.wrapping_add(2) && a
                != place.wrapping_add(3) ==> relocated(
                m,
                place,
                bias,
                rel,
                Some(symbol),
            ).0.bytes[a] == m.bytes[a],
{
    assert(place.wrapping_add(0) == place);
    assert(!m.load_faults.contains_key(place.wrapping_add(0)));
    assert(!m.load_faults.contains_key(place.wrapping_add(1)));
    assert(!m.load_faults.contains_key(place.wrapping_add(2)));
    assert(!m.load_faults.contains_key(place.wrapping_add(3)));
    let word = relocated_word(rel.kind, place, bias, symbol, m.load32(place)->Ok_0);
    load32_after_store32(m, place, word);
}

/// Applies relocations in order to an image that was loaded at `load_bias`.
pub fn apply_arm_rel_relocations<M, R>(
    memory: &mut M,
    load_bias: u32,
    relocations: &[ElfRelocation],
    resolver: &R,
) -> (r: Result<(), ElfLinkError>) where M: Memory, R: SymbolResolver
    requires
        forall|i: int|
            #![trigger relocations@[i]]
            0 <= i < relocations@.len() && asks(relocations@[i]) ==> resolver.answers(
                name_of(relocations@[i])->0,
            ),
    ensures
        can_link(
            old(memory).state(),
            load_bias,
            relocations@,
            *resolver,
            (final(memory).state(), linked(r)),
        ),
{
    let mut idx: usize = 0;
    assert(relocations@.skip(0) =~= relocations@);
    while idx < relocations.len()
        invariant
            idx <= relocations@.len(),
            forall|i: int|
                #![trigger relocations@[i]]
                0 <= i < relocations@.len() && asks(relocations@[i]) ==> resolver.answers(
                    name_of(relocations@[i])->0,
                ),
            forall|after: (MemState, Linked<()>)|
                can_link(
                    memory.state(),
                    load_bias,
                    relocations@.skip(idx as int),
                    *resolver,
                    after,
                ) ==> #[trigger] can_link(
                    old(memory).state(),
                    load_bias,
                    relocations@,
                    *resolver,
                    after,
                ),
        decreases relocations@.len() - idx,
    {
        let ghost before = memory.state();
        let ghost rest = relocations@.skip(idx as int);
        let relocation = &relocations[idx];
        assert(rest[0] == *relocation);
        assert(rest.drop_first() =~= relocations@.skip(idx + 1));
        let place = match load_bias.checked_add(relocation.offset) {
            Some(place) => place,
            None => {
                let r: Result<(), ElfLinkError> = Err(
                    ElfLinkError::AddressOverflow { offset: relocation.offset },
                );
                assert(can_answer(*resolver, load_bias, rest[0], None));
                assert(can_link(before, load_bias, rest, *resolver, (before, linked(r))));
                return r;
            },
        };
        let answer = ask(relocation, resolver);
        let r = apply_one(memory, place, load_bias, relocation, answer);
        assert(can_answer(*resolver, load_bias, rest[0], answer));
        match r {
            Ok(_) => {},
            Err(e) => {
                assert(can_link(
                    before,
                    load_bias,
                    rest,
                    *resolver,
                    (memory.state(), Err::<(), ElfLinkErrorView>(e@)),
                ));
                return Err(e);
            },
        }
        idx += 1;
    }
    assert(can_link(
        memory.state(),
        load_bias,
        relocations@.skip(idx as int),
        *resolver,
        (memory.state(), Ok::<(), ElfLinkErrorView>(())),
    ));
    Ok(())
}

/// Asks the resolver, where a relocation needs a symbol and names one.
fn ask<R: SymbolResolver>(relocation: &ElfRelocation, resolver: &R) -> (r: Option<u32>)
    requires
        asks(*relocation) ==> resolver.answers(name_of(*relocation)->0),
    ensures
        asks(*relocation) ==> resolver.resolves(name_of(*relocation)->0, r),
{
    match relocation.kind {
        ArmRelocationKind::Abs32
        | ArmRelocationKind::Target1
        | ArmRelocationKind::Rel32
        | ArmRelocationKind::GlobDat
        | ArmRelocationKind::JumpSlot => match &relocation.symbol_name {
            Some(name) => resolver.resolve(name.as_str()),
            None => None,
        },
        _ => None,
    }
}

/// Applies one relocation at `place`, given what the resolver answered.
pub fn apply_one<M: Memory>(
    memory: &mut M,
    place: u32,
    load_bias: u32,
    relocation: &ElfRelocation,
    answer: Option<u32>,
) -> (r: Result<(), ElfLinkError>)
    ensures
        (final(memory).state(), linked(r)) == relocated(
            old(memory).state(),
            place,
            load_bias,
            *relocation,
            answer,
        ),
{
    match relocation.kind {
        ArmRelocationKind::Relative => {
            let addend = load32(memory, place)?;
            store32(memory, place, load_bias.wrapping_add(addend))
        },
        ArmRelocationKind::Abs32 | ArmRelocationKind::Target1 => {
            let symbol = resolve_relocation_symbol(relocation, answer)?;
            let addend = load32(memory, place)?;
            store32(memory, place, symbol.wrapping_add(addend))
        },
        ArmRelocationKind::Rel32 => {
            let symbol = resolve_relocation_symbol(relocation, answer)?;
            let addend = load32(memory, place)?;
            store32(memory, place, symbol.wrapping_add(addend).wrapping_sub(place))
        },
        ArmRelocationKind::GlobDat | ArmRelocationKind::JumpSlot => {
            let symbol = resolve_relocation_symbol(relocation, answer)?;
            store32(memory, place, symbol)
        },
        ArmRelocationKind::V4Bx => Ok(()),
        ArmRelocationKind::Copy | ArmRelocationKind::Other(_) => Err(
            ElfLinkError::UnsupportedRelocation(relocation.kind),
        ),
    }
}

fn resolve_relocation_symbol(relocation: &ElfRelocation, answer: Option<u32>) -> (r: Result<
    u32,
    ElfLinkError,
>)
    ensures
        linked(r) == symbol_of(*relocation, answer),
{
    match &relocation.symbol_name {
        None => Err(ElfLinkError::MissingSymbolName { symbol_index: relocation.symbol_index }),
        Some(name) => match answer {
            Some(address) => Ok(address),
            None => Err(ElfLinkError::UnresolvedSymbol(name.clone())),
        },
    }
}

fn load32<M: Memory>(memory: &mut M, addr: u32) -> (r: Result<u32, ElfLinkError>)
    ensures
        final(memory).state() == old(memory).state(),
        linked(r) == load_linked(old(memory).state(), addr),
{
    match memory.load32(addr) {
        Ok(v) => Ok(v),
        Err(err) => Err(ElfLinkError::Memory(err.to_string())),
    }
}

fn store32<M: Memory>(memory: &mut M, addr: u32, value: u32) -> (r: Result<(), ElfLinkError>)
    ensures
        (final(memory).state(), linked(r)) == store_linked(old(memory).state(), addr, value),
{
    match memory.store32(addr, value) {
        Ok(v) => Ok(v),
        Err(err) => Err(ElfLinkError::Memory(err.to_string())),
    }
}

} // verus!
