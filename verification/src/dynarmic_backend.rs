//! What surrounds a recompiling engine: which pages hold code, which writes
//! must drop recompiled code, how memory traps reach the caller, and how a
//! processor's state is handed over and taken back.

use crate::armv6::cpu::{Cpsr, Cpu, CpuState, Isa};
use crate::armv6::memory::{MemState, Memory};
use crate::armv6::trap::{Trap, TrapView};
use crate::guest_memory::MappedMemory;
use vstd::prelude::*;

verus! {

/// The mode bits of unprivileged code.
pub const CPSR_USER_MODE: u32 = 0x10;

/// The pages of the address space.
pub const EXEC_PAGE_COUNT: usize = 0x10_0000;

/// The words of a page bitmap.
pub const EXEC_PAGE_BITMAP_WORDS: usize = 0x4000;

/// What one run of the engine gives.
#[derive(Debug, Clone, Copy, PartialEq, Eq, Structural)]
pub struct DynarmicStepResult {
    pub halt_reason: u32,
    pub exception_pc: u32,
    pub memory_abort_addr: u32,
    pub exception_kind: i32,
    pub svc: u32,
    pub ticks_used: u64,
    pub svc_valid: bool,
    pub memory_abort: bool,
    pub interpreter_fallback: bool,
}

/// The page of an address.
pub open spec fn page_of(addr: u32) -> int {
    addr as int / 0x1000
}

/// The last address of `len` bytes from `start` on, cut at the end of the
/// address space.
pub open spec fn last_of(start: u32, len: u32) -> u32 {
    if start + len - 1 > u32::MAX {
        u32::MAX
    } else {
        (start + len - 1) as u32
    }
}

/// Whether a page meets the `len` bytes from `start` on.
pub open spec fn meets(page: int, start: u32, len: u32) -> bool {
    len != 0 && page_of(start) <= page <= page_of(last_of(start, len))
}

/// Whether a page meets one of some ranges.
pub open spec fn covered(ranges: Seq<(u32, u32)>, page: int) -> bool {
    exists|i: int| 0 <= i < ranges.len() && meets(page, (#[trigger] ranges[i]).0, ranges[i].1)
}

/// Whether a page is set in a bitmap.
pub open spec fn page_set(words: Seq<u64>, page: int) -> bool {
    words[page / 64] & (1u64 << ((page % 64) as u64)) != 0
}

/// Whether a bitmap holds exactly the pages that some ranges meet.
pub open spec fn bitmap_of(words: Seq<u64>, ranges: Seq<(u32, u32)>) -> bool {
    &&& words.len() == EXEC_PAGE_BITMAP_WORDS
    &&& forall|page: int|
        0 <= page < EXEC_PAGE_COUNT ==> #[trigger] page_set(words, page) == covered(ranges, page)
}

/// Whether a write of `len` bytes at `addr` meets a page of a bitmap.
pub open spec fn write_hits(words: Seq<u64>, addr: u32, len: u32) -> bool {
    words.len() != 0 && exists|page: int|
        #![trigger page_set(words, page)]
        meets(page, addr, len) && page_set(words, page)
}

/// The last address of a range lies in no earlier page than its first.
proof fn last_is_not_before(start: u32, len: u32)
    requires
        len != 0,
    ensures
        start <= last_of(start, len),
        0 <= page_of(start) <= page_of(last_of(start, len)) < EXEC_PAGE_COUNT,
{
    assert(page_of(start) <= page_of(last_of(start, len))) by (nonlinear_arith)
        requires
            start <= last_of(start, len),
    ;
}

/// A write is seen exactly when one of its pages meets an executable range.
pub proof fn writes_to_code_pages_are_seen(
    words: Seq<u64>,
    ranges: Seq<(u32, u32)>,
    addr: u32,
    len: u32,
)
    requires
        bitmap_of(words, ranges),
    ensures
        write_hits(words, addr, len) <==> exists|page: int|
            meets(page, addr, len) && #[trigger] covered(ranges, page),
{
    if len != 0 {
        last_is_not_before(addr, len);
    }
    if write_hits(words, addr, len) {
        let page = choose|page: int|
            #![trigger page_set(words, page)]
            meets(page, addr, len) && page_set(words, page);
        assert(covered(ranges, page));
    }
    if exists|page: int| meets(page, addr, len) && #[trigger] covered(ranges, page) {
        let page = choose|page: int| meets(page, addr, len) && #[trigger] covered(ranges, page);
        assert(page_set(words, page));
    }
}

/// A write that reaches a byte of an executable range is seen.
pub proof fn writes_into_code_are_seen(
    words: Seq<u64>,
    ranges: Seq<(u32, u32)>,
    addr: u32,
    len: u32,
    i: int,
    byte: u32,
)
    requires
        bitmap_of(words, ranges),
        0 <= i < ranges.len(),
        len != 0,
        ranges[i].1 != 0,
        addr <= byte <= last_of(addr, len),
        ranges[i].0 <= byte <= last_of(ranges[i].0, ranges[i].1),
    ensures
        write_hits(words, addr, len),
{
    let page = page_of(byte);
    assert(meets(page, addr, len));
    assert(meets(page, ranges[i].0, ranges[i].1));
    assert(covered(ranges, page));
    assert(page_set(words, page));
}

fn page_index(addr: u32) -> (r: usize)
    ensures
        r == page_of(addr),
        r < EXEC_PAGE_COUNT,
{
    (addr / 0x1000) as usize
}

fn last_address(start: u32, len: u32) -> (r: u32)
    requires
        len != 0,
    ensures
        r == last_of(start, len),
{
    if start > u32::MAX - (len - 1) {
        u32::MAX
    } else {
        start + (len - 1)
    }
}

proof fn set_bit(word: u64, b: u64, c: u64)
    requires
        b < 64,
        c < 64,
    ensures
        ((word | (1u64 << b)) & (1u64 << c) != 0) == (word & (1u64 << c) != 0 || b == c),
{
    assert(((word | (1u64 << b)) & (1u64 << c) != 0) == (word & (1u64 << c) != 0 || b == c))
        by (bit_vector)
        requires
            b < 64,
            c < 64,
    ;
}

/// Marks one page in a bitmap.
fn mark_page(words: &mut Vec<u64>, page: usize)
    requires
        old(words)@.len() == EXEC_PAGE_BITMAP_WORDS,
        page < EXEC_PAGE_COUNT,
    ensures
        final(words)@.len() == EXEC_PAGE_BITMAP_WORDS,
        forall|p: int|
            0 <= p < EXEC_PAGE_COUNT ==> #[trigger] page_set(final(words)@, p) == (page_set(
                old(words)@,
                p,
            ) || p == page),
{
    let word = words[page / 64];
    words.set(page / 64, word | (1u64 << ((page % 64) as u64)));
    proof {
        assert forall|p: int| 0 <= p < EXEC_PAGE_COUNT implies #[trigger] page_set(words@, p) == (
        page_set(old(words)@, p) || p == page) by {
            set_bit(word, (page % 64) as u64, (p % 64) as u64);
        }
    }
}

/// The bitmap of the pages that some ranges of start and length meet.
pub fn executable_pages_for_ranges(ranges: &[(u32, u32)]) -> (r: Vec<u64>)
    ensures
        bitmap_of(r@, ranges@),
{
    let mut words: Vec<u64> = vec![0; EXEC_PAGE_BITMAP_WORDS];
    let mut i: usize = 0;
    proof {
        assert forall|page: int| 0 <= page < EXEC_PAGE_COUNT implies !#[trigger] page_set(
            words@,
            page,
        ) by {
            let mask = 1u64 << ((page % 64) as u64);
            assert(0u64 & mask == 0) by (bit_vector);
        }
    }
    while i < ranges.len()
        invariant
            i <= ranges@.len(),
            words@.len() == EXEC_PAGE_BITMAP_WORDS,
            forall|page: int|
                0 <= page < EXEC_PAGE_COUNT ==> #[trigger] page_set(words@, page) == covered(
                    ranges@.take(i as int),
                    page,
                ),
        decreases ranges@.len() - i,
    {
        let (start, len) = ranges[i];
        let ghost earlier = words@;
        proof {
            assert forall|page: int| #[trigger] covered(ranges@.take(i + 1), page) == (covered(
                ranges@.take(i as int),
                page,
            ) || meets(page, start, len)) by {
                let now = ranges@.take(i + 1);
                let was = ranges@.take(i as int);
                if covered(was, page) {
                    let k = choose|k: int|
                        0 <= k < was.len() && meets(page, (#[trigger] was[k]).0, was[k].1);
                    assert(now[k] == was[k]);
                }
                if meets(page, start, len) {
                    assert(now[i as int] == (start, len));
                }
                if covered(now, page) {
                    let k = choose|k: int|
                        0 <= k < now.len() && meets(page, (#[trigger] now[k]).0, now[k].1);
                    if k < i {
                        assert(was[k] == now[k]);
                    }
                }
            }
        }
        if len != 0 {
            proof {
                last_is_not_before(start, len);
            }
            let last_page = page_index(last_address(start, len));
            let mut page = page_index(start);
            let ghost first_page = page as int;
            while page <= last_page
                invariant
                    first_page <= page <= last_page + 1,
                    last_page < EXEC_PAGE_COUNT,
                    words@.len() == EXEC_PAGE_BITMAP_WORDS,
                    forall|p: int|
                        0 <= p < EXEC_PAGE_COUNT ==> #[trigger] page_set(words@, p) == (page_set(
                            earlier,
                            p,
                        ) || first_page <= p < page),
                decreases last_page + 1 - page,
            {
                mark_page(&mut words, page);
                page += 1;
            }
        }
        i += 1;
    }
    assert(ranges@.take(i as int) =~= ranges@);
    words
}

/// Whether a write of `len` bytes at `addr` meets a page of a bitmap. An empty
/// bitmap has no pages.
pub fn executable_write_intersects(executable_pages: &[u64], addr: u32, len: u32) -> (r: bool)
    requires
        executable_pages@.len() == 0 || executable_pages@.len() == EXEC_PAGE_BITMAP_WORDS,
    ensures
        r == write_hits(executable_pages@, addr, len),
{
    if executable_pages.len() == 0 || len == 0 {
        return false;
    }
    proof {
        last_is_not_before(addr, len);
    }
    let last_page = page_index(last_address(addr, len));
    let mut page = page_index(addr);
    let ghost first_page = page as int;
    while page <= last_page
        invariant
            first_page <= page <= last_page + 1,
            first_page == page_of(addr),
            last_page == page_of(last_of(addr, len)),
            last_page < EXEC_PAGE_COUNT,
            len != 0,
            executable_pages@.len() == EXEC_PAGE_BITMAP_WORDS,
            forall|p: int| first_page <= p < page ==> !#[trigger] page_set(executable_pages@, p),
        decreases last_page + 1 - page,
    {
        if executable_pages[page / 64] & (1u64 << ((page % 64) as u64)) != 0 {
            assert(page_set(executable_pages@, page as int));
            return true;
        }
        page += 1;
    }
    false
}

/// The pages that an engine treats as code, and those that it reaches without
/// asking.
#[derive(Debug)]
pub struct DynarmicA32 {
    executable_pages: Vec<u64>,
    host_pages: Option<Vec<bool>>,
}

impl DynarmicA32 {
    /// The bitmap of code pages, or nothing where none was set.
    pub closed spec fn pages(&self) -> Seq<u64> {
        self.executable_pages@
    }

    /// Which pages are reached without asking, where there is such a table.
    pub closed spec fn direct(&self) -> Option<Seq<bool>> {
        match self.host_pages {
            Some(table) => Some(table@),
            None => None,
        }
    }

    /// The bitmap is empty or has a bit for every page.
    #[verifier::type_invariant]
    spec fn wf(&self) -> bool {
        self.executable_pages@.len() == 0 || self.executable_pages@.len()
            == EXEC_PAGE_BITMAP_WORDS
    }

    /// No code pages, and no table.
    pub fn new() -> (r: Self)
        ensures
            r.pages() == Seq::<u64>::empty(),
            r.direct() is None,
    {
        let r = DynarmicA32 { executable_pages: Vec::new(), host_pages: None };
        assert(r.pages() =~= Seq::<u64>::empty());
        r
    }

    /// The code pages that some ranges meet, with a table of the pages that are
    /// reached without asking. Code pages are not among them.
    pub fn new_with_host_page_table(
        host_pages: Option<Vec<bool>>,
        executable_ranges: &[(u32, u32)],
    ) -> (r: Self)
        ensures
            bitmap_of(r.pages(), executable_ranges@),
            match (host_pages, r.direct()) {
                (Some(table), Some(kept)) => excludes(table@, r.pages(), kept),
                (None, None) => true,
                _ => false,
            },
    {
        let mut r = DynarmicA32 { executable_pages: Vec::new(), host_pages };
        r.set_executable_ranges(executable_ranges);
        r
    }

    /// The code pages that some ranges meet, for a mapped memory. Where the
    /// engine reaches pages of the memory without asking, `host_pages` says
    /// which; code pages are not among them.
    pub fn new_for_mapped_memory(
        _memory: &MappedMemory,
        host_pages: Option<Vec<bool>>,
        executable_ranges: &[(u32, u32)],
    ) -> (r: Self)
        ensures
            bitmap_of(r.pages(), executable_ranges@),
            match (host_pages, r.direct()) {
                (Some(table), Some(kept)) => excludes(table@, r.pages(), kept),
                (None, None) => true,
                _ => false,
            },
    {
        DynarmicA32::new_with_host_page_table(host_pages, executable_ranges)
    }

    /// Replaces the code pages by those that some ranges meet. The table of
    /// pages that are reached without asking loses them.
    pub fn set_executable_ranges(&mut self, ranges: &[(u32, u32)])
        ensures
            bitmap_of(final(self).pages(), ranges@),
            match (old(self).direct(), final(self).direct()) {
                (Some(table), Some(kept)) => excludes(table, final(self).pages(), kept),
                (None, None) => true,
                _ => false,
            },
    {
        let pages = executable_pages_for_ranges(ranges);
        let host_pages = match &self.host_pages {
            Some(table) => Some(exclude_host_page_table_pages(table, pages.as_slice())),
            None => None,
        };
        *self = DynarmicA32 { executable_pages: pages, host_pages };
    }

    /// The bitmap of code pages.
    pub fn executable_pages(&self) -> (r: &[u64])
        ensures
            r@ == self.pages(),
            r@.len() == 0 || r@.len() == EXEC_PAGE_BITMAP_WORDS,
    {
        proof {
            use_type_invariant(self);
        }
        self.executable_pages.as_slice()
    }

    /// Whether a page is reached without asking.
    pub fn reaches_directly(&self, page: usize) -> (r: bool)
        ensures
            r == (self.direct() is Some && page < self.direct()->0.len()
                && self.direct()->0[page as int]),
    {
        match &self.host_pages {
            Some(table) => page < table.len() && table[page],
            None => false,
        }
    }
}

/// Whether `after` is `before` without the pages of a bitmap.
pub open spec fn excludes(before: Seq<bool>, words: Seq<u64>, after: Seq<bool>) -> bool {
    &&& after.len() == before.len()
    &&& forall|page: int|
        0 <= page < before.len() ==> #[trigger] after[page] == (before[page] && !(page < 64
            * words.len() && page_set(words, page)))
}

fn exclude_host_page_table_pages(table: &Vec<bool>, pages: &[u64]) -> (r: Vec<bool>)
    ensures
        excludes(table@, pages@, r@),
{
    let mut out: Vec<bool> = Vec::new();
    let mut page: usize = 0;
    while page < table.len()
        invariant
            page <= table@.len(),
            out@.len() == page,
            forall|p: int|
                0 <= p < page ==> #[trigger] out@[p] == (table@[p] && !(p < 64 * pages@.len()
                    && page_set(pages@, p))),
        decreases table@.len() - page,
    {
        let code = page / 64 < pages.len() && pages[page / 64] & (1u64 << ((page % 64) as u64))
            != 0;
        out.push(table[page] && !code);
        page += 1;
    }
    out
}

/// What the accesses of one run left behind.
#[derive(Debug, Clone)]
pub struct DynarmicMemoryContext {
    /// The writes to code pages, as addresses and lengths, in their order.
    pub dirty_executable_writes: Vec<(u32, u32)>,
    /// The last trap that an access gave.
    pub trap: Option<Trap>,
}

/// A [`DynarmicMemoryContext`] as a mathematical value.
#[verifier::ext_equal]
pub struct ContextView {
    pub dirty: Seq<(u32, u32)>,
    pub trap: Option<TrapView>,
}

impl View for DynarmicMemoryContext {
    type V = ContextView;

    open spec fn view(&self) -> ContextView {
        ContextView {
            dirty: self.dirty_executable_writes@,
            trap: match self.trap {
                Some(t) => Some(t@),
                None => None,
            },
        }
    }
}

/// The doubleword at `addr`: the low word, then the high word.
pub open spec fn load64(m: MemState, addr: u32) -> core::result::Result<u64, TrapView> {
    match (m.load32(addr), m.load32(addr.wrapping_add(4))) {
        (Err(t), _) => Err(t),
        (_, Err(t)) => Err(t),
        (Ok(lo), Ok(hi)) => Ok((lo as u64) | ((hi as u64) << 32)),
    }
}

/// The memory after a doubleword store: the low word, then the high word.
pub open spec fn store64(m: MemState, addr: u32, value: u64) -> (
    MemState,
    core::result::Result<(), TrapView>,
) {
    match m.store32(addr, value as u32) {
        (m1, Ok(_)) => m1.store32(addr.wrapping_add(4), (value >> 32) as u32),
        (m1, Err(t)) => (m1, Err(t)),
    }
}

impl ContextView {
    /// What a read gives, and what it leaves behind.
    pub open spec fn after_read<T>(self, r: core::result::Result<T, TrapView>) -> (
        ContextView,
        Option<T>,
    ) {
        match r {
            Ok(v) => (self, Some(v)),
            Err(t) => (ContextView { trap: Some(t), ..self }, None),
        }
    }

    /// Whether a write went through, and what it leaves behind.
    pub open spec fn after_write(
        self,
        words: Seq<u64>,
        addr: u32,
        len: u32,
        r: core::result::Result<(), TrapView>,
    ) -> (ContextView, bool) {
        match r {
            Ok(_) => if write_hits(words, addr, len) {
                (ContextView { dirty: self.dirty.push((addr, len)), ..self }, true)
            } else {
                (self, true)
            },
            Err(t) => (ContextView { trap: Some(t), ..self }, false),
        }
    }
}

/// A result with its trap taken by view.
pub open spec fn trap_view<T>(r: core::result::Result<T, Trap>) -> core::result::Result<
    T,
    TrapView,
> {
    match r {
        Ok(v) => Ok(v),
        Err(t) => Err(t@),
    }
}

impl DynarmicMemoryContext {
    /// Nothing happened yet.
    pub fn new() -> (r: Self)
        ensures
            r@ == (ContextView { dirty: Seq::empty(), trap: None }),
    {
        let r = DynarmicMemoryContext { dirty_executable_writes: Vec::new(), trap: None };
        assert(r@ =~= (ContextView { dirty: Seq::empty(), trap: None }));
        r
    }

    fn keep_read<T>(&mut self, r: core::result::Result<T, Trap>) -> (value: Option<T>)
        ensures
            (final(self)@, value) == old(self)@.after_read(trap_view(r)),
    {
        match r {
            Ok(v) => Some(v),
            Err(t) => {
                self.trap = Some(t);
                None
            },
        }
    }

    fn keep_write(
        &mut self,
        engine: &DynarmicA32,
        addr: u32,
        len: u32,
        r: core::result::Result<(), Trap>,
    ) -> (ok: bool)
        ensures
            (final(self)@, ok) == old(self)@.after_write(engine.pages(), addr, len, trap_view(r)),
    {
        match r {
            Ok(_) => {
                if executable_write_intersects(engine.executable_pages(), addr, len) {
                    self.dirty_executable_writes.push((addr, len));
                }
                true
            },
            Err(t) => {
                self.trap = Some(t);
                false
            },
        }
    }

    /// Reads a byte for the engine.
    pub fn read8<M: Memory>(&mut self, memory: &mut M, addr: u32) -> (r: Option<u8>)
        ensures
            final(memory).state() == old(memory).state(),
            (final(self)@, r) == old(self)@.after_read(old(memory).state().load8(addr)),
    {
        let value = memory.load8(addr);
        self.keep_read(value)
    }

    /// Reads a halfword for the engine.
    pub fn read16<M: Memory>(&mut self, memory: &mut M, addr: u32) -> (r: Option<u16>)
        ensures
            final(memory).state() == old(memory).state(),
            (final(self)@, r) == old(self)@.after_read(old(memory).state().load16(addr)),
    {
        let value = memory.load16(addr);
        self.keep_read(value)
    }

    /// Reads a word for the engine.
    pub fn read32<M: Memory>(&mut self, memory: &mut M, addr: u32) -> (r: Option<u32>)
        ensures
            final(memory).state() == old(memory).state(),
            (final(self)@, r) == old(self)@.after_read(old(memory).state().load32(addr)),
    {
        let value = memory.load32(addr);
        self.keep_read(value)
    }

    /// Reads a doubleword for the engine.
    pub fn read64<M: Memory>(&mut self, memory: &mut M, addr: u32) -> (r: Option<u64>)
        ensures
            final(memory).state() == old(memory).state(),
            (final(self)@, r) == old(self)@.after_read(load64(old(memory).state(), addr)),
    {
        let value = match memory.load32(addr) {
            Ok(lo) => match memory.load32(addr.wrapping_add(4)) {
                Ok(hi) => Ok((lo as u64) | ((hi as u64) << 32)),
                Err(t) => Err(t),
            },
            Err(t) => Err(t),
        };
        self.keep_read(value)
    }

    /// Writes a byte for the engine.
    pub fn write8<M: Memory>(
        &mut self,
        engine: &DynarmicA32,
        memory: &mut M,
        addr: u32,
        value: u8,
    ) -> (r: bool)
        ensures
            ({
                let (m, done) = old(memory).state().store8(addr, value);
                &&& final(memory).state() == m
                &&& (final(self)@, r) == old(self)@.after_write(engine.pages(), addr, 1, done)
            }),
    {
        let done = memory.store8(addr, value);
        self.keep_write(engine, addr, 1, done)
    }

    /// Writes a halfword for the engine.
    pub fn write16<M: Memory>(
        &mut self,
        engine: &DynarmicA32,
        memory: &mut M,
        addr: u32,
        value: u16,
    ) -> (r: bool)
        ensures
            ({
                let (m, done) = old(memory).state().store16(addr, value);
                &&& final(memory).state() == m
                &&& (final(self)@, r) == old(self)@.after_write(engine.pages(), addr, 2, done)
            }),
    {
        let done = memory.store16(addr, value);
        self.keep_write(engine, addr, 2, done)
    }

    /// Writes a word for the engine.
    pub fn write32<M: Memory>(
        &mut self,
        engine: &DynarmicA32,
        memory: &mut M,
        addr: u32,
        value: u32,
    ) -> (r: bool)
        ensures
            ({
                let (m, done) = old(memory).state().store32(addr, value);
                &&& final(memory).state() == m
                &&& (final(self)@, r) == old(self)@.after_write(engine.pages(), addr, 4, done)
            }),
    {
        let done = memory.store32(addr, value);
        self.keep_write(engine, addr, 4, done)
    }

    /// Writes a doubleword for the engine.
    pub fn write64<M: Memory>(
        &mut self,
        engine: &DynarmicA32,
        memory: &mut M,
        addr: u32,
        value: u64,
    ) -> (r: bool)
        ensures
            ({
                let (m, done) = store64(old(memory).state(), addr, value);
                &&& final(memory).state() == m
                &&& (final(self)@, r) == old(self)@.after_write(engine.pages(), addr, 8, done)
            }),
    {
        let done = match memory.store32(addr, value as u32) {
            Ok(_) => memory.store32(addr.wrapping_add(4), (value >> 32) as u32),
            Err(t) => Err(t),
        };
        self.keep_write(engine, addr, 8, done)
    }

    /// What a run gives its caller: the trap of a refused access, unless the
    /// engine has reported the abort itself.
    pub fn finish(self, result: DynarmicStepResult) -> (r: core::result::Result<
        DynarmicStepResult,
        Trap,
    >)
        ensures
            trap_view(r) == match self@.trap {
                Some(t) => if result.memory_abort {
                    Ok(result)
                } else {
                    Err(t)
                },
                None => Ok(result),
            },
    {
        match self.trap {
            Some(t) => if result.memory_abort {
                Ok(result)
            } else {
                Err(t)
            },
            None => Ok(result),
        }
    }
}

/// A trap that an access left behind is never forgotten: later accesses can
/// only replace it by their own.
pub proof fn traps_are_kept<T>(
    c: ContextView,
    words: Seq<u64>,
    addr: u32,
    len: u32,
    read: core::result::Result<T, TrapView>,
    write: core::result::Result<(), TrapView>,
)
    ensures
        c.trap is Some || read is Err <==> c.after_read(read).0.trap is Some,
        c.trap is Some || write is Err <==> c.after_write(words, addr, len, write).0.trap is Some,
{
}

/// The ticks that a run asks for: at least one.
pub fn run_ticks(ticks: u64) -> (r: u64)
    ensures
        r == if ticks >= 1 {
            ticks
        } else {
            1
        },
{
    if ticks >= 1 {
        ticks
    } else {
        1
    }
}

/// The state that an engine shares with the processor.
#[derive(Debug, Clone)]
pub struct DynarmicCpuState {
    pub regs: [u32; 16],
    pub ext_regs: [u32; 64],
    pub cpsr: u32,
    pub fpscr: u32,
    pub cp15_tpidrurw: u32,
    pub cp15_tpidruro: u32,
    pub cp15_virtual_counter: u64,
}

/// The status word that an engine is given.
pub open spec fn engine_cpsr(s: CpuState) -> u32 {
    s.cpsr.word() | CPSR_USER_MODE
}

impl DynarmicCpuState {
    /// Takes the shared state of a processor.
    pub fn of_cpu(cpu: &Cpu) -> (r: Self)
        ensures
            r.regs@ == cpu@.regs,
            r.ext_regs@ == cpu@.sregs,
            r.cpsr == engine_cpsr(cpu@),
            r.fpscr == cpu@.fpscr,
            r.cp15_tpidrurw == cpu@.tpidrurw,
            r.cp15_tpidruro == cpu@.tpidruro,
            r.cp15_virtual_counter == cpu@.counter,
    {
        proof {
            cpu.view_wf();
        }
        let mut regs = [0u32; 16];
        let mut idx: usize = 0;
        while idx < 16
            invariant
                idx <= 16,
                cpu@.wf(),
                forall|i: int| 0 <= i < idx ==> regs@[i] == cpu@.regs[i],
            decreases 16 - idx,
        {
            regs[idx] = cpu.reg(idx);
            idx += 1;
        }
        let mut ext_regs = [0u32; 64];
        let mut idx: usize = 0;
        while idx < 64
            invariant
                idx <= 64,
                cpu@.wf(),
                forall|i: int| 0 <= i < idx ==> ext_regs@[i] == cpu@.sregs[i],
            decreases 64 - idx,
        {
            ext_regs[idx] = cpu.sreg(idx);
            idx += 1;
        }
        assert(regs@ =~= cpu@.regs);
        assert(ext_regs@ =~= cpu@.sregs);
        DynarmicCpuState {
            regs,
            ext_regs,
            cpsr: dynarmic_cpsr_for_cpu(cpu),
            fpscr: cpu.fp_status(),
            cp15_tpidrurw: cpu.thread_id_rw(),
            cp15_tpidruro: cpu.thread_id_ro(),
            cp15_virtual_counter: cpu.cp15_virtual_counter(),
        }
    }

    /// The state of a processor that took this over.
    pub open spec fn given_to(self, s: CpuState) -> CpuState {
        CpuState {
            regs: self.regs@,
            sregs: self.ext_regs@,
            cpsr: Cpsr::of_word(self.cpsr),
            fpscr: self.fpscr,
            tpidrurw: self.cp15_tpidrurw,
            tpidruro: self.cp15_tpidruro,
            counter: self.cp15_virtual_counter,
            ..s
        }
    }

    /// Gives the shared state to a processor.
    pub fn to_cpu(&self, cpu: &mut Cpu)
        ensures
            final(cpu)@ == self.given_to(old(cpu)@),
    {
        proof {
            cpu.view_wf();
        }
        let ghost start = cpu@;
        let mut idx: usize = 0;
        assert(start == CpuState { regs: start.regs, ..start });
        while idx < 16
            invariant
                idx <= 16,
                cpu@.wf(),
                cpu@ == (CpuState { regs: cpu@.regs, ..start }),
                forall|i: int| 0 <= i < idx ==> cpu@.regs[i] == self.regs@[i],
            decreases 16 - idx,
        {
            cpu.set_reg(idx, self.regs[idx]);
            idx += 1;
        }
        assert(cpu@.regs =~= self.regs@);
        let ghost middle = cpu@;
        let mut idx: usize = 0;
        while idx < 64
            invariant
                idx <= 64,
                cpu@.wf(),
                cpu@ == (CpuState { sregs: cpu@.sregs, ..middle }),
                forall|i: int| 0 <= i < idx ==> cpu@.sregs[i] == self.ext_regs@[i],
            decreases 64 - idx,
        {
            cpu.set_sreg(idx, self.ext_regs[idx]);
            idx += 1;
        }
        assert(cpu@.sregs =~= self.ext_regs@);
        cpu.set_flags(Cpsr::from_u32(self.cpsr));
        cpu.set_fp_status(self.fpscr);
        cpu.set_thread_id_rw(self.cp15_tpidrurw);
        cpu.set_thread_id_ro(self.cp15_tpidruro);
        cpu.set_cp15_virtual_counter(self.cp15_virtual_counter);
    }
}

/// The mode bits that an engine adds say nothing of the flags.
proof fn mode_bits_carry_no_flags(w: u32)
    ensures
        Cpsr::of_word(w | CPSR_USER_MODE) == Cpsr::of_word(w),
{
    assert({
        let x = w | 0x10;
        &&& x & (1u32 << 31) == w & (1u32 << 31)
        &&& x & (1u32 << 30) == w & (1u32 << 30)
        &&& x & (1u32 << 29) == w & (1u32 << 29)
        &&& x & (1u32 << 28) == w & (1u32 << 28)
        &&& x & (1u32 << 27) == w & (1u32 << 27)
        &&& x & (1u32 << 5) == w & (1u32 << 5)
        &&& (x >> 16) & 0xf == (w >> 16) & 0xf
    }) by (bit_vector);
}

/// Handing a state over and taking it back changes nothing, as long as the
/// greater-or-equal flags fit their four bits.
pub proof fn handing_over_and_back(shared: DynarmicCpuState, s: CpuState)
    requires
        shared.regs@ == s.regs,
        shared.ext_regs@ == s.sregs,
        shared.cpsr == engine_cpsr(s),
        shared.fpscr == s.fpscr,
        shared.cp15_tpidrurw == s.tpidrurw,
        shared.cp15_tpidruro == s.tpidruro,
        shared.cp15_virtual_counter == s.counter,
        s.cpsr.ge & 0xf == s.cpsr.ge,
    ensures
        shared.given_to(s) == s,
{
    mode_bits_carry_no_flags(s.cpsr.word());
    crate::armv6::cpu::cpsr_from_word_of_word(s.cpsr);
}

/// The status word that an engine is given for a processor.
pub fn dynarmic_cpsr_for_cpu(cpu: &Cpu) -> (r: u32)
    ensures
        r == engine_cpsr(cpu@),
{
    cpu.flags().to_u32() | CPSR_USER_MODE
}

/// The instruction set that an engine's status word selects.
pub fn cpu_isa_from_dynarmic_cpsr(cpsr: u32) -> (r: Isa)
    ensures
        r == if cpsr & (1u32 << 5) != 0 {
            Isa::Thumb
        } else {
            Isa::Arm
        },
{
    if cpsr & (1u32 << 5) != 0 {
        Isa::Thumb
    } else {
        Isa::Arm
    }
}

} // verus!
