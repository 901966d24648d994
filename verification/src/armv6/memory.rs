//! Byte-addressed guest memory.

use super::trap::{seen, Result, Trap, TrapView};
use crate::text::{hex32, hex32_text, join, join4};
use vstd::prelude::*;

verus! {

/// A memory as a mathematical value: what each address holds, and what an
/// access to a refused address gives.
#[verifier::ext_equal]
pub struct MemState {
    /// The byte at each readable address.
    pub bytes: Map<u32, u8>,
    /// The addresses that cannot be read, with the trap that reading gives.
    pub load_faults: Map<u32, TrapView>,
    /// The addresses that cannot be written, with the trap that writing gives.
    pub store_faults: Map<u32, TrapView>,
    /// The numbers that fix the extent of the memory, if its kind has such. No
    /// access changes them.
    pub extent: Seq<int>,
}

/// The little-endian halfword of two bytes.
pub open spec fn half_of(b0: u8, b1: u8) -> u16 {
    (b0 as u16) | ((b1 as u16) << 8)
}

/// The little-endian word of four bytes.
pub open spec fn word_of(b0: u8, b1: u8, b2: u8, b3: u8) -> u32 {
    (b0 as u32) | ((b1 as u32) << 8) | ((b2 as u32) << 16) | ((b3 as u32) << 24)
}

impl MemState {
    /// The byte at `addr`.
    pub open spec fn load8(self, addr: u32) -> core::result::Result<u8, TrapView> {
        if self.load_faults.contains_key(addr) {
            Err(self.load_faults[addr])
        } else {
            Ok(self.bytes[addr])
        }
    }

    /// The memory after a byte store, and whether it went through.
    pub open spec fn store8(self, addr: u32, value: u8) -> (
        MemState,
        core::result::Result<(), TrapView>,
    ) {
        if self.store_faults.contains_key(addr) {
            (self, Err(self.store_faults[addr]))
        } else {
            (MemState { bytes: self.bytes.insert(addr, value), ..self }, Ok(()))
        }
    }

    /// The halfword at `addr`: the first byte that cannot be read decides.
    pub open spec fn load16(self, addr: u32) -> core::result::Result<u16, TrapView> {
        match (self.load8(addr), self.load8(addr.wrapping_add(1))) {
            (Err(t), _) => Err(t),
            (_, Err(t)) => Err(t),
            (Ok(b0), Ok(b1)) => Ok(half_of(b0, b1)),
        }
    }

    /// The word at `addr`: the first byte that cannot be read decides.
    pub open spec fn load32(self, addr: u32) -> core::result::Result<u32, TrapView> {
        match (self.load8(addr), self.load8(addr.wrapping_add(1))) {
            (Err(t), _) => Err(t),
            (_, Err(t)) => Err(t),
            (Ok(b0), Ok(b1)) => match (
                self.load8(addr.wrapping_add(2)),
                self.load8(addr.wrapping_add(3)),
            ) {
                (Err(t), _) => Err(t),
                (_, Err(t)) => Err(t),
                (Ok(b2), Ok(b3)) => Ok(word_of(b0, b1, b2, b3)),
            },
        }
    }

    /// The memory after storing `data` at ascending addresses from `addr` on,
    /// up to the first byte that is refused.
    pub open spec fn store_bytes(self, addr: u32, data: Seq<u8>) -> (
        MemState,
        core::result::Result<(), TrapView>,
    )
        decreases data.len(),
    {
        if data.len() == 0 {
            (self, Ok(()))
        } else {
            match self.store8(addr, data[0]) {
                (m, Ok(_)) => m.store_bytes(addr.wrapping_add(1), data.drop_first()),
                (m, Err(t)) => (m, Err(t)),
            }
        }
    }

    /// The memory after a halfword store.
    pub open spec fn store16(self, addr: u32, value: u16) -> (
        MemState,
        core::result::Result<(), TrapView>,
    ) {
        match self.store8(addr, value as u8) {
            (m, Ok(_)) => m.store8(addr.wrapping_add(1), (value >> 8) as u8),
            (m, Err(t)) => (m, Err(t)),
        }
    }

    /// The memory after a word store: the low half, then the high half.
    pub open spec fn store32(self, addr: u32, value: u32) -> (
        MemState,
        core::result::Result<(), TrapView>,
    ) {
        match self.store16(addr, value as u16) {
            (m, Ok(_)) => m.store16(addr.wrapping_add(2), (value >> 16) as u16),
            (m, Err(t)) => (m, Err(t)),
        }
    }

    /// The memory after storing words at ascending addresses.
    pub open spec fn store_words(self, addr: u32, words: Seq<u32>) -> (
        MemState,
        core::result::Result<(), TrapView>,
    )
        decreases words.len(),
    {
        if words.len() == 0 {
            (self, Ok(()))
        } else {
            match self.store32(addr, words[0]) {
                (m, Ok(_)) => m.store_words(addr.wrapping_add(4), words.drop_first()),
                (m, Err(t)) => (m, Err(t)),
            }
        }
    }

    /// The memory after storing halfwords at ascending addresses.
    pub open spec fn store_halfwords(self, addr: u32, halfwords: Seq<u16>) -> (
        MemState,
        core::result::Result<(), TrapView>,
    )
        decreases halfwords.len(),
    {
        if halfwords.len() == 0 {
            (self, Ok(()))
        } else {
            match self.store16(addr, halfwords[0]) {
                (m, Ok(_)) => m.store_halfwords(addr.wrapping_add(2), halfwords.drop_first()),
                (m, Err(t)) => (m, Err(t)),
            }
        }
    }

    /// Whether the `len` bytes from `addr` on can be read and written.
    pub open spec fn accessible(self, addr: u32, len: nat) -> bool {
        forall|i: u32|
            i < len ==> {
                &&& !self.load_faults.contains_key(#[trigger] addr.wrapping_add(i))
                &&& !self.store_faults.contains_key(addr.wrapping_add(i))
            }
    }
}

/// Memory that the processor reads and writes.
pub trait Memory {
    /// What this memory holds.
    spec fn state(&self) -> MemState;

    /// Reads one byte.
    fn load8(&mut self, addr: u32) -> (r: Result<u8>)
        ensures
            final(self).state() == old(self).state(),
            seen(r) == old(self).state().load8(addr),
    ;

    /// Writes one byte.
    fn store8(&mut self, addr: u32, value: u8) -> (r: Result<()>)
        ensures
            (final(self).state(), seen(r)) == old(self).state().store8(addr, value),
    ;

    /// Reads a little-endian halfword.
    fn load16(&mut self, addr: u32) -> (r: Result<u16>)
        ensures
            final(self).state() == old(self).state(),
            seen(r) == old(self).state().load16(addr),
    {
        let b0 = self.load8(addr)?;
        let b1 = self.load8(addr.wrapping_add(1))?;
        Ok((b0 as u16) | ((b1 as u16) << 8))
    }

    /// Writes a little-endian halfword.
    fn store16(&mut self, addr: u32, value: u16) -> (r: Result<()>)
        ensures
            (final(self).state(), seen(r)) == old(self).state().store16(addr, value),
    {
        self.store8(addr, value as u8)?;
        self.store8(addr.wrapping_add(1), (value >> 8) as u8)
    }

    /// Reads a little-endian word.
    fn load32(&mut self, addr: u32) -> (r: Result<u32>)
        ensures
            final(self).state() == old(self).state(),
            seen(r) == old(self).state().load32(addr),
    {
        let b0 = self.load8(addr)?;
        let b1 = self.load8(addr.wrapping_add(1))?;
        let b2 = self.load8(addr.wrapping_add(2))?;
        let b3 = self.load8(addr.wrapping_add(3))?;
        Ok((b0 as u32) | ((b1 as u32) << 8) | ((b2 as u32) << 16) | ((b3 as u32) << 24))
    }

    /// Writes a little-endian word.
    fn store32(&mut self, addr: u32, value: u32) -> (r: Result<()>)
        ensures
            (final(self).state(), seen(r)) == old(self).state().store32(addr, value),
    {
        self.store16(addr, value as u16)?;
        self.store16(addr.wrapping_add(2), (value >> 16) as u16)
    }
}

/// One contiguous block of memory that starts at a base address.
#[derive(Debug, Clone)]
pub struct VecMemory {
    base: u32,
    data: Vec<u8>,
}

/// The message for an address below a block.
pub open spec fn below_text(addr: u32, base: u32) -> Seq<char> {
    "address "@ + hex32_text(addr) + " below base "@ + hex32_text(base)
}

/// The message for an address behind a block.
pub open spec fn outside_text(addr: u32, base: u32, len: usize) -> Seq<char> {
    "address "@ + hex32_text(addr) + " outside memory range "@ + hex32_text(base) + (".."@
        + hex32_text(base.wrapping_add(len as u32)))
}

/// The trap for an access outside a block of `len` bytes at `base`.
pub open spec fn block_fault(addr: u32, base: u32, len: usize) -> TrapView {
    if addr < base {
        TrapView::Memory(below_text(addr, base))
    } else {
        TrapView::Memory(outside_text(addr, base, len))
    }
}

/// Whether `addr` lies in a block of `len` bytes at `base`.
pub open spec fn in_block(addr: u32, base: u32, len: int) -> bool {
    base <= addr && addr - base < len
}

/// The state of a block of memory at `base` that holds `data`.
pub open spec fn block_state(base: u32, data: Seq<u8>) -> MemState {
    let faults = Map::new(
        |a: u32| !in_block(a, base, data.len() as int),
        |a: u32| block_fault(a, base, data.len() as usize),
    );
    MemState {
        bytes: Map::new(
            |a: u32| in_block(a, base, data.len() as int),
            |a: u32| data[a - base],
        ),
        load_faults: faults,
        store_faults: faults,
        extent: seq![base as int, data.len() as int],
    }
}

impl VecMemory {
    /// The address of the first byte.
    pub closed spec fn start(&self) -> u32 {
        self.base
    }

    /// The bytes of the block.
    pub closed spec fn contents(&self) -> Seq<u8> {
        self.data@
    }

    /// The state of a block tells where it starts and how long it is, so what
    /// keeps the extent of the state keeps both.
    pub proof fn extent_is_seen(&self)
        ensures
            self.state().extent.len() == 2,
            self.start() == self.state().extent[0],
            self.contents().len() == self.state().extent[1],
    {
    }

    /// A block of `size` zero bytes at `base`.
    pub fn new(base: u32, size: usize) -> (r: Self)
        ensures
            r.start() == base,
            r.contents() == Seq::new(size as nat, |i: int| 0u8),
    {
        let data: Vec<u8> = vec![0; size];
        assert(data@ =~= Seq::new(size as nat, |i: int| 0u8));
        VecMemory { base, data }
    }

    /// The address of the first byte.
    pub fn base(&self) -> (r: u32)
        ensures
            r == self.start(),
    {
        self.base
    }

    /// The number of bytes.
    pub fn len(&self) -> (r: usize)
        ensures
            r == self.contents().len(),
    {
        self.data.len()
    }

    /// Whether the block has no bytes.
    pub fn is_empty(&self) -> (r: bool)
        ensures
            r == (self.contents().len() == 0),
    {
        self.data.len() == 0
    }

    /// Stores bytes at ascending addresses from `addr` on.
    pub fn load_bytes(&mut self, addr: u32, bytes: &[u8]) -> (r: Result<()>)
        ensures
            (final(self).state(), seen(r)) == old(self).state().store_bytes(addr, bytes@),
            final(self).start() == old(self).start(),
            final(self).contents().len() == old(self).contents().len(),
    {
        let mut at = addr;
        let mut idx: usize = 0;
        assert(bytes@.skip(0) =~= bytes@);
        while idx < bytes.len()
            invariant
                idx <= bytes.len(),
                self.start() == old(self).start(),
                self.contents().len() == old(self).contents().len(),
                old(self).state().store_bytes(addr, bytes@) == self.state().store_bytes(
                    at,
                    bytes@.skip(idx as int),
                ),
            decreases bytes.len() - idx,
        {
            assert(bytes@.skip(idx as int).drop_first() =~= bytes@.skip(idx + 1));
            self.store8(at, bytes[idx])?;
            at = at.wrapping_add(1);
            idx += 1;
        }
        Ok(())
    }

    /// Stores words at ascending addresses from `addr` on.
    pub fn load_arm_words(&mut self, addr: u32, words: &[u32]) -> (r: Result<()>)
        ensures
            (final(self).state(), seen(r)) == old(self).state().store_words(addr, words@),
            final(self).start() == old(self).start(),
            final(self).contents().len() == old(self).contents().len(),
    {
        let mut at = addr;
        let mut idx: usize = 0;
        assert(words@.skip(0) =~= words@);
        while idx < words.len()
            invariant
                idx <= words.len(),
                self.start() == old(self).start(),
                self.contents().len() == old(self).contents().len(),
                old(self).state().store_words(addr, words@) == self.state().store_words(
                    at,
                    words@.skip(idx as int),
                ),
            decreases words.len() - idx,
        {
            assert(words@.skip(idx as int).drop_first() =~= words@.skip(idx + 1));
            self.store32(at, words[idx])?;
            at = at.wrapping_add(4);
            idx += 1;
        }
        Ok(())
    }

    /// Stores halfwords at ascending addresses from `addr` on.
    pub fn load_thumb_halfwords(&mut self, addr: u32, halfwords: &[u16]) -> (r: Result<()>)
        ensures
            (final(self).state(), seen(r)) == old(self).state().store_halfwords(addr, halfwords@),
            final(self).start() == old(self).start(),
            final(self).contents().len() == old(self).contents().len(),
    {
        let mut at = addr;
        let mut idx: usize = 0;
        assert(halfwords@.skip(0) =~= halfwords@);
        while idx < halfwords.len()
            invariant
                idx <= halfwords.len(),
                self.start() == old(self).start(),
                self.contents().len() == old(self).contents().len(),
                old(self).state().store_halfwords(addr, halfwords@)
                    == self.state().store_halfwords(at, halfwords@.skip(idx as int)),
            decreases halfwords.len() - idx,
        {
            assert(halfwords@.skip(idx as int).drop_first() =~= halfwords@.skip(idx + 1));
            self.store16(at, halfwords[idx])?;
            at = at.wrapping_add(2);
            idx += 1;
        }
        Ok(())
    }

    fn offset(&self, addr: u32) -> (r: Result<usize>)
        ensures
            match r {
                Ok(off) => in_block(addr, self.base, self.data@.len() as int) && off == addr
                    - self.base,
                Err(t) => !in_block(addr, self.base, self.data@.len() as int) && t@ == block_fault(
                    addr,
                    self.base,
                    self.data@.len() as usize,
                ),
            },
    {
        if addr < self.base {
            return Err(
                Trap::Memory(
                    join4(
                        "address ",
                        hex32(addr).as_str(),
                        " below base ",
                        hex32(self.base).as_str(),
                    ),
                ),
            );
        }
        let rel = (addr - self.base) as usize;
        if rel >= self.data.len() {
            let head = join4(
                "address ",
                hex32(addr).as_str(),
                " outside memory range ",
                hex32(self.base).as_str(),
            );
            let end = hex32(self.base.wrapping_add(self.data.len() as u32));
            return Err(Trap::Memory(join(head.as_str(), join("..", end.as_str()).as_str())));
        }
        Ok(rel)
    }
}

impl Memory for VecMemory {
    open spec fn state(&self) -> MemState {
        block_state(self.start(), self.contents())
    }

    fn load8(&mut self, addr: u32) -> (r: Result<u8>)
        ensures
            *final(self) == *old(self),
    {
        let off = self.offset(addr)?;
        Ok(self.data[off])
    }

    fn load16(&mut self, addr: u32) -> (r: Result<u16>)
        ensures
            *final(self) == *old(self),
    {
        let b0 = self.load8(addr)?;
        let b1 = self.load8(addr.wrapping_add(1))?;
        Ok((b0 as u16) | ((b1 as u16) << 8))
    }

    fn load32(&mut self, addr: u32) -> (r: Result<u32>)
        ensures
            *final(self) == *old(self),
    {
        let b0 = self.load8(addr)?;
        let b1 = self.load8(addr.wrapping_add(1))?;
        let b2 = self.load8(addr.wrapping_add(2))?;
        let b3 = self.load8(addr.wrapping_add(3))?;
        Ok((b0 as u32) | ((b1 as u32) << 8) | ((b2 as u32) << 16) | ((b3 as u32) << 24))
    }

    fn store16(&mut self, addr: u32, value: u16) -> (r: Result<()>)
        ensures
            final(self).start() == old(self).start(),
            final(self).contents().len() == old(self).contents().len(),
    {
        self.store8(addr, value as u8)?;
        self.store8(addr.wrapping_add(1), (value >> 8) as u8)
    }

    fn store32(&mut self, addr: u32, value: u32) -> (r: Result<()>)
        ensures
            final(self).start() == old(self).start(),
            final(self).contents().len() == old(self).contents().len(),
    {
        self.store16(addr, value as u16)?;
        self.store16(addr.wrapping_add(2), (value >> 16) as u16)
    }

    fn store8(&mut self, addr: u32, value: u8) -> (r: Result<()>)
        ensures
            final(self).start() == old(self).start(),
            final(self).contents().len() == old(self).contents().len(),
    {
        let off = self.offset(addr)?;
        self.data[off] = value;
        assert(self.state() =~= old(self).state().store8(addr, value).0);
        Ok(())
    }
}

/// Reading a word back where it was just written gives the word, and the other
/// bytes keep their values.
pub proof fn load32_after_store32(m: MemState, addr: u32, value: u32)
    requires
        m.accessible(addr, 4),
    ensures
        m.store32(addr, value).1 is Ok,
        m.store32(addr, value).0.load32(addr) == Ok::<u32, TrapView>(value),
        m.store32(addr, value).0.load_faults == m.load_faults,
        m.store32(addr, value).0.store_faults == m.store_faults,
        forall|a: u32|
            #![trigger m.store32(addr, value).0.bytes[a]]
            a != addr && a != addr.wrapping_add(1) && a != addr.wrapping_add(2) && a
                != addr.wrapping_add(3) ==> m.store32(addr, value).0.bytes[a] == m.bytes[a],
{
    assert(addr.wrapping_add(0) == addr);
    assert(!m.store_faults.contains_key(addr.wrapping_add(0)));
    assert(!m.store_faults.contains_key(addr.wrapping_add(1)));
    assert(!m.store_faults.contains_key(addr.wrapping_add(2)));
    assert(!m.store_faults.contains_key(addr.wrapping_add(3)));
    assert(addr.wrapping_add(2).wrapping_add(1) == addr.wrapping_add(3));
    bytes_of_word(value);
}

/// Reading a halfword back where it was just written gives the halfword.
pub proof fn load16_after_store16(m: MemState, addr: u32, value: u16)
    requires
        m.accessible(addr, 2),
    ensures
        m.store16(addr, value).1 is Ok,
        m.store16(addr, value).0.load16(addr) == Ok::<u16, TrapView>(value),
{
    assert(addr.wrapping_add(0) == addr);
    assert(!m.store_faults.contains_key(addr.wrapping_add(0)));
    assert(!m.store_faults.contains_key(addr.wrapping_add(1)));
    bytes_and_words(0, value, 0, 0, 0, 0);
}

proof fn bytes_and_words(value: u32, h: u16, b0: u8, b1: u8, b2: u8, b3: u8)
    ensures
        word_of(
            (value as u16) as u8,
            ((value as u16) >> 8) as u8,
            ((value >> 16) as u16) as u8,
            (((value >> 16) as u16) >> 8) as u8,
        ) == value,
        half_of(h as u8, (h >> 8) as u8) == h,
        half_of(b0, b1) == b0 + 0x100 * b1,
        word_of(b0, b1, b2, b3) == b0 + 0x100 * b1 + 0x1_0000 * b2 + 0x100_0000 * b3,
        b0 >> 4 == b0 / 16,
        b0 & 0xf == b0 % 16,
        b0 & 0x80 == 0 <==> b0 < 0x80,
        (value as u16) as u8 == value as u8,
        ((value as u16) >> 8) as u8 == (value >> 8) as u8,
        ((value >> 16) as u16) as u8 == (value >> 16) as u8,
        (((value >> 16) as u16) >> 8) as u8 == (value >> 24) as u8,
{
    assert((value as u16) as u8 == value as u8 && ((value as u16) >> 8) as u8 == (value >> 8) as u8
        && ((value >> 16) as u16) as u8 == (value >> 16) as u8 && (((value >> 16) as u16) >> 8) as u8
        == (value >> 24) as u8 && ((value as u16) as u8) as u32 | ((((value as u16) >> 8) as u8) as u32) << 8 | ((((value
        >> 16) as u16) as u8) as u32) << 16 | (((((value >> 16) as u16) >> 8) as u8) as u32) << 24
        == value && (h as u8) as u16 | (((h >> 8) as u8) as u16) << 8 == h && (b0 as u16) | ((b1 as u16)
        << 8) == b0 + 0x100 * b1 && (b0 as u32) | ((b1 as u32) << 8) | ((b2 as u32) << 16) | ((
    b3 as u32) << 24) == b0 + 0x100 * b1 + 0x1_0000 * b2 + 0x100_0000 * b3 && b0 >> 4 == b0 / 16 && b0
        & 0xf == b0 % 16 && (b0 & 0x80 == 0 <==> b0 < 0x80)) by (bit_vector);
}

/// Halfwords and words are little-endian numbers.
pub proof fn little_endian(b0: u8, b1: u8, b2: u8, b3: u8)
    ensures
        half_of(b0, b1) == b0 + 0x100 * b1,
        word_of(b0, b1, b2, b3) == b0 + 0x100 * b1 + 0x1_0000 * b2 + 0x100_0000 * b3,
{
    bytes_and_words(0, 0, b0, b1, b2, b3);
}

/// The bytes of the halves of a word are its bytes.
pub proof fn bytes_of_halves(w: u32)
    ensures
        (w as u16) as u8 == w as u8,
        ((w as u16) >> 8) as u8 == (w >> 8) as u8,
        ((w >> 16) as u16) as u8 == (w >> 16) as u8,
        (((w >> 16) as u16) >> 8) as u8 == (w >> 24) as u8,
{
    bytes_and_words(w, 0, 0, 0, 0, 0);
}

/// The two halves of a byte.
pub proof fn nibbles(b: u8)
    ensures
        b >> 4 == b / 16,
        b & 0xf == b % 16,
        b & 0x80 == 0 <==> b < 0x80,
{
    bytes_and_words(0, 0, b, 0, 0, 0);
}

proof fn bytes_of_word(value: u32)
    ensures
        word_of(
            (value as u16) as u8,
            ((value as u16) >> 8) as u8,
            ((value >> 16) as u16) as u8,
            (((value >> 16) as u16) >> 8) as u8,
        ) == value,
{
    bytes_and_words(value, 0, 0, 0, 0, 0);
}

} // verus!
