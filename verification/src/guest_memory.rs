//! Guest memory made of separately mapped regions.

use crate::armv6::memory::{in_block, MemState, Memory};
use crate::armv6::trap::{Result, Trap, TrapView};
use crate::text::{hex32, hex32_text, join};
use vstd::prelude::*;
use vstd::string::StringExecFns;

verus! {

#[derive(Debug, Clone)]
struct Region {
    base: u32,
    data: Vec<u8>,
}

impl Region {
    spec fn holds(&self, addr: u32) -> bool {
        in_block(addr, self.base, self.data@.len() as int)
    }
}

/// Memory that holds the regions mapped into it. Everything else is refused.
#[derive(Debug, Clone)]
pub struct MappedMemory {
    regions: Vec<Region>,
}

/// The first region from `from` on that holds `addr`, or the number of regions.
spec fn region_of(regions: Seq<Region>, addr: u32, from: int) -> int
    decreases regions.len() - from,
{
    if from >= regions.len() || regions[from].holds(addr) {
        from
    } else {
        region_of(regions, addr, from + 1)
    }
}

proof fn region_of_is_first(regions: Seq<Region>, addr: u32, from: int)
    requires
        0 <= from <= regions.len(),
    ensures
        from <= region_of(regions, addr, from) <= regions.len(),
        region_of(regions, addr, from) < regions.len() ==> regions[region_of(
            regions,
            addr,
            from,
        )].holds(addr),
        forall|i: int| from <= i < region_of(regions, addr, from) ==> !regions[i].holds(addr),
    decreases regions.len() - from,
{
    if from < regions.len() && !regions[from].holds(addr) {
        region_of_is_first(regions, addr, from + 1);
    }
}

/// The message for an address that no region holds.
pub open spec fn unmapped_text(addr: u32) -> Seq<char> {
    "address "@ + hex32_text(addr) + " is not mapped"@
}

/// The state of a memory that holds `contents` and nothing else.
pub open spec fn mapped_state(contents: Map<u32, u8>) -> MemState {
    let faults = Map::new(
        |a: u32| !contents.contains_key(a),
        |a: u32| TrapView::Memory(unmapped_text(a)),
    );
    MemState {
        bytes: contents,
        load_faults: faults,
        store_faults: faults,
        extent: Seq::empty(),
    }
}

/// Whether any address of a range is in a map.
pub open spec fn overlaps(contents: Map<u32, u8>, base: u32, size: int) -> bool {
    exists|a: u32| in_block(a, base, size) && #[trigger] contents.contains_key(a)
}

/// The contents with a range of zeros added.
pub open spec fn zero_filled(contents: Map<u32, u8>, base: u32, size: int) -> Map<u32, u8> {
    Map::new(
        |a: u32| contents.contains_key(a) || in_block(a, base, size),
        |a: u32|
            if contents.contains_key(a) {
                contents[a]
            } else {
                0u8
            },
    )
}

impl MappedMemory {
    /// What is mapped, address by address.
    pub closed spec fn contents(&self) -> Map<u32, u8> {
        Map::new(
            |a: u32| region_of(self.regions@, a, 0) < self.regions@.len(),
            |a: u32|
                {
                    let region = self.regions@[region_of(self.regions@, a, 0)];
                    region.data@[a - region.base]
                },
        )
    }

    /// A memory with nothing mapped.
    pub fn new() -> (r: Self)
        ensures
            r.contents() == Map::<u32, u8>::empty(),
    {
        let r = MappedMemory { regions: Vec::new() };
        assert(r.contents() =~= Map::<u32, u8>::empty());
        r
    }

    /// Maps `size` zero bytes at `base`. Ranges that leave the address space or
    /// meet what is mapped are refused.
    pub fn map_zeroed(&mut self, base: u32, size: usize) -> (r: Result<()>)
        ensures
            match r {
                Ok(_) => {
                    &&& base + size <= 0x1_0000_0000
                    &&& !overlaps(old(self).contents(), base, size as int)
                    &&& final(self).contents() == zero_filled(
                        old(self).contents(),
                        base,
                        size as int,
                    )
                },
                Err(t) => {
                    &&& final(self).contents() == old(self).contents()
                    &&& if base + size > 0x1_0000_0000 {
                        t@ == TrapView::Memory("mapped range leaves the address space"@)
                    } else {
                        &&& overlaps(old(self).contents(), base, size as int)
                        &&& t@ == TrapView::Memory("mapped ranges overlap"@)
                    }
                },
            },
    {
        if size as u64 > 0x1_0000_0000 - base as u64 {
            return Err(Trap::Memory(String::from_str("mapped range leaves the address space")));
        }
        let mut i: usize = 0;
        while i < self.regions.len()
            invariant
                i <= self.regions@.len(),
                *self == *old(self),
                base + size <= 0x1_0000_0000,
                forall|k: int, a: u32|
                    #![trigger self.regions@[k].holds(a)]
                    0 <= k < i && in_block(a, base, size as int) ==> !self.regions@[k].holds(a),
            decreases self.regions@.len() - i,
        {
            let region = &self.regions[i];
            let meets = size > 0 && region.data.len() > 0 && if region.base <= base {
                ((base - region.base) as usize) < region.data.len()
            } else {
                ((region.base - base) as usize) < size
            };
            if meets {
                proof {
                    let a = if region.base <= base {
                        base
                    } else {
                        region.base
                    };
                    assert(region.holds(a));
                    region_of_is_first(self.regions@, a, 0);
                    assert(self.contents().contains_key(a));
                }
                return Err(Trap::Memory(String::from_str("mapped ranges overlap")));
            }
            assert forall|a: u32| in_block(a, base, size as int) implies !region.holds(a) by {}
            i += 1;
        }
        proof {
            assert forall|a: u32| in_block(a, base, size as int) implies !#[trigger] old(
                self,
            ).contents().contains_key(a) by {
                region_of_is_first(old(self).regions@, a, 0);
            }
        }
        let data: Vec<u8> = vec![0; size];
        self.regions.push(Region { base, data });
        proof {
            let before = old(self).regions@;
            let after = self.regions@;
            assert forall|a: u32| true implies region_of(after, a, 0) == if region_of(before, a, 0)
                < before.len() || after[before.len() as int].holds(a) {
                region_of(before, a, 0)
            } else {
                after.len() as int
            } by {
                region_of_push(before, after[before.len() as int], a, 0);
            }
            let was = zero_filled(old(self).contents(), base, size as int);
            let now = self.contents();
            assert forall|a: u32| now.contains_key(a) == #[trigger] was.contains_key(a) by {
                region_of_is_first(before, a, 0);
            }
            assert forall|a: u32| now.contains_key(a) implies #[trigger] now[a] == was[a] by {
                region_of_is_first(before, a, 0);
            }
            assert(now =~= was);
        }
        Ok(())
    }

    fn find(&self, addr: u32) -> (r: Result<usize>)
        ensures
            match r {
                Ok(i) => i < self.regions@.len() && i == region_of(self.regions@, addr, 0)
                    && self.regions@[i as int].holds(addr) && self.contents().contains_key(addr),
                Err(t) => !self.contents().contains_key(addr) && t@ == TrapView::Memory(
                    unmapped_text(addr),
                ),
            },
    {
        let mut i: usize = 0;
        while i < self.regions.len()
            invariant
                i <= self.regions@.len(),
                region_of(self.regions@, addr, 0) == region_of(self.regions@, addr, i as int),
            decreases self.regions@.len() - i,
        {
            let region = &self.regions[i];
            if region.base <= addr && ((addr - region.base) as usize) < region.data.len() {
                return Ok(i);
            }
            i += 1;
        }
        Err(
            Trap::Memory(
                join(join("address ", hex32(addr).as_str()).as_str(), " is not mapped"),
            ),
        )
    }
}

proof fn region_of_push(regions: Seq<Region>, region: Region, addr: u32, from: int)
    requires
        0 <= from <= regions.len(),
    ensures
        region_of(regions.push(region), addr, from) == if region_of(regions, addr, from)
            < regions.len() || region.holds(addr) {
            region_of(regions, addr, from)
        } else {
            regions.len() as int + 1
        },
    decreases regions.len() - from,
{
    let after = regions.push(region);
    if from < regions.len() {
        assert(after[from] == regions[from]);
        if !regions[from].holds(addr) {
            region_of_push(regions, region, addr, from + 1);
        }
    } else {
        assert(after[from] == region);
        assert(region_of(after, addr, from + 1) == from + 1);
    }
}

proof fn region_of_update(regions: Seq<Region>, at: int, region: Region, addr: u32, from: int)
    requires
        0 <= from <= regions.len(),
        0 <= at < regions.len(),
        region.base == regions[at].base,
        region.data@.len() == regions[at].data@.len(),
    ensures
        region_of(regions.update(at, region), addr, from) == region_of(regions, addr, from),
    decreases regions.len() - from,
{
    if from < regions.len() {
        region_of_update(regions, at, region, addr, from + 1);
    }
}

impl Memory for MappedMemory {
    open spec fn state(&self) -> MemState {
        mapped_state(self.contents())
    }

    fn load8(&mut self, addr: u32) -> (r: Result<u8>) {
        let i = self.find(addr)?;
        let off = (addr - self.regions[i].base) as usize;
        Ok(self.regions[i].data[off])
    }

    fn store8(&mut self, addr: u32, value: u8) -> (r: Result<()>) {
        let i = self.find(addr)?;
        let off = (addr - self.regions[i].base) as usize;
        self.regions[i].data[off] = value;
        proof {
            let before = old(self).regions@;
            let after = self.regions@;
            assert(after =~= before.update(i as int, after[i as int]));
            assert forall|a: u32| true implies region_of(after, a, 0) == region_of(before, a, 0) by {
                region_of_update(before, i as int, after[i as int], a, 0);
            }
            assert(after[i as int].data@ =~= before[i as int].data@.update(off as int, value));
            let was = old(self).contents();
            let now = self.contents();
            assert forall|a: u32| now.contains_key(a) implies #[trigger] now[a] == was.insert(
                addr,
                value,
            )[a] by {
                region_of_is_first(before, a, 0);
            }
            assert(now =~= was.insert(addr, value));
            assert(self.state() =~= old(self).state().store8(addr, value).0);
        }
        Ok(())
    }
}

} // verus!
