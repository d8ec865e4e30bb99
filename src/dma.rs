//! DMA-coherent memory: descriptors, the ledger of live allocations, and
//! page allocation through the platform allocator.
use vstd::prelude::*;
use std::collections::HashMap;

verus! {

broadcast use vstd::std_specs::hash::group_hash_axioms;

/// Size of one DMA page in bytes.
pub const PAGE_SIZE: usize = 4096;

/// One DMA-coherent region: the device sees it at `dma_addr`, the CPU at
/// `cpu_addr`, and it spans `size` bytes.
#[derive(Clone, Copy, Debug, PartialEq, Eq, Structural)]
pub struct DmaInfo {
    pub dma_addr: usize,
    pub cpu_addr: usize,
    pub size: usize,
}

impl DmaInfo {
    /// Both addresses denote the same memory when the kernel maps physical
    /// address `p` at virtual address `p + phys_offset`.
    pub open spec fn maps(&self, phys_offset: usize) -> bool {
        self.cpu_addr == self.dma_addr + phys_offset
    }
}

/// Errors of the DMA ledger.
#[derive(Clone, Copy, Debug, PartialEq, Eq, Structural)]
pub enum DmaError {
    /// The page count is zero or too large to describe in bytes.
    InvalidSize,
    /// The platform allocator gave no memory the device can reach.
    NoMemory,
    /// The region is not a live allocation of this ledger (never allocated,
    /// already freed, or freed with another size).
    NotAllocated,
}

/// Whether `pages` is a page count that the platform allocator accepts.
pub open spec fn pages_ok(pages: usize) -> bool {
    0 < pages && pages * PAGE_SIZE <= isize::MAX
}

/// The regions of `pa` pages at `a` and of `pb` pages at `b` share no byte.
pub open spec fn disjoint(a: usize, pa: usize, b: usize, pb: usize) -> bool {
    a + pa * PAGE_SIZE <= b || b + pb * PAGE_SIZE <= a
}

/// The region described by the allocator's answer `got` to a request for
/// `pages` pages: none when it gave nothing or an address below the mapping
/// offset, which the device cannot reach.
pub open spec fn dma_region_spec(got: Option<usize>, pages: usize, phys_offset: usize) -> Result<
    DmaInfo,
    DmaError,
> {
    match got {
        None => Err(DmaError::NoMemory),
        Some(a) => if a < phys_offset {
            Err(DmaError::NoMemory)
        } else {
            Ok(DmaInfo { dma_addr: (a - phys_offset) as usize, cpu_addr: a, size: (pages * PAGE_SIZE) as usize })
        },
    }
}

/// Turns the allocator's answer to a request for `pages` pages into a DMA
/// descriptor for a kernel that maps physical address `p` at virtual
/// address `p + phys_offset`.
pub fn dma_region(got: Option<usize>, pages: usize, phys_offset: usize) -> (r: Result<DmaInfo, DmaError>)
    requires
        pages_ok(pages),
    ensures
        r == dma_region_spec(got, pages, phys_offset),
{
    match got {
        None => Err(DmaError::NoMemory),
        Some(a) => {
            if a < phys_offset {
                Err(DmaError::NoMemory)
            } else {
                Ok(DmaInfo { dma_addr: a - phys_offset, cpu_addr: a, size: pages * PAGE_SIZE })
            }
        },
    }
}

/// Accounting of live DMA regions, keyed by CPU address; the value is the
/// number of pages.
pub struct DmaLedger {
    live: HashMap<usize, usize>,
    phys_offset: usize,
    platform: Ghost<Map<usize, usize>>,
}

impl DmaLedger {
    /// Live regions as a map from CPU address to page count.
    pub closed spec fn view(&self) -> Map<usize, usize> {
        self.live@
    }

    /// Regions the platform allocator handed to this ledger and has not got
    /// back.
    pub closed spec fn platform(&self) -> Map<usize, usize> {
        self.platform@
    }

    /// Distance between a virtual address and the physical address it maps.
    pub closed spec fn offset(&self) -> usize {
        self.phys_offset
    }

    /// The ledger records exactly the regions held from the platform; each
    /// starts on a page, above the mapping offset, has an allowed page
    /// count, and no two overlap.
    pub open spec fn wf(&self) -> bool {
        &&& self@ == self.platform()
        &&& forall|a: usize| #[trigger] self@.contains_key(a) ==> a % PAGE_SIZE == 0 && pages_ok(
            self@[a],
        ) && a >= self.offset() && a + self@[a] * PAGE_SIZE <= usize::MAX
        &&& forall|a: usize, b: usize|
            #[trigger] self@.contains_key(a) && #[trigger] self@.contains_key(b) && a != b
                ==> disjoint(a, self@[a], b, self@[b])
    }

    /// Relies on axalloc's `GlobalAllocator::alloc_pages`: on success a region
    /// of `pages` pages aligned to `align` that overlaps no region it handed
    /// out and has not got back.
    #[verifier::external_body]
    fn platform_alloc_pages(&mut self, pages: usize, align: usize) -> (r: Option<usize>)
        requires
            pages_ok(pages),
            align == PAGE_SIZE,
        ensures
            final(self).live@ == old(self).live@,
            final(self).phys_offset == old(self).phys_offset,
            r is None ==> final(self).platform@ == old(self).platform@,
            r matches Some(a) ==> {
                &&& a % align == 0
                &&& a + pages * PAGE_SIZE <= usize::MAX
                &&& forall|b: usize| #[trigger] old(self).platform@.contains_key(b) ==> disjoint(
                    a,
                    pages,
                    b,
                    old(self).platform@[b],
                )
                &&& final(self).platform@ == old(self).platform@.insert(a, pages)
            },
    {
        axalloc::global_allocator().alloc_pages(pages, align, axalloc::UsageKind::Dma).ok()
    }

    /// Relies on axalloc's `GlobalAllocator::dealloc_pages`: gives back a
    /// region that `alloc_pages` handed out with that page count.
    #[verifier::external_body]
    fn platform_dealloc_pages(&mut self, addr: usize, pages: usize)
        requires
            old(self).platform@.contains_key(addr),
            old(self).platform@[addr] == pages,
        ensures
            final(self).live@ == old(self).live@,
            final(self).phys_offset == old(self).phys_offset,
            final(self).platform@ == old(self).platform@.remove(addr),
    {
        axalloc::global_allocator().dealloc_pages(addr, pages, axalloc::UsageKind::Dma)
    }

    /// An empty ledger for a kernel that maps physical address `p` at
    /// virtual address `p + phys_offset`.
    pub fn new(phys_offset: usize) -> (r: Self)
        ensures
            r.wf(),
            r@ == Map::<usize, usize>::empty(),
            r.offset() == phys_offset,
    {
        let r = DmaLedger { live: HashMap::new(), phys_offset, platform: Ghost(Map::empty()) };
        r
    }

    /// Number of live regions.
    pub fn live_count(&self) -> (r: usize)
        ensures
            r == self@.len(),
    {
        self.live.len()
    }

    /// Whether a region is live at `addr`.
    pub fn is_live(&self, addr: usize) -> (r: bool)
        ensures
            r == self@.contains_key(addr),
    {
        self.live.contains_key(&addr)
    }

    /// Allocates `pages` pages of DMA-coherent memory and records them.
    pub fn dma_alloc_coherent(&mut self, pages: usize) -> (r: Result<DmaInfo, DmaError>)
        requires
            old(self).wf(),
        ensures
            final(self).wf(),
            final(self).offset() == old(self).offset(),
            r == Err::<DmaInfo, DmaError>(DmaError::InvalidSize) <==> !pages_ok(pages),
            pages_ok(pages) ==> exists|got: Option<usize>| r == #[trigger] dma_region_spec(
                got,
                pages,
                old(self).offset(),
            ),
            r matches Ok(info) ==> {
                &&& info.maps(old(self).offset())
                &&& info.size == pages * PAGE_SIZE
                &&& info.cpu_addr % PAGE_SIZE == 0
                &&& !old(self)@.contains_key(info.cpu_addr)
                &&& forall|b: usize| #[trigger] old(self)@.contains_key(b) ==> disjoint(
                    info.cpu_addr,
                    pages,
                    b,
                    old(self)@[b],
                )
                &&& final(self)@ == old(self)@.insert(info.cpu_addr, pages)
            },
            r is Err ==> final(self)@ == old(self)@,
    {
        if pages == 0 || pages > (isize::MAX as usize) / PAGE_SIZE {
            return Err(DmaError::InvalidSize);
        }
        let got = self.platform_alloc_pages(pages, PAGE_SIZE);
        let ghost after_alloc = self.platform@;
        match dma_region(got, pages, self.phys_offset) {
            Err(e) => {
                if let Some(addr) = got {
                    self.platform_dealloc_pages(addr, pages);
                    proof {
                        assert(self.platform@ =~= old(self).platform@);
                    }
                }
                Err(e)
            },
            Ok(info) => {
                let addr = info.cpu_addr;
                self.live.insert(addr, pages);
                proof {
                    assert(!old(self)@.contains_key(addr)) by {
                        if old(self)@.contains_key(addr) {
                            assert(disjoint(addr, pages, addr, old(self)@[addr]));
                        }
                    }
                    assert(self@ =~= self.platform@);
                    assert forall|a: usize, b: usize|
                        #[trigger] self@.contains_key(a) && #[trigger] self@.contains_key(b) && a
                            != b implies disjoint(a, self@[a], b, self@[b]) by {
                        if a != addr && b != addr {
                            assert(old(self)@.contains_key(a) && old(self)@.contains_key(b));
                        } else if a == addr {
                            assert(old(self).platform@.contains_key(b));
                        } else {
                            assert(old(self).platform@.contains_key(a));
                        }
                    }
                    assert forall|a: usize| #[trigger] self@.contains_key(a) implies a % PAGE_SIZE
                        == 0 && pages_ok(self@[a]) && a >= self.offset() && a + self@[a]
                        * PAGE_SIZE <= usize::MAX by {
                        if a != addr {
                            assert(old(self)@.contains_key(a));
                        }
                    }
                }
                Ok(info)
            },
        }
    }

    /// Gives back a region recorded by `dma_alloc_coherent` to the platform
    /// allocator; a region that is not live with exactly that page count is
    /// refused and not handed to the allocator.
    pub fn dma_free_coherent(&mut self, cpu_addr: usize, pages: usize) -> (r: Result<(), DmaError>)
        requires
            old(self).wf(),
        ensures
            final(self).wf(),
            final(self).offset() == old(self).offset(),
            old(self)@.contains_key(cpu_addr) && old(self)@[cpu_addr] == pages ==> r is Ok
                && final(self)@ == old(self)@.remove(cpu_addr)
                && final(self).platform() == old(self).platform().remove(cpu_addr),
            !(old(self)@.contains_key(cpu_addr) && old(self)@[cpu_addr] == pages) ==> r
                == Err::<(), DmaError>(DmaError::NotAllocated) && final(self)@ == old(self)@
                && final(self).platform() == old(self).platform(),
    {
        let known = match self.live.get(&cpu_addr) {
            Some(n) => *n == pages,
            None => false,
        };
        if !known {
            return Err(DmaError::NotAllocated);
        }
        self.platform_dealloc_pages(cpu_addr, pages);
        self.live.remove(&cpu_addr);
        proof {
            assert(self@ =~= self.platform@);
            assert forall|a: usize| #[trigger] self@.contains_key(a) implies a % PAGE_SIZE == 0
                && pages_ok(self@[a]) && a >= self.offset() && a + self@[a] * PAGE_SIZE
                <= usize::MAX by {
                assert(old(self)@.contains_key(a));
            }
            assert forall|a: usize, b: usize|
                #[trigger] self@.contains_key(a) && #[trigger] self@.contains_key(b) && a != b
                    implies disjoint(a, self@[a], b, self@[b]) by {
                assert(old(self)@.contains_key(a) && old(self)@.contains_key(b));
            }
        }
        Ok(())
    }
}

/// Allocating a region and then freeing it leaves the ledger as it was: no
/// region leaks and none is counted twice.
pub proof fn lemma_alloc_free_restores(before: Map<usize, usize>, addr: usize, pages: usize)
    requires
        !before.contains_key(addr),
    ensures
        before.insert(addr, pages).remove(addr) == before,
        before.insert(addr, pages).remove(addr).len() == before.len(),
{
    assert(before.insert(addr, pages).remove(addr) =~= before);
}

} // verus!
