//! Memory management.
use crate::defs::{spec_p2v, Mem, P2V};
use crate::machine::multiboot::MultibootMmap;
use std::ops::Range;
use vstd::prelude::*;

pub mod pma;
pub mod vmm;

verus! {

/// The part of a block of physical memory that the heap may use, if any:
/// available memory that ends behind the start of the kernel image; where
/// the image ends within the block, what lies behind the image.
pub open spec fn spec_usable(block: MultibootMmap, kernel_start: u64, kernel_end: u64) -> Option<
    Range<u64>,
> {
    if block.mtype != MultibootMmap::MTYPE_RAM || block.addr + block.len <= kernel_start {
        None
    } else if block.addr <= kernel_end < block.addr + block.len {
        Some(Range { start: kernel_end, end: (block.addr + block.len) as u64 })
    } else {
        Some(Range { start: block.addr, end: (block.addr + block.len) as u64 })
    }
}

/// The largest usable part among the blocks; of several of the same size
/// the first.
pub open spec fn spec_largest(blocks: Seq<MultibootMmap>, kernel_start: u64, kernel_end: u64)
    -> Option<Range<u64>>
    decreases blocks.len(),
{
    if blocks.len() == 0 {
        None
    } else {
        let before = spec_largest(blocks.drop_last(), kernel_start, kernel_end);
        match spec_usable(blocks.last(), kernel_start, kernel_end) {
            None => before,
            Some(r) => match before {
                None => Some(r),
                Some(lr) => if r.end - r.start > lr.end - lr.start {
                    Some(r)
                } else {
                    Some(lr)
                },
            },
        }
    }
}

/// Whether the memory map can be searched: every block ends within the
/// range of addresses, and the kernel image does not cross from one block
/// into another, that is, a usable block in which the image ends holds its
/// start too.
pub open spec fn spec_blocks_ok(blocks: Seq<MultibootMmap>, kernel_start: u64, kernel_end: u64)
    -> bool {
    forall|i: int|
        #![trigger blocks[i]]
        0 <= i < blocks.len() ==> {
            &&& blocks[i].addr + blocks[i].len <= u64::MAX
            &&& blocks[i].mtype == MultibootMmap::MTYPE_RAM && blocks[i].addr + blocks[i].len
                > kernel_start && blocks[i].addr <= kernel_end < blocks[i].addr + blocks[i].len
                ==> blocks[i].addr <= kernel_start
        }
}

/// The largest usable part of the physical memory is the part of one of the
/// blocks, and no usable part of a block is larger.
pub proof fn lemma_largest(blocks: Seq<MultibootMmap>, kernel_start: u64, kernel_end: u64)
    ensures
        spec_largest(blocks, kernel_start, kernel_end) is Some ==> exists|i: int|
            0 <= i < blocks.len() && spec_usable(#[trigger] blocks[i], kernel_start, kernel_end)
                == spec_largest(blocks, kernel_start, kernel_end),
        forall|i: int|
            0 <= i < blocks.len() && spec_usable(#[trigger] blocks[i], kernel_start, kernel_end)
                is Some ==> {
                let r = spec_usable(blocks[i], kernel_start, kernel_end)->0;
                let l = spec_largest(blocks, kernel_start, kernel_end);
                l is Some && r.end - r.start <= l->0.end - l->0.start
            },
    decreases blocks.len(),
{
    if blocks.len() > 0 {
        let rest = blocks.drop_last();
        lemma_largest(rest, kernel_start, kernel_end);
        let l = spec_largest(blocks, kernel_start, kernel_end);
        if l is Some {
            if spec_usable(blocks.last(), kernel_start, kernel_end) == l {
                assert(blocks[blocks.len() - 1] == blocks.last());
            } else {
                let i = choose|i: int|
                    0 <= i < rest.len() && spec_usable(#[trigger] rest[i], kernel_start, kernel_end)
                        == spec_largest(rest, kernel_start, kernel_end);
                assert(blocks[i] == rest[i]);
            }
        }
        assert forall|i: int|
            0 <= i < blocks.len() && spec_usable(
                #[trigger] blocks[i],
                kernel_start,
                kernel_end,
            ) is Some implies {
            let r = spec_usable(blocks[i], kernel_start, kernel_end)->0;
            let l = spec_largest(blocks, kernel_start, kernel_end);
            l is Some && r.end - r.start <= l->0.end - l->0.start
        } by {
            if i < rest.len() {
                assert(blocks[i] == rest[i]);
            }
        }
    }
}

/// Look for the largest usable part of the physical memory: of the blocks
/// of available memory that end behind the start of the kernel image, with
/// the image itself cut off, the largest, and of several of that size the
/// first.
pub fn largest_usable_range(blocks: &[MultibootMmap], kernel_start: u64, kernel_end: u64) -> (r:
    Option<Range<u64>>)
    requires
        spec_blocks_ok(blocks@, kernel_start, kernel_end),
    ensures
        r == spec_largest(blocks@, kernel_start, kernel_end),
{
    let mut largest_phy_range: Option<Range<u64>> = None;
    let mut i: usize = 0;
    assert(blocks@.subrange(0, 0) =~= Seq::<MultibootMmap>::empty());
    while i < blocks.len()
        invariant
            0 <= i <= blocks.len(),
            spec_blocks_ok(blocks@, kernel_start, kernel_end),
            largest_phy_range == spec_largest(
                blocks@.subrange(0, i as int),
                kernel_start,
                kernel_end,
            ),
            largest_phy_range is Some ==> largest_phy_range->0.start <= largest_phy_range->0.end,
        decreases blocks.len() - i,
    {
        let mblock = &blocks[i];
        proof {
            assert(blocks@.subrange(0, i as int + 1).drop_last() =~= blocks@.subrange(0, i as int));
            assert(blocks@.subrange(0, i as int + 1).last() == blocks@[i as int]);
        }
        i += 1;
        if mblock.mtype != MultibootMmap::MTYPE_RAM {
            continue ;
        }
        if mblock.get_end() <= kernel_start {
            continue ;
        }
        let mut r = mblock.get_range();
        if r.start <= kernel_end && kernel_end < r.end {
            r.start = kernel_end;
        }
        match largest_phy_range {
            None => largest_phy_range = Some(r),
            Some(ref lr) => {
                if (r.end - r.start) > (lr.end - lr.start) {
                    largest_phy_range = Some(r);
                }
            },
        }
    }
    assert(blocks@.subrange(0, blocks.len() as int) =~= blocks@);
    largest_phy_range
}

/// Whether the heap can be set up from this memory map: the map can be
/// searched, it has a usable part, the largest usable part has the least
/// amount of memory that the kernel needs, and it lies within the physical
/// memory that the identity mapping covers.
pub open spec fn spec_can_init(blocks: Seq<MultibootMmap>, kernel_start: u64, kernel_end: u64)
    -> bool {
    let l = spec_largest(blocks, kernel_start, kernel_end);
    &&& spec_blocks_ok(blocks, kernel_start, kernel_end)
    &&& l is Some
    &&& l->0.start <= l->0.end
    &&& l->0.end - l->0.start >= Mem::MIN_PHY_MEM
    &&& l->0.end < Mem::MAX_PHY_MEM
    &&& l->0.end - l->0.start <= usize::MAX
}

/// Choose the memory of the heap: the largest usable part of the physical
/// memory. The virtual address at which it starts in the identity mapping
/// and its size in bytes are handed back; the caller gives them to the
/// allocator of the heap.
pub fn init(blocks: &[MultibootMmap], kernel_start: u64, kernel_end: u64) -> (heap: (
    u64,
    usize,
))
    requires
        spec_can_init(blocks@, kernel_start, kernel_end),
    ensures
        Some(heap.0) == spec_p2v(spec_largest(blocks@, kernel_start, kernel_end)->0.start),
        heap.1 == spec_largest(blocks@, kernel_start, kernel_end)->0.end - spec_largest(
            blocks@,
            kernel_start,
            kernel_end,
        )->0.start,
{
    let largest_phy_range = largest_usable_range(blocks, kernel_start, kernel_end);
    let pr = largest_phy_range.unwrap();
    let size = pr.end - pr.start;
    (P2V(pr.start).unwrap(), size as usize)
}

/// A cache of kernel stacks in front of the allocator of the heap.
pub struct KStackAllocator {
    pub pool: Vec<u64>,
}

impl KStackAllocator {
    /// How many stacks the cache keeps at most.
    pub const KSTACK_ALLOC_POOL_CAP: usize = 16;

    pub fn new() -> (a: Self)
        ensures
            a.pool@.len() == 0,
    {
        let p = Vec::with_capacity(Self::KSTACK_ALLOC_POOL_CAP);
        Self { pool: p }
    }

    /// Take the stack that was cached last, if there is one. Without one
    /// the caller allocates a stack from the heap.
    pub fn allocate(&mut self) -> (r: Option<u64>)
        ensures
            old(self).pool@.len() == 0 ==> r is None && final(self).pool@ == old(self).pool@,
            old(self).pool@.len() > 0 ==> r == Some(old(self).pool@.last()) && final(self).pool@
                == old(self).pool@.drop_last(),
    {
        if let Some(addr) = self.pool.pop() {
            return Some(addr);
        } else {
            return None;
        }
    }

    /// Give a stack back. It is cached if the cache has room; otherwise it
    /// is handed back for the caller to give it to the heap.
    pub fn free(&mut self, addr: u64) -> (r: Option<u64>)
        ensures
            old(self).pool@.len() < Self::KSTACK_ALLOC_POOL_CAP ==> r is None && final(self).pool@
                == old(self).pool@.push(addr),
            old(self).pool@.len() >= Self::KSTACK_ALLOC_POOL_CAP ==> r == Some(addr)
                && final(self).pool@ == old(self).pool@,
    {
        if self.pool.len() < Self::KSTACK_ALLOC_POOL_CAP {
            self.pool.push(addr);
            None
        } else {
            Some(addr)
        }
    }

    /// Fill the cache with stacks that the caller has allocated: all of
    /// them are cached, whatever the cache holds.
    pub fn populate(&mut self, stacks: &[u64])
        ensures
            final(self).pool@ == old(self).pool@ + stacks@,
    {
        let mut i: usize = 0;
        assert(stacks@.subrange(0, 0) =~= Seq::<u64>::empty());
        assert(self.pool@ + Seq::<u64>::empty() =~= self.pool@);
        while i < stacks.len()
            invariant
                0 <= i <= stacks.len(),
                self.pool@ == old(self).pool@ + stacks@.subrange(0, i as int),
            decreases stacks.len() - i,
        {
            self.pool.push(stacks[i]);
            assert(self.pool@ =~= old(self).pool@ + stacks@.subrange(0, i as int + 1));
            i += 1;
        }
        assert(stacks@.subrange(0, stacks.len() as int) =~= stacks@);
    }
}

} // verus!
