//! A simple allocator of 4 KiB physical frames that keeps the free frames
//! on a stack. Allocation and release take constant time.
use crate::defs::{roundup_4k, spec_roundup_4k};
use std::ops::Range;
use vstd::prelude::*;

verus! {

/// The stack of the free frames. The first `head` places of `page_stack`
/// hold the addresses of the free frames, the one that was freed last on
/// top.
pub struct PageStackAllocator {
    pub page_stack: Vec<u64>,
    pub size: usize,
    pub head: usize,
}

impl PageStackAllocator {
    /// Room for the frames of 4 GiB of physical memory.
    pub const STACK_SIZE: usize = 0x100000;

    /// Whether the stack has the room that it claims, and the top is
    /// within it.
    pub open spec fn wf(&self) -> bool {
        &&& self.page_stack@.len() == self.size
        &&& self.head <= self.size
    }

    /// The free frames, the one that was freed first at the front.
    pub open spec fn free_frames(&self) -> Seq<u64> {
        self.page_stack@.subrange(0, self.head as int)
    }

    /// An allocator without a free frame, with room for `size` frames.
    pub fn new(size: usize) -> (a: Self)
        ensures
            a.wf(),
            a.size == size,
            a.head == 0,
            a.free_frames() == Seq::<u64>::empty(),
    {
        let mut page_stack: Vec<u64> = Vec::new();
        let mut i: usize = 0;
        while i < size
            invariant
                0 <= i <= size,
                page_stack@.len() == i,
            decreases size - i,
        {
            page_stack.push(0);
            i += 1;
        }
        let ps = Self { page_stack, size, head: 0 };
        assert(ps.free_frames() =~= Seq::<u64>::empty());
        return ps;
    }

    /// Put a frame on the stack of the free frames, and say whether there
    /// was room for it.
    pub fn free_page(&mut self, addr: u64) -> (ok: bool)
        requires
            old(self).wf(),
        ensures
            final(self).wf(),
            final(self).size == old(self).size,
            ok == (old(self).head < old(self).size),
            ok ==> final(self).free_frames() == old(self).free_frames().push(addr),
            !ok ==> *final(self) == *old(self),
    {
        if self.head >= self.size {
            return false;
        }
        self.page_stack[self.head] = addr;
        self.head += 1;
        assert(self.free_frames() =~= old(self).free_frames().push(addr));
        return true;
    }

    /// Take the frame that was freed last, if there is a free frame.
    pub fn alloc_page(&mut self) -> (r: Option<u64>)
        requires
            old(self).wf(),
        ensures
            final(self).wf(),
            final(self).size == old(self).size,
            old(self).head == 0 ==> r is None && *final(self) == *old(self),
            old(self).head > 0 ==> r == Some(old(self).free_frames().last())
                && final(self).free_frames() == old(self).free_frames().drop_last(),
    {
        if self.head == 0 {
            return None;
        }
        self.head -= 1;
        assert(self.free_frames() =~= old(self).free_frames().drop_last());
        Some(self.page_stack[self.head])
    }

    /// The frames of a range of addresses: the multiples of 4096 from the
    /// first one that is not below the start, as long as they are below
    /// the end.
    pub open spec fn spec_frames(r: Range<u64>, n: nat) -> Seq<u64> {
        Seq::new(n, |i: int| (spec_roundup_4k(r.start as int) + i * 0x1000) as u64)
    }

    /// How many frames a range of addresses has.
    pub open spec fn spec_frame_count(r: Range<u64>) -> nat {
        if spec_roundup_4k(r.start as int) < r.end {
            ((r.end - spec_roundup_4k(r.start as int) + 0xfff) / 0x1000) as nat
        } else {
            0
        }
    }

    /// Free the frames of a range of addresses, lowest first, until the
    /// range is used up or the stack is full, and say how many were freed.
    /// The range must end a frame or more below the end of the range of
    /// addresses.
    pub fn insert_range(&mut self, r: &Range<u64>) -> (inserted: u64)
        requires
            old(self).wf(),
            r.start + 0xfff <= u64::MAX,
            r.end + 0x1000 <= u64::MAX,
        ensures
            final(self).wf(),
            final(self).size == old(self).size,
            inserted == (if Self::spec_frame_count(*r) <= old(self).size - old(self).head {
                Self::spec_frame_count(*r)
            } else {
                (old(self).size - old(self).head) as nat
            }),
            final(self).free_frames() == old(self).free_frames() + Self::spec_frames(
                *r,
                inserted as nat,
            ),
    {
        let mut inserted: u64 = 0;
        let mut page = roundup_4k(r.start);
        let ghost first = page;
        assert(self.free_frames() =~= old(self).free_frames() + Self::spec_frames(*r, 0));
        loop
            invariant
                self.wf(),
                self.size == old(self).size,
                first == spec_roundup_4k(r.start as int),
                r.end + 0x1000 <= u64::MAX,
                page == first + inserted * 0x1000,
                inserted > 0 ==> page <= r.end + 0xfff,
                self.head == old(self).head + inserted,
                inserted <= Self::spec_frame_count(*r),
                self.free_frames() == old(self).free_frames() + Self::spec_frames(
                    *r,
                    inserted as nat,
                ),
            ensures
                self.wf(),
                self.size == old(self).size,
                inserted == (if Self::spec_frame_count(*r) <= old(self).size - old(self).head {
                    Self::spec_frame_count(*r)
                } else {
                    (old(self).size - old(self).head) as nat
                }),
                self.free_frames() == old(self).free_frames() + Self::spec_frames(
                    *r,
                    inserted as nat,
                ),
            decreases r.end + 0x1000 - page,
        {
            if !(r.start <= page && page < r.end) {
                break ;
            }
            if !self.free_page(page) {
                break ;
            } else {
                inserted += 1;
            }
            assert(self.free_frames() =~= old(self).free_frames() + Self::spec_frames(
                *r,
                inserted as nat,
            ));
            page += 0x1000;
        }
        return inserted;
    }
}

} // verus!
