//! Page tables and their entries.
use crate::arch::x86_64::paging::lemma_page_indices;
use vstd::prelude::*;

verus! {

/// A page table: 512 entries.
pub struct Pagetable {
    pub entries: [PTE; 512],
}

/// An entry of a page table: the address of a frame in the bits 12 to 51,
/// and flags in the others. An entry that is zero is unused.
#[derive(Clone, Copy, Debug, PartialEq, Eq, Structural)]
pub struct PTE {
    pub entry: u64,
}

/// The flags of an entry of a page table, as a bit pattern.
#[derive(Clone, Copy, Debug, PartialEq, Eq, Structural)]
pub struct PTEFlags {
    pub bits: u64,
}

impl PTEFlags {
    pub const ZERO: u64 = 0;

    pub const PRESENT: u64 = 1 << 0;

    pub const WRITABLE: u64 = 1 << 1;

    pub const USER: u64 = 1 << 2;

    pub const WT: u64 = 1 << 3;

    pub const NC: u64 = 1 << 4;

    pub const ACCESSED: u64 = 1 << 5;

    pub const DIRTY: u64 = 1 << 6;

    pub const HUGE_PAGE: u64 = 1 << 7;

    pub const GLOBAL: u64 = 1 << 8;

    pub const B9: u64 = 1 << 9;

    pub const B10: u64 = 1 << 10;

    pub const B11: u64 = 1 << 11;

    /// No execute; it has to be enabled in the processor.
    pub const NE: u64 = 1 << 63;

    /// Every flag there is: the bits 0 to 11 and bit 63.
    pub const ALL: u64 = 0x8000_0000_0000_0fff;

    /// The flags in `bits`; bits that stand for no flag are dropped.
    pub fn from_bits_truncate(bits: u64) -> (f: Self)
        ensures
            f.bits == bits & Self::ALL,
    {
        PTEFlags { bits: bits & Self::ALL }
    }

    /// The flags as a bit pattern.
    pub fn bits(&self) -> (b: u64)
        ensures
            b == self.bits,
    {
        self.bits
    }

    /// Whether every flag in `flags` is set.
    pub open spec fn spec_contains(&self, flags: u64) -> bool {
        self.bits & flags == flags
    }

    /// Whether every flag in `flags` is set.
    #[verifier::when_used_as_spec(spec_contains)]
    pub fn contains(&self, flags: u64) -> (r: bool)
        ensures
            r == self.spec_contains(flags),
    {
        self.bits & flags == flags
    }
}

impl Pagetable {
    pub const ENTRY_COUNT: usize = 512;

    /// An empty page table.
    #[inline]
    pub fn new() -> (pt: Self)
        ensures
            pt.spec_is_empty(),
    {
        Pagetable { entries: [PTE::new(); 512] }
    }

    /// Whether every entry is unused.
    pub open spec fn spec_is_empty(&self) -> bool {
        forall|i: int| 0 <= i < 512 ==> (#[trigger] self.entries[i]).entry == 0
    }

    /// Clear all entries.
    #[inline]
    pub fn zero(&mut self)
        ensures
            final(self).spec_is_empty(),
    {
        let mut i: usize = 0;
        while i < 512
            invariant
                0 <= i <= 512,
                forall|j: int| 0 <= j < i ==> (#[trigger] self.entries[j]).entry == 0,
            decreases 512 - i,
        {
            let mut e = self.entries[i];
            e.set_unused();
            self.entries[i] = e;
            i += 1;
        }
    }

    /// The entries of the table, first to last.
    #[inline]
    pub fn iter(&self) -> (entries: Vec<PTE>)
        ensures
            entries@ == self.entries@,
    {
        let mut out: Vec<PTE> = Vec::new();
        let mut i: usize = 0;
        while i < 512
            invariant
                0 <= i <= 512,
                out@ == self.entries@.subrange(0, i as int),
            decreases 512 - i,
        {
            out.push(self.entries[i]);
            assert(out@ =~= self.entries@.subrange(0, i as int + 1));
            i += 1;
        }
        assert(out@ =~= self.entries@);
        out
    }

    /// Whether the page table is empty: all entries are zero.
    #[inline]
    pub fn is_empty(&self) -> (r: bool)
        ensures
            r == self.spec_is_empty(),
    {
        let mut i: usize = 0;
        while i < 512
            invariant
                0 <= i <= 512,
                forall|j: int| 0 <= j < i ==> (#[trigger] self.entries[j]).entry == 0,
            decreases 512 - i,
        {
            if !self.entries[i].is_unused() {
                return false;
            }
            i += 1;
        }
        true
    }
}

impl PTE {
    /// An unused entry.
    #[inline]
    pub fn new() -> (e: Self)
        ensures
            e.entry == 0,
    {
        PTE { entry: 0 }
    }

    #[inline]
    pub fn is_unused(&self) -> (r: bool)
        ensures
            r == (self.entry == 0),
    {
        self.entry == 0
    }

    #[inline]
    pub fn set_unused(&mut self)
        ensures
            final(self).entry == 0,
    {
        self.entry = 0;
    }

    /// The flags of the entry; bits that stand for no flag are dropped.
    #[inline]
    pub fn flags(&self) -> (f: PTEFlags)
        ensures
            f.bits == self.entry & PTEFlags::ALL,
    {
        PTEFlags::from_bits_truncate(self.entry)
    }

    /// The address of the frame that the entry points to: the bits 12 to 51
    /// of the entry, a multiple of the page size below 2^52.
    #[inline]
    pub fn addr(&self) -> (pa: u64)
        ensures
            pa == self.entry & 0x000f_ffff_ffff_f000,
            pa % 4096 == 0,
            pa < 0x10_0000_0000_0000,
            pa == (self.entry % 0x10_0000_0000_0000) / 4096 * 4096,
    {
        let e = self.entry;
        assert((e & 0x000f_ffff_ffff_f000) % 4096 == 0 && e & 0x000f_ffff_ffff_f000
            < 0x10_0000_0000_0000 && e & 0x000f_ffff_ffff_f000 == (e % 0x10_0000_0000_0000) / 4096
            * 4096) by (bit_vector);
        self.entry & 0x000f_ffff_ffff_f000
    }

    /// Let the entry point to the frame at `pa`, with these flags.
    #[inline]
    pub fn set(&mut self, pa: u64, flags: PTEFlags)
        ensures
            final(self).entry == pa | flags.bits,
    {
        self.entry = pa | flags.bits();
    }

    #[inline]
    pub fn clear(&mut self)
        ensures
            final(self).entry == 0,
    {
        self.entry = 0;
    }
}

/// The index into the level 4 table for an address: the bits 39 to 47.
#[inline]
pub fn p4idx(addr: u64) -> (i: u16)
    ensures
        i == (addr / 0x80_0000_0000) % 512,
{
    proof {
        lemma_page_indices(addr);
    }
    let i = (addr >> 12 >> 9 >> 9 >> 9) & 0x1ff;
    i as u16
}

/// The index into a level 3 table for an address: the bits 30 to 38.
#[inline]
pub fn p3idx(addr: u64) -> (i: u16)
    ensures
        i == (addr / 0x4000_0000) % 512,
{
    proof {
        lemma_page_indices(addr);
    }
    let i = (addr >> 12 >> 9 >> 9) & 0x1ff;
    i as u16
}

/// The index into a level 2 table for an address: the bits 21 to 29.
#[inline]
pub fn p2idx(addr: u64) -> (i: u16)
    ensures
        i == (addr / 0x20_0000) % 512,
{
    proof {
        lemma_page_indices(addr);
    }
    let i = (addr >> 12 >> 9) & 0x1ff;
    i as u16
}

/// The index into a level 1 table for an address: the bits 12 to 20.
#[inline]
pub fn p1idx(addr: u64) -> (i: u16)
    ensures
        i == (addr / 0x1000) % 512,
{
    proof {
        lemma_page_indices(addr);
    }
    let i = (addr >> 12) & 0x1ff;
    i as u16
}

} // verus!
