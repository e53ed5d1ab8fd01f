//! Virtual and physical addresses, and the page tables that map the one to
//! the other.
use crate::arch::x86_64::paging::pagetable::{p1idx, p2idx, p3idx, p4idx, PTEFlags, Pagetable, PTE};
use crate::arch::x86_64::Cpu;
use crate::defs::{is_aligned_4k, rounddown_4k, spec_p2v, spec_rounddown_4k, spec_v2p, Mem, P2V,
    V2P};
use crate::mm::vmm::{VMArea, VMType};
use std::collections::HashMap;
use std::ops::Range;
use vstd::prelude::*;

pub mod pagetable;

verus! {

/// A virtual address in canonical form: the 16 highest bits repeat bit 47.
#[derive(Clone, Copy, PartialEq, Eq, Structural, PartialOrd, Ord, Hash, Debug)]
pub struct VAddr(pub u64);

/// A physical address: it has 52 bits at most.
#[derive(Clone, Copy, PartialEq, Eq, Structural, PartialOrd, Ord, Hash, Debug)]
pub struct PAddr(pub u64);

/// The canonical form of an address: the 48 low bits as they are, and each
/// of the 16 high bits equal to bit 47.
pub open spec fn spec_canonical(addr: u64) -> u64 {
    if addr & 0x0000_8000_0000_0000 != 0 {
        addr | 0xffff_0000_0000_0000
    } else {
        addr & 0x0000_ffff_ffff_ffff
    }
}

/// What the shifts and masks of the index functions compute, in terms of
/// division and remainder: a page has 4096 bytes, and each level of the
/// page table has 512 entries.
pub proof fn lemma_page_indices(addr: u64)
    ensures
        addr >> 12 == addr / 0x1000,
        addr >> 12 >> 9 == addr / 0x20_0000,
        addr >> 12 >> 9 >> 9 == addr / 0x4000_0000,
        addr >> 12 >> 9 >> 9 >> 9 == addr / 0x80_0000_0000,
        (addr >> 12) & 0x1ff == (addr / 0x1000) % 512,
        (addr >> 12 >> 9) & 0x1ff == (addr / 0x20_0000) % 512,
        (addr >> 12 >> 9 >> 9) & 0x1ff == (addr / 0x4000_0000) % 512,
        (addr >> 12 >> 9 >> 9 >> 9) & 0x1ff == (addr / 0x80_0000_0000) % 512,
{
    assert(addr >> 12 == addr / 0x1000 && addr >> 12 >> 9 == addr / 0x20_0000 && addr >> 12 >> 9
        >> 9 == addr / 0x4000_0000 && addr >> 12 >> 9 >> 9 >> 9 == addr / 0x80_0000_0000 && (addr
        >> 12) & 0x1ff == (addr / 0x1000) % 512 && (addr >> 12 >> 9) & 0x1ff == (addr / 0x20_0000)
        % 512 && (addr >> 12 >> 9 >> 9) & 0x1ff == (addr / 0x4000_0000) % 512 && (addr >> 12 >> 9
        >> 9 >> 9) & 0x1ff == (addr / 0x80_0000_0000) % 512) by (bit_vector);
}

impl VAddr {
    /// The virtual address `addr`, which must be in canonical form.
    #[inline]
    pub fn new(addr: u64) -> (va: VAddr)
        requires
            spec_canonical(addr) == addr,
        ensures
            va.0 == addr,
    {
        VAddr::new_truncate(addr)
    }

    /// The virtual address `addr`, if it is in canonical form.
    #[inline]
    pub fn try_new(addr: u64) -> (r: Option<VAddr>)
        ensures
            r == (if spec_canonical(addr) == addr {
                Some(VAddr(addr))
            } else {
                None
            }),
    {
        let v = Self::new_truncate(addr);
        if v.0 == addr {
            Some(v)
        } else {
            None
        }
    }

    /// The virtual address with the 48 low bits of `addr`, brought into
    /// canonical form.
    #[inline]
    pub fn new_truncate(addr: u64) -> (va: VAddr)
        ensures
            va.0 == spec_canonical(addr),
            spec_canonical(va.0) == va.0,
    {
        assert(spec_canonical(spec_canonical(addr)) == spec_canonical(addr)) by {
            assert(addr & 0x0000_8000_0000_0000 != 0 ==> (addr | 0xffff_0000_0000_0000)
                & 0x0000_8000_0000_0000 != 0 && (addr | 0xffff_0000_0000_0000)
                | 0xffff_0000_0000_0000 == addr | 0xffff_0000_0000_0000) by (bit_vector);
            assert(addr & 0x0000_8000_0000_0000 == 0 ==> (addr & 0x0000_ffff_ffff_ffff)
                & 0x0000_8000_0000_0000 == 0 && (addr & 0x0000_ffff_ffff_ffff)
                & 0x0000_ffff_ffff_ffff == addr & 0x0000_ffff_ffff_ffff) by (bit_vector);
        }
        // extend the sign of bit 47 into the upper bits
        if addr & 0x0000_8000_0000_0000 != 0 {
            VAddr(addr | 0xffff_0000_0000_0000)
        } else {
            VAddr(addr & 0x0000_ffff_ffff_ffff)
        }
    }

    #[inline]
    pub fn as_u64(self) -> (addr: u64)
        ensures
            addr == self.0,
    {
        self.0
    }

    /// The number of the page that holds the address.
    #[inline]
    pub fn p1_index(self) -> (i: u64)
        ensures
            i == self.0 / 0x1000,
    {
        proof {
            lemma_page_indices(self.0);
        }
        self.0 >> 12
    }

    /// The number of the level 1 table, which spans 2 MiB, that maps the
    /// address.
    #[inline]
    pub fn p2_index(self) -> (i: u64)
        ensures
            i == self.0 / 0x20_0000,
    {
        proof {
            lemma_page_indices(self.0);
        }
        self.0 >> 12 >> 9
    }

    /// The number of the level 2 table, which spans 1 GiB, that maps the
    /// address.
    #[inline]
    pub fn p3_index(self) -> (i: u64)
        ensures
            i == self.0 / 0x4000_0000,
    {
        proof {
            lemma_page_indices(self.0);
        }
        self.0 >> 12 >> 9 >> 9
    }

    /// The number of the level 3 table, which spans 512 GiB, that maps the
    /// address.
    #[inline]
    pub fn p4_index(self) -> (i: u64)
        ensures
            i == self.0 / 0x80_0000_0000,
    {
        proof {
            lemma_page_indices(self.0);
        }
        self.0 >> 12 >> 9 >> 9 >> 9
    }
}

impl PAddr {
    /// The physical address `addr`, which must have 52 bits at most.
    #[inline]
    pub fn new(addr: u64) -> (pa: Self)
        requires
            addr < 0x10_0000_0000_0000,
        ensures
            pa.0 == addr,
    {
        Self::new_truncate(addr)
    }

    /// The physical address with the 52 low bits of `addr`.
    #[inline]
    pub fn new_truncate(addr: u64) -> (pa: PAddr)
        ensures
            pa.0 == addr % 0x10_0000_0000_0000,
    {
        assert(1u64 << 52 == 0x10_0000_0000_0000) by (bit_vector);
        PAddr(addr % (1 << 52))
    }

    /// The physical address `addr`, if it has 52 bits at most.
    #[inline]
    pub fn try_new(addr: u64) -> (r: Option<Self>)
        ensures
            r == (if addr < 0x10_0000_0000_0000 {
                Some(PAddr(addr))
            } else {
                None
            }),
    {
        let p = Self::new_truncate(addr);
        if p.0 == addr {
            Some(p)
        } else {
            None
        }
    }

    #[inline]
    pub fn as_u64(&self) -> (addr: u64)
        ensures
            addr == self.0,
    {
        self.0
    }
}

/// The physical address of the root of the page table.
#[inline]
pub fn get_cr3(cpu: &Cpu) -> (cr3: u64)
    ensures
        cr3 == cpu.cr3,
{
    cpu.cr3
}

/// The virtual address of the root of the page table, in the identity
/// mapping. The root must lie in the physical memory that the mapping
/// covers.
#[inline]
pub fn get_root(cpu: &Cpu) -> (root: u64)
    requires
        cpu.cr3 < Mem::MAX_PHY_MEM,
    ensures
        Some(root) == spec_p2v(cpu.cr3),
{
    P2V(get_cr3(cpu)).unwrap()
}

/// The memory of the paging structures: the page tables, each under the
/// virtual address at which it lies in the identity mapping, and the frames
/// of 4 KiB, all zero, that are set aside for new tables and new pages. The
/// frame at the end is handed out next.
pub struct PageMemory {
    pub tables: HashMap<u64, Pagetable>,
    pub frames: Vec<u64>,
}

/// The page tables as sequences of entries, and the frames that are set
/// aside.
pub struct PageMemoryView {
    pub tables: Map<u64, Seq<PTE>>,
    pub frames: Seq<u64>,
}

impl View for PageMemory {
    type V = PageMemoryView;

    open spec fn view(&self) -> PageMemoryView {
        PageMemoryView {
            tables: Map::new(
                |a: u64| self.tables@.contains_key(a),
                |a: u64| self.tables@[a].entries@,
            ),
            frames: self.frames@,
        }
    }
}

/// A page table without a used entry.
pub open spec fn spec_empty_table() -> Seq<PTE> {
    Seq::new(512, |i: int| PTE { entry: 0 })
}

/// The address in an entry: its bits 12 to 51.
pub open spec fn spec_entry_addr(e: PTE) -> u64 {
    e.entry & 0x000f_ffff_ffff_f000
}

impl PageMemoryView {
    /// Whether one level of the walk can be made from the table at
    /// `table`: the table exists. Where the level is made anew, a frame is
    /// set aside for it; the frame lies in the identity mapping and holds
    /// no table yet. Where the level exists, the entry points into the
    /// physical memory that the identity mapping covers.
    pub open spec fn can_descend(self, table: u64, idx: int, anew: bool) -> bool {
        &&& self.tables.contains_key(table)
        &&& if self.tables[table][idx].entry == 0 || anew {
            &&& self.frames.len() > 0
            &&& spec_v2p(self.frames.last()) is Some
            &&& !self.tables.contains_key(self.frames.last())
        } else {
            spec_p2v(spec_entry_addr(self.tables[table][idx])) is Some
        }
    }

    /// One level of the walk from the table at `table` through its entry
    /// `idx`: the memory afterwards, the address of the table of the next
    /// level, and whether that table was made anew. A table is made anew
    /// where the entry is unused or the table above was made anew: the
    /// frame at the end becomes an empty table, and the entry points to it
    /// with the given flags.
    pub open spec fn descend(self, table: u64, idx: int, flags: u64, anew: bool) -> (
        PageMemoryView,
        u64,
        bool,
    ) {
        if self.tables[table][idx].entry == 0 || anew {
            let child = self.frames.last();
            (
                PageMemoryView {
                    tables: self.tables.insert(
                        table,
                        self.tables[table].update(idx, PTE { entry: spec_v2p(child)->0 | flags }),
                    ).insert(child, spec_empty_table()),
                    frames: self.frames.drop_last(),
                },
                child,
                true,
            )
        } else {
            (self, spec_p2v(spec_entry_addr(self.tables[table][idx]))->0, false)
        }
    }

    /// Whether the page at `va` can be mapped from the root at `root`: each
    /// level of the walk can be made, the entry for the page in the last
    /// table is unused or the table was made anew, and a frame in the
    /// identity mapping is set aside for the page.
    #[verifier::opaque]
    pub open spec fn can_map_page(self, root: u64, va: u64) -> bool {
        let i4 = ((va / 0x80_0000_0000) % 512) as int;
        let i3 = ((va / 0x4000_0000) % 512) as int;
        let i2 = ((va / 0x20_0000) % 512) as int;
        let i1 = ((va / 0x1000) % 512) as int;
        let l3 = self.descend(root, i4, 0, false);
        let l2 = l3.0.descend(l3.1, i3, 0, l3.2);
        let l1 = l2.0.descend(l2.1, i2, 0, l2.2);
        &&& self.can_descend(root, i4, false)
        &&& l3.0.can_descend(l3.1, i3, l3.2)
        &&& l2.0.can_descend(l2.1, i2, l2.2)
        &&& l1.0.tables.contains_key(l1.1)
        &&& l1.0.tables[l1.1][i1].entry == 0 || l1.2
        &&& l1.0.frames.len() > 0
        &&& spec_v2p(l1.0.frames.last()) is Some
    }

    /// The memory after the page at `va` was mapped from the root at
    /// `root`: the tables on the way that were missing are made, and the
    /// entry for the page in the last table points to the frame that was
    /// at the end, with the given flags.
    #[verifier::opaque]
    pub open spec fn map_page(self, root: u64, va: u64, flags: u64) -> PageMemoryView {
        let i4 = ((va / 0x80_0000_0000) % 512) as int;
        let i3 = ((va / 0x4000_0000) % 512) as int;
        let i2 = ((va / 0x20_0000) % 512) as int;
        let i1 = ((va / 0x1000) % 512) as int;
        let l3 = self.descend(root, i4, flags, false);
        let l2 = l3.0.descend(l3.1, i3, flags, l3.2);
        let l1 = l2.0.descend(l2.1, i2, flags, l2.2);
        PageMemoryView {
            tables: l1.0.tables.insert(
                l1.1,
                l1.0.tables[l1.1].update(
                    i1,
                    PTE { entry: spec_v2p(l1.0.frames.last())->0 | flags },
                ),
            ),
            frames: l1.0.frames.drop_last(),
        }
    }

    /// Whether the pages from `va` on that start below `end` can be
    /// mapped, one after the other.
    pub open spec fn can_map_pages(self, root: u64, va: u64, end: u64, flags: u64) -> bool
        decreases
                (if va < end {
                    end - va
                } else {
                    0
                }),
    {
        if va >= end {
            true
        } else if va + 0x1000 <= u64::MAX {
            &&& va % 4096 == 0
            &&& self.can_map_page(root, va)
            &&& self.map_page(root, va, flags).can_map_pages(
                root,
                (va + 0x1000) as u64,
                end,
                flags,
            )
        } else {
            false
        }
    }

    /// The memory after the pages from `va` on that start below `end` were
    /// mapped, one after the other.
    pub open spec fn map_pages(self, root: u64, va: u64, end: u64, flags: u64) -> PageMemoryView
        decreases
                (if va < end {
                    end - va
                } else {
                    0
                }),
    {
        if va < end && va + 0x1000 <= u64::MAX {
            self.map_page(root, va, flags).map_pages(root, (va + 0x1000) as u64, end, flags)
        } else {
            self
        }
    }
}

impl PageMemoryView {
    /// Where the entry `idx` of the table at `table` leads: to the table
    /// that it points to, if the entry is used and such a table exists.
    pub open spec fn follow(self, table: u64, idx: int) -> Option<u64> {
        if self.tables.contains_key(table) && self.tables[table][idx].entry != 0 && spec_p2v(
            spec_entry_addr(self.tables[table][idx]),
        ) is Some && self.tables.contains_key(
            spec_p2v(spec_entry_addr(self.tables[table][idx]))->0,
        ) {
            spec_p2v(spec_entry_addr(self.tables[table][idx]))
        } else {
            None
        }
    }

    /// The entry that maps the page at `va` under the root at `root`: what
    /// the walk through the four levels finds, if every entry on the way is
    /// used and leads to a table, and the entry of the page is used.
    pub open spec fn walk(self, root: u64, va: u64) -> Option<PTE> {
        let i4 = ((va / 0x80_0000_0000) % 512) as int;
        let i3 = ((va / 0x4000_0000) % 512) as int;
        let i2 = ((va / 0x20_0000) % 512) as int;
        let i1 = ((va / 0x1000) % 512) as int;
        match self.follow(root, i4) {
            None => None,
            Some(l3) => match self.follow(l3, i3) {
                None => None,
                Some(l2) => match self.follow(l2, i2) {
                    None => None,
                    Some(l1) => if self.tables[l1][i1].entry != 0 {
                        Some(self.tables[l1][i1])
                    } else {
                        None
                    },
                },
            },
        }
    }

    /// Whether every frame that is set aside starts on a page boundary.
    pub open spec fn frames_aligned(self) -> bool {
        forall|i: int| 0 <= i < self.frames.len() ==> #[trigger] self.frames[i] % 4096 == 0
    }

    /// Whether every page table has its 512 entries.
    pub open spec fn tables_whole(self) -> bool {
        forall|a: u64| #[trigger] self.tables.contains_key(a) ==> self.tables[a].len() == 512
    }
}

/// An entry that is made of the physical address of a frame in the
/// identity mapping and of flags leads back to the frame, if the frame
/// starts on a page boundary and the flags, of which one is set, keep clear
/// of the bits of the address.
pub proof fn lemma_entry_leads_to_frame(frame: u64, flags: u64)
    requires
        spec_v2p(frame) is Some,
        frame % 4096 == 0,
        flags & 0x000f_ffff_ffff_f000 == 0,
        flags != 0,
    ensures
        (PTE { entry: spec_v2p(frame)->0 | flags }).entry != 0,
        spec_p2v(spec_entry_addr(PTE { entry: spec_v2p(frame)->0 | flags })) == Some(frame),
{
    let pa = spec_v2p(frame)->0;
    assert(pa % 4096 == 0);
    assert(pa % 4096 == 0 && pa < 0x10_0000_0000 && flags & 0x000f_ffff_ffff_f000 == 0 && flags != 0
        ==> (pa | flags) != 0 && (pa | flags) & 0x000f_ffff_ffff_f000 == pa) by (bit_vector);
}

/// One level of the walk that was made by [`PageMemoryView::descend`] can
/// be followed afterwards.
pub proof fn lemma_descend_can_be_followed(v: PageMemoryView, table: u64, idx: int, flags: u64,
    anew: bool)
    requires
        0 <= idx < 512,
        v.tables_whole(),
        v.frames_aligned(),
        v.can_descend(table, idx, anew),
        flags & 0x000f_ffff_ffff_f000 == 0,
        flags != 0,
        !anew ==> v.tables[table][idx].entry == 0 || v.tables.contains_key(
            spec_p2v(spec_entry_addr(v.tables[table][idx]))->0,
        ),
    ensures
        v.descend(table, idx, flags, anew).0.follow(table, idx) == Some(
            v.descend(table, idx, flags, anew).1,
        ),
        v.descend(table, idx, flags, anew).0.tables_whole(),
        v.descend(table, idx, flags, anew).0.frames_aligned(),
        v.descend(table, idx, flags, anew).0.tables.contains_key(
            v.descend(table, idx, flags, anew).1,
        ),
{
    let after = v.descend(table, idx, flags, anew);
    if v.tables[table][idx].entry == 0 || anew {
        let child = v.frames.last();
        assert(child == v.frames[v.frames.len() - 1]);
        lemma_entry_leads_to_frame(child, flags);
        assert forall|i: int| 0 <= i < after.0.frames.len() implies #[trigger] after.0.frames[i] % 4096
            == 0 by {
            assert(after.0.frames[i] == v.frames[i]);
        }
    }
}

/// A level of the walk that is made by [`PageMemoryView::descend`] leaves
/// the levels that could be followed before as they were.
pub proof fn lemma_descend_keeps_followed(
    v: PageMemoryView,
    table: u64,
    idx: int,
    flags: u64,
    anew: bool,
    t0: u64,
    i0: int,
)
    requires
        0 <= idx < 512,
        0 <= i0 < 512,
        v.tables_whole(),
        v.can_descend(table, idx, anew),
        v.follow(t0, i0) is Some,
        anew ==> table != t0,
    ensures
        v.descend(table, idx, flags, anew).0.follow(t0, i0) == v.follow(t0, i0),
{
}

impl PageMemoryView {
    /// The frame that [`PageMemoryView::map_page`] takes for the page: the
    /// one that is at the end when the tables on the way were made.
    pub open spec fn page_frame(self, root: u64, va: u64) -> u64 {
        let i4 = ((va / 0x80_0000_0000) % 512) as int;
        let i3 = ((va / 0x4000_0000) % 512) as int;
        let i2 = ((va / 0x20_0000) % 512) as int;
        let l3 = self.descend(root, i4, 0, false);
        let l2 = l3.0.descend(l3.1, i3, 0, l3.2);
        let l1 = l2.0.descend(l2.1, i2, 0, l2.2);
        l1.0.frames.last()
    }
}

/// A page that was mapped is found by the walk: the walk from the root
/// leads to the entry that was made for the page, which holds the physical
/// address of the frame of the page and the flags. The frames that are set
/// aside must start on page boundaries, and the flags, of which one must be
/// set, must keep clear of the bits of the address.
pub proof fn lemma_mapped_page_is_found(v: PageMemoryView, root: u64, va: u64, flags: u64)
    requires
        v.tables_whole(),
        v.frames_aligned(),
        v.can_map_page(root, va),
        flags & 0x000f_ffff_ffff_f000 == 0,
        flags != 0,
    ensures
        v.map_page(root, va, flags).walk(root, va) == Some(
            PTE { entry: spec_v2p(v.page_frame(root, va))->0 | flags },
        ),
        v.map_page(root, va, flags).tables_whole(),
        v.map_page(root, va, flags).frames_aligned(),
{
    reveal(PageMemoryView::can_map_page);
    reveal(PageMemoryView::map_page);
    let i4 = ((va / 0x80_0000_0000) % 512) as int;
    let i3 = ((va / 0x4000_0000) % 512) as int;
    let i2 = ((va / 0x20_0000) % 512) as int;
    let i1 = ((va / 0x1000) % 512) as int;
    let a0 = v.descend(root, i4, 0, false);
    let b0 = a0.0.descend(a0.1, i3, 0, a0.2);
    let a = v.descend(root, i4, flags, false);
    lemma_descend_needs_no_flags(v, root, i4, flags, false);
    lemma_can_descend_whatever_flags(v, root, i4, flags, false, i3);
    lemma_descend_can_be_followed(v, root, i4, flags, false);
    let b = a.0.descend(a.1, i3, flags, a.2);
    lemma_descend_twice_whatever_flags(v, root, i4, i3, i2, flags);
    lemma_descend_can_be_followed(a.0, a.1, i3, flags, a.2);
    lemma_descend_keeps_followed(a.0, a.1, i3, flags, a.2, root, i4);
    let c = b.0.descend(b.1, i2, flags, b.2);
    lemma_descend_thrice_whatever_flags(v, root, i4, i3, i2, i1, flags);
    lemma_descend_can_be_followed(b.0, b.1, i2, flags, b.2);
    lemma_descend_keeps_followed(b.0, b.1, i2, flags, b.2, root, i4);
    lemma_descend_keeps_followed(b.0, b.1, i2, flags, b.2, a.1, i3);
    assert(c.0.follow(root, i4) == Some(a.1));
    assert(c.0.follow(a.1, i3) == Some(b.1));
    assert(c.0.follow(b.1, i2) == Some(c.1));
    let page = c.0.frames.last();
    assert(page == c.0.frames[c.0.frames.len() - 1]);
    lemma_entry_leads_to_frame(page, flags);
    let d = v.map_page(root, va, flags);
    assert(d.tables == c.0.tables.insert(
        c.1,
        c.0.tables[c.1].update(i1, PTE { entry: spec_v2p(page)->0 | flags }),
    ));
    let c0 = b0.0.descend(b0.1, i2, 0, b0.2);
    assert(c.2 == c0.2 && c.1 == c0.1 && c.0.frames == c0.0.frames) by {
        lemma_descend_needs_no_flags(b.0, b.1, i2, flags, b.2);
        lemma_descend_needs_no_flags(b0.0, b0.1, i2, flags, b0.2);
    }
    assert(d.follow(root, i4) == Some(a.1));
    assert(d.follow(a.1, i3) == Some(b.1));
    assert(d.follow(b.1, i2) == Some(c.1));
    assert(d.tables[c.1][i1] == (PTE { entry: spec_v2p(page)->0 | flags }));
    assert forall|i: int| 0 <= i < d.frames.len() implies #[trigger] d.frames[i] % 4096 == 0 by {
        assert(d.frames[i] == c.0.frames[i]);
    }
}

impl PageMemory {
    /// A memory without tables and without frames.
    pub fn new() -> (mem: Self)
        ensures
            mem@.tables == Map::<u64, Seq<PTE>>::empty(),
            mem@.frames == Seq::<u64>::empty(),
    {
        let mem = PageMemory { tables: HashMap::new(), frames: Vec::new() };
        assert(mem@.tables =~= Map::<u64, Seq<PTE>>::empty());
        mem
    }

    /// Put a page table at an address. A table that was there is
    /// replaced.
    pub fn install(&mut self, addr: u64, table: Pagetable)
        ensures
            final(self)@.tables == old(self)@.tables.insert(addr, table.entries@),
            final(self)@.frames == old(self)@.frames,
    {
        broadcast use vstd::std_specs::hash::group_hash_axioms;

        self.tables.insert(addr, table);
        assert(self@.tables =~= old(self)@.tables.insert(addr, table.entries@));
    }

    /// Set a zeroed frame aside; it is handed out before the ones that
    /// were set aside earlier.
    pub fn provide(&mut self, frame: u64)
        ensures
            final(self)@.tables == old(self)@.tables,
            final(self)@.frames == old(self)@.frames.push(frame),
    {
        self.frames.push(frame);
    }

    /// Hand out a zeroed frame of 4 KiB. A frame must be set aside.
    pub fn allocate_4k_zeroed(&mut self) -> (frame: u64)
        requires
            old(self)@.frames.len() > 0,
        ensures
            frame == old(self)@.frames.last(),
            final(self)@.frames == old(self)@.frames.drop_last(),
            final(self).tables == old(self).tables,
    {
        self.frames.pop().unwrap()
    }

    /// One level of the walk: see [`PageMemoryView::descend`].
    fn descend(&mut self, table: u64, idx: usize, flags: u64, anew: bool) -> (r: (u64, bool))
        requires
            idx < 512,
            old(self)@.can_descend(table, idx as int, anew),
        ensures
            (final(self)@, r.0, r.1) == old(self)@.descend(table, idx as int, flags, anew),
    {
        broadcast use vstd::std_specs::hash::group_hash_axioms;

        let mut t = self.tables.remove(&table).unwrap();
        if t.entries[idx].is_unused() || anew {
            let child = self.allocate_4k_zeroed();
            let mut e = t.entries[idx];
            e.entry = V2P(child).unwrap() | flags;
            t.entries[idx] = e;
            self.tables.insert(table, t);
            let fresh = Pagetable::new();
            assert(fresh.entries@ =~= spec_empty_table());
            self.tables.insert(child, fresh);
            assert(self@.tables =~= old(self)@.descend(table, idx as int, flags, anew).0.tables);
            (child, true)
        } else {
            let child = P2V(t.entries[idx].addr()).unwrap();
            self.tables.insert(table, t);
            assert(self@.tables =~= old(self)@.tables);
            (child, false)
        }
    }
}

/// Map the page at `va` in the tables under the root at `root`: walk the
/// four levels, make the tables that are missing, and let the entry of the
/// page point to a new frame. An address that is not aligned to a page is
/// refused. The page must not be mapped yet, and what the walk needs must
/// be there: see [`PageMemoryView::can_map_page`].
pub fn map_page(mem: &mut PageMemory, pt_root: u64, va: u64, flags: PTEFlags) -> (ok: bool)
    requires
        va % 4096 == 0 ==> old(mem)@.can_map_page(pt_root, va),
    ensures
        ok == (va % 4096 == 0),
        !ok ==> final(mem)@ == old(mem)@,
        ok ==> final(mem)@ == old(mem)@.map_page(pt_root, va, flags.bits),
        // the page is found by the walk afterwards
        ok && old(mem)@.frames_aligned() && flags.bits & 0x000f_ffff_ffff_f000 == 0 && flags.bits
            != 0 ==> final(mem)@.frames_aligned() && final(mem)@.walk(pt_root, va) == Some(
            PTE { entry: spec_v2p(old(mem)@.page_frame(pt_root, va))->0 | flags.bits },
        ),
{
    broadcast use vstd::std_specs::hash::group_hash_axioms;

    if !is_aligned_4k(va) {
        return false;
    }
    proof {
        assert(mem@.tables_whole());
        if mem@.frames_aligned() && flags.bits & 0x000f_ffff_ffff_f000 == 0 && flags.bits != 0 {
            lemma_mapped_page_is_found(mem@, pt_root, va, flags.bits);
        }
    }
    reveal(PageMemoryView::can_map_page);
    reveal(PageMemoryView::map_page);
    let f: u64 = flags.bits();
    let l4idx = p4idx(va) as usize;
    let l3idx = p3idx(va) as usize;
    let l2idx = p2idx(va) as usize;
    let l1idx = p1idx(va) as usize;
    proof {
        lemma_descend_needs_no_flags(mem@, pt_root, l4idx as int, f, false);
    }
    let (l3_tbl, anew) = mem.descend(pt_root, l4idx, f, false);
    proof {
        let a = old(mem)@.descend(pt_root, l4idx as int, 0, false);
        lemma_descend_needs_no_flags(a.0, a.1, l3idx as int, f, a.2);
        lemma_can_descend_whatever_flags(old(mem)@, pt_root, l4idx as int, f, false, l3idx as int);
    }
    let (l2_tbl, anew) = mem.descend(l3_tbl, l3idx, f, anew);
    proof {
        let a = old(mem)@.descend(pt_root, l4idx as int, 0, false);
        let b = a.0.descend(a.1, l3idx as int, 0, a.2);
        let a2 = old(mem)@.descend(pt_root, l4idx as int, f, false);
        lemma_can_descend_whatever_flags(a.0, a.1, l3idx as int, f, a.2, l2idx as int);
        lemma_descend_twice_whatever_flags(
            old(mem)@,
            pt_root,
            l4idx as int,
            l3idx as int,
            l2idx as int,
            f,
        );
    }
    let (l1_tbl, anew) = mem.descend(l2_tbl, l2idx, f, anew);
    proof {
        lemma_descend_thrice_whatever_flags(
            old(mem)@,
            pt_root,
            l4idx as int,
            l3idx as int,
            l2idx as int,
            l1idx as int,
            f,
        );
    }
    let mut t = mem.tables.remove(&l1_tbl).unwrap();
    let page = mem.allocate_4k_zeroed();
    let mut pte = t.entries[l1idx];
    pte.entry = V2P(page).unwrap() | f;
    t.entries[l1idx] = pte;
    mem.tables.insert(l1_tbl, t);
    assert(mem@.tables =~= old(mem)@.map_page(pt_root, va, f).tables);
    return true;
}

/// What a level of the walk needs does not depend on the flags.
proof fn lemma_descend_needs_no_flags(v: PageMemoryView, table: u64, idx: int, flags: u64,
    anew: bool)
    ensures
        v.descend(table, idx, flags, anew).1 == v.descend(table, idx, 0, anew).1,
        v.descend(table, idx, flags, anew).2 == v.descend(table, idx, 0, anew).2,
        v.descend(table, idx, flags, anew).0.frames == v.descend(table, idx, 0, anew).0.frames,
        v.descend(table, idx, flags, anew).0.tables.dom() == v.descend(
            table,
            idx,
            0,
            anew,
        ).0.tables.dom(),
{
}

/// Whether the next level of the walk can be made does not depend on the
/// flags with which the level before it was made.
proof fn lemma_can_descend_whatever_flags(
    v: PageMemoryView,
    table: u64,
    idx: int,
    flags: u64,
    anew: bool,
    next_idx: int,
)
    requires
        0 <= idx < 512,
        0 <= next_idx < 512,
        v.can_descend(table, idx, anew),
        v.descend(table, idx, 0, anew).0.can_descend(
            v.descend(table, idx, 0, anew).1,
            next_idx,
            v.descend(table, idx, 0, anew).2,
        ),
    ensures
        v.descend(table, idx, flags, anew).0.can_descend(
            v.descend(table, idx, flags, anew).1,
            next_idx,
            v.descend(table, idx, flags, anew).2,
        ),
{
}

/// Two levels of the walk lead to the same place whatever the flags.
proof fn lemma_descend_twice_whatever_flags(
    v: PageMemoryView,
    root: u64,
    i4: int,
    i3: int,
    i2: int,
    flags: u64,
)
    requires
        0 <= i4 < 512,
        0 <= i3 < 512,
        0 <= i2 < 512,
        v.can_descend(root, i4, false),
        v.descend(root, i4, 0, false).0.can_descend(
            v.descend(root, i4, 0, false).1,
            i3,
            v.descend(root, i4, 0, false).2,
        ),
        ({
            let a = v.descend(root, i4, 0, false);
            let b = a.0.descend(a.1, i3, 0, a.2);
            b.0.can_descend(b.1, i2, b.2)
        }),
    ensures
        ({
            let a = v.descend(root, i4, flags, false);
            let b = a.0.descend(a.1, i3, flags, a.2);
            let a0 = v.descend(root, i4, 0, false);
            let b0 = a0.0.descend(a0.1, i3, 0, a0.2);
            &&& b.0.can_descend(b.1, i2, b.2)
            &&& b.1 == b0.1
            &&& b.2 == b0.2
            &&& b.0.frames == b0.0.frames
            &&& b.0.tables.dom() == b0.0.tables.dom()
        }),
{
    let a = v.descend(root, i4, flags, false);
    let a0 = v.descend(root, i4, 0, false);
    let b = a.0.descend(a.1, i3, flags, a.2);
    let b0 = a0.0.descend(a0.1, i3, 0, a0.2);
    assert(b.0.tables.dom() =~= b0.0.tables.dom());
}

/// Three levels of the walk lead to the same place whatever the flags, and
/// the entry of the page is unused whatever the flags.
proof fn lemma_descend_thrice_whatever_flags(
    v: PageMemoryView,
    root: u64,
    i4: int,
    i3: int,
    i2: int,
    i1: int,
    flags: u64,
)
    requires
        0 <= i4 < 512,
        0 <= i3 < 512,
        0 <= i2 < 512,
        0 <= i1 < 512,
        ({
            let l3 = v.descend(root, i4, 0, false);
            let l2 = l3.0.descend(l3.1, i3, 0, l3.2);
            let l1 = l2.0.descend(l2.1, i2, 0, l2.2);
            &&& v.can_descend(root, i4, false)
            &&& l3.0.can_descend(l3.1, i3, l3.2)
            &&& l2.0.can_descend(l2.1, i2, l2.2)
            &&& l1.0.tables.contains_key(l1.1)
            &&& l1.0.tables[l1.1][i1].entry == 0 || l1.2
            &&& l1.0.frames.len() > 0
            &&& spec_v2p(l1.0.frames.last()) is Some
        }),
    ensures
        ({
            let l3 = v.descend(root, i4, flags, false);
            let l2 = l3.0.descend(l3.1, i3, flags, l3.2);
            let l1 = l2.0.descend(l2.1, i2, flags, l2.2);
            &&& l1.0.tables.contains_key(l1.1)
            &&& l1.0.frames.len() > 0
            &&& spec_v2p(l1.0.frames.last()) is Some
        }),
{
    lemma_descend_twice_whatever_flags(v, root, i4, i3, i2, flags);
    let a = v.descend(root, i4, flags, false);
    let a0 = v.descend(root, i4, 0, false);
    let b = a.0.descend(a.1, i3, flags, a.2);
    let b0 = a0.0.descend(a0.1, i3, 0, a0.2);
    let c = b.0.descend(b.1, i2, flags, b.2);
    let c0 = b0.0.descend(b0.1, i2, 0, b0.2);
    assert(c.0.tables.dom() =~= c0.0.tables.dom());
}

/// Map the pages of a range of addresses, lowest first, from the page that
/// holds the start of the range on. Each of the pages must be free to be
/// mapped when its turn comes: see [`PageMemoryView::can_map_pages`].
pub fn map_range(mem: &mut PageMemory, pt_root: u64, r: &Range<u64>, flags: PTEFlags) -> (ok: bool)
    requires
        old(mem)@.can_map_pages(
            pt_root,
            spec_rounddown_4k(r.start as int) as u64,
            r.end,
            flags.bits,
        ),
    ensures
        ok,
        final(mem)@ == old(mem)@.map_pages(
            pt_root,
            spec_rounddown_4k(r.start as int) as u64,
            r.end,
            flags.bits,
        ),
{
    let mut va_aligned = rounddown_4k(r.start);
    while va_aligned < r.end
        invariant
            mem@.can_map_pages(pt_root, va_aligned, r.end, flags.bits),
            mem@.map_pages(pt_root, va_aligned, r.end, flags.bits) == old(mem)@.map_pages(
                pt_root,
                spec_rounddown_4k(r.start as int) as u64,
                r.end,
                flags.bits,
            ),
        decreases
                (if va_aligned < r.end {
                    r.end - va_aligned
                } else {
                    0
                }),
    {
        if !map_page(mem, pt_root, va_aligned, flags) {
            return false;
        }
        va_aligned += Mem::PAGE_SIZE;
    }
    return true;
}

/// How the mapping of an area ended.
#[derive(Copy, Clone, Debug, PartialEq, Eq, Structural)]
pub enum Mapped {
    /// The area has a backing that cannot be mapped.
    Failed,
    /// The pages of the area are mapped.
    Done,
    /// The pages of the area are mapped, and the bytes of the file behind
    /// the area are to be copied to where the area starts: that many of
    /// them as the area is long.
    Copy { to: u64, len: u64 },
}

/// Map an area into the tables under the root at `pt_root`, present,
/// writable and open to the user. With `do_copy` set, an area that a file
/// backs wants the bytes of the file copied into it, and an area with no
/// backing at all is refused after its pages were mapped. The pages of the
/// area must be free to be mapped; a file that backs the area must not be
/// empty.
pub fn map_vma(mem: &mut PageMemory, pt_root: u64, vma: &VMArea, do_copy: bool) -> (r: Mapped)
    requires
        old(mem)@.can_map_pages(
            pt_root,
            spec_rounddown_4k(vma.vm_range.start as int) as u64,
            vma.vm_range.end,
            PTEFlags::PRESENT | PTEFlags::WRITABLE | PTEFlags::USER,
        ),
        do_copy && vma.backing is FILE ==> vma.backing->FILE_0@.len() > 0 && vma.vm_range.start
            <= vma.vm_range.end,
    ensures
        final(mem)@ == old(mem)@.map_pages(
            pt_root,
            spec_rounddown_4k(vma.vm_range.start as int) as u64,
            vma.vm_range.end,
            PTEFlags::PRESENT | PTEFlags::WRITABLE | PTEFlags::USER,
        ),
        r == (if !do_copy || vma.backing is ANOM {
            Mapped::Done
        } else if vma.backing is FILE {
            Mapped::Copy {
                to: vma.vm_range.start,
                len: (vma.vm_range.end - vma.vm_range.start) as u64,
            }
        } else {
            Mapped::Failed
        }),
{
    assert(((1u64 << 0) | (1u64 << 1) | (1u64 << 2)) & 0x8000_0000_0000_0fffu64 == (1u64 << 0) | (
    1u64 << 1) | (1u64 << 2)) by (bit_vector);
    let flags = PTEFlags::from_bits_truncate(
        PTEFlags::PRESENT | PTEFlags::WRITABLE | PTEFlags::USER,
    );
    if !map_range(mem, pt_root, &vma.vm_range, flags) {
        return Mapped::Failed;
    }
    if !do_copy {
        return Mapped::Done;
    }
    match &vma.backing {
        VMType::ANOM => {
            return Mapped::Done;
        },
        VMType::FILE(_f) => {
            let sz = vma.vm_range.end - vma.vm_range.start;
            return Mapped::Copy { to: vma.vm_range.start, len: sz };
        },
        _ => {
            return Mapped::Failed;
        },
    }
}

} // verus!
