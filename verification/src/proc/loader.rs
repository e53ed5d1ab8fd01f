//! A simple loader for statically linked programs in the ELF format. The
//! file is parsed elsewhere; the loader works on what the parser found.
use crate::arch::x86_64::paging::pagetable::PTEFlags;
use crate::arch::x86_64::paging::{map_vma, Mapped, PageMemory, PageMemoryView};
use crate::defs::spec_rounddown_4k;
use crate::mm::vmm::{VMArea, VMMan, VMPerms, VMType};
use std::ops::Range;
use vstd::prelude::*;
use vstd::slice::{slice_subrange, slice_to_vec};

verus! {

/// A program header of an ELF file: a segment of the program.
#[derive(Copy, Clone, Debug, PartialEq, Eq, Structural)]
pub struct Segment {
    /// Whether the header has the 64-bit form.
    pub class64: bool,
    /// Where the segment starts in the file.
    pub offset: u64,
    pub virtual_addr: u64,
    pub file_size: u64,
    pub mem_size: u64,
}

/// What the loader reads of an ELF file: the program headers in their
/// order, and the entry point if the header of the file has the 64-bit
/// form.
pub struct ElfImage {
    pub segments: Vec<Segment>,
    pub entry: Option<u64>,
}

/// The flags with which the pages of a program are mapped.
pub open spec fn spec_user_flags() -> u64 {
    PTEFlags::PRESENT | PTEFlags::WRITABLE | PTEFlags::USER
}

impl Segment {
    /// Whether the loader takes the segment: its header has the 64-bit
    /// form, and it is as long in memory as in the file, since memory that
    /// the file does not fill is not supported.
    pub open spec fn spec_good(self) -> bool {
        self.class64 && self.mem_size == self.file_size
    }

    /// Whether the segment can be mapped: it lies within the file and
    /// within the range of addresses, and it is not empty.
    pub open spec fn spec_fits(self, file_len: int) -> bool {
        &&& self.offset + self.file_size <= file_len
        &&& self.file_size > 0
        &&& self.virtual_addr + self.mem_size <= u64::MAX
    }

    /// Whether an area is the area of the segment: it spans the addresses
    /// of the segment, is open to the user in every way, and is backed by
    /// the bytes of the segment in the file.
    pub open spec fn spec_area(self, file: Seq<u8>, area: VMArea) -> bool {
        &&& area.vm_range == (Range::<u64> {
            start: self.virtual_addr,
            end: (self.virtual_addr + self.mem_size) as u64,
        })
        &&& area.tag@ == "USER BITS"@
        &&& area.user_perms.bits == VMPerms::ALL
        &&& area.backing is FILE
        &&& area.backing->FILE_0@ == file.subrange(
            self.offset as int,
            self.offset + self.file_size,
        )
    }
}

/// How many segments the loader takes: those before the first one that it
/// does not take.
pub open spec fn spec_taken(segs: Seq<Segment>) -> nat
    decreases segs.len(),
{
    if segs.len() == 0 || !segs[0].spec_good() {
        0
    } else {
        1 + spec_taken(segs.drop_first())
    }
}

/// Whether the segments can be loaded, one after the other: each one that
/// the loader takes fits, and its pages are free to be mapped when its
/// turn comes.
pub open spec fn spec_can_load(v: PageMemoryView, root: u64, file_len: int, segs: Seq<Segment>)
    -> bool
    decreases segs.len(),
{
    if segs.len() == 0 || !segs[0].spec_good() {
        true
    } else {
        &&& segs[0].spec_fits(file_len)
        &&& v.can_map_pages(
            root,
            spec_rounddown_4k(segs[0].virtual_addr as int) as u64,
            (segs[0].virtual_addr + segs[0].mem_size) as u64,
            spec_user_flags(),
        )
        &&& spec_can_load(
            v.map_pages(
                root,
                spec_rounddown_4k(segs[0].virtual_addr as int) as u64,
                (segs[0].virtual_addr + segs[0].mem_size) as u64,
                spec_user_flags(),
            ),
            root,
            file_len,
            segs.drop_first(),
        )
    }
}

/// The paging structures after the segments were loaded.
pub open spec fn spec_load(v: PageMemoryView, root: u64, segs: Seq<Segment>) -> PageMemoryView
    decreases segs.len(),
{
    if segs.len() == 0 || !segs[0].spec_good() {
        v
    } else {
        spec_load(
            v.map_pages(
                root,
                spec_rounddown_4k(segs[0].virtual_addr as int) as u64,
                (segs[0].virtual_addr + segs[0].mem_size) as u64,
                spec_user_flags(),
            ),
            root,
            segs.drop_first(),
        )
    }
}

/// Load a program into an address space. The segments are taken in their
/// order up to the first whose header does not have the 64-bit form or
/// which is longer in memory than in the file. Each segment that is taken
/// gets an area in the address space, backed by its bytes in the file,
/// and its pages are mapped in the tables under the root at `pt_root`;
/// the bytes of an area are to be copied to where it starts. The entry
/// point is handed back if every segment was taken and the header of the
/// file has the 64-bit form.
pub fn load(
    mm: &mut VMMan,
    mem: &mut PageMemory,
    pt_root: u64,
    file: &[u8],
    elf: &ElfImage,
) -> (entry: Option<u64>)
    requires
        spec_can_load(old(mem)@, pt_root, file@.len() as int, elf.segments@),
    ensures
        final(mem)@ == spec_load(old(mem)@, pt_root, elf.segments@),
        entry == (if spec_taken(elf.segments@) == elf.segments@.len() {
            elf.entry
        } else {
            None
        }),
        final(mm).vmas@.len() == old(mm).vmas@.len() + spec_taken(elf.segments@),
        forall|j: int| 0 <= j < old(mm).vmas@.len() ==> final(mm).vmas@[j] == old(mm).vmas@[j],
        forall|j: int|
            0 <= j < spec_taken(elf.segments@) ==> (#[trigger] elf.segments@[j]).spec_area(
                file@,
                final(mm).vmas@[old(mm).vmas@.len() + j],
            ),
{
    let mut i: usize = 0;
    let n = elf.segments.len();
    let flen = file.len();
    let ghost segs = elf.segments@;
    assert(segs.subrange(0, n as int) =~= segs);
    while i < n
        invariant
            0 <= i <= n == segs.len(),
            segs == elf.segments@,
            flen == file@.len(),
            spec_can_load(mem@, pt_root, file@.len() as int, segs.subrange(i as int, n as int)),
            spec_load(mem@, pt_root, segs.subrange(i as int, n as int)) == spec_load(
                old(mem)@,
                pt_root,
                segs,
            ),
            spec_taken(segs) == i + spec_taken(segs.subrange(i as int, n as int)),
            mm.vmas@.len() == old(mm).vmas@.len() + i,
            forall|j: int| 0 <= j < old(mm).vmas@.len() ==> mm.vmas@[j] == old(mm).vmas@[j],
            forall|j: int|
                0 <= j < i ==> (#[trigger] segs[j]).spec_area(
                    file@,
                    mm.vmas@[old(mm).vmas@.len() + j],
                ),
        decreases n - i,
    {
        let h = elf.segments[i];
        proof {
            let rest = segs.subrange(i as int, n as int);
            assert(rest[0] == h);
            assert(rest.drop_first() =~= segs.subrange(i as int + 1, n as int));
        }
        if !h.class64 {
            return None;
        }
        if h.mem_size != h.file_size {
            // memory that the file does not fill is not supported
            return None;
        }
        proof {
            let rest = segs.subrange(i as int, n as int);
            assert(rest[0].spec_good());
            assert(spec_can_load(mem@, pt_root, file@.len() as int, rest));
            assert(h.spec_fits(file@.len() as int));
            assert(h.offset + h.file_size <= flen);
            assert(spec_taken(rest) == 1 + spec_taken(rest.drop_first()));
        }
        let fstart = h.offset as usize;
        let fend = fstart + h.file_size as usize;
        let vma = VMArea {
            vm_range: Range::<u64> { start: h.virtual_addr, end: h.virtual_addr + h.mem_size },
            tag: "USER BITS".to_owned(),
            user_perms: VMPerms::all(),
            backing: VMType::FILE(slice_to_vec(slice_subrange(file, fstart, fend))),
        };
        let res = map_vma(mem, pt_root, &vma, true);
        if res == Mapped::Failed {
            return None;
        }
        mm.vmas.push(vma);
        i += 1;
    }
    elf.entry
}

} // verus!
