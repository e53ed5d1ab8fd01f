use rustubs::arch::x86_64::paging::pagetable::{
    p1idx, p2idx, p3idx, p4idx, PTEFlags, Pagetable, PTE,
};
use rustubs::arch::x86_64::paging::{
    get_cr3, get_root, map_page, map_range, map_vma, Mapped, PAddr, PageMemory, VAddr,
};
use rustubs::arch::x86_64::Cpu;
use rustubs::black_magic::Empty;
use rustubs::defs::{is_aligned_4k, rounddown_4k, roundup_4k, IntNumber, Mem, P2V, V2P};
use rustubs::machine::multiboot::MultibootMmap;
use rustubs::mm::pma::PageStackAllocator;
use rustubs::mm::vmm::{VMArea, VMMan, VMPerms, VMType};
use rustubs::mm::{init, largest_usable_range, KStackAllocator};
use rustubs::proc::loader::{load, ElfImage, Segment};

#[test]
fn addresses_round_to_pages() {
    assert_eq!(roundup_4k(0), 0);
    assert_eq!(roundup_4k(1), 0x1000);
    assert_eq!(roundup_4k(0x1000), 0x1000);
    assert_eq!(roundup_4k(0x1001), 0x2000);
    assert_eq!(roundup_4k(u64::MAX - 0xfff), 0xffff_ffff_ffff_f000);
    assert_eq!(rounddown_4k(0xfff), 0);
    assert_eq!(rounddown_4k(0x1fff), 0x1000);
    assert_eq!(rounddown_4k(u64::MAX), 0xffff_ffff_ffff_f000);
    assert!(is_aligned_4k(0x7000));
    assert!(!is_aligned_4k(0x7008));
    assert_eq!((IntNumber::PAGEFAULT, IntNumber::TIMER, IntNumber::KEYBOARD), (0xe, 0x20, 0x21));
    assert_eq!(IntNumber::SYSCALL, 0x80);
    let _ = Empty::new();
}

#[test]
fn identity_mapping_converts_both_ways() {
    assert_eq!(P2V(0), Some(0xffff_8000_0000_0000));
    assert_eq!(P2V(0xb8000), Some(0xffff_8000_000b_8000));
    assert_eq!(P2V(0xf_ffff_ffff), Some(0xffff_800f_ffff_ffff));
    assert_eq!(P2V(0x10_0000_0000), None);
    assert_eq!(V2P(0xffff_8000_0000_0000), Some(0));
    assert_eq!(V2P(0xffff_800f_ffff_ffff), Some(0xf_ffff_ffff));
    assert_eq!(V2P(0xffff_8010_0000_0000), None);
    assert_eq!(V2P(0xffff_7fff_ffff_ffff), None);
    assert_eq!(V2P(P2V(0x1234_5000).unwrap()), Some(0x1234_5000));
    assert_eq!(Mem::KERNEL_STACK_MASK, 0x3fff);
}

#[test]
fn virtual_addresses_are_canonical() {
    assert_eq!(VAddr::new_truncate(0x0000_8000_0000_0000).as_u64(), 0xffff_8000_0000_0000);
    assert_eq!(VAddr::new_truncate(0xffff_7fff_ffff_ffff).as_u64(), 0x0000_7fff_ffff_ffff);
    assert_eq!(VAddr::new_truncate(0x1234).as_u64(), 0x1234);
    assert_eq!(VAddr::try_new(0x0000_8000_0000_0000), None);
    assert_eq!(VAddr::try_new(0xffff_8000_0000_0000), Some(VAddr(0xffff_8000_0000_0000)));
    assert_eq!(VAddr::new(0x7fff_ffff_f000).as_u64(), 0x7fff_ffff_f000);
    let va = VAddr::new(0x0000_7f12_3456_7000);
    assert_eq!(va.p1_index(), 0x7_f123_4567);
    assert_eq!(va.p2_index(), 0x7_f123_4567 >> 9);
    assert_eq!(va.p3_index(), 0x7_f123_4567 >> 18);
    assert_eq!(va.p4_index(), 0x7_f123_4567 >> 27);
    assert!(VAddr(1) < VAddr(2));
}

#[test]
fn physical_addresses_have_52_bits() {
    assert_eq!(PAddr::new_truncate(0xfff0_0000_0000_1234).as_u64(), 0x1234);
    assert_eq!(PAddr::try_new(0x10_0000_0000_0000), None);
    assert_eq!(PAddr::try_new(0xf_ffff_ffff_ffff), Some(PAddr(0xf_ffff_ffff_ffff)));
    assert_eq!(PAddr::new(0x1000).as_u64(), 0x1000);
}

#[test]
fn page_table_indices_are_nine_bits_each() {
    let va = 0xffff_8030_0123_4567u64;
    assert_eq!(p1idx(va), ((va >> 12) & 0x1ff) as u16);
    assert_eq!(p2idx(va), ((va >> 21) & 0x1ff) as u16);
    assert_eq!(p3idx(va), ((va >> 30) & 0x1ff) as u16);
    assert_eq!(p4idx(va), ((va >> 39) & 0x1ff) as u16);
    assert_eq!(p4idx(0xffff_8030_0000_0000), 256);
    assert_eq!(p3idx(0xffff_8030_0000_0000), 192);
    assert_eq!(p1idx(0x1ff000), 511);
    assert_eq!(p2idx(0x1ff000), 0);
}

#[test]
fn entries_keep_address_and_flags_apart() {
    let mut e = PTE::new();
    assert!(e.is_unused());
    e.set(0x1234_5000, PTEFlags::from_bits_truncate(PTEFlags::PRESENT | PTEFlags::NE));
    assert_eq!(e.entry, 0x8000_0000_1234_5001);
    assert_eq!(e.addr(), 0x1234_5000);
    assert_eq!(e.flags().bits(), 0x8000_0000_0000_0001);
    assert!(e.flags().contains(PTEFlags::PRESENT));
    assert!(!e.flags().contains(PTEFlags::WRITABLE));
    assert!(!e.is_unused());
    e.set_unused();
    assert!(e.is_unused());
    e.entry = 5;
    e.clear();
    assert_eq!(e.entry, 0);
    assert_eq!(PTEFlags::from_bits_truncate(u64::MAX).bits(), 0x8000_0000_0000_0fff);
    let mut pt = Pagetable::new();
    assert!(pt.is_empty());
    pt.entries[511].entry = 1;
    assert!(!pt.is_empty());
    assert_eq!(pt.iter().len(), 512);
    assert_eq!(pt.iter()[511].entry, 1);
    pt.zero();
    assert!(pt.is_empty());
}

#[test]
fn frame_stack_is_last_in_first_out() {
    let mut a = PageStackAllocator::new(3);
    assert_eq!(a.alloc_page(), None);
    assert!(a.free_page(0x1000));
    assert!(a.free_page(0x2000));
    assert_eq!(a.alloc_page(), Some(0x2000));
    assert!(a.free_page(0x3000));
    assert!(a.free_page(0x4000));
    assert!(!a.free_page(0x5000));
    assert_eq!(a.alloc_page(), Some(0x4000));
    assert_eq!(a.alloc_page(), Some(0x3000));
    assert_eq!(a.alloc_page(), Some(0x1000));
    assert_eq!(a.alloc_page(), None);
    assert_eq!(PageStackAllocator::STACK_SIZE, 0x100000);
}

#[test]
fn ranges_are_inserted_frame_by_frame() {
    let mut a = PageStackAllocator::new(8);
    assert_eq!(a.insert_range(&(0x1001..0x4000)), 2);
    assert_eq!(&a.page_stack[..2], &[0x2000, 0x3000]);
    assert_eq!(a.insert_range(&(0x8000..0x8001)), 1);
    assert_eq!(a.insert_range(&(0x9000..0x9000)), 0);
    assert_eq!(a.insert_range(&(0x5000..0x4000)), 0);
    // the stack fills up
    assert_eq!(a.insert_range(&(0x10_0000..0x20_0000)), 5);
    assert_eq!(a.head, 8);
    assert_eq!(a.alloc_page(), Some(0x10_4000));
}

fn block(addr: u64, len: u64, mtype: u32) -> MultibootMmap {
    MultibootMmap { size: 20, addr, len, mtype }
}

#[test]
fn heap_gets_the_largest_usable_block() {
    let ks = 0x10_0000;
    let ke = 0x40_0000;
    let blocks = [
        block(0, 0x9_fc00, 1),
        block(0x9_fc00, 0x400, 2),
        block(0x10_0000, 0x7ef_0000, 1),
        block(0x800_0000, 0x1_0000_0000, 2),
        block(0x1_0000_0000, 0x700_0000, 1),
    ];
    // the block that holds the kernel, less the kernel
    assert_eq!(largest_usable_range(&blocks, ks, ke), Some(0x40_0000..0x7ff_0000));
    assert_eq!(init(&blocks, ks, ke), (0xffff_8000_0040_0000, 0x7bf_0000));
    // of two of the same size the first
    let same = [block(0x1000_0000, 0x1000, 1), block(0x2000_0000, 0x1000, 1)];
    assert_eq!(largest_usable_range(&same, ks, ke), Some(0x1000_0000..0x1000_1000));
    // nothing usable
    assert_eq!(largest_usable_range(&blocks[..2], ks, ke), None);
    assert_eq!(largest_usable_range(&[], ks, ke), None);
}

#[test]
fn stack_cache_holds_sixteen() {
    let mut a = KStackAllocator::new();
    assert_eq!(a.allocate(), None);
    assert_eq!(a.free(0x4000), None);
    assert_eq!(a.free(0x8000), None);
    assert_eq!(a.allocate(), Some(0x8000));
    let fresh: Vec<u64> = (1..=15).map(|i| i * 0x10_0000).collect();
    a.populate(&fresh);
    assert_eq!(a.pool.len(), 16);
    assert_eq!(a.free(0xc000), Some(0xc000));
    assert_eq!(a.pool.len(), 16);
    assert_eq!(a.allocate(), Some(0xf0_0000));
}

#[test]
fn rights_are_a_set_of_bits() {
    assert_eq!(VMPerms::all().bits(), 7);
    assert_eq!(VMPerms::from_bits_truncate(0xff).bits(), 7);
    let p = VMPerms::from_bits_truncate(VMPerms::R | VMPerms::W);
    assert!(p.contains(VMPerms::R));
    assert!(!p.contains(VMPerms::X));
    assert!(p.contains(VMPerms::NONE));
    assert_eq!(VMMan::new().vmas.len(), 0);
}

const ROOT: u64 = 0xffff_8000_0010_0000;

fn memory(frames: u64) -> PageMemory {
    let mut mem = PageMemory::new();
    mem.install(ROOT, Pagetable::new());
    // the highest frame is handed out first
    for i in 0..frames {
        mem.provide(0xffff_8000_0020_0000 + i * 0x1000);
    }
    mem
}

#[test]
fn mapping_a_page_builds_the_missing_tables() {
    let mut mem = memory(8);
    let flags = PTEFlags::from_bits_truncate(PTEFlags::PRESENT | PTEFlags::WRITABLE);
    let va = 0x0000_0000_4020_3000u64;
    assert!(!map_page(&mut mem, ROOT, va + 8, flags));
    assert_eq!(mem.tables.len(), 1);
    assert!(map_page(&mut mem, ROOT, va, flags));
    assert_eq!(mem.tables.len(), 4);
    assert_eq!(mem.frames.len(), 4);
    let l3 = 0xffff_8000_0020_7000u64;
    let l2 = 0xffff_8000_0020_6000u64;
    let l1 = 0xffff_8000_0020_5000u64;
    let page = 0x20_4000u64;
    assert_eq!(mem.tables[&ROOT].entries[0].entry, 0x20_7000 | 3);
    assert_eq!(mem.tables[&l3].entries[1].entry, 0x20_6000 | 3);
    assert_eq!(mem.tables[&l2].entries[1].entry, 0x20_5000 | 3);
    assert_eq!(mem.tables[&l1].entries[3].entry, page | 3);
    // the next page shares the tables
    assert!(map_page(&mut mem, ROOT, va + 0x1000, flags));
    assert_eq!(mem.tables.len(), 4);
    assert_eq!(mem.tables[&l1].entries[4].entry, 0x20_3000 | 3);
    assert_eq!(mem.frames.len(), 3);
    assert_eq!(mem.allocate_4k_zeroed(), 0xffff_8000_0020_2000);
}

#[test]
fn mapping_a_range_maps_each_of_its_pages() {
    let mut mem = memory(16);
    let flags = PTEFlags::from_bits_truncate(PTEFlags::PRESENT);
    assert!(map_range(&mut mem, ROOT, &(0x40_0800..0x40_2001), flags));
    // three tables and three pages
    assert_eq!(mem.frames.len(), 10);
    let l1 = 0xffff_8000_0020_d000u64;
    let used: Vec<usize> = (0..512).filter(|i| mem.tables[&l1].entries[*i].entry != 0).collect();
    assert_eq!(used, vec![0, 1, 2]);
    assert!(map_range(&mut mem, ROOT, &(0x40_3000..0x40_3000), flags));
    assert_eq!(mem.frames.len(), 10);
}

fn area(range: std::ops::Range<u64>, backing: VMType) -> VMArea {
    VMArea {
        vm_range: range,
        tag: String::from("TEST"),
        user_perms: VMPerms::all(),
        backing,
    }
}

#[test]
fn mapping_an_area_asks_for_the_copy() {
    let mut mem = memory(16);
    let a = area(0x40_0000..0x40_1800, VMType::FILE(vec![1, 2, 3]));
    assert_eq!(map_vma(&mut mem, ROOT, &a, true), Mapped::Copy { to: 0x40_0000, len: 0x1800 });
    let l1 = 0xffff_8000_0020_d000u64;
    assert_eq!(mem.tables[&l1].entries[0].entry & 0xfff, 7);
    let b = area(0x80_0000..0x80_1000, VMType::ANOM);
    assert_eq!(map_vma(&mut mem, ROOT, &b, true), Mapped::Done);
    let c = area(0xc0_0000..0xc0_1000, VMType::NONE);
    assert_eq!(map_vma(&mut mem, ROOT, &c, true), Mapped::Failed);
    let d = area(0x100_0000..0x100_1000, VMType::NONE);
    assert_eq!(map_vma(&mut mem, ROOT, &d, false), Mapped::Done);
}

fn seg(offset: u64, va: u64, size: u64) -> Segment {
    Segment { class64: true, offset, virtual_addr: va, file_size: size, mem_size: size }
}

#[test]
fn loader_maps_the_segments_and_gives_the_entry() {
    let file: Vec<u8> = (0..=255u8).cycle().take(0x3000).collect();
    let elf = ElfImage {
        segments: vec![seg(0x1000, 0x40_0000, 0x1000), seg(0x2000, 0x60_0000, 0x800)],
        entry: Some(0x40_0120),
    };
    let mut mem = memory(16);
    let mut mm = VMMan::new();
    assert_eq!(load(&mut mm, &mut mem, ROOT, &file, &elf), Some(0x40_0120));
    assert_eq!(mm.vmas.len(), 2);
    assert_eq!(mm.vmas[0].vm_range, 0x40_0000..0x40_1000);
    assert_eq!(mm.vmas[1].vm_range, 0x60_0000..0x60_0800);
    assert_eq!(mm.vmas[0].tag, "USER BITS");
    assert_eq!(mm.vmas[1].user_perms.bits(), 7);
    match &mm.vmas[1].backing {
        VMType::FILE(bytes) => assert_eq!(bytes.as_slice(), &file[0x2000..0x2800]),
        _ => panic!("a file backs the area"),
    }
    // 3 tables and a page, then a level 1 table and a page
    assert_eq!(mem.frames.len(), 10);
}

#[test]
fn loader_stops_at_a_segment_it_does_not_take() {
    let file = vec![0u8; 0x3000];
    let mut bss = seg(0x2000, 0x60_0000, 0x800);
    bss.mem_size = 0x1000;
    let elf = ElfImage {
        segments: vec![seg(0x1000, 0x40_0000, 0x1000), bss, seg(0, 0x80_0000, 0x10)],
        entry: Some(0x40_0000),
    };
    let mut mem = memory(16);
    let mut mm = VMMan::new();
    assert_eq!(load(&mut mm, &mut mem, ROOT, &file, &elf), None);
    assert_eq!(mm.vmas.len(), 1);
    let mut narrow = seg(0, 0x40_0000, 0x10);
    narrow.class64 = false;
    let elf = ElfImage { segments: vec![narrow], entry: Some(1) };
    let mut mm = VMMan::new();
    assert_eq!(load(&mut mm, &mut mem, ROOT, &file, &elf), None);
    assert_eq!(mm.vmas.len(), 0);
    let elf = ElfImage { segments: vec![], entry: None };
    assert_eq!(load(&mut mm, &mut mem, ROOT, &file, &elf), None);
    let cpu = Cpu { rflags: 0, cr2: 0, cr3: 0x10_0000 };
    assert_eq!(get_cr3(&cpu), 0x10_0000);
    assert_eq!(get_root(&cpu), ROOT);
}

fn walk(mem: &PageMemory, va: u64) -> Option<u64> {
    let mut table = ROOT;
    for idx in [p4idx(va), p3idx(va), p2idx(va)] {
        let e = mem.tables.get(&table)?.entries[idx as usize];
        if e.is_unused() {
            return None;
        }
        table = P2V(e.addr())?;
    }
    let e = mem.tables.get(&table)?.entries[p1idx(va) as usize];
    if e.is_unused() {
        None
    } else {
        Some(e.entry)
    }
}

#[test]
fn mapped_pages_are_found_by_the_walk() {
    let mut mem = memory(32);
    let flags = PTEFlags::from_bits_truncate(PTEFlags::PRESENT | PTEFlags::USER);
    let pages = [0x40_0000u64, 0x40_1000, 0x7f_ffff_f000, 0xffff_8030_0000_0000, 0x20_0000];
    for va in pages {
        assert_eq!(walk(&mem, va), None);
        assert!(map_page(&mut mem, ROOT, va, flags));
        // the page takes the last of the frames that the step used
        let page = V2P(0xffff_8000_0020_0000 + (mem.frames.len() as u64) * 0x1000).unwrap();
        assert_eq!(walk(&mem, va), Some(page | 5));
    }
    for va in pages {
        assert!(walk(&mem, va).is_some());
    }
    assert_eq!(walk(&mem, 0x40_2000), None);
}
