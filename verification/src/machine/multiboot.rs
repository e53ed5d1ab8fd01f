//! The information that the boot loader hands over: which fields of it are
//! valid, and the map of the physical memory.
use std::ops::Range;
use vstd::prelude::*;

verus! {

/// The magic value that a multiboot loader leaves.
pub const MB_MAGIC: u32 = 0x2BADB002;

/// One block of physical memory, as the boot loader describes it.
#[derive(Clone, Copy, Debug)]
pub struct MultibootMmap {
    /// The size of the description, not counting this field.
    pub size: u32,
    pub addr: u64,
    pub len: u64,
    pub mtype: u32,
}

impl MultibootMmap {
    /// Available memory.
    pub const MTYPE_RAM: u32 = 1;

    /// Reserved memory.
    pub const MTYPE_RAM_RES: u32 = 2;

    /// Usable memory that holds ACPI information.
    pub const MTYPE_ACPI: u32 = 3;

    /// Memory that must be kept over hibernation.
    pub const MTYPE_RAM_NVS: u32 = 4;

    /// Defective memory.
    pub const MTYPE_RAM_DEFECT: u32 = 5;

    /// The address behind the block. The block must end within the range
    /// of addresses.
    pub fn get_end(&self) -> (end: u64)
        requires
            self.addr + self.len <= u64::MAX,
        ensures
            end == self.addr + self.len,
    {
        self.addr + self.len
    }

    /// The addresses of the block. The block must end within the range of
    /// addresses.
    pub fn get_range(&self) -> (r: Range<u64>)
        requires
            self.addr + self.len <= u64::MAX,
        ensures
            r.start == self.addr,
            r.end == self.addr + self.len,
    {
        Range { start: self.addr, end: self.addr + self.len }
    }

    /// A short name for the type of the block.
    pub fn kind_name(&self) -> (name: &'static str)
        ensures
            name@ == (if self.mtype == Self::MTYPE_RAM {
                "GOOD"@
            } else if self.mtype == Self::MTYPE_RAM_RES {
                "RESV"@
            } else if self.mtype == Self::MTYPE_ACPI {
                "ACPI"@
            } else if self.mtype == Self::MTYPE_RAM_NVS {
                "NVS "@
            } else if self.mtype == Self::MTYPE_RAM_DEFECT {
                "BAD "@
            } else {
                "UNKN"@
            }),
    {
        let mtype = self.mtype;
        if mtype == Self::MTYPE_RAM {
            "GOOD"
        } else if mtype == Self::MTYPE_RAM_RES {
            "RESV"
        } else if mtype == Self::MTYPE_ACPI {
            "ACPI"
        } else if mtype == Self::MTYPE_RAM_NVS {
            "NVS "
        } else if mtype == Self::MTYPE_RAM_DEFECT {
            "BAD "
        } else {
            "UNKN"
        }
    }
}

/// Where the map of the physical memory is: present in the information of
/// the boot loader if the flag for it is set.
#[derive(Debug, Clone, Copy, PartialEq, Eq, Structural)]
pub struct MultibootInfoMmap {
    pub mmap_length: u32,
    pub mmap_addr: u32,
}

/// The amount of lower and upper memory, in KiB. Lower memory starts at 0,
/// upper memory at 1 MiB.
#[derive(Debug, Clone, Copy, PartialEq, Eq, Structural)]
pub struct MultibootInfoMem {
    pub mem_lower: u32,
    pub mem_upper: u32,
}

impl MultibootInfoMem {
    pub fn lower(&self) -> (kib: u32)
        ensures
            kib == self.mem_lower,
    {
        self.mem_lower
    }

    pub fn upper(&self) -> (kib: u32)
        ensures
            kib == self.mem_upper,
    {
        self.mem_upper
    }
}

/// The flags that say which fields of the information of the boot loader
/// are valid, as a bit pattern.
#[derive(Copy, Clone, Debug, PartialEq, Eq, Structural)]
pub struct MultibootInfoFlags {
    pub bits: u32,
}

impl MultibootInfoFlags {
    pub const MEM: u32 = 1 << 0;

    pub const BOOT_DEVICE: u32 = 1 << 1;

    pub const CMDLINE: u32 = 1 << 2;

    pub const MODS: u32 = 1 << 3;

    pub const SYM_TBL: u32 = 1 << 4;

    pub const SHDR: u32 = 1 << 5;

    pub const MMAP: u32 = 1 << 6;

    pub const DRIVES: u32 = 1 << 7;

    pub const CONF_TBL: u32 = 1 << 8;

    pub const BL_NAME: u32 = 1 << 9;

    pub const APM_TBL: u32 = 1 << 10;

    pub const VBE_TBL: u32 = 1 << 11;

    pub const FRAMEBUFFER: u32 = 1 << 12;

    /// Only 13 bits of the flags are defined. The others must be zero for
    /// the information to be valid.
    pub const VALID_MASK: u32 = 0x1FFF;

    /// The flags as a bit pattern.
    pub fn bits(&self) -> (b: u32)
        ensures
            b == self.bits,
    {
        self.bits
    }

    /// Whether every flag in `flags` is set.
    pub open spec fn spec_contains(&self, flags: u32) -> bool {
        self.bits & flags == flags
    }

    /// Whether every flag in `flags` is set.
    #[verifier::when_used_as_spec(spec_contains)]
    pub fn contains(&self, flags: u32) -> (r: bool)
        ensures
            r == self.spec_contains(flags),
    {
        self.bits & flags == flags
    }

    /// Whether no undefined flag is set.
    pub open spec fn spec_check_valid(&self) -> bool {
        self.bits <= Self::VALID_MASK
    }

    /// Whether no undefined flag is set.
    #[verifier::when_used_as_spec(spec_check_valid)]
    pub fn check_valid(&self) -> (r: bool)
        ensures
            r == self.spec_check_valid(),
            r == (self.bits & !Self::VALID_MASK == 0),
    {
        let b = self.bits;
        assert((b <= 0x1FFFu32) == (b & !0x1FFFu32 == 0)) by (bit_vector);
        return self.bits() <= Self::VALID_MASK;
    }
}

/// The information of the boot loader, as far as the kernel reads it. The
/// fields are read through the getters, which look at the flags.
#[derive(Debug, Clone, Copy)]
pub struct MultibootInfo {
    pub flags: MultibootInfoFlags,
    pub mem: MultibootInfoMem,
    pub mmap: MultibootInfoMmap,
}

impl MultibootInfo {
    pub fn get_flags(&self) -> (f: MultibootInfoFlags)
        ensures
            f == self.flags,
    {
        return self.flags;
    }

    /// The amount of memory, if the flag for it is set.
    pub fn get_mem(&self) -> (r: Option<MultibootInfoMem>)
        ensures
            r == (if self.flags.contains(MultibootInfoFlags::MEM) {
                Some(self.mem)
            } else {
                None
            }),
    {
        if self.get_flags().contains(MultibootInfoFlags::MEM) {
            return Some(self.mem);
        } else {
            return None;
        }
    }

    /// The place of the memory map, if the flag for it is set.
    pub fn get_mmap(&self) -> (r: Option<MultibootInfoMmap>)
        ensures
            r == (if self.flags.contains(MultibootInfoFlags::MMAP) {
                Some(self.mmap)
            } else {
                None
            }),
    {
        if self.get_flags().contains(MultibootInfoFlags::MMAP) {
            return Some(self.mmap);
        } else {
            return None;
        }
    }
}

/// Whether the information of the boot loader can be used: the loader has
/// left its magic value, and no undefined flag is set. The magic is looked
/// at first.
pub fn check(mb_magic: u32, info: &MultibootInfo) -> (ok: bool)
    ensures
        ok == (mb_magic == MB_MAGIC && info.flags.check_valid()),
{
    if mb_magic != MB_MAGIC {
        return false;
    }
    let f = info.get_flags();
    return f.check_valid();
}

/// The information of the boot loader, if it can be used.
pub fn get_mb_info(mb_magic: u32, info: &MultibootInfo) -> (r: Option<&MultibootInfo>)
    ensures
        r == (if mb_magic == MB_MAGIC && info.flags.check_valid() {
            Some(info)
        } else {
            None
        }),
{
    if !check(mb_magic, info) {
        return None;
    }
    return Some(info);
}

} // verus!
