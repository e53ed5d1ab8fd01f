//! Memory layout of the kernel.
use vstd::prelude::*;

verus! {

pub const K: u64 = 1024;

pub const M: u64 = 1024 * 1024;

pub const G: u64 = 1024 * 1024 * 1024;

/// 4-level paging with 4 KiB pages.
pub const PAGE_SIZE: u64 = 0x1000;

pub const PAGE_SHIFT: u64 = 12;

pub const PAGE_MASK: u64 = 0xfff;

/// 64 GiB of physical memory at most.
pub const MAX_PHY_MEM: u64 = 0x1000000000;

/// At least 64 MiB of free physical memory are needed.
pub const MIN_PHY_MEM: u64 = 64 * 1024 * 1024;

pub const ID_MAP_START: u64 = 0xffff_8000_0000_0000;

pub const ID_MAP_END: u64 = 0xffff_8010_0000_0000;

pub const KERNEL_OFFSET: u64 = 0xffff_8020_0000_0000;

pub const KERNEL_HEAP_START: u64 = 0xffff_8030_0000_0000;

pub const KERNEL_HEAP_END: u64 = 0xffff_8040_0000_0000;

/// Every task has a kernel stack of four pages.
pub const KERNEL_STACK_SIZE: u64 = 0x4000;

pub const KERNEL_STACK_MASK: u64 = 0x4000 - 1;

/// The marker that a valid task carries.
pub const KERNEL_STACK_TASK_MAGIC: u64 = 0x1A2B3C4D5E6F6969;

pub const USER_STACK_START: u64 = 0x0000_7000_0000_0000;

pub const USER_STACK_SIZE: u64 = 8 * 1024 * 1024;

} // verus!
