//! System level definitions: memory layout, interrupt numbers, limits, and
//! the address arithmetic shared by the memory code.
use vstd::prelude::*;

pub mod HWDefs;
pub mod Limits;
pub mod Mem;

verus! {

/// The smallest multiple of 4096 that is not below `addr`.
pub open spec fn spec_roundup_4k(addr: int) -> int {
    ((addr + 4095) / 4096) * 4096
}

/// The largest multiple of 4096 that is not above `addr`.
pub open spec fn spec_rounddown_4k(addr: int) -> int {
    (addr / 4096) * 4096
}

/// Round an address up to the next 4 KiB boundary.
#[inline]
pub fn roundup_4k(addr: u64) -> (r: u64)
    requires
        addr + 0xfff <= u64::MAX,
    ensures
        r == spec_roundup_4k(addr as int),
        r % 4096 == 0,
        addr <= r < addr + 4096,
{
    let y: u64 = addr + 0xfff;
    assert(y & !0xfffu64 == (y / 4096) * 4096 && (y / 4096) * 4096 <= y && y - (y / 4096) * 4096
        < 4096 && (y & !0xfffu64) % 4096 == 0) by (bit_vector);
    y & !0xfff
}

/// Round an address down to a 4 KiB boundary.
#[inline]
pub fn rounddown_4k(addr: u64) -> (r: u64)
    ensures
        r == spec_rounddown_4k(addr as int),
        r % 4096 == 0,
        r <= addr < r + 4096,
{
    assert(addr & !0xfffu64 == (addr / 4096) * 4096 && (addr / 4096) * 4096 <= addr && addr - (addr
        / 4096) * 4096 < 4096 && (addr & !0xfffu64) % 4096 == 0) by (bit_vector);
    addr & !0xfff
}

/// Whether an address lies on a 4 KiB boundary.
#[inline]
pub fn is_aligned_4k(addr: u64) -> (r: bool)
    ensures
        r == (addr % 4096 == 0),
{
    assert((addr & 0xfff) == addr % 4096) by (bit_vector);
    (addr & 0xfff) == 0
}

/// The physical address behind a virtual address of the kernel's identity
/// mapping, if the address lies in that mapping.
pub open spec fn spec_v2p(va: u64) -> Option<u64> {
    if Mem::ID_MAP_START <= va < Mem::ID_MAP_END {
        Some((va - Mem::ID_MAP_START) as u64)
    } else {
        None
    }
}

/// The identity-mapped virtual address of a physical address, if the
/// physical address is within the supported physical memory.
pub open spec fn spec_p2v(pa: u64) -> Option<u64> {
    if pa < Mem::MAX_PHY_MEM {
        Some((pa + Mem::ID_MAP_START) as u64)
    } else {
        None
    }
}

/// Convert a virtual address of the identity mapping to the physical address.
#[inline]
pub fn V2P(va: u64) -> (r: Option<u64>)
    ensures
        r == spec_v2p(va),
{
    if va >= Mem::ID_MAP_END || va < Mem::ID_MAP_START {
        return None;
    }
    return Some(va - Mem::ID_MAP_START);
}

/// Convert a physical address to its identity-mapped virtual address.
#[inline]
pub fn P2V(pa: u64) -> (r: Option<u64>)
    ensures
        r == spec_p2v(pa),
{
    if pa >= Mem::MAX_PHY_MEM {
        return None;
    }
    return Some(pa + Mem::ID_MAP_START);
}

/// The two conversions undo each other on the addresses they accept.
pub proof fn lemma_p2v_v2p_inverse(pa: u64, va: u64)
    ensures
        spec_p2v(pa) is Some ==> spec_v2p(spec_p2v(pa)->0) == Some(pa),
        spec_v2p(va) is Some ==> spec_p2v(spec_v2p(va)->0) == Some(va),
{
}

/// Interrupt numbers.
pub struct IntNumber {}

impl IntNumber {
    pub const PAGEFAULT: u16 = 0xe;

    pub const TIMER: u16 = 0x20;

    pub const KEYBOARD: u16 = 0x21;

    pub const SYSCALL: u16 = 0x80;
}

} // verus!
