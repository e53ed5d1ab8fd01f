//! The x86_64 processor as the kernel core sees it.
use vstd::prelude::*;

pub mod arch_regs;
pub mod context;
pub mod gdt;
pub mod interrupt;
pub mod paging;

verus! {

/// The interrupt-enable bit of the flags register.
pub const RFLAGS_IF_MASK: u64 = 1 << 9;

/// The processor registers that the kernel core reads or writes: the flags
/// register, the page-fault address and the root of the page table.
pub struct Cpu {
    pub rflags: u64,
    pub cr2: u64,
    pub cr3: u64,
}

impl Cpu {
    /// A processor with every register cleared: interrupts are disabled.
    pub fn new() -> (cpu: Self)
        ensures
            cpu.rflags == 0,
            cpu.cr2 == 0,
            cpu.cr3 == 0,
            !is_int_enabled(&cpu),
    {
        assert(0u64 & (1u64 << 9) == 0) by (bit_vector);
        Cpu { rflags: 0, cr2: 0, cr3: 0 }
    }

    /// The same processor with the interrupt flag set.
    pub open spec fn with_int_enabled(self) -> Cpu {
        Cpu { rflags: self.rflags | RFLAGS_IF_MASK, ..self }
    }

    /// The same processor with the interrupt flag cleared.
    pub open spec fn with_int_disabled(self) -> Cpu {
        Cpu { rflags: self.rflags & !RFLAGS_IF_MASK, ..self }
    }
}

/// Setting and clearing the interrupt flag does what the names say, and
/// brings a processor back to where it was.
pub proof fn lemma_int_flag(cpu: Cpu)
    ensures
        spec_is_int_enabled(&cpu.with_int_enabled()),
        !spec_is_int_enabled(&cpu.with_int_disabled()),
        spec_is_int_enabled(&cpu) ==> cpu.with_int_enabled() == cpu,
        spec_is_int_enabled(&cpu) ==> cpu.with_int_disabled().with_int_enabled() == cpu,
        !spec_is_int_enabled(&cpu) ==> cpu.with_int_disabled() == cpu,
        cpu.with_int_enabled().with_int_disabled() == cpu.with_int_disabled(),
        cpu.with_int_disabled().with_int_enabled() == cpu.with_int_enabled(),
{
    let x = cpu.rflags;
    assert((x | (1u64 << 9)) & (1u64 << 9) != 0 && (x & !(1u64 << 9)) & (1u64 << 9) == 0 && (x & (
    1u64 << 9) != 0 ==> x | (1u64 << 9) == x) && (x & (1u64 << 9) != 0 ==> (x & !(1u64 << 9)) | (
    1u64 << 9) == x) && (x & (1u64 << 9) == 0 ==> x & !(1u64 << 9) == x) && (x | (1u64 << 9)) & !(
    1u64 << 9) == x & !(1u64 << 9) && (x & !(1u64 << 9)) | (1u64 << 9) == x | (1u64 << 9))
        by (bit_vector);
}

/// The flags register.
#[inline]
pub fn read_rflags(cpu: &Cpu) -> (r: u64)
    ensures
        r == cpu.rflags,
{
    cpu.rflags
}

/// Whether the processor accepts interrupts.
pub open spec fn spec_is_int_enabled(cpu: &Cpu) -> bool {
    cpu.rflags & RFLAGS_IF_MASK != 0
}

/// Whether the processor accepts interrupts.
#[verifier::when_used_as_spec(spec_is_int_enabled)]
pub fn is_int_enabled(cpu: &Cpu) -> (r: bool)
    ensures
        r == spec_is_int_enabled(cpu),
{
    let rf = read_rflags(cpu);
    (rf & RFLAGS_IF_MASK) != 0
}

} // verus!
