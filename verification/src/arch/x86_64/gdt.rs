//! The task state segment and its descriptor in the global descriptor
//! table.
use bit_field::BitField;
use vstd::arithmetic::power2::{lemma2_to64, lemma2_to64_rest, pow2};
use vstd::prelude::*;

verus! {

/// The size of the task state segment in bytes.
pub const TSS_SIZE: u16 = 104;

/// The bits `start` to `end - 1` of `x`, as a number.
pub open spec fn spec_get_bits(x: u64, start: nat, end: nat) -> int {
    (x as int % pow2(end) as int) / pow2(start) as int
}

/// `x` with the bits `start` to `end - 1` replaced by `value`.
pub open spec fn spec_set_bits(x: u64, start: nat, end: nat, value: u64) -> int {
    x - spec_get_bits(x, start, end) * pow2(start) + value * pow2(start)
}

/// `bit_field::BitField::get_bits` on a `u64` with the range `start..end`:
/// the bits of `x` from `start` up to `end`, moved down to bit 0. The range
/// must lie within the 64 bits.
#[verifier::external_body]
fn get_bits(x: u64, start: usize, end: usize) -> (r: u64)
    requires
        start < 64,
        end <= 64,
        start <= end,
    ensures
        r == spec_get_bits(x, start as nat, end as nat),
{
    x.get_bits(start..end)
}

/// `bit_field::BitField::set_bits` on a `u64` with the range `start..end`:
/// the bits of `x` from `start` up to `end` become the low bits of `value`.
/// The range must lie within the 64 bits, and `value` must fit into the
/// range.
#[verifier::external_body]
fn set_bits(x: &mut u64, start: usize, end: usize, value: u64)
    requires
        start < 64,
        end <= 64,
        start <= end,
        value < pow2((end - start) as nat),
    ensures
        *final(x) == spec_set_bits(*old(x), start as nat, end as nat, value),
{
    x.set_bits(start..end, value);
}

/// The descriptor of the task state segment at `tss_addr`, low half and
/// high half. The low half holds the present bit (bit 47), the limit of the
/// segment (its size less one) in the bits 0 to 15, the bits 0 to 23 of
/// the address in the bits 16 to 39, the type "available 64-bit TSS" in the
/// bits 40 to 43, and the bits 24 to 31 of the address in the bits 56 to
/// 63. The high half holds the bits 32 to 63 of the address.
pub fn to_tss_desc(tss_addr: u64) -> (desc: (u64, u64))
    ensures
        desc.0 == 0x8000_0000_0000 + (TSS_SIZE - 1) + (tss_addr % 0x100_0000) * 0x1_0000 + 0b1001
            * 0x100_0000_0000 + ((tss_addr % 0x1_0000_0000) / 0x100_0000) * 0x100_0000_0000_0000,
        desc.1 == tss_addr / 0x1_0000_0000,
{
    proof {
        lemma2_to64();
        lemma2_to64_rest();
    }
    // present
    let mut low: u64 = 1 << 47;
    assert(low == 0x8000_0000_0000) by (bit_vector)
        requires
            low == 1u64 << 47,
    ;
    // base
    let b0 = get_bits(tss_addr, 0, 24);
    set_bits(&mut low, 16, 40, b0);
    assert(low == 0x8000_0000_0000 + b0 * 0x1_0000);
    let b1 = get_bits(tss_addr, 24, 32);
    set_bits(&mut low, 56, 64, b1);
    assert(low == 0x8000_0000_0000 + b0 * 0x1_0000 + b1 * 0x100_0000_0000_0000);
    // limit: the bound is inclusive, hence one less than the size
    set_bits(&mut low, 0, 16, (TSS_SIZE - 1) as u64);
    assert(low == 0x8000_0000_0000 + b0 * 0x1_0000 + b1 * 0x100_0000_0000_0000 + 103);
    // type: 0b1001 is an available 64-bit TSS
    set_bits(&mut low, 40, 44, 0b1001);
    let mut high: u64 = 0;
    let b2 = get_bits(tss_addr, 32, 64);
    set_bits(&mut high, 0, 32, b2);
    (low, high)
}

/// The task state segment: the stack pointers for the privilege levels and
/// for the interrupt stack table.
#[derive(Debug, Clone, Copy)]
pub struct TaskStateSegment {
    pub reserved_1: u32,
    /// The stack pointers for the privilege levels 0 to 2.
    pub privilege_stack_table: [u64; 3],
    pub reserved_2: u64,
    /// The stack pointers of the interrupt stack table.
    pub interrupt_stack_table: [u64; 7],
    pub reserved_3: u64,
    pub reserved_4: u16,
    /// The offset of the I/O permission bitmap from the base of the
    /// segment.
    pub iomap_base: u16,
}

impl TaskStateSegment {
    /// A task state segment in which every stack pointer is zero and the
    /// I/O permission bitmap is empty: it would start behind the segment.
    #[inline]
    pub fn new() -> (tss: TaskStateSegment)
        ensures
            forall|i: int| 0 <= i < 3 ==> tss.privilege_stack_table[i] == 0,
            forall|i: int| 0 <= i < 7 ==> tss.interrupt_stack_table[i] == 0,
            tss.iomap_base == TSS_SIZE,
            tss.reserved_1 == 0,
            tss.reserved_2 == 0,
            tss.reserved_3 == 0,
            tss.reserved_4 == 0,
    {
        TaskStateSegment {
            privilege_stack_table: [0; 3],
            interrupt_stack_table: [0; 7],
            iomap_base: TSS_SIZE,
            reserved_1: 0,
            reserved_2: 0,
            reserved_3: 0,
            reserved_4: 0,
        }
    }
}

/// Set the stack pointer that the processor loads when it enters the
/// kernel.
pub fn set_tss_ksp(tss: &mut TaskStateSegment, ksp: u64)
    ensures
        final(tss).privilege_stack_table[0] == ksp,
        final(tss).privilege_stack_table[1] == old(tss).privilege_stack_table[1],
        final(tss).privilege_stack_table[2] == old(tss).privilege_stack_table[2],
        final(tss).interrupt_stack_table == old(tss).interrupt_stack_table,
        final(tss).iomap_base == old(tss).iomap_base,
{
    tss.privilege_stack_table[0] = ksp;
}

} // verus!
