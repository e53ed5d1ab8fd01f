//! The interrupt descriptor table.
use crate::defs::HWDefs::{IDT_CAPACITY, IDT_VALID, VECTOR_SIZE};
use vstd::prelude::*;

verus! {

/// An entry of the interrupt descriptor table. The address of the entry
/// routine is spread over three fields; the selector names a code segment;
/// of `ist` the lowest three bits are an index into the interrupt stack
/// table; `attrs` holds the type of the entry (0xe for an interrupt), the
/// privilege levels it is open to, and the present bit.
#[derive(Copy, Clone, Debug, PartialEq, Eq, Structural)]
pub struct GateDescriptor64 {
    pub offset_1: u16,
    pub selector: u16,
    pub ist: u8,
    pub attrs: u8,
    pub offset_2: u16,
    pub offset_3: u32,
    pub res0: u32,
}

impl GateDescriptor64 {
    /// An entry that is all zero.
    pub fn new() -> (d: Self)
        ensures
            d == (GateDescriptor64 {
                offset_1: 0,
                selector: 0,
                ist: 0,
                attrs: 0,
                offset_2: 0,
                offset_3: 0,
                res0: 0,
            }),
    {
        GateDescriptor64 {
            offset_1: 0,
            selector: 0,
            ist: 0,
            attrs: 0,
            offset_2: 0,
            offset_3: 0,
            res0: 0,
        }
    }

    /// The address of the entry routine.
    pub open spec fn spec_offset(&self) -> int {
        self.offset_1 + self.offset_2 * 0x1_0000 + self.offset_3 * 0x1_0000_0000
    }

    /// Set the address of the entry routine.
    #[inline(always)]
    pub fn set_offset(&mut self, offset: u64)
        ensures
            final(self).spec_offset() == offset,
            final(self).selector == old(self).selector,
            final(self).ist == old(self).ist,
            final(self).attrs == old(self).attrs,
            final(self).res0 == old(self).res0,
    {
        assert(offset & 0xffff == offset % 0x1_0000 && (offset & 0xffff0000) >> 16 == (offset
            / 0x1_0000) % 0x1_0000 && (offset & 0xffffffff00000000) >> 32 == offset
            / 0x1_0000_0000) by (bit_vector);
        self.offset_1 = (offset & 0xffff) as u16;
        self.offset_2 = ((offset & 0xffff0000) >> 16) as u16;
        self.offset_3 = ((offset & 0xffffffff00000000) >> 32) as u32;
    }

    /// Make the entry an interrupt gate for the routine at `offset`:
    /// present, in the code segment of the kernel, without a stack of its
    /// own.
    pub fn set_default_interrupt(&mut self, offset: u64)
        ensures
            final(self).spec_offset() == offset,
            final(self).selector == 0x10,
            final(self).attrs == 0x8e,
            final(self).ist == 0,
            final(self).res0 == 0,
    {
        self.set_offset(offset);
        self.selector = 0x8 * 2;
        self.attrs = 0x8e;
        self.ist = 0;
        self.res0 = 0;
    }
}

/// The address of the entry routine of a vector: the routines of the valid
/// vectors follow each other from `vectors_start` on, and every other
/// vector shares the routine behind them.
pub open spec fn spec_vector_offset(vectors_start: u64, i: int) -> int {
    if i < IDT_VALID {
        vectors_start + i * VECTOR_SIZE
    } else {
        vectors_start + IDT_VALID * VECTOR_SIZE
    }
}

/// The content of the interrupt descriptor table: an interrupt gate for
/// each of the 256 vectors. The entry routines must lie within the range
/// of addresses.
#[inline(always)]
pub fn init(vectors_start: u64) -> (idt: Vec<GateDescriptor64>)
    requires
        vectors_start + IDT_VALID * VECTOR_SIZE <= u64::MAX,
    ensures
        idt@.len() == IDT_CAPACITY,
        forall|i: int|
            0 <= i < IDT_CAPACITY ==> {
                &&& (#[trigger] idt@[i]).spec_offset() == spec_vector_offset(vectors_start, i)
                &&& idt@[i].selector == 0x10
                &&& idt@[i].attrs == 0x8e
                &&& idt@[i].ist == 0
                &&& idt@[i].res0 == 0
            },
{
    let mut gate_descriptors: Vec<GateDescriptor64> = Vec::new();
    let mut i: usize = 0;
    while i < IDT_VALID
        invariant
            0 <= i <= IDT_VALID,
            vectors_start + IDT_VALID * VECTOR_SIZE <= u64::MAX,
            gate_descriptors@.len() == i,
            forall|j: int|
                0 <= j < i ==> {
                    &&& (#[trigger] gate_descriptors@[j]).spec_offset() == spec_vector_offset(
                        vectors_start,
                        j,
                    )
                    &&& gate_descriptors@[j].selector == 0x10
                    &&& gate_descriptors@[j].attrs == 0x8e
                    &&& gate_descriptors@[j].ist == 0
                    &&& gate_descriptors@[j].res0 == 0
                },
        decreases IDT_VALID - i,
    {
        let offset = vectors_start + (i * VECTOR_SIZE) as u64;
        let mut d = GateDescriptor64::new();
        d.set_default_interrupt(offset);
        gate_descriptors.push(d);
        i += 1;
    }
    let offset_inv: u64 = vectors_start + (IDT_VALID * VECTOR_SIZE) as u64;
    while i < IDT_CAPACITY
        invariant
            IDT_VALID <= i <= IDT_CAPACITY,
            offset_inv == vectors_start + IDT_VALID * VECTOR_SIZE,
            gate_descriptors@.len() == i,
            forall|j: int|
                0 <= j < i ==> {
                    &&& (#[trigger] gate_descriptors@[j]).spec_offset() == spec_vector_offset(
                        vectors_start,
                        j,
                    )
                    &&& gate_descriptors@[j].selector == 0x10
                    &&& gate_descriptors@[j].attrs == 0x8e
                    &&& gate_descriptors@[j].ist == 0
                    &&& gate_descriptors@[j].res0 == 0
                },
        decreases IDT_CAPACITY - i,
    {
        let mut d = GateDescriptor64::new();
        d.set_default_interrupt(offset_inv);
        gate_descriptors.push(d);
        i += 1;
    }
    gate_descriptors
}

} // verus!
