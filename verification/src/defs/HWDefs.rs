//! Sizes of the interrupt descriptor table.
use vstd::prelude::*;

verus! {

/// Number of entries in the interrupt descriptor table.
pub const IDT_CAPACITY: usize = 256;

/// 32 exceptions and 16 device interrupts are valid.
pub const IDT_VALID: usize = 48;

/// Size of one interrupt entry routine.
pub const VECTOR_SIZE: usize = 16;

} // verus!
