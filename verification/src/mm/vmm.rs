//! A very simple virtual memory manager: the list of the areas that make up
//! an address space.
use std::ops::Range;
use vstd::prelude::*;

verus! {

/// The address space of a task, as a list of areas.
pub struct VMMan {
    pub vmas: Vec<VMArea>,
}

impl VMMan {
    /// An address space without any area.
    pub fn new() -> (mm: Self)
        ensures
            mm.vmas@.len() == 0,
    {
        Self { vmas: Vec::<VMArea>::new() }
    }
}

/// What user code may do with an area: a set of the rights R, W and X, held
/// as a bit pattern.
#[derive(Clone, Copy, Debug, PartialEq, Eq, Structural)]
pub struct VMPerms {
    pub bits: u8,
}

impl VMPerms {
    pub const NONE: u8 = 0;

    pub const R: u8 = 1 << 0;

    pub const W: u8 = 1 << 1;

    pub const X: u8 = 1 << 2;

    /// Every right there is.
    pub const ALL: u8 = 7;

    /// The set of the rights in `bits`; bits that stand for no right are
    /// dropped.
    pub fn from_bits_truncate(bits: u8) -> (p: Self)
        ensures
            p.bits == bits & Self::ALL,
    {
        VMPerms { bits: bits & Self::ALL }
    }

    /// The set of all rights.
    pub fn all() -> (p: Self)
        ensures
            p.bits == Self::ALL,
    {
        VMPerms { bits: Self::ALL }
    }

    /// The rights as a bit pattern.
    pub fn bits(&self) -> (b: u8)
        ensures
            b == self.bits,
    {
        self.bits
    }

    /// Whether every right in `rights` is in the set.
    pub open spec fn spec_contains(&self, rights: u8) -> bool {
        self.bits & rights == rights
    }

    /// Whether every right in `rights` is in the set.
    #[verifier::when_used_as_spec(spec_contains)]
    pub fn contains(&self, rights: u8) -> (r: bool)
        ensures
            r == self.spec_contains(rights),
    {
        self.bits & rights == rights
    }
}

/// One area of an address space.
pub struct VMArea {
    pub vm_range: Range<u64>,
    pub tag: String,
    pub user_perms: VMPerms,
    pub backing: VMType,
}

/// What backs an area.
pub enum VMType {
    /// Anonymous memory.
    ANOM,
    /// The bytes of a file.
    FILE(Vec<u8>),
    /// Nothing: device memory.
    NONE,
}

} // verus!
