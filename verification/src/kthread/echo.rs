//! A thread that reads keys and prints them.
use crate::kthread::KThread;
use vstd::prelude::*;

verus! {

pub struct Echo {}

impl Echo {
    pub const ENTRY: u64 = 0xec40;
}

impl KThread for Echo {
    open spec fn spec_entry() -> u64 {
        Self::ENTRY
    }

    fn entry() -> (addr: u64) {
        Self::ENTRY
    }
}

} // verus!
