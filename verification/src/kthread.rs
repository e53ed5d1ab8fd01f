//! Kernel threads.
use crate::proc::sync::{Level2, LEAVE_L2};
use vstd::prelude::*;

pub mod echo;
pub mod kshell;
pub mod lazy;
pub mod meeseeks;

pub use echo::Echo;
pub use kshell::Kshell;
pub use lazy::Lazy;
pub use meeseeks::Meeseeks;

verus! {

/// A kernel thread: where its code starts.
pub trait KThread {
    /// The address of the code of the thread.
    spec fn spec_entry() -> u64;

    /// The address of the code of the thread.
    fn entry() -> (addr: u64)
        ensures
            addr == Self::spec_entry(),
    ;

    /// The first step of every thread: a thread starts in the epilogue
    /// level, which was entered on its behalf when it got the processor,
    /// and leaves it before anything else. The address at which the thread
    /// goes on is handed back.
    fn _entry(l2: &mut Level2) -> (addr: u64)
        requires
            old(l2).can_leave(),
        ensures
            *final(l2) == old(l2).left(),
            addr == Self::spec_entry(),
    {
        LEAVE_L2(l2);
        Self::entry()
    }

    /// The entry of the thread, to create its task with.
    fn get_entry() -> (addr: u64)
        ensures
            addr == Self::spec_entry(),
    {
        Self::entry()
    }
}

/// The thread that runs when nothing else does.
pub struct Idle {}

impl Idle {
    pub const ENTRY: u64 = 0x1d1e;
}

impl KThread for Idle {
    open spec fn spec_entry() -> u64 {
        Self::ENTRY
    }

    fn entry() -> (addr: u64) {
        Self::ENTRY
    }
}

} // verus!
