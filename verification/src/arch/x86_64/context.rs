//! The callee-saved registers of a thread.
use vstd::prelude::*;

verus! {

/// The callee-saved registers of a thread. The caller-saved registers are
/// on the stack already when an interrupt comes in; the state of the
/// floating-point unit is not saved here.
#[derive(Copy, Clone, Debug, PartialEq, Eq, Structural)]
pub struct Context {
    pub rbx: u64,
    pub r12: u64,
    pub r13: u64,
    pub r14: u64,
    pub r15: u64,
    pub rbp: u64,
    pub rsp: u64,
}

} // verus!
