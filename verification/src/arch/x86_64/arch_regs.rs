//! The registers that make up the execution context of a thread: the
//! callee-saved part that a context switch saves and restores, and the
//! caller-saved part that the interrupt entry pushes.
use vstd::prelude::*;

verus! {

/// The callee-saved registers and the floating-point state of a task. It is
/// saved and restored on a context switch.
#[derive(Debug)]
pub struct Context64 {
    pub rbx: u64,
    pub r12: u64,
    pub r13: u64,
    pub r14: u64,
    pub r15: u64,
    pub rbp: u64,
    pub rsp: u64,
    pub fpu: [u8; 108],
}

impl Default for Context64 {
    fn default() -> (c: Context64)
        ensures
            c.rbx == 0,
            c.r12 == 0,
            c.r13 == 0,
            c.r14 == 0,
            c.r15 == 0,
            c.rbp == 0,
            c.rsp == 0,
            forall|i: int| 0 <= i < 108 ==> c.fpu[i] == 0,
    {
        Context64 { rbx: 0, r12: 0, r13: 0, r14: 0, r15: 0, rbp: 0, rsp: 0, fpu: [0; 108] }
    }
}

/// The caller-saved registers, pushed on interrupt entry and popped on exit.
#[derive(Debug)]
pub struct TrapFrame {
    pub r11: u64,
    pub r10: u64,
    pub r9: u64,
    pub r8: u64,
    pub rsi: u64,
    pub rdi: u64,
    pub rdx: u64,
    pub rcx: u64,
    pub rax: u64,
    /// The error code that some exceptions push, or 0.
    pub err_code: u64,
}

} // verus!
