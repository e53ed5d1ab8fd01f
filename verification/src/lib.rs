//! A single-core kernel core: tasks, a round-robin scheduler, the three
//! synchronization levels, interrupt dispatch with prologues and epilogues,
//! counting semaphores and timed sleep, together with the address, paging,
//! archive and device logic around them.
//!
//! The hardware itself (the interrupt flag, ports, the context switch) is not
//! touched from here: every function works on explicit state and hands back
//! what has to be done on the machine.
#![allow(non_snake_case)]
#![allow(non_camel_case_types)]
#![allow(unused_imports)]
#![allow(dead_code)]

pub mod arch;
pub mod black_magic;
pub mod defs;
pub mod fs;
pub mod io;
pub mod kthread;
pub mod machine;
pub mod mm;
pub mod proc;
