//! Capacities that the queues reserve up front.
use vstd::prelude::*;

verus! {

pub const SEM_WAIT_QUEUE_MIN_CAP: usize = 16;

pub const SCHED_RUN_QUEUE_MIN_CAP: usize = 24;

} // verus!
