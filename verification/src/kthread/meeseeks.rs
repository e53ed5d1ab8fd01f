//! A thread that says hello and sleeps for two seconds, again and again.
use crate::arch::x86_64::{is_int_enabled, spec_is_int_enabled, Cpu};
use crate::kthread::KThread;
use crate::machine::time::Clock;
use crate::proc::sched::{Scheduler, Switch};
use crate::proc::sync::bellringer::{BellRinger, Sleeper};
use crate::proc::sync::{Level2, L2Sync, L3Sync};
use crate::proc::task::{Task, TaskId, TaskState, TaskTable};
use vstd::prelude::*;

verus! {

pub struct Meeseeks {}

impl Meeseeks {
    /// How long the thread sleeps in a round, in nanoseconds.
    pub const NAP: u64 = 2_000_000_000;

    /// One round of the thread, which has the processor: when it has
    /// printed its line it sleeps, as by [`Task::nanosleep`].
    pub fn step(
        clock: &Clock,
        cpu: &mut Cpu,
        l2: &mut Level2,
        bell: &mut L3Sync<BellRinger>,
        tasks: &mut TaskTable,
        sched: &mut L2Sync<Scheduler>,
    ) -> (sw: Switch)
        requires
            Scheduler::can_hand_over(old(cpu), old(l2), old(tasks), old(sched)@.run_queue@),
            old(tasks).state_of(Task::current(old(tasks))->0) == TaskState::Run,
            clock.ns + Self::NAP <= u64::MAX,
        ensures
            *final(cpu) == *old(cpu),
            *final(l2) == old(l2).entered(),
            final(bell)@.bedroom@ == old(bell)@.bedroom@.push(
                Sleeper {
                    tid: TaskId(old(tasks).task(Task::current(old(tasks))->0).kernel_stack),
                    until: (clock.ns + Self::NAP) as u64,
                },
            ),
            (final(tasks).slots@, final(tasks).current, final(sched)@.run_queue@, sw)
                == Scheduler::spec_hand_over(old(tasks), old(sched)@.run_queue@),
            Scheduler::consistent(old(tasks), old(sched)@.run_queue@) ==> Scheduler::consistent(
                final(tasks),
                final(sched)@.run_queue@,
            ),
    {
        Task::nanosleep(clock, cpu, l2, bell, tasks, sched, Self::NAP)
    }

    pub const ENTRY: u64 = 0x3e5e;
}

impl KThread for Meeseeks {
    open spec fn spec_entry() -> u64 {
        Self::ENTRY
    }

    fn entry() -> (addr: u64) {
        Self::ENTRY
    }
}

} // verus!
