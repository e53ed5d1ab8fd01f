//! The programmable interval timer.
use crate::arch::x86_64::Cpu;
use crate::machine::device_io::{IOPort, PortWrite};
use crate::machine::time::Clock;
use crate::proc::sched::{Scheduler, SET_NEED_RESCHEDULE};
use crate::proc::sync::bellringer::BellRinger;
use crate::proc::sync::irq::{EpilogueEntrant, IRQGate, IRQHandlerEpilogue, Routine};
use crate::proc::sync::{L2Sync, L3Sync};
use crate::proc::task::{Task, TaskTable};
use vstd::prelude::*;

verus! {

/// The timer.
pub struct PIT {}

impl PIT {
    pub const CTRL_PORT: u16 = 0x43;

    pub const DATA_PORT: u16 = 0x40;

    pub const PIT_BASE_FREQ: u64 = 1193182;

    /// One period of the base frequency is roughly 838 ns.
    pub const PIT_BASE_NS: u64 = 838;

    /// The name of the prologue of the driver.
    pub const PROLOGUE: u64 = 0x2000;

    /// The name of the epilogue of the driver.
    pub const EPILOGUE: u64 = 0x2001;

    /// The divider for an interval of `us` microseconds: the interval in
    /// periods of the base frequency, rounded to the nearest, and 65535 at
    /// most.
    pub open spec fn spec_divider(us: u64) -> int {
        if (us * 1000 + 419) / 838 >= 65535 {
            65535
        } else {
            (us * 1000 + 419) / 838
        }
    }

    /// Set the interval of the timer to about `us` microseconds, 54918 at
    /// most. The interval that the timer is set to, in nanoseconds, is
    /// handed back, and the writes that set it: the command for a rate
    /// generator, then the low and the high byte of the divider. The
    /// interval must be half a period of the base frequency or more, so
    /// that the divider is not zero.
    pub fn set_interval(us: u64) -> (r: (u64, Vec<PortWrite>))
        requires
            us >= 1,
            us * 1000 + 419 <= u64::MAX,
        ensures
            r.0 == Self::spec_divider(us) * 838,
            r.1@ == seq![
                PortWrite { port: Self::CTRL_PORT, val: 0x34 },
                PortWrite { port: Self::DATA_PORT, val: (Self::spec_divider(us) % 256) as u8 },
                PortWrite { port: Self::DATA_PORT, val: (Self::spec_divider(us) / 256) as u8 },
            ],
    {
        let mut divider = (us * 1000 + Self::PIT_BASE_NS / 2) / Self::PIT_BASE_NS;
        if divider >= 65535 {
            divider = 65535;
        }
        assert(divider <= 65535 ==> divider & 0xff == divider % 256 && (divider & 0xff00) >> 8
            == divider / 256) by (bit_vector);
        let ctrl = IOPort::new(Self::CTRL_PORT);
        let data = IOPort::new(Self::DATA_PORT);
        let mut w: Vec<PortWrite> = Vec::new();
        w.push(ctrl.outb(0x34));
        w.push(data.outb((divider & 0xff) as u8));
        w.push(data.outb(((divider & 0xff00) >> 8) as u8));
        assert(w@ =~= seq![
            PortWrite { port: Self::CTRL_PORT, val: 0x34 },
            PortWrite { port: Self::DATA_PORT, val: (Self::spec_divider(us) % 256) as u8 },
            PortWrite { port: Self::DATA_PORT, val: (Self::spec_divider(us) / 256) as u8 },
        ]);
        return (divider * Self::PIT_BASE_NS, w);
    }

    /// The work of the prologue: ask for a reschedule, unless no task runs
    /// yet, as is the case before the first task is started.
    pub fn run_prologue(tasks: &TaskTable, need_reschedule: &mut bool)
        ensures
            *final(need_reschedule) == (*old(need_reschedule) || Task::current(tasks) is Some),
    {
        let task = Task::current(tasks);
        if task.is_none() {
            return ;
        }
        let _ = SET_NEED_RESCHEDULE(need_reschedule);
    }

    /// The work of the epilogue: the bell ringer looks at every sleeper and
    /// wakes those whose time has come, as by [`BellRinger::check_all`].
    pub fn run_epilogue(
        clock: &Clock,
        cpu: &mut Cpu,
        bell: &mut L3Sync<BellRinger>,
        tasks: &mut TaskTable,
        sched: &mut L2Sync<Scheduler>,
    )
        ensures
            Scheduler::consistent(old(tasks), old(sched)@.run_queue@) ==> Scheduler::consistent(
                final(tasks),
                final(sched)@.run_queue@,
            ),
            old(tasks).wf() && BellRinger::spec_sleepers_wait(
                old(tasks).slots@,
                old(bell)@.bedroom@,
            ) ==> BellRinger::spec_sleepers_wait(final(tasks).slots@, final(bell)@.bedroom@),
            *final(cpu) == *old(cpu),
            final(bell)@.bedroom@ == BellRinger::spec_asleep(old(bell)@.bedroom@, clock.ns),
            final(tasks).current == old(tasks).current,
            final(tasks).slots@ == BellRinger::spec_wake_due(
                old(tasks).slots@,
                old(sched)@.run_queue@,
                old(bell)@.bedroom@,
                clock.ns,
            ).0,
            final(sched)@.run_queue@ == BellRinger::spec_wake_due(
                old(tasks).slots@,
                old(sched)@.run_queue@,
                old(bell)@.bedroom@,
                clock.ns,
            ).1,
            final(sched)@.need_schedule == old(sched)@.need_schedule,
    {
        BellRinger::check_all(clock, cpu, bell, tasks, sched);
    }
}

impl IRQHandlerEpilogue for PIT {
    open spec fn prologue() -> Routine {
        Routine(Self::PROLOGUE)
    }

    open spec fn epilogue() -> Routine {
        Routine(Self::EPILOGUE)
    }

    fn do_prologue() -> (r: Routine) {
        Routine(Self::PROLOGUE)
    }

    fn do_epilogue() -> (r: Routine) {
        Routine(Self::EPILOGUE)
    }
}

} // verus!
