//! Process and synchronization model.
use crate::arch::x86_64::interrupt::Dispatch;
use crate::arch::x86_64::{is_int_enabled, spec_is_int_enabled, Cpu};
use crate::defs::Limits;
use crate::machine::time::Clock;
use crate::proc::sched::Scheduler;
use crate::proc::sync::bellringer::BellRinger;
use crate::proc::sync::irq::{EpilogueQueue, IRQGate};
use crate::proc::sync::{Level2, L2Sync, L3Sync};
use crate::kthread::{Idle, KThread, Kshell, Lazy, Meeseeks};
use crate::proc::task::{Task, TaskId, TaskState, TaskTable};
use std::collections::BTreeMap;
use vstd::prelude::*;

pub mod exec;
pub mod loader;
pub mod sched;
pub mod sync;
pub mod task;

verus! {

/// The state of the kernel core: the processor, the flags of the
/// synchronization levels, the clock, the tasks, and the structures that
/// are shared between tasks and interrupt handlers.
pub struct Kernel {
    pub cpu: Cpu,
    /// The flag of the epilogue level.
    pub l2: Level2,
    /// Whether the timer has asked for a reschedule.
    pub need_reschedule: bool,
    pub clock: Clock,
    pub tasks: TaskTable,
    pub scheduler: L2Sync<Scheduler>,
    pub epilogue_queue: L3Sync<EpilogueQueue>,
    pub bellringer: L3Sync<BellRinger>,
    /// The handlers that the drivers have registered, by interrupt vector.
    pub gates: BTreeMap<u16, IRQGate>,
}

impl Kernel {
    /// The kernel at boot, with the gates that the drivers registered:
    /// interrupts are disabled, the epilogue level is free, no task exists,
    /// and every queue is empty.
    pub fn new(gates: BTreeMap<u16, IRQGate>) -> (k: Self)
        ensures
            k.gates == gates,
            !is_int_enabled(&k.cpu),
            k.l2.available,
            !k.need_reschedule,
            k.clock.ns == 0,
            k.tasks.slots@ == Map::<u64, crate::proc::task::Task>::empty(),
            k.tasks.current is None,
            k.scheduler@.run_queue@.len() == 0,
            k.epilogue_queue@.queue@.len() == 0,
            k.bellringer@.bedroom@.len() == 0,
            k.inv(),
    {
        Kernel {
            cpu: Cpu::new(),
            l2: Level2::new(),
            need_reschedule: false,
            clock: Clock::new(),
            tasks: TaskTable::new(),
            scheduler: L2Sync::new(Scheduler::new()),
            epilogue_queue: L3Sync::new(EpilogueQueue::new()),
            bellringer: L3Sync::new(BellRinger::new()),
            gates,
        }
    }

    /// The invariant of the kernel: the tasks and the run queue are
    /// consistent, and the sleepers are tasks that wait, each with one entry
    /// in the list.
    pub open spec fn inv(&self) -> bool {
        &&& Scheduler::consistent(&self.tasks, self.scheduler@.run_queue@)
        &&& BellRinger::spec_sleepers_wait(self.tasks.slots@, self.bellringer@.bedroom@)
    }

    /// What the interrupt dispatcher reads and writes.
    pub open spec fn dispatch(&self) -> Dispatch {
        Dispatch {
            cpu: self.cpu,
            l2: self.l2,
            need_reschedule: self.need_reschedule,
            current: self.tasks.current,
            run_queue: self.scheduler@.run_queue@,
            epilogues: self.epilogue_queue@.queue@,
        }
    }
}

/// Reserve room in the run queue and in the list of sleepers, so that they
/// need not grow inside a critical section. Interrupts must be disabled.
pub fn init(k: &mut Kernel)
    requires
        !is_int_enabled(&old(k).cpu),
    ensures
        final(k).dispatch() == old(k).dispatch(),
        final(k).scheduler@.need_schedule == old(k).scheduler@.need_schedule,
        final(k).bellringer@.bedroom@ == old(k).bellringer@.bedroom@,
        final(k).tasks == old(k).tasks,
        final(k).clock == old(k).clock,
        final(k).gates == old(k).gates,
        old(k).inv() ==> final(k).inv(),
{
    k.scheduler.get_ref_mut_unguarded().run_queue.reserve(Limits::SCHED_RUN_QUEUE_MIN_CAP);
    k.bellringer.l3_get_ref_mut(&k.cpu).bedroom.reserve(Limits::SEM_WAIT_QUEUE_MIN_CAP);
}

/// Create a kernel thread on the stack at `sp` and put it at the end of
/// the run queue, as the holder of the epilogue level. The words that
/// belong on the stack of the thread are handed back. The stack must be
/// new: no task is kept there. The epilogue level must be free.
pub fn spawn(k: &mut Kernel, sp: u64, pid: u32, entry: u64) -> (r: (TaskId, Vec<(u64, u64)>))
    requires
        old(k).l2.can_enter(),
        sp + crate::defs::Mem::KERNEL_STACK_SIZE <= u64::MAX,
        !old(k).tasks.has(TaskId(sp)),
    ensures
        r.0 == TaskId(sp),
        r.1@ == Task::spec_first_words(sp, entry),
        final(k).tasks.slots@.dom() == old(k).tasks.slots@.dom().insert(sp),
        Task::spec_new_task(final(k).tasks.slots@[sp], sp, pid),
        forall|a: u64|
            a != sp && old(k).tasks.slots@.contains_key(a) ==> final(k).tasks.slots@[a] ==
                old(k).tasks.slots@[a],
        final(k).tasks.current == old(k).tasks.current,
        final(k).scheduler@.run_queue@ == old(k).scheduler@.run_queue@.push(TaskId(sp)),
        final(k).cpu == old(k).cpu,
        final(k).l2 == old(k).l2,
        final(k).need_reschedule == old(k).need_reschedule,
        final(k).clock == old(k).clock,
        final(k).epilogue_queue == old(k).epilogue_queue,
        final(k).bellringer == old(k).bellringer,
        final(k).gates == old(k).gates,
        old(k).inv() ==> final(k).inv(),
{
    let (tid, words) = Task::create_task(&mut k.tasks, sp, pid, entry);
    proof {
        let queue = old(k).scheduler@.run_queue@;
        if old(k).inv() {
            assert(Scheduler::consistent(&k.tasks, queue));
            assert(!queue.contains(tid)) by {
                if queue.contains(tid) {
                    let i = choose|i: int| 0 <= i < queue.len() && queue[i] == tid;
                    assert(old(k).tasks.slots@.contains_key(queue[i].0));
                }
            }
            Scheduler::lemma_insert_keeps_consistent(
                k.tasks.slots@,
                k.tasks.current,
                queue,
                tid,
            );
            let bedroom = old(k).bellringer@.bedroom@;
            assert forall|i: int| 0 <= i < bedroom.len() implies k.tasks.slots@.contains_key(
                (#[trigger] bedroom[i]).tid.0,
            ) && k.tasks.slots@[bedroom[i].tid.0].state == TaskState::Wait by {
                assert(old(k).tasks.slots@.contains_key(bedroom[i].tid.0));
            }
        }
    }
    let guard = k.scheduler.lock(&mut k.l2);
    k.scheduler.get_ref_mut(&guard).insert_task(tid);
    guard.unlock(&mut k.l2);
    (tid, words)
}

/// Create the threads of the kernel: the idle thread, the noisy one, the
/// shell and the lazy one, on the four stacks given, and put them into the
/// run queue in this order. The words that belong on the stacks are handed
/// back. The stacks must be new and distinct. The epilogue level must be
/// free.
pub fn create_tasks(k: &mut Kernel, stacks: &[u64; 4]) -> (words: Vec<(u64, u64)>)
    requires
        old(k).l2.can_enter(),
        forall|i: int|
            0 <= i < 4 ==> stacks[i] + crate::defs::Mem::KERNEL_STACK_SIZE <= u64::MAX
                && !old(k).tasks.has(TaskId(#[trigger] stacks[i])),
        forall|i: int, j: int| 0 <= i < j < 4 ==> stacks[i] != stacks[j],
    ensures
        final(k).scheduler@.run_queue@ == old(k).scheduler@.run_queue@ + seq![
            TaskId(stacks[0]),
            TaskId(stacks[1]),
            TaskId(stacks[2]),
            TaskId(stacks[3]),
        ],
        words@ == Task::spec_first_words(stacks[0], Idle::spec_entry()) + Task::spec_first_words(
            stacks[1],
            Meeseeks::spec_entry(),
        ) + Task::spec_first_words(stacks[2], Kshell::spec_entry()) + Task::spec_first_words(
            stacks[3],
            Lazy::spec_entry(),
        ),
        forall|i: int|
            0 <= i < 4 ==> final(k).tasks.has(TaskId(#[trigger] stacks[i])) && Task::spec_new_task(
                final(k).tasks.task(TaskId(stacks[i])),
                stacks[i],
                (i + 1) as u32,
            ),
        forall|a: u64|
            old(k).tasks.slots@.contains_key(a) ==> final(k).tasks.slots@.contains_key(a)
                && final(k).tasks.slots@[a] == old(k).tasks.slots@[a],
        final(k).tasks.current == old(k).tasks.current,
        final(k).cpu == old(k).cpu,
        final(k).l2 == old(k).l2,
        final(k).need_reschedule == old(k).need_reschedule,
        final(k).clock == old(k).clock,
        final(k).epilogue_queue == old(k).epilogue_queue,
        final(k).bellringer == old(k).bellringer,
        final(k).gates == old(k).gates,
        old(k).inv() ==> final(k).inv(),
{
    let mut words: Vec<(u64, u64)> = Vec::new();
    let (_, mut w) = spawn(k, stacks[0], 1, Idle::get_entry());
    words.append(&mut w);
    let (_, mut w) = spawn(k, stacks[1], 2, Meeseeks::get_entry());
    words.append(&mut w);
    let (_, mut w) = spawn(k, stacks[2], 3, Kshell::get_entry());
    words.append(&mut w);
    let (_, mut w) = spawn(k, stacks[3], 4, Lazy::get_entry());
    words.append(&mut w);
    assert(k.scheduler@.run_queue@ =~= old(k).scheduler@.run_queue@ + seq![
        TaskId(stacks[0]),
        TaskId(stacks[1]),
        TaskId(stacks[2]),
        TaskId(stacks[3]),
    ]);
    assert(words@ =~= Task::spec_first_words(stacks[0], Idle::spec_entry())
        + Task::spec_first_words(stacks[1], Meeseeks::spec_entry()) + Task::spec_first_words(
        stacks[2],
        Kshell::spec_entry(),
    ) + Task::spec_first_words(stacks[3], Lazy::spec_entry()));
    words
}

} // verus!
