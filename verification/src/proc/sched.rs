//! The round-robin scheduler.
use crate::arch::x86_64::interrupt::{irq_restore, irq_save, lemma_irq_save_restore};
use crate::arch::x86_64::{is_int_enabled, spec_is_int_enabled, Cpu};
use crate::proc::sync::{Level2, L2Sync, ENTER_L2, LEAVE_L2};
use crate::proc::task::{Task, TaskId, TaskState, TaskTable};
use std::collections::VecDeque;
use vstd::prelude::*;

verus! {

/// Ask for a reschedule, whatever the flag was, and return what it was.
#[inline(always)]
pub fn SET_NEED_RESCHEDULE(need_reschedule: &mut bool) -> (previous: bool)
    ensures
        previous == *old(need_reschedule),
        *final(need_reschedule),
{
    let previous = *need_reschedule;
    *need_reschedule = true;
    previous
}

/// Withdraw the request for a reschedule, whatever the flag was, and return
/// what it was.
#[inline(always)]
pub fn CLEAR_NEED_RESCHEDULE(need_reschedule: &mut bool) -> (previous: bool)
    ensures
        previous == *old(need_reschedule),
        !*final(need_reschedule),
{
    let previous = *need_reschedule;
    *need_reschedule = false;
    previous
}

/// What the caller of the scheduler has to do with the processor.
#[derive(Copy, Clone, Debug, PartialEq, Eq, Structural)]
pub enum Switch {
    /// Nothing: the caller keeps the processor.
    Stay,
    /// Save the context of `from` and continue with the context of `to`.
    Swap { from: TaskId, to: TaskId },
    /// Continue with the context of `to`; there is no context to save.
    To { to: TaskId },
}

/// The scheduler: the queue of the tasks that are ready to run, oldest first.
pub struct Scheduler {
    pub run_queue: VecDeque<TaskId>,
    pub need_schedule: bool,
}

impl Scheduler {
    pub const MIN_TASK_CAP: usize = 16;

    /// A scheduler with an empty run queue.
    pub fn new() -> (s: Self)
        ensures
            s.run_queue@ == Seq::<TaskId>::empty(),
            !s.need_schedule,
    {
        return Self { run_queue: VecDeque::new(), need_schedule: false };
    }

    /// Append a task to the run queue. A handle that is in the queue already
    /// is appended all the same.
    pub fn insert_task(&mut self, tid: TaskId)
        ensures
            final(self).run_queue@ == old(self).run_queue@.push(tid),
            final(self).need_schedule == old(self).need_schedule,
    {
        self.run_queue.push_back(tid);
    }

    /// The run queue after one round-robin step of a non-empty queue: the
    /// oldest task leaves at the front, and the task that ran joins at the
    /// back if it is still ready to run.
    pub open spec fn spec_rotate(queue: Seq<TaskId>, me: TaskId, me_runs: bool) -> Seq<TaskId> {
        if me_runs {
            queue.drop_first().push(me)
        } else {
            queue.drop_first()
        }
    }

    /// One voluntary yield of a task that is ready to run, told of the task
    /// that has the processor and of the run queue: with an empty queue
    /// nothing changes; otherwise the front of the queue gets the processor
    /// and the task that had it joins the back.
    pub open spec fn spec_yield(me: TaskId, queue: Seq<TaskId>) -> (TaskId, Seq<TaskId>) {
        if queue.len() == 0 {
            (me, queue)
        } else {
            (queue[0], Self::spec_rotate(queue, me, true))
        }
    }

    /// `n` voluntary yields in a row, each by the task that has the
    /// processor at that time.
    pub open spec fn spec_yields(me: TaskId, queue: Seq<TaskId>, n: nat) -> (TaskId, Seq<TaskId>)
        decreases n,
    {
        if n == 0 {
            (me, queue)
        } else {
            let before = Self::spec_yields(me, queue, (n - 1) as nat);
            Self::spec_yield(before.0, before.1)
        }
    }

    /// The tasks that take turns: the one that has the processor, then the
    /// run queue.
    pub open spec fn spec_ring(me: TaskId, queue: Seq<TaskId>) -> Seq<TaskId> {
        seq![me] + queue
    }

    /// Yielding walks round the ring: after `n` yields the task at place
    /// `n` modulo the length of the ring has the processor, and the others
    /// queue behind it in the order of the ring.
    pub proof fn lemma_yields_walk_the_ring(me: TaskId, queue: Seq<TaskId>, n: nat)
        ensures
            ({
                let ring = Self::spec_ring(me, queue);
                let after = Self::spec_yields(me, queue, n);
                &&& after.1.len() == queue.len()
                &&& after.0 == ring[(n % ring.len()) as int]
                &&& forall|i: int|
                    0 <= i < ring.len() ==> #[trigger] Self::spec_ring(after.0, after.1)[i] ==
                        ring[(i + n)
                        % (ring.len() as int)]
            }),
        decreases n,
    {
        let ring = Self::spec_ring(me, queue);
        let len = ring.len() as int;
        if n == 0 {
            assert forall|i: int| 0 <= i < len implies #[trigger] ring[i] ==
                ring[(i + 0) % len] by {
                vstd::arithmetic::div_mod::lemma_small_mod(i as nat, len as nat);
            }
            vstd::arithmetic::div_mod::lemma_small_mod(0, len as nat);
        } else {
            let before = Self::spec_yields(me, queue, (n - 1) as nat);
            let after = Self::spec_yields(me, queue, n);
            Self::lemma_yields_walk_the_ring(me, queue, (n - 1) as nat);
            let rb = Self::spec_ring(before.0, before.1);
            let ra = Self::spec_ring(after.0, after.1);
            assert forall|i: int| 0 <= i < len implies #[trigger] ra[i] == ring[(i + n) % len] by {
                if before.1.len() == 0 {
                    assert(len == 1);
                    assert(ra[i] == rb[i]);
                    vstd::arithmetic::div_mod::lemma_mod_add_multiples_vanish(i + n as int - 1,
                        len);
                } else if i + 1 < len {
                    assert(ra[i] == rb[i + 1]);
                } else {
                    assert(ra[i] == rb[0]);
                    vstd::arithmetic::div_mod::lemma_mod_add_multiples_vanish(n as int - 1, len);
                }
            }
            assert(ra[0] == after.0);
        }
    }

    /// Round-robin is fair: where no task is in the ring twice, then in any
    /// `len` yields in a row, `len` being the number of tasks in the ring,
    /// no task gets the processor twice, and every task of the ring gets it.
    pub proof fn lemma_round_robin_is_fair(
        me: TaskId,
        queue: Seq<TaskId>,
        start: nat,
        i: nat,
        j: nat,
        t: TaskId,
    )
        requires
            Self::spec_ring(me, queue).no_duplicates(),
            i < j < Self::spec_ring(me, queue).len(),
            Self::spec_ring(me, queue).contains(t),
        ensures
            Self::spec_yields(me, queue, start + i).0 != Self::spec_yields(me, queue, start + j).0,
            exists|n: nat|
                start <= n < start + Self::spec_ring(me, queue).len()
                    && (#[trigger] Self::spec_yields(
                    me,
                    queue,
                    n,
                )).0 == t,
    {
        let ring = Self::spec_ring(me, queue);
        let len = ring.len() as int;
        Self::lemma_yields_walk_the_ring(me, queue, start + i);
        Self::lemma_yields_walk_the_ring(me, queue, start + j);
        let si = (start + i) as int;
        let sj = (start + j) as int;
        let a = si % len;
        let b = sj % len;
        vstd::arithmetic::div_mod::lemma_mod_bound(si, len);
        vstd::arithmetic::div_mod::lemma_mod_bound(sj, len);
        if a == b {
            vstd::arithmetic::div_mod::lemma_fundamental_div_mod(si, len);
            vstd::arithmetic::div_mod::lemma_fundamental_div_mod(sj, len);
            let qi = si / len;
            let qj = sj / len;
            assert(j - i == len * qj - len * qi);
            assert(len * qj - len * qi == len * (qj - qi)) by (nonlinear_arith);
            assert(0 < len * (qj - qi) < len);
            assert(false) by (nonlinear_arith)
                requires
                    0 < len * (qj - qi) < len,
                    len > 0,
            ;
        }
        // the place of `t` in the ring is reached from `start` within one
        // round
        let p = choose|p: int| 0 <= p < len && ring[p] == t;
        let s = (start as int) % len;
        vstd::arithmetic::div_mod::lemma_mod_bound(start as int, len);
        let k: nat = (if p >= s {
            p - s
        } else {
            p - s + len
        }) as nat;
        Self::lemma_yields_walk_the_ring(me, queue, start + k);
        vstd::arithmetic::div_mod::lemma_fundamental_div_mod(start as int, len);
        let q0 = start as int / len;
        if p >= s {
            assert(start + k == len * q0 + p);
            vstd::arithmetic::div_mod::lemma_mod_multiples_vanish(q0, p, len);
        } else {
            assert(start + k == len * (q0 + 1) + p) by (nonlinear_arith)
                requires
                    start == len * q0 + s,
                    k == p - s + len,
            ;
            vstd::arithmetic::div_mod::lemma_mod_multiples_vanish(q0 + 1, p, len);
        }
        vstd::arithmetic::div_mod::lemma_small_mod(p as nat, len as nat);
        assert(((start + k) as int) % len == p);
        assert(start <= start + k < start + len && Self::spec_yields(me, queue, start + k).0 == t);
    }

    /// The invariant of the tasks and the run queue. Every task is valid.
    /// The task that has the processor, if one has it, is ready to run. The
    /// run queue holds tasks that exist and are ready to run, none of them
    /// twice, and not the task that has the processor. A task that waits
    /// is thus in no run queue: it gets there again when it is woken.
    pub open spec fn spec_consistent(
        slots: Map<u64, Task>,
        current: Option<TaskId>,
        queue: Seq<TaskId>,
    ) -> bool {
        &&& TaskTable::spec_wf(slots)
        &&& current is Some ==> slots.contains_key(current.unwrap().0)
            && slots[current.unwrap().0].state
            == TaskState::Run
        &&& forall|i: int|
            0 <= i < queue.len() ==> slots.contains_key((#[trigger] queue[i]).0)
                && slots[queue[i].0].state == TaskState::Run && Some(queue[i]) != current
        &&& queue.no_duplicates()
    }

    /// The invariant of the tasks and the run queue: see
    /// [`Scheduler::spec_consistent`].
    pub open spec fn consistent(tasks: &TaskTable, queue: Seq<TaskId>) -> bool {
        Self::spec_consistent(tasks.slots@, tasks.current, queue)
    }

    /// Under the invariant a task that has the processor can always call
    /// the scheduler, and it can hand the processor over whenever another
    /// task is ready, interrupts are enabled and the epilogue level is
    /// free.
    pub proof fn lemma_consistent_can_schedule(
        cpu: &Cpu,
        l2: &Level2,
        tasks: &TaskTable,
        queue: Seq<TaskId>,
    )
        requires
            Self::consistent(tasks, queue),
            tasks.current is Some,
        ensures
            Task::current(tasks) == tasks.current,
            Self::can_schedule(tasks, queue),
            is_int_enabled(cpu) && l2.can_enter() && queue.len() > 0 ==> Self::can_hand_over(
                cpu,
                l2,
                tasks,
                queue,
            ),
    {
        if queue.len() > 0 {
            assert(tasks.slots@.contains_key(queue[0].0));
        }
    }

    /// A round-robin step keeps the invariant: the task at the front of
    /// the run queue gets the processor, and the task that had it joins
    /// the back if it is ready to run.
    pub proof fn lemma_step_keeps_consistent(
        slots: Map<u64, Task>,
        me: TaskId,
        queue: Seq<TaskId>,
    )
        requires
            TaskTable::spec_wf(slots),
            slots.contains_key(me.0),
            queue.len() > 0,
            Self::spec_consistent(slots, None, queue),
            !queue.contains(me),
        ensures
            Self::spec_consistent(
                slots,
                Some(queue[0]),
                Self::spec_rotate(queue, me, slots[me.0].state == TaskState::Run),
            ),
    {
        let after = Self::spec_rotate(queue, me, slots[me.0].state == TaskState::Run);
        let rest = queue.drop_first();
        assert forall|i: int| 0 <= i < rest.len() implies rest[i] == queue[i + 1] by {}
        assert forall|i: int| 0 <= i < after.len() implies slots.contains_key(
            (#[trigger] after[i]).0,
        ) && slots[after[i].0].state == TaskState::Run && after[i] != queue[0] by {
            if i < rest.len() {
                assert(after[i] == queue[i + 1]);
            } else {
                assert(after[i] == me);
                assert(queue.contains(queue[0]));
            }
        }
        assert forall|i: int, j: int|
            0 <= i < after.len() && 0 <= j < after.len() && i != j implies after[i] != after[j] by {
            if i < rest.len() && j < rest.len() {
                assert(after[i] == queue[i + 1] && after[j] == queue[j + 1]);
            } else if i < rest.len() {
                assert(after[i] == queue[i + 1]);
                assert(queue.contains(queue[i + 1]));
            } else if j < rest.len() {
                assert(after[j] == queue[j + 1]);
                assert(queue.contains(queue[j + 1]));
            }
        }
    }

    /// Waking a task keeps the invariant.
    pub proof fn lemma_wakeup_keeps_consistent(
        slots: Map<u64, Task>,
        current: Option<TaskId>,
        queue: Seq<TaskId>,
        tid: TaskId,
    )
        requires
            Self::spec_consistent(slots, current, queue),
        ensures
            Self::spec_consistent(
                TaskTable::spec_wakeup(slots, queue, tid).0,
                current,
                TaskTable::spec_wakeup(slots, queue, tid).1,
            ),
    {
        let after = TaskTable::spec_wakeup(slots, queue, tid);
        if slots.contains_key(tid.0) && slots[tid.0].state == TaskState::Wait {
            assert(TaskId(slots[tid.0].kernel_stack) == tid);
            assert forall|i: int| 0 <= i < after.1.len() implies after.0.contains_key(
                (#[trigger] after.1[i]).0,
            ) && after.0[after.1[i].0].state == TaskState::Run && Some(after.1[i]) != current by {
                if i < queue.len() {
                    assert(after.1[i] == queue[i]);
                }
            }
            assert forall|i: int, j: int|
                0 <= i < after.1.len() && 0 <= j < after.1.len() && i != j implies after.1[i]
                != after.1[j] by {
                if i < queue.len() {
                    assert(after.1[i] == queue[i]);
                }
                if j < queue.len() {
                    assert(after.1[j] == queue[j]);
                }
            }
        }
    }

    /// A task that has the processor keeps the invariant when it goes to
    /// wait and the task at the front of the run queue takes over.
    pub proof fn lemma_block_keeps_consistent(
        slots: Map<u64, Task>,
        me: TaskId,
        queue: Seq<TaskId>,
    )
        requires
            Self::spec_consistent(slots, Some(me), queue),
            queue.len() > 0,
        ensures
            Self::spec_consistent(
                TaskTable::with_state(slots, me, TaskState::Wait),
                Some(queue[0]),
                queue.drop_first(),
            ),
    {
        let after = TaskTable::with_state(slots, me, TaskState::Wait);
        let rest = queue.drop_first();
        assert(slots.contains_key(queue[0].0));
        assert forall|i: int| 0 <= i < rest.len() implies after.contains_key((#[trigger] rest[i]).0)
            && after[rest[i].0].state == TaskState::Run && rest[i] != queue[0] by {
            assert(rest[i] == queue[i + 1]);
        }
        assert forall|i: int, j: int|
            0 <= i < rest.len() && 0 <= j < rest.len() && i != j implies rest[i] != rest[j] by {
            assert(rest[i] == queue[i + 1] && rest[j] == queue[j + 1]);
        }
    }

    /// A new task that is ready to run keeps the invariant when it joins
    /// the run queue.
    pub proof fn lemma_insert_keeps_consistent(
        slots: Map<u64, Task>,
        current: Option<TaskId>,
        queue: Seq<TaskId>,
        tid: TaskId,
    )
        requires
            Self::spec_consistent(slots, current, queue),
            slots.contains_key(tid.0),
            slots[tid.0].state == TaskState::Run,
            Some(tid) != current,
            !queue.contains(tid),
        ensures
            Self::spec_consistent(slots, current, queue.push(tid)),
    {
        let after = queue.push(tid);
        assert forall|i: int| 0 <= i < after.len() implies slots.contains_key(
            (#[trigger] after[i]).0,
        ) && slots[after[i].0].state == TaskState::Run && Some(after[i]) != current by {
            if i < queue.len() {
                assert(after[i] == queue[i]);
            }
        }
        assert forall|i: int, j: int|
            0 <= i < after.len() && 0 <= j < after.len() && i != j implies after[i] != after[j] by {
            if i < queue.len() {
                assert(after[i] == queue[i]);
                assert(queue.contains(queue[i]));
            }
            if j < queue.len() {
                assert(after[j] == queue[j]);
                assert(queue.contains(queue[j]));
            }
        }
    }

    /// Whether [`Scheduler::do_schedule`] can be called: a task has the
    /// processor; there is a task to run, be it the caller itself; and the
    /// task at the front of the run queue exists and is ready to run.
    pub open spec fn can_schedule(tasks: &TaskTable, queue: Seq<TaskId>) -> bool {
        &&& Task::current(tasks) is Some
        &&& queue.len() == 0 ==> tasks.state_of(Task::current(tasks)->0) == TaskState::Run
        &&& queue.len() > 0 ==> tasks.has(queue[0]) && tasks.state_of(queue[0]) == TaskState::Run
    }

    /// Whether the task that has the processor can stop being ready and
    /// hand the processor over: it exists; interrupts are enabled and the
    /// epilogue level is free, as the way to the scheduler needs them; and
    /// another task, one that is ready to run, is at the front of the run
    /// queue to take the processor.
    pub open spec fn can_hand_over(
        cpu: &Cpu,
        l2: &Level2,
        tasks: &TaskTable,
        queue: Seq<TaskId>,
    ) -> bool {
        &&& Task::current(tasks) is Some
        &&& is_int_enabled(cpu)
        &&& l2.can_enter()
        &&& queue.len() > 0
        &&& queue[0] != Task::current(tasks)->0
        &&& tasks.has(queue[0])
        &&& tasks.state_of(queue[0]) == TaskState::Run
    }

    /// What it does to the tasks and the run queue when the task that has
    /// the processor goes to wait and hands the processor over: the tasks
    /// then, the task that has the processor then, the run queue then, and
    /// the switch. The caller waits; the task at the front of the run
    /// queue leaves the queue and gets the processor.
    pub open spec fn spec_hand_over(tasks: &TaskTable, queue: Seq<TaskId>) -> (
        Map<u64, Task>,
        Option<TaskId>,
        Seq<TaskId>,
        Switch,
    ) {
        (
            TaskTable::with_state(tasks.slots@, Task::current(tasks)->0, TaskState::Wait),
            Some(queue[0]),
            queue.drop_first(),
            Switch::Swap { from: Task::current(tasks)->0, to: queue[0] },
        )
    }

    /// What [`Scheduler::do_schedule`] hands back: the task that ran and the
    /// front of the run queue trade places, unless there is nobody else or
    /// the front of the queue is the task that ran.
    pub open spec fn spec_switch(tasks: &TaskTable, queue: Seq<TaskId>) -> Switch {
        let me = Task::current(tasks)->0;
        if queue.len() == 0 || queue[0] == me {
            Switch::Stay
        } else {
            Switch::Swap { from: me, to: queue[0] }
        }
    }

    /// What a round-robin step does: the task that has the processor then,
    /// the run queue then, and the switch that is handed back. With an
    /// empty run queue nothing changes. Otherwise the task at the front of
    /// the queue gets the processor, and the task that had it joins the back
    /// of the queue if it is ready to run.
    pub open spec fn spec_step(tasks: &TaskTable, queue: Seq<TaskId>) -> (
        Option<TaskId>,
        Seq<TaskId>,
        Switch,
    ) {
        if queue.len() == 0 {
            (tasks.current, queue, Switch::Stay)
        } else {
            (
                Some(queue[0]),
                Self::spec_rotate(
                    queue,
                    Task::current(tasks)->0,
                    tasks.state_of(Task::current(tasks)->0) == TaskState::Run,
                ),
                Self::spec_switch(tasks, queue),
            )
        }
    }

    /// The round-robin step. In a level 3 section: with an empty run queue
    /// the caller, which is ready to run, keeps the processor. Otherwise the
    /// task at the front of the queue is taken out as the next one, and the
    /// caller joins the back of the queue if it is still ready to run. The
    /// next task then has the processor; where it is not the caller itself,
    /// the context switch from the caller to it is handed back.
    pub fn do_schedule(cpu: &mut Cpu, tasks: &mut TaskTable, sched: &mut L2Sync<Scheduler>) -> (sw:
        Switch)
        requires
            Self::can_schedule(old(tasks), old(sched)@.run_queue@),
        ensures
            // the invariant of the tasks and the run queue is kept
            Self::consistent(old(tasks), old(sched)@.run_queue@) ==> Self::consistent(
                final(tasks),
                final(sched)@.run_queue@,
            ),
            *final(cpu) == *old(cpu),
            final(tasks).slots == old(tasks).slots,
            final(sched)@.need_schedule == old(sched)@.need_schedule,
            (final(tasks).current, final(sched)@.run_queue@, sw) == Self::spec_step(
                old(tasks),
                old(sched)@.run_queue@,
            ),
            // a task whose own handle is all that the run queue holds keeps
            // the processor
            old(sched)@.run_queue@ == seq![Task::current(old(tasks))->0] ==> sw == Switch::Stay,
            // for a caller that is ready to run this is one voluntary yield
            old(tasks).state_of(Task::current(old(tasks))->0) == TaskState::Run ==> (
                final(tasks).current,
                final(sched)@.run_queue@,
            ) == (
                Some(Self::spec_yield(Task::current(old(tasks))->0, old(sched)@.run_queue@).0),
                Self::spec_yield(Task::current(old(tasks))->0, old(sched)@.run_queue@).1,
            ),
    {
        let me = Task::current(tasks).unwrap();
        let me_state = tasks.state(me).unwrap();
        let next_tid;
        {
            proof {
                lemma_irq_save_restore(*cpu);
            }
            let r = irq_save(cpu);
            // begin of the level 3 section
            let s = sched.get_ref_mut_unguarded();
            if s.run_queue.len() == 0 && me_state == TaskState::Run {
                // nobody else is ready
                irq_restore(cpu, r);
                return Switch::Stay;
            }
            next_tid = s.run_queue.pop_front().unwrap();
            if me_state == TaskState::Run {
                s.run_queue.push_back(me);
            }
            // end of the level 3 section
            irq_restore(cpu, r);
        }
        assert(old(sched)@.run_queue@.subrange(1, old(sched)@.run_queue@.len() as int) ==
            old(sched)@.run_queue@.drop_first());
        proof {
            if Self::consistent(old(tasks), old(sched)@.run_queue@) {
                let q = old(sched)@.run_queue@;
                assert(!q.contains(me)) by {
                    if q.contains(me) {
                        let i = choose|i: int| 0 <= i < q.len() && q[i] == me;
                        assert(Some(q[i]) != old(tasks).current);
                    }
                }
                Self::lemma_step_keeps_consistent(tasks.slots@, me, q);
            }
        }
        tasks.current = Some(next_tid);
        if me == next_tid {
            return Switch::Stay;
        }
        Switch::Swap { from: me, to: next_tid }
    }

    /// Test and clear the request for a reschedule, and schedule if there
    /// was one. Interrupts must be enabled. Where a reschedule is due, what
    /// [`Scheduler::do_schedule`] asks for must hold.
    pub fn try_reschedule(
        cpu: &mut Cpu,
        need_reschedule: &mut bool,
        tasks: &mut TaskTable,
        sched: &mut L2Sync<Scheduler>,
    ) -> (sw: Switch)
        requires
            is_int_enabled(old(cpu)),
            *old(need_reschedule) ==> Self::can_schedule(old(tasks), old(sched)@.run_queue@),
        ensures
            // the invariant of the tasks and the run queue is kept
            Self::consistent(old(tasks), old(sched)@.run_queue@) ==> Self::consistent(
                final(tasks),
                final(sched)@.run_queue@,
            ),
            !*final(need_reschedule),
            *final(cpu) == *old(cpu),
            final(tasks).slots == old(tasks).slots,
            final(sched)@.need_schedule == old(sched)@.need_schedule,
            (final(tasks).current, final(sched)@.run_queue@, sw) == (if *old(need_reschedule) {
                Self::spec_step(old(tasks), old(sched)@.run_queue@)
            } else {
                (old(tasks).current, old(sched)@.run_queue@, Switch::Stay)
            }),
    {
        let r = *need_reschedule;
        if !r {
            return Switch::Stay;
        }
        *need_reschedule = false;
        Self::do_schedule(cpu, tasks, sched)
    }

    /// [`Scheduler::do_schedule`] at the epilogue level: the level is entered
    /// for the step. Where the caller keeps the processor the level is left
    /// again. Where a context switch is handed back the level stays
    /// occupied across the switch: the task that continues leaves it.
    pub fn do_schedule_l2(
        cpu: &mut Cpu,
        l2: &mut Level2,
        tasks: &mut TaskTable,
        sched: &mut L2Sync<Scheduler>,
    ) -> (sw: Switch)
        requires
            is_int_enabled(old(cpu)),
            old(l2).can_enter(),
            Self::can_schedule(old(tasks), old(sched)@.run_queue@),
        ensures
            // the invariant of the tasks and the run queue is kept
            Self::consistent(old(tasks), old(sched)@.run_queue@) ==> Self::consistent(
                final(tasks),
                final(sched)@.run_queue@,
            ),
            *final(cpu) == *old(cpu),
            final(l2).available == (sw == Switch::Stay),
            final(tasks).slots == old(tasks).slots,
            final(sched)@.need_schedule == old(sched)@.need_schedule,
            (final(tasks).current, final(sched)@.run_queue@, sw) == Self::spec_step(
                old(tasks),
                old(sched)@.run_queue@,
            ),
    {
        ENTER_L2(l2);
        let sw = Self::do_schedule(cpu, tasks, sched);
        if sw == Switch::Stay {
            LEAVE_L2(l2);
        }
        sw
    }

    /// Give the processor away of one's own accord: the round-robin step at
    /// the epilogue level, as [`Scheduler::do_schedule_l2`] does it.
    pub fn yield_cpu(
        cpu: &mut Cpu,
        l2: &mut Level2,
        tasks: &mut TaskTable,
        sched: &mut L2Sync<Scheduler>,
    ) -> (sw: Switch)
        requires
            is_int_enabled(old(cpu)),
            old(l2).can_enter(),
            Self::can_schedule(old(tasks), old(sched)@.run_queue@),
        ensures
            // the invariant of the tasks and the run queue is kept
            Self::consistent(old(tasks), old(sched)@.run_queue@) ==> Self::consistent(
                final(tasks),
                final(sched)@.run_queue@,
            ),
            *final(cpu) == *old(cpu),
            final(l2).available == (sw == Switch::Stay),
            final(tasks).slots == old(tasks).slots,
            final(sched)@.need_schedule == old(sched)@.need_schedule,
            (final(tasks).current, final(sched)@.run_queue@, sw) == Self::spec_step(
                old(tasks),
                old(sched)@.run_queue@,
            ),
    {
        Self::do_schedule_l2(cpu, l2, tasks, sched)
    }

    /// Start the first task. There is no context to save: the task at the
    /// front of the run queue is taken out and gets the processor. The
    /// epilogue level is entered on its behalf, as for any task that is
    /// switched to, and the task leaves the level with its first
    /// instructions. The run queue must not be empty and the epilogue level
    /// must be free.
    pub fn kickoff(
        cpu: &mut Cpu,
        l2: &mut Level2,
        tasks: &mut TaskTable,
        sched: &mut L2Sync<Scheduler>,
    ) -> (sw: Switch)
        requires
            old(sched)@.run_queue@.len() > 0,
            old(l2).can_enter(),
        ensures
            // the invariant of the tasks and the run queue is kept
            Self::consistent(old(tasks), old(sched)@.run_queue@) ==> Self::consistent(
                final(tasks),
                final(sched)@.run_queue@,
            ),
            *final(cpu) == *old(cpu),
            *final(l2) == old(l2).entered(),
            final(tasks).slots == old(tasks).slots,
            final(tasks).current == Some(old(sched)@.run_queue@[0]),
            final(sched)@.run_queue@ == old(sched)@.run_queue@.drop_first(),
            final(sched)@.need_schedule == old(sched)@.need_schedule,
            sw == (Switch::To { to: old(sched)@.run_queue@[0] }),
    {
        proof {
            lemma_irq_save_restore(*cpu);
        }
        let irq = irq_save(cpu);
        let s = sched.get_ref_mut_unguarded();
        let tid = s.run_queue.pop_front().unwrap();
        irq_restore(cpu, irq);
        assert(old(sched)@.run_queue@.subrange(1, old(sched)@.run_queue@.len() as int) ==
            old(sched)@.run_queue@.drop_first());
        proof {
            let q = old(sched)@.run_queue@;
            let rest = q.drop_first();
            if Self::consistent(old(tasks), q) {
                assert(tasks.slots@.contains_key(q[0].0));
                assert forall|i: int| 0 <= i < rest.len() implies tasks.slots@.contains_key(
                    (#[trigger] rest[i]).0,
                ) && tasks.slots@[rest[i].0].state == TaskState::Run && rest[i] != q[0] by {
                    assert(rest[i] == q[i + 1]);
                }
                assert forall|i: int, j: int|
                    0 <= i < rest.len() && 0 <= j < rest.len() && i != j implies rest[i]
                    != rest[j] by {
                    assert(rest[i] == q[i + 1] && rest[j] == q[j + 1]);
                }
            }
        }
        // the first task is switched to as by a round-robin step, so the
        // epilogue level is entered here; the task leaves it when it starts
        ENTER_L2(l2);
        tasks.current = Some(tid);
        Switch::To { to: tid }
    }
}

} // verus!
