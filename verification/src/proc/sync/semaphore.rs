//! Counting semaphores that guard a pool of resources: a producer puts a
//! resource in and raises the count, a consumer lowers the count and takes
//! a resource out, and waits while the count is zero.
use crate::arch::x86_64::interrupt::{irq_restore, irq_save, lemma_irq_save_restore};
use crate::arch::x86_64::{is_int_enabled, spec_is_int_enabled, Cpu};
use crate::black_magic::Empty;
use crate::proc::sched::{Scheduler, Switch};
use crate::proc::sync::{Level2, L2Sync, L3Sync};
use crate::proc::task::{Task, TaskId, TaskState, TaskTable};
use std::collections::VecDeque;
use vstd::prelude::*;

verus! {

/// What a pool hands out: its oldest resource, if it has one.
pub open spec fn spec_oldest<E>(pool: Seq<E>) -> Option<E> {
    if pool.len() > 0 {
        Some(pool[0])
    } else {
        None
    }
}

/// What a pool holds when it has handed out its oldest resource.
pub open spec fn spec_without_oldest<E>(pool: Seq<E>) -> Seq<E> {
    if pool.len() > 0 {
        pool.drop_first()
    } else {
        pool
    }
}

/// A count that was raised by one; it wraps around at the end of its
/// range.
pub open spec fn spec_count_up(count: u64) -> u64 {
    if count < u64::MAX {
        (count + 1) as u64
    } else {
        0
    }
}

/// What manages the resources behind a semaphore: a queue that hands out
/// what was put in, oldest first. The operations need not be atomic.
pub trait ResourceMan<E: Copy> {
    /// The resources held, in the order in which they will be handed out.
    spec fn resources(&self) -> Seq<E>;

    /// Whether the manager takes `e` in when asked to.
    spec fn accepts(&self, e: E) -> bool;

    /// Take the oldest resource out, if there is one.
    fn get_resource(&mut self) -> (r: Option<E>)
        ensures
            r == spec_oldest(old(self).resources()),
            final(self).resources() == spec_without_oldest(old(self).resources()),
    ;

    /// Put a resource in, and say whether it was taken.
    fn insert_resource(&mut self, e: E) -> (ok: bool)
        ensures
            ok == old(self).accepts(e),
            final(self).resources() == (if ok {
                old(self).resources().push(e)
            } else {
                old(self).resources()
            }),
    ;
}

impl<E: Copy> ResourceMan<E> for VecDeque<E> {
    open spec fn resources(&self) -> Seq<E> {
        self@
    }

    /// A queue without a limit takes everything.
    open spec fn accepts(&self, e: E) -> bool {
        true
    }

    fn get_resource(&mut self) -> (r: Option<E>) {
        let r = self.pop_front();
        assert(old(self)@.len() > 0 ==> old(self)@.subrange(1, old(self)@.len() as int)
            == old(self)@.drop_first());
        r
    }

    fn insert_resource(&mut self, e: E) -> (ok: bool) {
        self.push_back(e);
        true
    }
}

/// How one attempt of a consumer ended.
#[derive(Debug)]
pub enum PStep<E> {
    /// The count was positive and is now one less; this is what the pool
    /// of resources handed out.
    Acquired(Option<E>),
    /// The count was zero. The caller now waits in the wait room and has
    /// given the processor away as the switch says. Once it has been woken
    /// and has the processor back, it tries again.
    Blocked(Switch),
}

/// A semaphore whose consumers sleep while the count is zero.
pub struct SleepSemaphore<T> {
    pub resource_pool: T,
    pub sema: u64,
    /// The tasks that wait for a resource, oldest first. It is changed in
    /// level 3 sections only.
    pub wait_room: L3Sync<VecDeque<TaskId>>,
}

impl<T> SleepSemaphore<T> {
    /// A semaphore over the pool `t`, with the count zero and nobody
    /// waiting.
    pub fn new(t: T) -> (s: Self)
        ensures
            s.resource_pool == t,
            s.sema == 0,
            s.wait_room@@ == Seq::<TaskId>::empty(),
    {
        Self { resource_pool: t, sema: 0, wait_room: L3Sync::new(VecDeque::new()) }
    }

    /// Whether the wait room holds tasks that exist and wait, none of them
    /// twice.
    pub open spec fn waiters_wait(&self, tasks: &TaskTable) -> bool {
        &&& forall|i: int|
            0 <= i < self.wait_room@@.len() ==> tasks.has(#[trigger] self.wait_room@@[i])
                && tasks.state_of(self.wait_room@@[i]) == TaskState::Wait
        &&& self.wait_room@@.no_duplicates()
    }

    /// Whether the count says how many resources the pool holds. This
    /// holds between the calls of the two ends as long as the pool takes
    /// what it is given.
    pub open spec fn balanced<E: Copy>(&self) -> bool where T: ResourceMan<E> {
        self.sema == self.resource_pool.resources().len()
    }

    /// What a step on the semaphore keeps: the tasks stay valid, the
    /// tasks and the run queue stay consistent, and the wait room keeps
    /// holding tasks that wait.
    pub open spec fn keeps_order(
        before: &Self,
        after: &Self,
        tasks_before: &TaskTable,
        tasks_after: &TaskTable,
        queue_before: Seq<TaskId>,
        queue_after: Seq<TaskId>,
    ) -> bool {
        &&& tasks_before.wf() ==> tasks_after.wf()
        &&& Scheduler::consistent(tasks_before, queue_before) ==> Scheduler::consistent(
            tasks_after,
            queue_after,
        )
        &&& before.waiters_wait(tasks_before) && tasks_before.wf() ==> after.waiters_wait(
            tasks_after,
        )
    }

    /// Whether the task that has the processor can go to wait: it does not
    /// wait already, and it can hand the processor over.
    pub open spec fn can_wait(
        cpu: &Cpu,
        l2: &Level2,
        tasks: &TaskTable,
        queue: Seq<TaskId>,
    ) -> bool {
        &&& Scheduler::can_hand_over(cpu, l2, tasks, queue)
        &&& tasks.state_of(Task::current(tasks)->0) != TaskState::Wait
    }

    /// What going to wait does: the caller joins the end of the wait room
    /// under the handle it gives for itself and waits, and the task at the
    /// front of the run queue gets the processor. The epilogue level stays
    /// occupied across the switch. The count and the pool stay as they are.
    pub open spec fn spec_wait(
        before: &Self,
        after: &Self,
        l2_before: Level2,
        l2_after: Level2,
        tasks_before: &TaskTable,
        tasks_after: &TaskTable,
        queue_before: Seq<TaskId>,
        queue_after: Seq<TaskId>,
        sw: Switch,
    ) -> bool {
        &&& after.resource_pool == before.resource_pool
        &&& after.sema == before.sema
        &&& after.wait_room@@ == before.wait_room@@.push(
            TaskId(tasks_before.task(Task::current(tasks_before)->0).kernel_stack),
        )
        &&& l2_after == l2_before.entered()
        &&& (tasks_after.slots@, tasks_after.current, queue_after, sw) == Scheduler::spec_hand_over(
            tasks_before,
            queue_before,
        )
    }

    /// What waking the oldest waiter does to the wait room, the tasks and
    /// the run queue: the waiter leaves the wait room and is woken. With an
    /// empty wait room nothing changes.
    pub open spec fn spec_wake_one(
        room: Seq<TaskId>,
        slots: Map<u64, Task>,
        queue: Seq<TaskId>,
    ) -> (Seq<TaskId>, Map<u64, Task>, Seq<TaskId>) {
        if room.len() == 0 {
            (room, slots, queue)
        } else {
            (
                room.drop_first(),
                TaskTable::spec_wakeup(slots, queue, room[0]).0,
                TaskTable::spec_wakeup(slots, queue, room[0]).1,
            )
        }
    }

    /// What one attempt of a consumer does. With a positive count the
    /// count goes down by one and the pool hands out its oldest resource;
    /// nothing else changes. With the count zero the caller goes to wait.
    pub open spec fn spec_p<E: Copy>(
        before: &Self,
        after: &Self,
        l2_before: Level2,
        l2_after: Level2,
        tasks_before: &TaskTable,
        tasks_after: &TaskTable,
        queue_before: Seq<TaskId>,
        queue_after: Seq<TaskId>,
        step: PStep<E>,
    ) -> bool where T: ResourceMan<E> {
        if before.sema > 0 {
            &&& step == PStep::Acquired(spec_oldest(before.resource_pool.resources()))
            &&& after.sema == before.sema - 1
            &&& after.resource_pool.resources() == spec_without_oldest(
                before.resource_pool.resources(),
            )
            &&& after.wait_room == before.wait_room
            &&& l2_after == l2_before
            &&& tasks_after.slots == tasks_before.slots
            &&& tasks_after.current == tasks_before.current
            &&& queue_after == queue_before
        } else {
            &&& step is Blocked
            &&& Self::spec_wait(
                before,
                after,
                l2_before,
                l2_after,
                tasks_before,
                tasks_after,
                queue_before,
                queue_after,
                step->Blocked_0,
            )
        }
    }

    /// What the producer end does: the pool takes the resource in, if it
    /// accepts it; the count goes up by one; the oldest waiter is woken.
    pub open spec fn spec_v<E: Copy>(
        before: &Self,
        after: &Self,
        tasks_before: &TaskTable,
        tasks_after: &TaskTable,
        queue_before: Seq<TaskId>,
        queue_after: Seq<TaskId>,
        e: E,
    ) -> bool where T: ResourceMan<E> {
        &&& after.resource_pool.resources() == (if before.resource_pool.accepts(e) {
            before.resource_pool.resources().push(e)
        } else {
            before.resource_pool.resources()
        })
        &&& after.sema == spec_count_up(before.sema)
        &&& tasks_after.current == tasks_before.current
        &&& (after.wait_room@@, tasks_after.slots@, queue_after) == Self::spec_wake_one(
            before.wait_room@@,
            tasks_before.slots@,
            queue_before,
        )
    }

    /// Whether no wake-up was lost. Where a task waited at the front of the
    /// wait room, known to the table of tasks as waiting, this one task has
    /// changed and no other: it is ready to run and at the end of the run
    /// queue. Where nobody waited, no task has changed and the run queue is
    /// as it was.
    pub open spec fn no_wakeup_lost(
        room: Seq<TaskId>,
        tasks_before: &TaskTable,
        tasks_after: &TaskTable,
        queue_before: Seq<TaskId>,
        queue_after: Seq<TaskId>,
    ) -> bool {
        &&& room.len() == 0 ==> tasks_after.slots@ == tasks_before.slots@ && queue_after
            == queue_before
        &&& room.len() > 0 && tasks_before.has(room[0]) && tasks_before.state_of(room[0])
            == TaskState::Wait ==> {
            &&& tasks_after.has(room[0])
            &&& tasks_after.state_of(room[0]) == TaskState::Run
            &&& queue_after == queue_before.push(room[0])
            &&& forall|t: TaskId|
                t != room[0] ==> tasks_after.has(t) == tasks_before.has(t)
                    && #[trigger] tasks_after.task(t) == tasks_before.task(t)
        }
    }

    /// Put the task that has the processor into the wait room, in a level 3
    /// section, and give the processor to the task at the front of the run
    /// queue. The epilogue level stays occupied across the switch.
    pub fn wait(
        &mut self,
        cpu: &mut Cpu,
        l2: &mut Level2,
        tasks: &mut TaskTable,
        sched: &mut L2Sync<Scheduler>,
    ) -> (sw: Switch)
        requires
            Self::can_wait(old(cpu), old(l2), old(tasks), old(sched)@.run_queue@),
        ensures
            *final(cpu) == *old(cpu),
            final(sched)@.need_schedule == old(sched)@.need_schedule,
            Self::spec_wait(
                old(self),
                final(self),
                *old(l2),
                *final(l2),
                old(tasks),
                final(tasks),
                old(sched)@.run_queue@,
                final(sched)@.run_queue@,
                sw,
            ),
            Self::keeps_order(
                old(self),
                final(self),
                old(tasks),
                final(tasks),
                old(sched)@.run_queue@,
                final(sched)@.run_queue@,
            ),
    {
        proof {
            lemma_irq_save_restore(*cpu);
            if Scheduler::consistent(tasks, sched@.run_queue@) {
                Scheduler::lemma_block_keeps_consistent(
                    tasks.slots@,
                    Task::current(tasks)->0,
                    sched@.run_queue@,
                );
            }
        }
        let r = irq_save(cpu);
        let wq = self.wait_room.l3_get_ref_mut(cpu);
        Task::curr_wait_in(tasks, wq);
        irq_restore(cpu, r);
        proof {
            if old(self).waiters_wait(old(tasks)) && old(tasks).wf() {
                let me = Task::current(old(tasks))->0;
                let room = old(self).wait_room@@;
                let after = self.wait_room@@;
                assert(after == room.push(me));
                assert forall|i: int| 0 <= i < after.len() implies tasks.has(#[trigger] after[i])
                    && tasks.state_of(after[i]) == TaskState::Wait by {
                    if i < room.len() {
                        assert(after[i] == room[i]);
                    }
                }
                assert forall|i: int, j: int|
                    0 <= i < after.len() && 0 <= j < after.len() && i != j implies after[i]
                    != after[j] by {
                    if i < room.len() {
                        assert(after[i] == room[i]);
                    }
                    if j < room.len() {
                        assert(after[j] == room[j]);
                    }
                }
            }
        }
        Scheduler::yield_cpu(cpu, l2, tasks, sched)
    }

    /// Wake the task that has waited longest, if any task waits: in a level
    /// 3 section it leaves the wait room, becomes runnable and joins the end
    /// of the run queue.
    pub fn wakeup_one(
        &mut self,
        cpu: &mut Cpu,
        tasks: &mut TaskTable,
        sched: &mut L2Sync<Scheduler>,
    )
        ensures
            *final(cpu) == *old(cpu),
            final(sched)@.need_schedule == old(sched)@.need_schedule,
            final(self).resource_pool == old(self).resource_pool,
            final(self).sema == old(self).sema,
            final(tasks).current == old(tasks).current,
            (final(self).wait_room@@, final(tasks).slots@, final(sched)@.run_queue@)
                == Self::spec_wake_one(
                old(self).wait_room@@,
                old(tasks).slots@,
                old(sched)@.run_queue@,
            ),
            Self::keeps_order(
                old(self),
                final(self),
                old(tasks),
                final(tasks),
                old(sched)@.run_queue@,
                final(sched)@.run_queue@,
            ),
    {
        proof {
            lemma_irq_save_restore(*cpu);
        }
        let r = irq_save(cpu);
        let wq = self.wait_room.l3_get_ref_mut(cpu);
        let first = wq.pop_front();
        assert(old(self).wait_room@@.len() > 0 ==> old(self).wait_room@@.subrange(
            1,
            old(self).wait_room@@.len() as int,
        ) == old(self).wait_room@@.drop_first());
        if let Some(t) = first {
            let s = sched.get_ref_mut_unguarded();
            tasks.wakeup(s, t);
        }
        irq_restore(cpu, r);
        proof {
            if old(self).waiters_wait(old(tasks)) && old(tasks).wf() {
                let room = old(self).wait_room@@;
                let after = self.wait_room@@;
                if room.len() > 0 {
                    assert(old(tasks).has(room[0]));
                    assert forall|i: int| 0 <= i < after.len() implies tasks.has(
                        #[trigger] after[i],
                    ) && tasks.state_of(after[i]) == TaskState::Wait by {
                        assert(after[i] == room[i + 1]);
                        assert(room[i + 1] != room[0]);
                    }
                    assert forall|i: int, j: int|
                        0 <= i < after.len() && 0 <= j < after.len() && i != j implies after[i]
                        != after[j] by {
                        assert(after[i] == room[i + 1] && after[j] == room[j + 1]);
                    }
                }
            }
        }
    }

    /// The pool of resources, to change it past the semaphore.
    pub fn get_pool_mut(&mut self) -> (pool: &mut T)
        ensures
            *pool == old(self).resource_pool,
            final(self).resource_pool == *final(pool),
            final(self).sema == old(self).sema,
            final(self).wait_room == old(self).wait_room,
    {
        &mut self.resource_pool
    }
}

/// A semaphore over a pool of resources of the type `E`.
///
/// The consumer end, "P", tries to get a resource and waits while there is
/// none. The producer end, "V", adds a resource and never waits. Each end
/// comes in two forms: `p` and `v` are for tasks, which must not be in the
/// epilogue level; `p_unguarded` and `v_unguarded` are for callers that are
/// in the epilogue level already, such as epilogues.
pub trait Semaphore<T: ResourceMan<E>, E: Copy>: Sized {
    /// Whether a consumer can make an attempt: where it would have to
    /// wait, it must be able to.
    spec fn can_p(&self, cpu: &Cpu, l2: &Level2, tasks: &TaskTable, queue: Seq<TaskId>) -> bool;

    /// One attempt of a consumer. The epilogue level must be free.
    fn p(
        &mut self,
        cpu: &mut Cpu,
        l2: &mut Level2,
        tasks: &mut TaskTable,
        sched: &mut L2Sync<Scheduler>,
    ) -> (step: PStep<E>)
        requires
            old(l2).can_enter(),
            old(self).can_p(old(cpu), old(l2), old(tasks), old(sched)@.run_queue@),
    ;

    /// The producer end. It must not block. The epilogue level must be
    /// free.
    fn v(
        &mut self,
        cpu: &mut Cpu,
        l2: &mut Level2,
        tasks: &mut TaskTable,
        sched: &mut L2Sync<Scheduler>,
        e: E,
    )
        requires
            old(l2).can_enter(),
    ;

    /// One attempt of a consumer that is in the epilogue level already. A
    /// semaphore that is not made for that hands out nothing and changes
    /// nothing: the attempt ends at once, without a resource.
    fn p_unguarded(
        &mut self,
        cpu: &mut Cpu,
        l2: &mut Level2,
        tasks: &mut TaskTable,
        sched: &mut L2Sync<Scheduler>,
    ) -> (step: PStep<E>)
        requires
            old(self).can_p(old(cpu), old(l2), old(tasks), old(sched)@.run_queue@),
        default_ensures
            step == PStep::<E>::Acquired(None),
            *final(self) == *old(self),
            *final(cpu) == *old(cpu),
            *final(l2) == *old(l2),
            *final(tasks) == *old(tasks),
            *final(sched) == *old(sched),
    {
        return PStep::Acquired(None);
    }

    /// The producer end for a caller that is in the epilogue level
    /// already. A semaphore that is not made for that does nothing: the
    /// resource is dropped, and the semaphore, the processor, the tasks and
    /// the scheduler are as they were.
    fn v_unguarded(
        &mut self,
        cpu: &mut Cpu,
        tasks: &mut TaskTable,
        sched: &mut L2Sync<Scheduler>,
        e: E,
    )
        default_ensures
            *final(self) == *old(self),
            *final(cpu) == *old(cpu),
            *final(tasks) == *old(tasks),
            *final(sched) == *old(sched),
    {
    }
}

impl<T: ResourceMan<E>, E: Copy> Semaphore<T, E> for SleepSemaphore<T> {
    /// With the count zero the caller goes to wait, which must be
    /// possible.
    open spec fn can_p(&self, cpu: &Cpu, l2: &Level2, tasks: &TaskTable, queue: Seq<TaskId>) -> bool {
        self.sema == 0 ==> Self::can_wait(cpu, l2, tasks, queue)
    }

    /// One attempt of a task: the epilogue level is entered and left for a
    /// moment, which the caller must be able to do, and the attempt is made
    /// as by [`Semaphore::p_unguarded`].
    fn p(
        &mut self,
        cpu: &mut Cpu,
        l2: &mut Level2,
        tasks: &mut TaskTable,
        sched: &mut L2Sync<Scheduler>,
    ) -> (step: PStep<E>)
        ensures
            *final(cpu) == *old(cpu),
            final(sched)@.need_schedule == old(sched)@.need_schedule,
            Self::spec_p(
                old(self),
                final(self),
                *old(l2),
                *final(l2),
                old(tasks),
                final(tasks),
                old(sched)@.run_queue@,
                final(sched)@.run_queue@,
                step,
            ),
            Self::keeps_order(
                old(self),
                final(self),
                old(tasks),
                final(tasks),
                old(sched)@.run_queue@,
                final(sched)@.run_queue@,
            ),
            old(self).balanced::<E>() ==> final(self).balanced::<E>(),
    {
        let level = L2Sync::new(Empty::new());
        let guard = level.lock(l2);
        guard.unlock(l2);
        self.p_unguarded(cpu, l2, tasks, sched)
    }

    /// The producer end for a task: the epilogue level is entered and left
    /// for a moment, which the caller must be able to do, and the resource
    /// is produced as by [`Semaphore::v_unguarded`].
    fn v(
        &mut self,
        cpu: &mut Cpu,
        l2: &mut Level2,
        tasks: &mut TaskTable,
        sched: &mut L2Sync<Scheduler>,
        e: E,
    )
        ensures
            // no wake-up is lost
            old(tasks).wf() ==> Self::no_wakeup_lost(
                old(self).wait_room@@,
                old(tasks),
                final(tasks),
                old(sched)@.run_queue@,
                final(sched)@.run_queue@,
            ),
            *final(cpu) == *old(cpu),
            *final(l2) == *old(l2),
            final(sched)@.need_schedule == old(sched)@.need_schedule,
            Self::spec_v(
                old(self),
                final(self),
                old(tasks),
                final(tasks),
                old(sched)@.run_queue@,
                final(sched)@.run_queue@,
                e,
            ),
            Self::keeps_order(
                old(self),
                final(self),
                old(tasks),
                final(tasks),
                old(sched)@.run_queue@,
                final(sched)@.run_queue@,
            ),
            old(self).balanced::<E>() && old(self).resource_pool.accepts(e) && old(self).sema
                < u64::MAX ==> final(self).balanced::<E>(),
    {
        let level = L2Sync::new(Empty::new());
        let guard = level.lock(l2);
        guard.unlock(l2);
        self.v_unguarded(cpu, tasks, sched, e)
    }

    /// One attempt of a consumer that holds the epilogue level already or
    /// has no need of it. With a positive count the count goes down by one
    /// and the pool hands out a resource. With the count zero the caller
    /// goes to wait as by [`SleepSemaphore::wait`], which must be possible;
    /// when it has been woken and has the processor back, it tries again.
    fn p_unguarded(
        &mut self,
        cpu: &mut Cpu,
        l2: &mut Level2,
        tasks: &mut TaskTable,
        sched: &mut L2Sync<Scheduler>,
    ) -> (step: PStep<E>)
        ensures
            *final(cpu) == *old(cpu),
            final(sched)@.need_schedule == old(sched)@.need_schedule,
            Self::spec_p(
                old(self),
                final(self),
                *old(l2),
                *final(l2),
                old(tasks),
                final(tasks),
                old(sched)@.run_queue@,
                final(sched)@.run_queue@,
                step,
            ),
            Self::keeps_order(
                old(self),
                final(self),
                old(tasks),
                final(tasks),
                old(sched)@.run_queue@,
                final(sched)@.run_queue@,
            ),
            old(self).balanced::<E>() ==> final(self).balanced::<E>(),
    {
        let c = self.sema;
        if c == 0 {
            let sw = self.wait(cpu, l2, tasks, sched);
            return PStep::Blocked(sw);
        }
        self.sema = c - 1;
        let thing = self.resource_pool.get_resource();
        return PStep::Acquired(thing);
    }

    /// The producer end, for a caller that holds the epilogue level already
    /// or has no need of it: put the resource into the pool, then raise the
    /// count, then wake the task that has waited longest. In this order a
    /// woken consumer never finds the pool empty. The count wraps around at
    /// the end of its range.
    fn v_unguarded(
        &mut self,
        cpu: &mut Cpu,
        tasks: &mut TaskTable,
        sched: &mut L2Sync<Scheduler>,
        e: E,
    )
        ensures
            // no wake-up is lost
            old(tasks).wf() ==> Self::no_wakeup_lost(
                old(self).wait_room@@,
                old(tasks),
                final(tasks),
                old(sched)@.run_queue@,
                final(sched)@.run_queue@,
            ),
            *final(cpu) == *old(cpu),
            final(sched)@.need_schedule == old(sched)@.need_schedule,
            Self::spec_v(
                old(self),
                final(self),
                old(tasks),
                final(tasks),
                old(sched)@.run_queue@,
                final(sched)@.run_queue@,
                e,
            ),
            Self::keeps_order(
                old(self),
                final(self),
                old(tasks),
                final(tasks),
                old(sched)@.run_queue@,
                final(sched)@.run_queue@,
            ),
            old(self).balanced::<E>() && old(self).resource_pool.accepts(e) && old(self).sema
                < u64::MAX ==> final(self).balanced::<E>(),
    {
        self.resource_pool.insert_resource(e);
        self.sema = self.sema.wrapping_add(1);
        self.wakeup_one(cpu, tasks, sched);
    }
}

/// A semaphore whose consumers spin while the count is zero. Nobody is
/// ever put to sleep, so it must not be used where a consumer could be kept
/// from running for long.
pub struct SpinSemaphore<T> {
    pub resource_pool: T,
    pub sema: u64,
}

impl<T> SpinSemaphore<T> {
    /// A semaphore over the pool `t`, with the count zero.
    pub fn new(t: T) -> (s: Self)
        ensures
            s.resource_pool == t,
            s.sema == 0,
    {
        Self { resource_pool: t, sema: 0 }
    }
}

impl<T: ResourceMan<E>, E: Copy> Semaphore<T, E> for SpinSemaphore<T> {
    /// An attempt can always be made.
    open spec fn can_p(&self, cpu: &Cpu, l2: &Level2, tasks: &TaskTable,
        queue: Seq<TaskId>) -> bool {
        true
    }

    /// One attempt of a consumer: with a positive count the count goes
    /// down by one and the pool hands out a resource; with the count zero
    /// nothing changes and the caller, which keeps the processor, tries
    /// again.
    fn p(
        &mut self,
        cpu: &mut Cpu,
        l2: &mut Level2,
        tasks: &mut TaskTable,
        sched: &mut L2Sync<Scheduler>,
    ) -> (step: PStep<E>)
        ensures
            *final(cpu) == *old(cpu),
            *final(l2) == *old(l2),
            *final(tasks) == *old(tasks),
            *final(sched) == *old(sched),
            old(self).sema == 0 ==> step == PStep::<E>::Blocked(Switch::Stay) && *final(self)
                == *old(self),
            old(self).sema > 0 ==> {
                &&& step == PStep::Acquired(spec_oldest(old(self).resource_pool.resources()))
                &&& final(self).sema == old(self).sema - 1
                &&& final(self).resource_pool.resources() ==
                    (if old(self).resource_pool.resources().len() > 0 {
                    old(self).resource_pool.resources().drop_first()
                } else {
                    old(self).resource_pool.resources()
                })
            },
    {
        let c = self.sema;
        if c == 0 {
            return PStep::Blocked(Switch::Stay);
        }
        self.sema = c - 1;
        let thing = self.resource_pool.get_resource();
        return PStep::Acquired(thing);
    }

    /// The producer end: put the resource into the pool, then raise the
    /// count, which wraps around at the end of its range.
    fn v(
        &mut self,
        cpu: &mut Cpu,
        l2: &mut Level2,
        tasks: &mut TaskTable,
        sched: &mut L2Sync<Scheduler>,
        e: E,
    )
        ensures
            *final(cpu) == *old(cpu),
            *final(l2) == *old(l2),
            *final(tasks) == *old(tasks),
            *final(sched) == *old(sched),
            final(self).resource_pool.resources() == (if old(self).resource_pool.accepts(e) {
                old(self).resource_pool.resources().push(e)
            } else {
                old(self).resource_pool.resources()
            }),
            final(self).sema == spec_count_up(old(self).sema),
    {
        self.resource_pool.insert_resource(e);
        self.sema = self.sema.wrapping_add(1);
    }
}

} // verus!
