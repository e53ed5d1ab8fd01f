//! The bell ringer puts tasks to sleep and wakes them when their time has
//! come.
use crate::arch::x86_64::interrupt::{irq_restore, irq_save, lemma_irq_save_restore};
use crate::arch::x86_64::{is_int_enabled, spec_is_int_enabled, Cpu};
use crate::machine::time::{nsec, Clock};
use crate::proc::sched::Scheduler;
use crate::proc::sync::{L2Sync, L3Sync};
use crate::proc::task::{Task, TaskId, TaskState, TaskTable};
use std::collections::VecDeque;
use vstd::prelude::*;

verus! {

/// A task that sleeps, and the time at which it is to be woken, in
/// nanoseconds since boot.
#[derive(Copy, Clone, Debug)]
pub struct Sleeper {
    pub tid: TaskId,
    pub until: u64,
}

impl Sleeper {
    /// The entry of a task that sleeps for `ns` nanoseconds from now.
    pub fn new(clock: &Clock, tid: TaskId, ns: u64) -> (s: Self)
        requires
            clock.ns + ns <= u64::MAX,
        ensures
            s.tid == tid,
            s.until == clock.ns + ns,
    {
        Self { tid, until: nsec(clock) + ns }
    }
}

/// The list of the tasks that sleep, in the order in which they went to
/// sleep. It is not sorted by deadline.
pub struct BellRinger {
    pub bedroom: VecDeque<Sleeper>,
}

impl BellRinger {
    pub fn new() -> (br: Self)
        ensures
            br.bedroom@ == Seq::<Sleeper>::empty(),
    {
        Self { bedroom: VecDeque::new() }
    }

    /// Append a sleeper to the list, in a level 3 section.
    pub fn check_in(cpu: &mut Cpu, bell: &mut L3Sync<BellRinger>, s: Sleeper)
        ensures
            *final(cpu) == *old(cpu),
            final(bell)@.bedroom@ == old(bell)@.bedroom@.push(s),
    {
        proof {
            lemma_irq_save_restore(*cpu);
        }
        let r = irq_save(cpu);
        let br = bell.l3_get_ref_mut(cpu);
        br.bedroom.push_back(s);
        irq_restore(cpu, r);
    }

    /// The sleepers whose time has not come at `now`, in their order.
    pub open spec fn spec_asleep(bedroom: Seq<Sleeper>, now: u64) -> Seq<Sleeper> {
        bedroom.filter(|s: Sleeper| s.until > now)
    }

    /// The tasks and the run queue after every sleeper whose time has come
    /// at `now` was woken, first to last.
    pub open spec fn spec_wake_due(
        slots: Map<u64, Task>,
        queue: Seq<TaskId>,
        bedroom: Seq<Sleeper>,
        now: u64,
    ) -> (Map<u64, Task>, Seq<TaskId>)
        decreases bedroom.len(),
    {
        if bedroom.len() == 0 {
            (slots, queue)
        } else {
            let before = Self::spec_wake_due(slots, queue, bedroom.drop_last(), now);
            if bedroom.last().until > now {
                before
            } else {
                TaskTable::spec_wakeup(before.0, before.1, bedroom.last().tid)
            }
        }
    }

    /// Whether the sleepers are tasks that exist and wait, each with one
    /// entry in the list.
    pub open spec fn spec_sleepers_wait(slots: Map<u64, Task>, bedroom: Seq<Sleeper>) -> bool {
        &&& forall|i: int|
            0 <= i < bedroom.len() ==> slots.contains_key((#[trigger] bedroom[i]).tid.0)
                && slots[bedroom[i].tid.0].state == TaskState::Wait
        &&& forall|i: int, j: int|
            0 <= i < bedroom.len() && 0 <= j < bedroom.len()
                && i != j ==> (#[trigger] bedroom[i]).tid
                != (#[trigger] bedroom[j]).tid
    }

    /// The sleepers that stay in the list after a round are still tasks
    /// that wait, each with one entry in the list.
    pub proof fn lemma_round_keeps_sleepers(
        slots: Map<u64, Task>,
        queue: Seq<TaskId>,
        bedroom: Seq<Sleeper>,
        now: u64,
    )
        requires
            TaskTable::spec_wf(slots),
            Self::spec_sleepers_wait(slots, bedroom),
        ensures
            Self::spec_sleepers_wait(
                Self::spec_wake_due(slots, queue, bedroom, now).0,
                Self::spec_asleep(bedroom, now),
            ),
    {
        let asleep = Self::spec_asleep(bedroom, now);
        let after = Self::spec_wake_due(slots, queue, bedroom, now);
        Self::lemma_asleep_in_order(bedroom, now);
        assert forall|i: int| 0 <= i < asleep.len() implies after.0.contains_key(
            (#[trigger] asleep[i]).tid.0,
        ) && after.0[asleep[i].tid.0].state == TaskState::Wait by {
            let s = asleep[i];
            assert(asleep.contains(s));
            Self::lemma_asleep_were_asleep(bedroom, now, s);
            let k = choose|k: int| 0 <= k < bedroom.len() && bedroom[k] == s;
            assert forall|j: int| 0 <= j < bedroom.len() && (#[trigger] bedroom[j]).until
                <= now implies bedroom[j].tid != s.tid by {
                assert(j != k);
                assert(bedroom[j].tid != bedroom[k].tid);
            }
            Self::lemma_wake_due_leaves_others(slots, queue, bedroom, now, s.tid);
            assert(bedroom[k].tid == s.tid);
        }
    }

    /// The sleepers that stay in the list keep their order: each comes from
    /// a place of the list before the round, and a later one from a later
    /// place. So no task has two entries afterwards that had one before.
    pub proof fn lemma_asleep_in_order(bedroom: Seq<Sleeper>, now: u64)
        ensures
            forall|a: int|
                0 <= a < Self::spec_asleep(bedroom, now).len() ==> exists|k: int|
                    a <= k < bedroom.len() && bedroom[k] == #[trigger] Self::spec_asleep(
                        bedroom,
                        now,
                    )[a],
            (forall|i: int, j: int|
                0 <= i < bedroom.len() && 0 <= j < bedroom.len() && i != j ==> (
                #[trigger] bedroom[i]).tid != (#[trigger] bedroom[j]).tid) ==> (forall|
                a: int,
                b: int,
            |
                0 <= a < Self::spec_asleep(bedroom, now).len() && 0 <= b < Self::spec_asleep(
                    bedroom,
                    now,
                ).len() && a != b ==> (#[trigger] Self::spec_asleep(bedroom, now)[a]).tid != (
                #[trigger] Self::spec_asleep(bedroom, now)[b]).tid),
        decreases bedroom.len(),
    {
        reveal(Seq::filter);
        let full = Self::spec_asleep(bedroom, now);
        if bedroom.len() > 0 {
            let rest = bedroom.drop_last();
            let part = Self::spec_asleep(rest, now);
            Self::lemma_asleep_in_order(rest, now);
            Self::spec_asleep(rest, now).lemma_filter_len(|s: Sleeper| s.until > now);
            rest.lemma_filter_len(|s: Sleeper| s.until > now);
            assert forall|a: int| 0 <= a < full.len() implies exists|k: int|
                a <= k < bedroom.len() && bedroom[k] == #[trigger] full[a] by {
                if a < part.len() {
                    assert(full[a] == part[a]);
                    let k = choose|k: int| a <= k < rest.len() && rest[k] == part[a];
                    assert(bedroom[k] == full[a]);
                } else {
                    assert(full[a] == bedroom[bedroom.len() - 1]);
                }
            }
            if forall|i: int, j: int|
                0 <= i < bedroom.len() && 0 <= j < bedroom.len() && i != j ==> (
                #[trigger] bedroom[i]).tid != (#[trigger] bedroom[j]).tid {
                assert forall|i: int, j: int|
                    0 <= i < rest.len() && 0 <= j < rest.len() && i != j implies (
                #[trigger] rest[i]).tid != (#[trigger] rest[j]).tid by {
                    assert(rest[i] == bedroom[i] && rest[j] == bedroom[j]);
                }
                assert forall|a: int, b: int|
                    0 <= a < full.len() && 0 <= b < full.len() && a != b implies (
                #[trigger] full[a]).tid != (#[trigger] full[b]).tid by {
                    let last = bedroom.len() - 1;
                    if a < part.len() && b < part.len() {
                        assert(full[a] == part[a] && full[b] == part[b]);
                    } else if a < part.len() {
                        assert(full[a] == part[a]);
                        let k = choose|k: int| a <= k < rest.len() && rest[k] == part[a];
                        assert(bedroom[k] == full[a]);
                        assert(full[b] == bedroom[last]);
                        assert(bedroom[k].tid != bedroom[last].tid);
                    } else if b < part.len() {
                        assert(full[b] == part[b]);
                        let k = choose|k: int| b <= k < rest.len() && rest[k] == part[b];
                        assert(bedroom[k] == full[b]);
                        assert(full[a] == bedroom[last]);
                        assert(bedroom[k].tid != bedroom[last].tid);
                    }
                }
            }
        }
    }

    /// A sleeper that is still in the list after a round was in it before,
    /// and its time has not come.
    pub proof fn lemma_asleep_were_asleep(bedroom: Seq<Sleeper>, now: u64, s: Sleeper)
        requires
            Self::spec_asleep(bedroom, now).contains(s),
        ensures
            bedroom.contains(s),
            s.until > now,
        decreases bedroom.len(),
    {
        reveal(Seq::filter);
        if bedroom.len() > 0 {
            let rest = Self::spec_asleep(bedroom.drop_last(), now);
            if rest.contains(s) {
                Self::lemma_asleep_were_asleep(bedroom.drop_last(), now, s);
                let j = choose|j: int| 0 <= j < bedroom.drop_last().len()
                    && bedroom.drop_last()[j] == s;
                assert(bedroom[j] == s);
            } else {
                let full = Self::spec_asleep(bedroom, now);
                let j = choose|j: int| 0 <= j < full.len() && full[j] == s;
                if bedroom.last().until > now {
                    assert(full == rest.push(bedroom.last()));
                    if j < rest.len() {
                        assert(rest[j] == s);
                    }
                    assert(s == bedroom.last());
                    assert(bedroom[bedroom.len() - 1] == s);
                } else {
                    assert(full == rest);
                }
            }
        }
    }

    /// Waking the sleepers whose time has come keeps the table of tasks
    /// as a whole: the same handles name tasks, each under its own stack.
    pub proof fn lemma_wake_due_keeps_tasks(
        slots: Map<u64, Task>,
        queue: Seq<TaskId>,
        bedroom: Seq<Sleeper>,
        now: u64,
    )
        requires
            TaskTable::spec_wf(slots),
        ensures
            Self::spec_wake_due(slots, queue, bedroom, now).0.dom() == slots.dom(),
            TaskTable::spec_wf(Self::spec_wake_due(slots, queue, bedroom, now).0),
        decreases bedroom.len(),
    {
        if bedroom.len() > 0 {
            Self::lemma_wake_due_keeps_tasks(slots, queue, bedroom.drop_last(), now);
            let before = Self::spec_wake_due(slots, queue, bedroom.drop_last(), now);
            let after = Self::spec_wake_due(slots, queue, bedroom, now);
            assert(after.0.dom() =~= before.0.dom());
        }
    }

    /// A task for which no sleeper's time has come is left alone by a
    /// round: it keeps its state and does not get into the run queue.
    pub proof fn lemma_wake_due_leaves_others(
        slots: Map<u64, Task>,
        queue: Seq<TaskId>,
        bedroom: Seq<Sleeper>,
        now: u64,
        t: TaskId,
    )
        requires
            TaskTable::spec_wf(slots),
            forall|j: int|
                0 <= j < bedroom.len() && (#[trigger] bedroom[j]).until <= now ==> bedroom[j].tid
                    != t,
        ensures
            Self::spec_wake_due(slots, queue, bedroom, now).0.contains_key(t.0)
                == slots.contains_key(t.0),
            Self::spec_wake_due(slots, queue, bedroom, now).0[t.0] == slots[t.0],
            Self::spec_wake_due(slots, queue, bedroom, now).1.contains(t) == queue.contains(t),
        decreases bedroom.len(),
    {
        if bedroom.len() > 0 {
            let rest = bedroom.drop_last();
            assert forall|j: int| 0 <= j < rest.len()
                && (#[trigger] rest[j]).until <= now implies rest[j].tid
                != t by {
                assert(rest[j] == bedroom[j]);
            }
            Self::lemma_wake_due_leaves_others(slots, queue, rest, now, t);
            Self::lemma_wake_due_keeps_tasks(slots, queue, rest, now);
            let before = Self::spec_wake_due(slots, queue, rest, now);
            let after = Self::spec_wake_due(slots, queue, bedroom, now);
            let last = bedroom.last();
            assert(last == bedroom[bedroom.len() - 1]);
            if last.until <= now && before.0.contains_key(last.tid.0) && before.0[last.tid.0].state
                == TaskState::Wait {
                let woken = TaskId(before.0[last.tid.0].kernel_stack);
                assert(woken == last.tid);
                assert(after.1 == before.1.push(woken));
                if after.1.contains(t) {
                    let j = choose|j: int| 0 <= j < after.1.len() && after.1[j] == t;
                    assert(j < before.1.len());
                    assert(before.1[j] == t);
                }
                if before.1.contains(t) {
                    let j = choose|j: int| 0 <= j < before.1.len() && before.1[j] == t;
                    assert(after.1[j] == t);
                }
            }
        }
    }

    /// A task that waits and for which the time of a sleeper has come is
    /// woken by a round: it is ready to run and in the run queue afterwards.
    pub proof fn lemma_wake_due_wakes(
        slots: Map<u64, Task>,
        queue: Seq<TaskId>,
        bedroom: Seq<Sleeper>,
        now: u64,
        i: int,
    )
        requires
            TaskTable::spec_wf(slots),
            0 <= i < bedroom.len(),
            bedroom[i].until <= now,
            slots.contains_key(bedroom[i].tid.0),
            slots[bedroom[i].tid.0].state == TaskState::Wait,
        ensures
            Self::spec_wake_due(slots, queue, bedroom, now).0.contains_key(bedroom[i].tid.0),
            Self::spec_wake_due(slots, queue, bedroom, now).0[bedroom[i].tid.0].state
                == TaskState::Run,
            Self::spec_wake_due(slots, queue, bedroom, now).1.contains(bedroom[i].tid),
        decreases bedroom.len(),
    {
        let t = bedroom[i].tid;
        let rest = bedroom.drop_last();
        let last = bedroom.last();
        let before = Self::spec_wake_due(slots, queue, rest, now);
        let after = Self::spec_wake_due(slots, queue, bedroom, now);
        Self::lemma_wake_due_keeps_tasks(slots, queue, rest, now);
        assert(before.0.dom().contains(t.0) == slots.dom().contains(t.0));
        if exists|j: int| 0 <= j < rest.len() && rest[j].until <= now && rest[j].tid == t {
            let j = choose|j: int| 0 <= j < rest.len() && rest[j].until <= now && rest[j].tid == t;
            Self::lemma_wake_due_wakes(slots, queue, rest, now, j);
            let k = choose|k: int| 0 <= k < before.1.len() && before.1[k] == t;
            if last.until <= now && before.0.contains_key(last.tid.0) && before.0[last.tid.0].state
                == TaskState::Wait {
                assert(last.tid != t);
                assert(after.1 == before.1.push(TaskId(before.0[last.tid.0].kernel_stack)));
                assert(after.1[k] == t);
            } else {
                assert(after.1[k] == t);
            }
        } else {
            assert(i == bedroom.len() - 1) by {
                if i < rest.len() {
                    assert(rest[i] == bedroom[i]);
                }
            }
            assert forall|j: int| 0 <= j < rest.len()
                && (#[trigger] rest[j]).until <= now implies rest[j].tid
                != t by {}
            Self::lemma_wake_due_leaves_others(slots, queue, rest, now, t);
            assert(before.0[t.0] == slots[t.0]);
            let woken = TaskId(before.0[t.0].kernel_stack);
            assert(woken == t);
            assert(after.1 == before.1.push(woken));
            assert(after.1[after.1.len() - 1] == t);
        }
    }

    /// A sleeper is woken on time. Take a task that waits, is not in the run
    /// queue, and has one entry `s` in the list of sleepers. A round before
    /// the deadline leaves the entry in the list and the task as it is, so
    /// that the same holds for the next round. A round at the deadline or
    /// later takes the entry out of the list and wakes the task: it is
    /// ready to run and in the run queue.
    pub proof fn lemma_sleeper_is_woken_on_time(
        slots: Map<u64, Task>,
        queue: Seq<TaskId>,
        bedroom: Seq<Sleeper>,
        s: Sleeper,
        now: u64,
    )
        requires
            TaskTable::spec_wf(slots),
            bedroom.contains(s),
            forall|j: int| 0 <= j < bedroom.len()
                && (#[trigger] bedroom[j]).tid == s.tid ==> bedroom[j] == s,
            slots.contains_key(s.tid.0),
            slots[s.tid.0].state == TaskState::Wait,
            !queue.contains(s.tid),
        ensures
            ({
                let asleep = Self::spec_asleep(bedroom, now);
                let after = Self::spec_wake_due(slots, queue, bedroom, now);
                &&& TaskTable::spec_wf(after.0)
                &&& after.0.contains_key(s.tid.0)
                &&& now < s.until ==> {
                    &&& asleep.contains(s)
                    &&& forall|j: int|
                        0 <= j < asleep.len() && (#[trigger] asleep[j]).tid == s.tid ==> asleep[j]
                            == s
                    &&& after.0[s.tid.0] == slots[s.tid.0]
                    &&& !after.1.contains(s.tid)
                }
                &&& now >= s.until ==> {
                    &&& !asleep.contains(s)
                    &&& after.0[s.tid.0].state == TaskState::Run
                    &&& after.1.contains(s.tid)
                }
            }),
    {
        let asleep = Self::spec_asleep(bedroom, now);
        let i = choose|i: int| 0 <= i < bedroom.len() && bedroom[i] == s;
        Self::lemma_wake_due_keeps_tasks(slots, queue, bedroom, now);
        assert(Self::spec_wake_due(slots, queue, bedroom, now).0.dom().contains(s.tid.0));
        if now < s.until {
            bedroom.lemma_filter_contains(|x: Sleeper| x.until > now, i);
            assert forall|j: int| 0 <= j < asleep.len() && (#[trigger] asleep[j]).tid
                == s.tid implies asleep[j] == s by {
                assert(asleep.contains(asleep[j]));
                Self::lemma_asleep_were_asleep(bedroom, now, asleep[j]);
                let k = choose|k: int| 0 <= k < bedroom.len() && bedroom[k] == asleep[j];
                assert(bedroom[k].tid == s.tid);
            }
            assert forall|j: int| 0 <= j < bedroom.len() && (#[trigger] bedroom[j]).until
                <= now implies bedroom[j].tid != s.tid by {}
            Self::lemma_wake_due_leaves_others(slots, queue, bedroom, now, s.tid);
        } else {
            if asleep.contains(s) {
                Self::lemma_asleep_were_asleep(bedroom, now, s);
            }
            Self::lemma_wake_due_wakes(slots, queue, bedroom, now, i);
        }
    }

    /// Look at every sleeper, in a level 3 section: the ones whose time has
    /// come leave the list and are woken, the others stay in their order.
    pub fn check_all(
        clock: &Clock,
        cpu: &mut Cpu,
        bell: &mut L3Sync<BellRinger>,
        tasks: &mut TaskTable,
        sched: &mut L2Sync<Scheduler>,
    )
        ensures
            // the sleepers that stay are still tasks that wait
            old(tasks).wf() && Self::spec_sleepers_wait(old(tasks).slots@, old(bell)@.bedroom@)
                ==> Self::spec_sleepers_wait(final(tasks).slots@, final(bell)@.bedroom@),
            Scheduler::consistent(old(tasks), old(sched)@.run_queue@) ==> Scheduler::consistent(
                final(tasks),
                final(sched)@.run_queue@,
            ),
            *final(cpu) == *old(cpu),
            final(bell)@.bedroom@ == Self::spec_asleep(old(bell)@.bedroom@, clock.ns),
            final(tasks).current == old(tasks).current,
            final(tasks).slots@ == Self::spec_wake_due(
                old(tasks).slots@,
                old(sched)@.run_queue@,
                old(bell)@.bedroom@,
                clock.ns,
            ).0,
            final(sched)@.run_queue@ == Self::spec_wake_due(
                old(tasks).slots@,
                old(sched)@.run_queue@,
                old(bell)@.bedroom@,
                clock.ns,
            ).1,
            final(sched)@.need_schedule == old(sched)@.need_schedule,
            old(tasks).wf() ==> final(tasks).wf(),
    {
        let now = nsec(clock);
        proof {
            lemma_irq_save_restore(*cpu);
        }
        let r = irq_save(cpu);
        let ghost all = bell@.bedroom@;
        let n = bell.l3_get_ref(cpu).bedroom.len();
        let mut i: usize = 0;
        assert(all.subrange(0, 0) =~= Seq::<Sleeper>::empty());
        assert(all.subrange(0, n as int) =~= all);
        while i < n
            invariant
                0 <= i <= n == all.len(),
                !is_int_enabled(cpu),
                bell@.bedroom@ == all.subrange(i as int, n as int) + Self::spec_asleep(
                    all.subrange(0, i as int),
                    now,
                ),
                tasks.current == old(tasks).current,
                tasks.slots@ == Self::spec_wake_due(
                    old(tasks).slots@,
                    old(sched)@.run_queue@,
                    all.subrange(0, i as int),
                    now,
                ).0,
                sched@.run_queue@ == Self::spec_wake_due(
                    old(tasks).slots@,
                    old(sched)@.run_queue@,
                    all.subrange(0, i as int),
                    now,
                ).1,
                sched@.need_schedule == old(sched)@.need_schedule,
                old(tasks).wf() ==> tasks.wf(),
                Scheduler::consistent(old(tasks), old(sched)@.run_queue@) ==> Scheduler::consistent(
                    tasks,
                    sched@.run_queue@,
                ),
            decreases n - i,
        {
            let br = bell.l3_get_ref_mut(cpu);
            let x = br.bedroom.pop_front().unwrap();
            proof {
                let done = all.subrange(0, i as int);
                let next = all.subrange(0, i as int + 1);
                assert(x == all[i as int]);
                assert(next.drop_last() =~= done);
                assert(next.last() == x);
                reveal(Seq::filter);
            }
            if x.until > now {
                br.bedroom.push_back(x);
                assert(bell@.bedroom@ =~= all.subrange(i as int + 1, n as int) + Self::spec_asleep(
                    all.subrange(0, i as int + 1),
                    now,
                ));
            } else {
                assert(bell@.bedroom@ =~= all.subrange(i as int + 1, n as int) + Self::spec_asleep(
                    all.subrange(0, i as int + 1),
                    now,
                ));
                let s = sched.get_ref_mut_unguarded();
                tasks.wakeup(s, x.tid);
            }
            i += 1;
        }
        assert(all.subrange(0, n as int) =~= all);
        assert(bell@.bedroom@ =~= Self::spec_asleep(all, now));
        proof {
            if old(tasks).wf() && Self::spec_sleepers_wait(old(tasks).slots@, all) {
                Self::lemma_round_keeps_sleepers(
                    old(tasks).slots@,
                    old(sched)@.run_queue@,
                    all,
                    now,
                );
            }
        }
        irq_restore(cpu, r);
    }
}

} // verus!
