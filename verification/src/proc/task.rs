//! Tasks, the handles that name them, and the table that holds them.
use crate::arch::x86_64::arch_regs::Context64;
use crate::defs::Mem;
use crate::mm::vmm::{VMArea, VMMan, VMPerms, VMType};
use std::ops::Range;
use crate::arch::x86_64::{is_int_enabled, spec_is_int_enabled, Cpu};
use crate::machine::time::Clock;
use crate::proc::sched::{Scheduler, Switch};
use crate::proc::sync::bellringer::{BellRinger, Sleeper};
use crate::proc::sync::{Level2, L2Sync, L3Sync};
use std::collections::HashMap;
use std::collections::VecDeque;
use vstd::prelude::*;

verus! {

/// A handle that both names a task and locates it: it holds the base address
/// of the task's kernel stack, where the task is kept. It owns nothing.
#[derive(Copy, Clone, Debug, PartialEq, Eq, Structural, PartialOrd, Ord, Hash)]
pub struct TaskId(pub u64);

impl TaskId {
    pub fn new(addr: u64) -> (tid: Self)
        ensures
            tid.0 == addr,
    {
        Self(addr)
    }

    /// The task that the handle names. The handle must name a task of the
    /// table.
    pub fn get_task_ref<'a>(&self, tasks: &'a TaskTable) -> (t: &'a Task)
        requires
            tasks.has(*self),
        ensures
            *t == tasks.task(*self),
    {
        broadcast use vstd::std_specs::hash::group_hash_axioms;

        tasks.slots.get(&self.0).unwrap()
    }
}

/// The state of a task. A running task is not told apart from a ready one:
/// the task that runs is also ready.
#[derive(Copy, Clone, Debug, PartialEq, Eq, Structural)]
pub enum TaskState {
    Run,
    Wait,
    Block,
    Dead,
    Eating,
    Purr,
    Meow,
    Angry,
}

/// A task: an execution context that can be suspended and resumed.
pub struct Task {
    /// The marker of a valid task.
    pub magic: u64,
    pub pid: u32,
    /// The low end of the kernel stack, which is where the task is kept.
    pub kernel_stack: u64,
    pub mm: VMMan,
    pub state: TaskState,
    pub context: Context64,
}

/// The tasks of the system, each under the base address of its kernel stack,
/// and the handle of the task that has the processor.
pub struct TaskTable {
    pub slots: HashMap<u64, Task>,
    pub current: Option<TaskId>,
}

impl TaskTable {
    /// An empty table: no task exists and none runs.
    pub fn new() -> (tasks: Self)
        ensures
            tasks.slots@ == Map::<u64, Task>::empty(),
            tasks.current is None,
            tasks.wf(),
    {
        TaskTable { slots: HashMap::new(), current: None }
    }

    /// Whether the handle names a task of the table.
    pub open spec fn has(&self, tid: TaskId) -> bool {
        self.slots@.contains_key(tid.0)
    }

    /// The task that a handle names.
    pub open spec fn task(&self, tid: TaskId) -> Task {
        self.slots@[tid.0]
    }

    /// The state of the task that a handle names.
    pub open spec fn state_of(&self, tid: TaskId) -> TaskState {
        self.slots@[tid.0].state
    }

    /// Every task carries the marker of a valid task and is kept under the
    /// base address of its own kernel stack, so that the handle a task
    /// gives for itself is the one it is found by.
    pub open spec fn spec_wf(slots: Map<u64, Task>) -> bool {
        forall|a: u64| #[trigger]
            slots.contains_key(a) ==> slots[a].kernel_stack == a && slots[a].magic
                == Mem::KERNEL_STACK_TASK_MAGIC
    }

    /// Every task of the table is valid and is kept under the base address
    /// of its own kernel stack.
    pub open spec fn wf(&self) -> bool {
        Self::spec_wf(self.slots@)
    }

    /// The table in which one task has another state.
    pub open spec fn with_state(slots: Map<u64, Task>, tid: TaskId, state: TaskState) -> Map<
        u64,
        Task,
    > {
        slots.insert(tid.0, Task { state: state, ..slots[tid.0] })
    }

    /// The state of a task, if the handle names one.
    pub fn state(&self, tid: TaskId) -> (r: Option<TaskState>)
        ensures
            r == (if self.has(tid) {
                Some(self.state_of(tid))
            } else {
                None
            }),
    {
        broadcast use vstd::std_specs::hash::group_hash_axioms;

        match self.slots.get(&tid.0) {
            Some(t) => Some(t.state),
            None => None,
        }
    }

    /// Give a task of the table another state. Nothing else changes.
    pub fn set_state(&mut self, tid: TaskId, state: TaskState)
        requires
            old(self).has(tid),
        ensures
            final(self).slots@ == Self::with_state(old(self).slots@, tid, state),
            final(self).current == old(self).current,
            old(self).wf() ==> final(self).wf(),
    {
        broadcast use vstd::std_specs::hash::group_hash_axioms;

        let mut t = self.slots.remove(&tid.0).unwrap();
        t.state = state;
        self.slots.insert(tid.0, t);
        assert(self.slots@ =~= Self::with_state(old(self).slots@, tid, state));
    }

    /// Put a task into the table, at the base address of its kernel stack.
    /// A task that was there before is replaced.
    pub fn settle(&mut self, t: Task) -> (tid: TaskId)
        ensures
            tid.0 == t.kernel_stack,
            final(self).slots@ == old(self).slots@.insert(t.kernel_stack, t),
            final(self).current == old(self).current,
            old(self).wf() && t.magic == Mem::KERNEL_STACK_TASK_MAGIC ==> final(self).wf(),
    {
        broadcast use vstd::std_specs::hash::group_hash_axioms;

        let tid = t.taskid();
        self.slots.insert(tid.0, t);
        tid
    }

    /// Wake the task that a handle names: see [`Task::wakeup`]. A handle that
    /// names no task wakes nobody.
    pub fn wakeup(&mut self, sched: &mut Scheduler, tid: TaskId)
        ensures
            Scheduler::spec_consistent(
                old(self).slots@,
                old(self).current,
                old(sched).run_queue@,
            ) ==> Scheduler::spec_consistent(
                final(self).slots@,
                final(self).current,
                final(sched).run_queue@,
            ),
            final(self).current == old(self).current,
            final(self).slots@ == Self::spec_wakeup(old(self).slots@, old(sched).run_queue@, tid).0,
            final(sched).run_queue@ == Self::spec_wakeup(
                old(self).slots@,
                old(sched).run_queue@,
                tid,
            ).1,
            final(sched).need_schedule == old(sched).need_schedule,
            old(self).wf() ==> final(self).wf(),
    {
        broadcast use vstd::std_specs::hash::group_hash_axioms;

        proof {
            if Scheduler::spec_consistent(self.slots@, self.current, sched.run_queue@) {
                Scheduler::lemma_wakeup_keeps_consistent(
                    self.slots@,
                    self.current,
                    sched.run_queue@,
                    tid,
                );
            }
        }
        match self.slots.remove(&tid.0) {
            Some(mut t) => {
                t.wakeup(sched);
                self.slots.insert(tid.0, t);
                assert(self.slots@ =~= Self::spec_wakeup(
                    old(self).slots@,
                    old(sched).run_queue@,
                    tid,
                ).0);
            },
            None => {
                assert(self.slots@ =~= old(self).slots@);
            },
        }
    }

    /// What waking a task does to the tasks and to the run queue: a task that
    /// waits becomes runnable and joins the end of the run queue under the
    /// handle it gives for itself; any other task, or a handle that names
    /// none, changes nothing.
    pub open spec fn spec_wakeup(slots: Map<u64, Task>, queue: Seq<TaskId>, tid: TaskId) -> (
        Map<u64, Task>,
        Seq<TaskId>,
    ) {
        if slots.contains_key(tid.0) && slots[tid.0].state == TaskState::Wait {
            (
                Self::with_state(slots, tid, TaskState::Run),
                queue.push(TaskId(slots[tid.0].kernel_stack)),
            )
        } else {
            (slots, queue)
        }
    }
}

impl Task {
    /// The top of the kernel stack with which a new task starts, aligned to
    /// 8 bytes.
    #[inline(always)]
    pub fn get_init_kernel_sp(&self) -> (sp: u64)
        requires
            self.kernel_stack + Mem::KERNEL_STACK_SIZE <= u64::MAX,
        ensures
            sp == Self::spec_init_kernel_sp(self.kernel_stack),
            sp % 8 == 0,
            sp <= self.kernel_stack + Mem::KERNEL_STACK_SIZE < sp + 8,
    {
        let top: u64 = self.kernel_stack + Mem::KERNEL_STACK_SIZE;
        assert(top & !0b111u64 == (top / 8) * 8 && (top & !0b111u64) % 8 == 0 && (top / 8) * 8
            <= top && top - (top / 8) * 8 < 8) by (bit_vector);
        let mut sp = top;
        sp &= !0b111;
        sp
    }

    /// The highest multiple of 8 that a stack of the kernel's size reaches
    /// from the base `kernel_stack`.
    pub open spec fn spec_init_kernel_sp(kernel_stack: u64) -> int {
        ((kernel_stack + Mem::KERNEL_STACK_SIZE) / 8) * 8
    }

    /// Prime the context of a new task so that its first run starts at
    /// `entry`: two words go onto the top of the kernel stack, a zero in the
    /// place of a return address and the address of the entry below it, and
    /// the saved stack pointer points at the latter. The two words are
    /// handed back, each with the address it belongs at, highest first: the
    /// caller writes them into the stack memory.
    #[inline(always)]
    pub fn prepare_context(&mut self, entry: u64) -> (words: Vec<(u64, u64)>)
        requires
            old(self).kernel_stack + Mem::KERNEL_STACK_SIZE <= u64::MAX,
        ensures
            *final(self) == (Task {
                context: Context64 {
                    rsp: (Self::spec_init_kernel_sp(old(self).kernel_stack) - 16) as u64,
                    ..old(self).context
                },
                ..*old(self)
            }),
            words@ == Self::spec_first_words(old(self).kernel_stack, entry),
    {
        let mut sp = self.get_init_kernel_sp();
        let mut words: Vec<(u64, u64)> = Vec::new();
        sp -= 8;
        words.push((sp, 0));
        sp -= 8;
        words.push((sp, entry));
        self.context.rsp = sp;
        words
    }

    /// The three areas with which the address space of every new task
    /// starts: the identity mapping of the kernel, the kernel itself, and
    /// the user stack.
    pub open spec fn spec_initial_areas(vmas: Seq<VMArea>) -> bool {
        &&& vmas.len() == 3
        &&& vmas[0].vm_range == (Range::<u64> { start: Mem::ID_MAP_START, end: Mem::ID_MAP_END })
        &&& vmas[0].tag@ == "KERNEL IDMAP"@
        &&& vmas[0].user_perms.bits == VMPerms::NONE
        &&& vmas[0].backing is ANOM
        &&& vmas[1].vm_range == (Range::<u64> {
            start: Mem::KERNEL_OFFSET,
            end: (Mem::KERNEL_OFFSET + 64 * Mem::G) as u64,
        })
        &&& vmas[1].tag@ == "KERNEL"@
        &&& vmas[1].user_perms.bits == VMPerms::NONE
        &&& vmas[1].backing is ANOM
        &&& vmas[2].vm_range == (Range::<u64> {
            start: Mem::USER_STACK_START,
            end: (Mem::USER_STACK_START + Mem::USER_STACK_SIZE) as u64,
        })
        &&& vmas[2].tag@ == "USER STACK"@
        &&& vmas[2].user_perms.bits == VMPerms::R | VMPerms::W
        &&& vmas[2].backing is ANOM
    }

    /// Whether a task is as a task is made: valid, with this number, kept
    /// at the base `sp` of its kernel stack, ready to run, with the three
    /// initial areas in its address space, and with a context in which
    /// every register is zero but the stack pointer, which points at the
    /// second word from the top of the stack.
    pub open spec fn spec_new_task(t: Task, sp: u64, pid: u32) -> bool {
        &&& t.magic == Mem::KERNEL_STACK_TASK_MAGIC
        &&& t.pid == pid
        &&& t.kernel_stack == sp
        &&& t.state == TaskState::Run
        &&& Self::spec_initial_areas(t.mm.vmas@)
        &&& t.context.rsp == Self::spec_init_kernel_sp(sp) - 16
        &&& t.context.rbx == 0
        &&& t.context.r12 == 0
        &&& t.context.r13 == 0
        &&& t.context.r14 == 0
        &&& t.context.r15 == 0
        &&& t.context.rbp == 0
        &&& forall|i: int| 0 <= i < 108 ==> t.context.fpu[i] == 0
    }

    /// The two words with which the stack of a new task starts, each with
    /// the address it belongs at: a zero in the place of a return address
    /// at the top, and the entry of the task below it.
    pub open spec fn spec_first_words(sp: u64, entry: u64) -> Seq<(u64, u64)> {
        seq![
            ((Self::spec_init_kernel_sp(sp) - 8) as u64, 0u64),
            ((Self::spec_init_kernel_sp(sp) - 16) as u64, entry),
        ]
    }

    /// Create a kernel thread on the stack at `sp`, which the caller has
    /// allocated: the task is put at the base of the stack, valid and ready
    /// to run, with the three initial areas in its address space and with a
    /// context that starts at `entry`. The handle of the task is handed
    /// back, and the words that belong on its stack as by
    /// [`Task::prepare_context`]. A task that was kept at `sp` before is
    /// replaced. The task is not in the run queue yet.
    pub fn create_task(tasks: &mut TaskTable, sp: u64, pid: u32, entry: u64) -> (r: (
        TaskId,
        Vec<(u64, u64)>,
    ))
        requires
            sp + Mem::KERNEL_STACK_SIZE <= u64::MAX,
        ensures
            r.0 == TaskId(sp),
            r.1@ == Self::spec_first_words(sp, entry),
            final(tasks).current == old(tasks).current,
            final(tasks).slots@.dom() == old(tasks).slots@.dom().insert(sp),
            Self::spec_new_task(final(tasks).slots@[sp], sp, pid),
            forall|a: u64|
                a != sp && old(tasks).slots@.contains_key(a) ==> final(tasks).slots@[a] ==
                    old(tasks).slots@[a],
            old(tasks).wf() ==> final(tasks).wf(),
            // a new task does not disturb the tasks that are there
            forall|queue: Seq<TaskId>|
                !old(tasks).has(TaskId(sp)) && #[trigger] Scheduler::consistent(old(tasks), queue)
                    ==> Scheduler::consistent(final(tasks), queue),
    {
        let mut nt = Task {
            magic: Mem::KERNEL_STACK_TASK_MAGIC,
            pid,
            kernel_stack: sp,
            state: TaskState::Run,
            context: Context64::default(),
            mm: VMMan::new(),
        };
        // the identity mapping of the kernel
        nt.mm.vmas.push(
            VMArea {
                vm_range: Range::<u64> { start: Mem::ID_MAP_START, end: Mem::ID_MAP_END },
                tag: "KERNEL IDMAP".to_owned(),
                user_perms: VMPerms::from_bits_truncate(VMPerms::NONE),
                backing: VMType::ANOM,
            },
        );
        // the kernel
        nt.mm.vmas.push(
            VMArea {
                vm_range: Range::<u64> {
                    start: Mem::KERNEL_OFFSET,
                    end: Mem::KERNEL_OFFSET + 64 * Mem::G,
                },
                tag: "KERNEL".to_owned(),
                user_perms: VMPerms::from_bits_truncate(VMPerms::NONE),
                backing: VMType::ANOM,
            },
        );
        // the user stack
        nt.mm.vmas.push(
            VMArea {
                vm_range: Range::<u64> {
                    start: Mem::USER_STACK_START,
                    end: Mem::USER_STACK_START + Mem::USER_STACK_SIZE,
                },
                tag: "USER STACK".to_owned(),
                user_perms: VMPerms::from_bits_truncate(VMPerms::R | VMPerms::W),
                backing: VMType::ANOM,
            },
        );
        assert(0u8 & 7u8 == 0u8 && ((1u8 << 0) | (1u8 << 1)) & 7u8 == (1u8 << 0) | (1u8 << 1))
            by (bit_vector);
        let words = nt.prepare_context(entry);
        let tid = tasks.settle(nt);
        assert(final(tasks).slots@.dom() =~= old(tasks).slots@.dom().insert(sp));
        (tid, words)
    }

    /// The handle of the task that has the processor, or `None` where no
    /// task has it or the marker of that task is damaged.
    pub open spec fn spec_current(tasks: &TaskTable) -> Option<TaskId> {
        match tasks.current {
            Some(tid) => if tasks.has(tid) && tasks.task(tid).magic
                == Mem::KERNEL_STACK_TASK_MAGIC {
                Some(tid)
            } else {
                None
            },
            None => None,
        }
    }

    /// The handle of the task that has the processor, or `None` where no
    /// task has it or the marker of that task is damaged.
    #[verifier::when_used_as_spec(spec_current)]
    pub fn current(tasks: &TaskTable) -> (r: Option<TaskId>)
        ensures
            r == Self::spec_current(tasks),
    {
        broadcast use vstd::std_specs::hash::group_hash_axioms;

        match tasks.current {
            Some(tid) => {
                match tasks.slots.get(&tid.0) {
                    Some(t) => {
                        if t.magic != Mem::KERNEL_STACK_TASK_MAGIC {
                            return None;
                        }
                        return Some(tid);
                    },
                    None => None,
                }
            },
            None => None,
        }
    }

    /// The handle that the task gives for itself.
    #[inline]
    pub fn taskid(&self) -> (tid: TaskId)
        ensures
            tid.0 == self.kernel_stack,
    {
        TaskId::new(self.kernel_stack)
    }

    /// Let the task that has the processor wait in `wait_room`: its state
    /// becomes `Wait` and its handle joins the end of the room. The caller
    /// does this in a level 3 section and gives the processor away next.
    pub fn curr_wait_in(tasks: &mut TaskTable, wait_room: &mut VecDeque<TaskId>)
        requires
            Task::current(old(tasks)) is Some,
            old(tasks).state_of(Task::current(old(tasks))->0) != TaskState::Wait,
        ensures
            final(tasks).current == old(tasks).current,
            final(tasks).slots@ == TaskTable::with_state(
                old(tasks).slots@,
                Task::current(old(tasks))->0,
                TaskState::Wait,
            ),
            final(wait_room)@ == old(wait_room)@.push(
                TaskId(old(tasks).task(Task::current(old(tasks))->0).kernel_stack),
            ),
            old(tasks).wf() ==> final(tasks).wf(),
    {
        broadcast use vstd::std_specs::hash::group_hash_axioms;

        let me = Task::current(tasks).unwrap();
        let mut t = tasks.slots.remove(&me.0).unwrap();
        t.state = TaskState::Wait;
        let tid = t.taskid();
        tasks.slots.insert(me.0, t);
        wait_room.push_back(tid);
        assert(tasks.slots@ =~= TaskTable::with_state(old(tasks).slots@, me, TaskState::Wait));
    }

    /// Let the task that has the processor sleep for `ns` nanoseconds: its
    /// state becomes `Wait`, it checks in with the bell ringer for the
    /// deadline `now + ns`, and it gives the processor to the task at the
    /// front of the run queue. The task must be ready to run and able to
    /// hand the processor over, and the deadline must not exceed the range
    /// of the clock.
    pub fn nanosleep(
        clock: &Clock,
        cpu: &mut Cpu,
        l2: &mut Level2,
        bell: &mut L3Sync<BellRinger>,
        tasks: &mut TaskTable,
        sched: &mut L2Sync<Scheduler>,
        ns: u64,
    ) -> (sw: Switch)
        requires
            Scheduler::can_hand_over(old(cpu), old(l2), old(tasks), old(sched)@.run_queue@),
            old(tasks).state_of(Task::current(old(tasks))->0) == TaskState::Run,
            clock.ns + ns <= u64::MAX,
        ensures
            *final(cpu) == *old(cpu),
            *final(l2) == old(l2).entered(),
            final(sched)@.need_schedule == old(sched)@.need_schedule,
            final(bell)@.bedroom@ == old(bell)@.bedroom@.push(
                Sleeper {
                    tid: TaskId(old(tasks).task(Task::current(old(tasks))->0).kernel_stack),
                    until: (clock.ns + ns) as u64,
                },
            ),
            (final(tasks).slots@, final(tasks).current, final(sched)@.run_queue@, sw)
                == Scheduler::spec_hand_over(old(tasks), old(sched)@.run_queue@),
            // the invariants are kept
            old(tasks).wf() ==> final(tasks).wf(),
            Scheduler::consistent(old(tasks), old(sched)@.run_queue@) ==> Scheduler::consistent(
                final(tasks),
                final(sched)@.run_queue@,
            ),
            old(tasks).wf() && BellRinger::spec_sleepers_wait(
                old(tasks).slots@,
                old(bell)@.bedroom@,
            ) ==> BellRinger::spec_sleepers_wait(final(tasks).slots@, final(bell)@.bedroom@),
    {
        let me = Task::current(tasks).unwrap();
        proof {
            if Scheduler::consistent(tasks, sched@.run_queue@) {
                Scheduler::lemma_block_keeps_consistent(tasks.slots@, me, sched@.run_queue@);
            }
        }
        let tid = me.get_task_ref(tasks).taskid();
        tasks.set_state(me, TaskState::Wait);
        BellRinger::check_in(cpu, bell, Sleeper::new(clock, tid, ns));
        proof {
            let room = old(bell)@.bedroom@;
            let after = bell@.bedroom@;
            if old(tasks).wf() && BellRinger::spec_sleepers_wait(old(tasks).slots@, room) {
                assert(tid == me);
                assert forall|i: int| 0 <= i < after.len() implies tasks.slots@.contains_key(
                    (#[trigger] after[i]).tid.0,
                ) && tasks.slots@[after[i].tid.0].state == TaskState::Wait by {
                    if i < room.len() {
                        assert(after[i] == room[i]);
                    }
                }
                assert forall|i: int, j: int|
                    0 <= i < after.len() && 0 <= j < after.len() && i != j implies (
                #[trigger] after[i]).tid != (#[trigger] after[j]).tid by {
                    if i < room.len() {
                        assert(after[i] == room[i]);
                    }
                    if j < room.len() {
                        assert(after[j] == room[j]);
                    }
                }
            }
        }
        Scheduler::yield_cpu(cpu, l2, tasks, sched)
    }

    /// Wake the task: a task that waits becomes runnable and joins the end
    /// of the run queue; a task in any other state is left alone. The caller
    /// holds the right to change the run queue.
    pub fn wakeup(&mut self, sched: &mut Scheduler)
        ensures
            old(self).state == TaskState::Wait ==> *final(self) == (Task {
                state: TaskState::Run,
                ..*old(self)
            }) && final(sched).run_queue@ == old(sched).run_queue@.push(
                TaskId(old(self).kernel_stack),
            ),
            old(self).state != TaskState::Wait ==> *final(self) == *old(self)
                && final(sched).run_queue@ == old(sched).run_queue@,
            final(sched).need_schedule == old(sched).need_schedule,
    {
        if self.state != TaskState::Wait {
            return;
        }
        self.state = TaskState::Run;
        sched.insert_task(self.taskid());
    }
}

} // verus!
