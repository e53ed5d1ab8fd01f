//! Control of the interrupt flag, and the dispatch of interrupts to the
//! registered gates.
use crate::arch::x86_64::{is_int_enabled, lemma_int_flag, spec_is_int_enabled, Cpu, RFLAGS_IF_MASK};
use crate::arch::x86_64::arch_regs::TrapFrame;
use crate::defs::{HWDefs, IntNumber};
use crate::machine::device_io::PortWrite;
use crate::proc::sched::{Scheduler, Switch};
use crate::proc::sync::irq::{EpilogueEntrant, IRQGate, Routine};
use crate::proc::sync::{Level2, ENTER_L2, IS_L2_AVAILABLE, LEAVE_L2};
use crate::proc::task::{Task, TaskId, TaskState, TaskTable};
use crate::proc::Kernel;
use vstd::prelude::*;

pub mod idt;
pub mod pic_8259;
pub mod pit;
pub mod plugbox;

verus! {

/// Let the processor accept interrupts.
#[inline(always)]
pub fn interrupt_enable(cpu: &mut Cpu)
    ensures
        *final(cpu) == old(cpu).with_int_enabled(),
        is_int_enabled(final(cpu)),
{
    proof {
        lemma_int_flag(*cpu);
    }
    cpu.rflags = cpu.rflags | RFLAGS_IF_MASK;
}

/// Stop the processor from accepting interrupts.
#[inline(always)]
pub fn interrupt_disable(cpu: &mut Cpu)
    ensures
        *final(cpu) == old(cpu).with_int_disabled(),
        !is_int_enabled(final(cpu)),
{
    proof {
        lemma_int_flag(*cpu);
    }
    cpu.rflags = cpu.rflags & !RFLAGS_IF_MASK;
}

/// Disable interrupts and say whether they were enabled before.
#[inline]
pub fn irq_save(cpu: &mut Cpu) -> (was_enabled: bool)
    ensures
        was_enabled == is_int_enabled(old(cpu)),
        *final(cpu) == old(cpu).with_int_disabled(),
        !is_int_enabled(final(cpu)),
{
    proof {
        lemma_int_flag(*cpu);
    }
    if is_int_enabled(cpu) {
        interrupt_disable(cpu);
        return true;
    } else {
        return false;
    }
}

/// Enable interrupts again if `was_enabled` says that they were enabled
/// before the matching [`irq_save`]. It never disables them.
#[inline]
pub fn irq_restore(cpu: &mut Cpu, was_enabled: bool)
    ensures
        *final(cpu) == (if was_enabled {
            old(cpu).with_int_enabled()
        } else {
            *old(cpu)
        }),
{
    if was_enabled {
        interrupt_enable(cpu);
    }
}

/// A section between [`irq_save`] and the matching [`irq_restore`] leaves the
/// processor as it found it, whatever the interrupt flag was, and nests.
pub proof fn lemma_irq_save_restore(cpu: Cpu)
    ensures
        ({
            let was_enabled = spec_is_int_enabled(&cpu);
            let inside = cpu.with_int_disabled();
            let after = if was_enabled {
                inside.with_int_enabled()
            } else {
                inside
            };
            after == cpu
        }),
{
    lemma_int_flag(cpu);
}


/// Where one activation of the interrupt dispatcher stands. The dispatcher
/// does not run driver code and does not switch contexts itself: a step
/// hands back what its caller has to do, and the caller steps the
/// activation again when that is done.
#[derive(Copy, Clone, Debug, PartialEq, Eq, Structural)]
pub enum IrqPhase {
    /// The interrupt with this vector has come in; nothing was done yet.
    Entry { nr: u16 },
    /// The prologue of this handler was handed out.
    Prologue { gate: IRQGate },
    /// The epilogue of the interrupt itself was handed out.
    Epilogue,
    /// An epilogue from the queue was handed out. `done` says whether the
    /// queue was empty when the epilogue had been taken out.
    QueuedEpilogue { done: bool },
    /// The activation has given the processor away between two epilogues
    /// and goes on when its task has the processor back.
    Suspended { done: bool },
    /// The activation has returned.
    Returned,
}

/// What the caller of the dispatcher has to do next.
#[derive(Copy, Clone, Debug, PartialEq, Eq, Structural)]
pub enum IrqAction {
    /// Run this prologue, with interrupts disabled.
    RunPrologue(Routine),
    /// Run this epilogue, with interrupts enabled.
    RunEpilogue(Routine),
    /// Switch contexts; the activation goes on when its task is resumed.
    Switch(Switch),
    /// The activation has returned: the caller ends the trap with
    /// [`trap_exit`], which enables interrupts, and returns from the
    /// interrupt.
    Return,
}

/// The part of the kernel that the dispatcher reads and writes.
pub struct Dispatch {
    pub cpu: Cpu,
    pub l2: Level2,
    pub need_reschedule: bool,
    pub current: Option<TaskId>,
    pub run_queue: Seq<TaskId>,
    pub epilogues: Seq<EpilogueEntrant>,
}

/// The reschedule check: nothing happens unless a reschedule was asked
/// for; then the request is withdrawn and the round-robin step is made.
pub open spec fn spec_try_reschedule(d: Dispatch, tasks: TaskTable) -> (Dispatch, Switch) {
    let t = TaskTable { current: d.current, ..tasks };
    if !d.need_reschedule {
        (d, Switch::Stay)
    } else {
        let step = Scheduler::spec_step(&t, d.run_queue);
        (Dispatch { need_reschedule: false, current: step.0, run_queue: step.1, ..d }, step.2)
    }
}

/// After the prologue: a gate without an epilogue is done. An epilogue
/// that finds the epilogue level occupied is queued. Otherwise the level is
/// entered, interrupts are enabled and the epilogue is handed out.
pub open spec fn spec_after_prologue(d: Dispatch, gate: IRQGate) -> (Dispatch, IrqPhase,
    IrqAction) {
    match gate.epilogue_entrant {
        None => (d, IrqPhase::Returned, IrqAction::Return),
        Some(epi) => if !d.l2.available {
            (
                Dispatch { epilogues: d.epilogues.push(epi), ..d },
                IrqPhase::Returned,
                IrqAction::Return,
            )
        } else {
            (
                Dispatch { l2: d.l2.entered(), cpu: d.cpu.with_int_enabled(), ..d },
                IrqPhase::Epilogue,
                IrqAction::RunEpilogue(epi.epilogue),
            )
        },
    }
}

/// After an epilogue: the oldest queued epilogue, if there is one, is taken
/// out and handed out; with an empty queue the round ends for the last
/// time.
pub open spec fn spec_drain(d: Dispatch, tasks: TaskTable) -> (Dispatch, IrqPhase, IrqAction)
    decreases 2int,
{
    if d.epilogues.len() > 0 {
        (
            Dispatch { epilogues: d.epilogues.drop_first(), ..d },
            IrqPhase::QueuedEpilogue { done: d.epilogues.len() == 1 },
            IrqAction::RunEpilogue(d.epilogues[0].epilogue),
        )
    } else {
        spec_round_end(d, tasks, true)
    }
}

/// The point between two epilogues at which the processor may change
/// hands: the epilogue level is left, the reschedule check is made, and
/// where it asks for a context switch the activation is suspended.
pub open spec fn spec_round_end(d: Dispatch, tasks: TaskTable, done: bool) -> (
    Dispatch,
    IrqPhase,
    IrqAction,
)
    decreases
            (if done {
                1int
            } else {
                4int
            }),
{
    let left = Dispatch { l2: d.l2.left(), ..d };
    let checked = spec_try_reschedule(left, tasks);
    if checked.1 != Switch::Stay {
        (checked.0, IrqPhase::Suspended { done }, IrqAction::Switch(checked.1))
    } else {
        spec_resume(checked.0, tasks, done)
    }
}

/// After the reschedule check: the epilogue level is entered again. When
/// the queue was found empty the level is left for good and the activation
/// returns; otherwise the next queued epilogue is looked for.
pub open spec fn spec_resume(d: Dispatch, tasks: TaskTable, done: bool) -> (
    Dispatch,
    IrqPhase,
    IrqAction,
)
    decreases
            (if done {
                0int
            } else {
                3int
            }),
{
    let entered = Dispatch { l2: d.l2.entered(), ..d };
    if done {
        (Dispatch { l2: entered.l2.left(), ..entered }, IrqPhase::Returned, IrqAction::Return)
    } else {
        spec_drain(entered, tasks)
    }
}

/// One step of an activation of the dispatcher.
pub open spec fn spec_handle_irq(
    d: Dispatch,
    tasks: TaskTable,
    gates: Map<u16, IRQGate>,
    phase: IrqPhase,
) -> (Dispatch, IrqPhase, IrqAction) {
    match phase {
        IrqPhase::Entry { nr } => (
            d,
            IrqPhase::Prologue { gate: gates[nr] },
            IrqAction::RunPrologue(gates[nr].prologue),
        ),
        IrqPhase::Prologue { gate } => spec_after_prologue(d, gate),
        IrqPhase::Epilogue => spec_drain(d, tasks),
        IrqPhase::QueuedEpilogue { done } => spec_round_end(d, tasks, done),
        IrqPhase::Suspended { done } => spec_resume(d, tasks, done),
        IrqPhase::Returned => (d, IrqPhase::Returned, IrqAction::Return),
    }
}

/// Epilogues run one after the other. Take two interrupts whose gates have
/// epilogues, the first of which finds the epilogue level free and the queue
/// of epilogues empty, and let the second come in while the epilogue of the
/// first runs. Then the epilogue of the first starts at once; the second
/// activation queues its epilogue and returns without running it; and the
/// first activation hands the second epilogue out when its own has
/// finished, which empties the queue.
pub proof fn lemma_epilogues_run_one_after_the_other(
    d: Dispatch,
    tasks: TaskTable,
    gates: Map<u16, IRQGate>,
    first: IRQGate,
    second: IRQGate,
)
    requires
        first.epilogue_entrant is Some,
        second.epilogue_entrant is Some,
        d.l2.available,
        d.epilogues.len() == 0,
    ensures
        ({
            let started = spec_handle_irq(d, tasks, gates, IrqPhase::Prologue { gate: first });
            // the second interrupt comes in: the processor disables
            // interrupts on the way to the dispatcher
            let interrupted = Dispatch { cpu: started.0.cpu.with_int_disabled(), ..started.0 };
            let queued = spec_handle_irq(
                interrupted,
                tasks,
                gates,
                IrqPhase::Prologue { gate: second },
            );
            // back in the first epilogue, with interrupts enabled again
            let back = Dispatch { cpu: queued.0.cpu.with_int_enabled(), ..queued.0 };
            let finished = spec_handle_irq(back, tasks, gates, started.1);
            &&& started.1 == IrqPhase::Epilogue
            &&& started.2 == IrqAction::RunEpilogue(first.epilogue_entrant->0.epilogue)
            &&& !started.0.l2.available
            &&& queued.1 == IrqPhase::Returned
            &&& queued.2 == IrqAction::Return
            &&& queued.0.epilogues == seq![second.epilogue_entrant->0]
            &&& finished.1 == (IrqPhase::QueuedEpilogue { done: true })
            &&& finished.2 == IrqAction::RunEpilogue(second.epilogue_entrant->0.epilogue)
            &&& finished.0.epilogues.len() == 0
            &&& !finished.0.l2.available
        }),
{
    let started = spec_handle_irq(d, tasks, gates, IrqPhase::Prologue { gate: first });
    let interrupted = Dispatch { cpu: started.0.cpu.with_int_disabled(), ..started.0 };
    let queued = spec_handle_irq(interrupted, tasks, gates, IrqPhase::Prologue { gate: second });
    assert(queued.0.epilogues =~= seq![second.epilogue_entrant->0]);
}

/// What an activation does when nothing else happens in between: no
/// further interrupt comes in, every epilogue just ends, and where the
/// activation gives the processor away it gets it back with the level
/// free. The epilogues that it hands out, in their order, and where the
/// dispatcher and the activation stand in the end. `steps` is the number of
/// steps that are made at most.
pub open spec fn spec_handed_out(
    d: Dispatch,
    tasks: TaskTable,
    gates: Map<u16, IRQGate>,
    phase: IrqPhase,
    steps: nat,
) -> (Seq<Routine>, Dispatch, IrqPhase)
    decreases steps,
{
    if steps == 0 {
        (Seq::empty(), d, phase)
    } else {
        let step = spec_handle_irq(d, tasks, gates, phase);
        let rest = spec_handed_out(step.0, tasks, gates, step.1, (steps - 1) as nat);
        match step.2 {
            IrqAction::RunEpilogue(r) => (seq![r] + rest.0, rest.1, rest.2),
            IrqAction::Switch(_) => rest,
            _ => (Seq::empty(), step.0, step.1),
        }
    }
}

/// The steps that an activation needs at most to serve a queue of
/// epilogues: one for each epilogue, one to return, and one more where it
/// may yet give the processor away.
pub open spec fn spec_steps_to_drain(d: Dispatch, phase: IrqPhase) -> nat {
    2 * d.epilogues.len() + (if phase is Suspended {
        1nat
    } else if phase is QueuedEpilogue {
        2nat
    } else {
        3nat
    })
}

/// Whether an activation is about to serve the queue of epilogues: its
/// epilogue has just ended or it has just got the processor back, it holds
/// the level unless it was suspended, and it knows whether the queue is
/// empty.
pub open spec fn spec_draining(d: Dispatch, phase: IrqPhase) -> bool {
    ||| phase == IrqPhase::Epilogue && !d.l2.available
    ||| phase == (IrqPhase::QueuedEpilogue { done: d.epilogues.len() == 0 }) && !d.l2.available
    ||| phase == (IrqPhase::Suspended { done: d.epilogues.len() == 0 })
}

/// The queue of epilogues is served in order and to the end. An
/// activation that is about to serve the queue hands out the queued
/// epilogues oldest first, each once and each when the one before it has
/// ended, and then returns with the queue empty and the level free. This
/// holds whether or not a reschedule is asked for: where the activation
/// gives the processor away between two epilogues, it goes on where it was
/// when it has the processor back.
pub proof fn lemma_queued_epilogues_run_in_order(
    d: Dispatch,
    tasks: TaskTable,
    gates: Map<u16, IRQGate>,
    phase: IrqPhase,
    steps: nat,
)
    requires
        spec_draining(d, phase),
        steps >= spec_steps_to_drain(d, phase),
    ensures
        spec_handed_out(d, tasks, gates, phase, steps).0 == Seq::new(
            d.epilogues.len(),
            |i: int| d.epilogues[i].epilogue,
        ),
        spec_handed_out(d, tasks, gates, phase, steps).2 == IrqPhase::Returned,
        spec_handed_out(d, tasks, gates, phase, steps).1.epilogues.len() == 0,
        spec_handed_out(d, tasks, gates, phase, steps).1.l2.available,
    decreases steps,
{
    let n = d.epilogues.len();
    let want = Seq::new(n, |i: int| d.epilogues[i].epilogue);
    let step = spec_handle_irq(d, tasks, gates, phase);
    let all = spec_handed_out(d, tasks, gates, phase, steps);
    match phase {
        IrqPhase::QueuedEpilogue { done } => {
            lemma_round_outcome(d, tasks, done);
        },
        IrqPhase::Suspended { done } => {
            lemma_round_outcome(d, tasks, done);
        },
        _ => {
            lemma_round_outcome(d, tasks, true);
        },
    }
    match step.2 {
        IrqAction::RunEpilogue(r) => {
            assert(n > 0);
            assert(r == d.epilogues[0].epilogue);
            assert(step.0.epilogues == d.epilogues.drop_first());
            assert(step.1 == (IrqPhase::QueuedEpilogue { done: n == 1 }));
            lemma_queued_epilogues_run_in_order(
                step.0,
                tasks,
                gates,
                step.1,
                (steps - 1) as nat,
            );
            let rest = Seq::new(
                step.0.epilogues.len(),
                |i: int| step.0.epilogues[i].epilogue,
            );
            assert(seq![r] + rest =~= want);
        },
        IrqAction::Switch(_) => {
            assert(step.0.epilogues == d.epilogues);
            assert(step.1 == (IrqPhase::Suspended { done: n == 0 }));
            lemma_queued_epilogues_run_in_order(
                step.0,
                tasks,
                gates,
                step.1,
                (steps - 1) as nat,
            );
        },
        _ => {
            assert(n == 0);
            assert(step.1 == IrqPhase::Returned);
            assert(all.0 =~= want);
        },
    }
}

/// Whether an activation in this phase has an epilogue running: it has
/// been handed one and has not been stepped since.
pub open spec fn spec_in_epilogue(phase: IrqPhase) -> bool {
    phase is Epilogue || phase is QueuedEpilogue
}

/// Whether the epilogues exclude each other: of all the activations that
/// there are, nested or suspended, one at most has an epilogue running, and
/// while one has, the epilogue level is occupied.
pub open spec fn spec_exclusive(d: Dispatch, phases: Seq<IrqPhase>) -> bool {
    &&& forall|i: int, j: int|
        0 <= i < phases.len() && 0 <= j < phases.len() && i != j ==> !(spec_in_epilogue(
            #[trigger] phases[i],
        ) && spec_in_epilogue(#[trigger] phases[j]))
    &&& forall|i: int|
        0 <= i < phases.len() && spec_in_epilogue(#[trigger] phases[i]) ==> !d.l2.available
}

/// How a round ends, however it goes on: with another epilogue handed out
/// and the level occupied, or with the processor given away and the level
/// free, or with the activation returned and the level free.
pub open spec fn spec_round_outcome(r: (Dispatch, IrqPhase, IrqAction)) -> bool {
    ||| r.1 is QueuedEpilogue && r.2 is RunEpilogue && !r.0.l2.available
    ||| r.1 is Suspended && r.2 is Switch && r.0.l2.available
    ||| r.1 is Returned && r.2 is Return && r.0.l2.available
}

/// Every way through the end of a round ends as [`spec_round_outcome`]
/// says, and changes the queue of epilogues only by taking its oldest entry
/// out and handing it out.
pub proof fn lemma_round_outcome(d: Dispatch, tasks: TaskTable, done: bool)
    ensures
        spec_round_outcome(spec_round_end(d, tasks, done)),
        spec_round_outcome(spec_resume(d, tasks, done)),
        !d.l2.available ==> spec_round_outcome(spec_drain(d, tasks)),
        spec_front_or_nothing(d, spec_round_end(d, tasks, done)),
        spec_front_or_nothing(d, spec_resume(d, tasks, done)),
        spec_front_or_nothing(d, spec_drain(d, tasks)),
{
    let left = Dispatch { l2: d.l2.left(), ..d };
    let checked = spec_try_reschedule(left, tasks);
    let entered = Dispatch { l2: checked.0.l2.entered(), ..checked.0 };
    let last = spec_round_end(entered, tasks, true);
    let last_left = Dispatch { l2: entered.l2.left(), ..entered };
    let last_checked = spec_try_reschedule(last_left, tasks);
    assert(spec_round_outcome(spec_resume(last_checked.0, tasks, true)));
    assert(spec_round_outcome(last));
    assert(spec_round_outcome(spec_drain(entered, tasks)));
    assert(spec_round_outcome(spec_resume(checked.0, tasks, done)));
    let here = Dispatch { l2: d.l2.entered(), ..d };
    let here_left = Dispatch { l2: here.l2.left(), ..here };
    let here_checked = spec_try_reschedule(here_left, tasks);
    assert(spec_round_outcome(spec_resume(here_checked.0, tasks, true)));
    assert(spec_round_outcome(spec_round_end(here, tasks, true)));
    assert(spec_round_outcome(spec_drain(here, tasks)));
    let now_left = Dispatch { l2: d.l2.left(), ..d };
    let now_checked = spec_try_reschedule(now_left, tasks);
    assert(spec_round_outcome(spec_resume(now_checked.0, tasks, true)));
    assert(spec_round_outcome(spec_round_end(d, tasks, true)));
}

/// Whether a step has left the queue of epilogues alone or has taken its
/// oldest entry out and handed it out.
pub open spec fn spec_front_or_nothing(d: Dispatch, r: (Dispatch, IrqPhase, IrqAction)) -> bool {
    if r.2 is RunEpilogue {
        &&& d.epilogues.len() > 0
        &&& r.2 == IrqAction::RunEpilogue(d.epilogues[0].epilogue)
        &&& r.0.epilogues == d.epilogues.drop_first()
    } else {
        r.0.epilogues == d.epilogues
    }
}

/// Whether a step puts the epilogue of its interrupt into the queue: the
/// prologue is over, the handler has an epilogue, and the level is
/// occupied.
pub open spec fn spec_queues(d: Dispatch, phase: IrqPhase) -> bool {
    phase matches IrqPhase::Prologue { gate } && gate.epilogue_entrant is Some && !d.l2.available
}

/// Whether a step takes an epilogue out of the queue: it hands an epilogue
/// out, and not the one of its own interrupt straight after the prologue.
pub open spec fn spec_serves(d: Dispatch, tasks: TaskTable, gates: Map<u16, IRQGate>,
    phase: IrqPhase) -> bool {
    spec_handle_irq(d, tasks, gates, phase).2 is RunEpilogue && !(phase is Prologue)
}

/// The queue of epilogues is first in, first out, at every step. A step
/// either leaves the queue alone, or puts the epilogue of its interrupt at
/// the back and returns without running it, or takes the oldest entry out
/// at the front and hands it out. Nothing else enters or leaves the queue.
pub proof fn lemma_epilogue_queue_is_fifo(
    d: Dispatch,
    tasks: TaskTable,
    gates: Map<u16, IRQGate>,
    phase: IrqPhase,
)
    ensures
        ({
            let step = spec_handle_irq(d, tasks, gates, phase);
            &&& spec_queues(d, phase) ==> step.0.epilogues == d.epilogues.push(
                phase->Prologue_gate.epilogue_entrant->0,
            ) && step.2 == IrqAction::Return && step.1 == IrqPhase::Returned
            &&& spec_serves(d, tasks, gates, phase) ==> d.epilogues.len() > 0 && step.2
                == IrqAction::RunEpilogue(d.epilogues[0].epilogue) && step.0.epilogues
                == d.epilogues.drop_first()
            &&& !spec_queues(d, phase) && !spec_serves(d, tasks, gates, phase) ==> step.0.epilogues
                == d.epilogues
        }),
{
    match phase {
        IrqPhase::QueuedEpilogue { done } => {
            lemma_round_outcome(d, tasks, done);
        },
        IrqPhase::Suspended { done } => {
            lemma_round_outcome(d, tasks, done);
        },
        IrqPhase::Epilogue => {
            lemma_round_outcome(d, tasks, true);
        },
        _ => {},
    }
}

/// An interrupt that comes in adds an activation that has no epilogue
/// running: the epilogues exclude each other as before.
pub proof fn lemma_arrival_keeps_exclusive(d: Dispatch, phases: Seq<IrqPhase>, nr: u16)
    requires
        spec_exclusive(d, phases),
    ensures
        spec_exclusive(d, phases.push(IrqPhase::Entry { nr })),
{
    let more = phases.push(IrqPhase::Entry { nr });
    assert forall|a: int, b: int|
        0 <= a < more.len() && 0 <= b < more.len() && a != b implies !(spec_in_epilogue(
        #[trigger] more[a],
    ) && spec_in_epilogue(#[trigger] more[b])) by {
        if a < phases.len() {
            assert(more[a] == phases[a]);
        }
        if b < phases.len() {
            assert(more[b] == phases[b]);
        }
    }
    assert forall|a: int| 0 <= a < more.len() && spec_in_epilogue(
        #[trigger] more[a],
    ) implies !d.l2.available by {
        if a < phases.len() {
            assert(more[a] == phases[a]);
        }
    }
}

/// Epilogues never overlap, whenever interrupts come in. Take any number
/// of activations among which the epilogues exclude each other, and step
/// any one of them that the level lets go on, a suspended one needing the
/// level free. Then they still exclude each other afterwards. An epilogue
/// is handed out only to the activation that then has the level, so that
/// no other epilogue is running.
pub proof fn lemma_epilogues_never_overlap(
    d: Dispatch,
    tasks: TaskTable,
    gates: Map<u16, IRQGate>,
    phases: Seq<IrqPhase>,
    i: int,
)
    requires
        spec_exclusive(d, phases),
        0 <= i < phases.len(),
        phases[i] is Suspended ==> d.l2.available,
    ensures
        ({
            let step = spec_handle_irq(d, tasks, gates, phases[i]);
            let after = phases.update(i, step.1);
            &&& spec_exclusive(step.0, after)
            &&& step.2 is RunEpilogue ==> spec_in_epilogue(step.1) && !step.0.l2.available
            &&& step.2 is RunEpilogue ==> forall|j: int|
                0 <= j < after.len() && j != i ==> !spec_in_epilogue(#[trigger] after[j])
        }),
{
    let phase = phases[i];
    let step = spec_handle_irq(d, tasks, gates, phase);
    let after = phases.update(i, step.1);
    match phase {
        IrqPhase::QueuedEpilogue { done } => {
            lemma_round_outcome(d, tasks, done);
        },
        IrqPhase::Suspended { done } => {
            lemma_round_outcome(d, tasks, done);
        },
        IrqPhase::Epilogue => {
            lemma_round_outcome(d, tasks, true);
        },
        _ => {},
    }
    // whoever else had an epilogue running kept the level occupied, so the
    // one that was stepped cannot have entered it
    assert forall|j: int| 0 <= j < after.len() && j != i && spec_in_epilogue(
        #[trigger] after[j],
    ) implies !spec_in_epilogue(step.1) && !step.0.l2.available by {
        assert(after[j] == phases[j]);
        assert(!d.l2.available);
        assert(!spec_in_epilogue(phases[i]));
    }
    assert forall|a: int, b: int|
        0 <= a < after.len() && 0 <= b < after.len() && a != b implies !(spec_in_epilogue(
        #[trigger] after[a],
    ) && spec_in_epilogue(#[trigger] after[b])) by {
        if a != i {
            assert(after[a] == phases[a]);
        }
        if b != i {
            assert(after[b] == phases[b]);
        }
    }
    assert forall|a: int| 0 <= a < after.len() && spec_in_epilogue(
        #[trigger] after[a],
    ) implies !step.0.l2.available by {
        if a != i {
            assert(after[a] == phases[a]);
        }
    }
}

/// The dispatcher and all its activations, with the history of the queue
/// of epilogues: every epilogue that was ever put into the queue, and
/// every epilogue that was ever taken out of it, each in the order in which
/// that happened.
pub struct Activations {
    pub d: Dispatch,
    pub phases: Seq<IrqPhase>,
    pub queued: Seq<EpilogueEntrant>,
    pub served: Seq<EpilogueEntrant>,
}

/// What can happen to the dispatcher and its activations.
pub enum IrqEvent {
    /// An interrupt comes in: there is one more activation.
    Arrival { nr: u16 },
    /// The activation at a place is stepped.
    Step { i: int },
    /// Something outside the dispatcher happens: the hardware, a prologue,
    /// an epilogue or a task changes the processor, the request for a
    /// reschedule, the task that has the processor or the run queue. The
    /// flag of the epilogue level and the queue of epilogues are the
    /// dispatcher's own.
    Outside { cpu: Cpu, need_reschedule: bool, current: Option<TaskId>, run_queue: Seq<TaskId> },
}

impl Activations {
    /// Whether an event can happen: a step needs an activation, and a
    /// suspended activation goes on only while the level is free.
    pub open spec fn admits(self, ev: IrqEvent) -> bool {
        match ev {
            IrqEvent::Step { i } => 0 <= i < self.phases.len() && (self.phases[i] is Suspended
                ==> self.d.l2.available),
            _ => true,
        }
    }

    /// The dispatcher and its activations after an event.
    pub open spec fn after(self, tasks: TaskTable, gates: Map<u16, IRQGate>, ev: IrqEvent)
        -> Activations {
        match ev {
            IrqEvent::Arrival { nr } => Activations {
                phases: self.phases.push(IrqPhase::Entry { nr }),
                ..self
            },
            IrqEvent::Step { i } => Activations {
                d: spec_handle_irq(self.d, tasks, gates, self.phases[i]).0,
                phases: self.phases.update(
                    i,
                    spec_handle_irq(self.d, tasks, gates, self.phases[i]).1,
                ),
                queued: if spec_queues(self.d, self.phases[i]) {
                    self.queued.push(self.phases[i]->Prologue_gate.epilogue_entrant->0)
                } else {
                    self.queued
                },
                served: if spec_serves(self.d, tasks, gates, self.phases[i]) {
                    self.served.push(self.d.epilogues[0])
                } else {
                    self.served
                },
            },
            IrqEvent::Outside { cpu, need_reschedule, current, run_queue } => Activations {
                d: Dispatch { cpu, need_reschedule, current, run_queue, ..self.d },
                ..self
            },
        }
    }

    /// Whether a row of events can happen, one after the other.
    pub open spec fn admits_all(
        self,
        tasks: TaskTable,
        gates: Map<u16, IRQGate>,
        events: Seq<IrqEvent>,
    ) -> bool
        decreases events.len(),
    {
        if events.len() == 0 {
            true
        } else {
            &&& self.admits_all(tasks, gates, events.drop_last())
            &&& self.after_all(tasks, gates, events.drop_last()).admits(events.last())
        }
    }

    /// The dispatcher and its activations after a row of events.
    pub open spec fn after_all(
        self,
        tasks: TaskTable,
        gates: Map<u16, IRQGate>,
        events: Seq<IrqEvent>,
    ) -> Activations
        decreases events.len(),
    {
        if events.len() == 0 {
            self
        } else {
            self.after_all(tasks, gates, events.drop_last()).after(tasks, gates, events.last())
        }
    }

    /// Whether the epilogues are serialized: they exclude each other, and
    /// the epilogues that were taken out of the queue, followed by those
    /// that are in it, are the epilogues that were put into it, in their
    /// order.
    pub open spec fn serialized(self) -> bool {
        &&& spec_exclusive(self.d, self.phases)
        &&& self.served + self.d.epilogues == self.queued
    }
}

/// Epilogues are serialized, whenever the interrupts come in and whatever
/// else happens in between. From a state in which they are serialized, for
/// one with no activation and an empty queue, every row of events that can
/// happen leads to a state in which they are serialized: at no time do two
/// epilogues run, and the epilogues that were queued have left the queue
/// in the order in which they came, each once, but for those that are
/// still in it.
pub proof fn lemma_epilogues_are_serialized(
    sys: Activations,
    tasks: TaskTable,
    gates: Map<u16, IRQGate>,
    events: Seq<IrqEvent>,
)
    requires
        sys.serialized(),
        sys.admits_all(tasks, gates, events),
    ensures
        sys.after_all(tasks, gates, events).serialized(),
    decreases events.len(),
{
    if events.len() > 0 {
        lemma_epilogues_are_serialized(sys, tasks, gates, events.drop_last());
        let before = sys.after_all(tasks, gates, events.drop_last());
        let after = before.after(tasks, gates, events.last());
        match events.last() {
            IrqEvent::Arrival { nr } => {
                lemma_arrival_keeps_exclusive(before.d, before.phases, nr);
            },
            IrqEvent::Step { i } => {
                lemma_epilogues_never_overlap(before.d, tasks, gates, before.phases, i);
                lemma_epilogue_queue_is_fifo(before.d, tasks, gates, before.phases[i]);
                let step = spec_handle_irq(before.d, tasks, gates, before.phases[i]);
                if spec_queues(before.d, before.phases[i]) {
                    assert(!spec_serves(before.d, tasks, gates, before.phases[i]));
                    assert(after.served + after.d.epilogues =~= after.queued);
                } else if spec_serves(before.d, tasks, gates, before.phases[i]) {
                    assert(after.served + after.d.epilogues =~= before.served
                        + before.d.epilogues);
                } else {
                    assert(after.served + after.d.epilogues =~= after.queued);
                }
            },
            IrqEvent::Outside { cpu, need_reschedule, current, run_queue } => {
                assert(spec_exclusive(after.d, after.phases));
            },
        }
    }
}

/// Whether the round of an activation can end: the activation holds the
/// epilogue level, interrupts are enabled, and where a reschedule was asked
/// for the scheduler can make its step.
pub open spec fn can_end_round(k: &Kernel) -> bool {
    &&& k.l2.can_leave()
    &&& is_int_enabled(&k.cpu)
    &&& k.need_reschedule ==> Scheduler::can_schedule(&k.tasks, k.scheduler@.run_queue@)
}

/// Whether an activation can look for the next queued epilogue: as
/// [`can_end_round`], but the scheduler is only asked for where the queue
/// of epilogues is empty.
pub open spec fn can_drain(k: &Kernel) -> bool {
    &&& k.l2.can_leave()
    &&& is_int_enabled(&k.cpu)
    &&& k.epilogue_queue@.queue@.len() == 0 && k.need_reschedule ==> Scheduler::can_schedule(
        &k.tasks,
        k.scheduler@.run_queue@,
    )
}

/// Whether an activation can go on after the reschedule check: the epilogue
/// level is free, interrupts are enabled, and the scheduler can make its
/// step where it will be asked for.
pub open spec fn can_resume(k: &Kernel, done: bool) -> bool {
    &&& k.l2.can_enter()
    &&& is_int_enabled(&k.cpu)
    &&& !done && k.epilogue_queue@.queue@.len() == 0 && k.need_reschedule
        ==> Scheduler::can_schedule(&k.tasks, k.scheduler@.run_queue@)
}

/// Whether an activation in this phase can be stepped. An interrupt comes
/// in with interrupts disabled and for a vector that has a gate, and a
/// prologue leaves interrupts disabled. In the later phases the activation
/// holds the epilogue level, or finds it free after it was suspended,
/// interrupts are enabled, and the scheduler can make its step where the
/// activation will ask for it.
pub open spec fn can_handle_irq(k: &Kernel, phase: IrqPhase) -> bool {
    match phase {
        IrqPhase::Entry { nr } => !is_int_enabled(&k.cpu) && k.gates@.contains_key(nr),
        IrqPhase::Prologue { gate } => !is_int_enabled(&k.cpu),
        IrqPhase::Epilogue => can_drain(k),
        IrqPhase::QueuedEpilogue { done } => can_end_round(k),
        IrqPhase::Suspended { done } => can_resume(k, done),
        IrqPhase::Returned => true,
    }
}

/// What a step of the dispatcher leaves alone: the tasks but for the one
/// that has the processor, the clock, the sleepers and the gates.
pub open spec fn dispatch_frame(before: &Kernel, after: &Kernel) -> bool {
    &&& after.tasks.slots == before.tasks.slots
    &&& after.scheduler@.need_schedule == before.scheduler@.need_schedule
    &&& after.clock == before.clock
    &&& after.bellringer == before.bellringer
    &&& after.gates == before.gates
}

fn after_prologue(k: &mut Kernel, gate: IRQGate) -> (r: (IrqPhase, IrqAction))
    requires
        !is_int_enabled(&old(k).cpu),
    ensures
        (final(k).dispatch(), r.0, r.1) == spec_after_prologue(old(k).dispatch(), gate),
        dispatch_frame(old(k), final(k)),
        r.1 is RunEpilogue ==> !final(k).l2.available && is_int_enabled(&final(k).cpu),
        Scheduler::consistent(&old(k).tasks, old(k).scheduler@.run_queue@) ==>
            Scheduler::consistent(
            &final(k).tasks,
            final(k).scheduler@.run_queue@,
        ),
{
    proof {
        lemma_int_flag(k.cpu);
    }
    let epi = gate.get_epilogue();
    if epi.is_none() {
        return (IrqPhase::Returned, IrqAction::Return);
    }
    let epi = epi.unwrap();
    if !IS_L2_AVAILABLE(&k.l2) {
        k.epilogue_queue.l3_get_ref_mut(&k.cpu).queue.push_back(epi);
        return (IrqPhase::Returned, IrqAction::Return);
    }
    // the epilogue level is free: the epilogue runs now, and this
    // activation clears the queue on behalf of the others before it returns
    ENTER_L2(&mut k.l2);
    interrupt_enable(&mut k.cpu);
    (IrqPhase::Epilogue, IrqAction::RunEpilogue(epi.call()))
}

fn drain(k: &mut Kernel) -> (r: (IrqPhase, IrqAction))
    requires
        can_drain(old(k)),
    ensures
        (final(k).dispatch(), r.0, r.1) == spec_drain(old(k).dispatch(), old(k).tasks),
        dispatch_frame(old(k), final(k)),
        r.1 is RunEpilogue ==> !final(k).l2.available && is_int_enabled(&final(k).cpu),
        r.0 is Returned ==> final(k).l2.available,
        Scheduler::consistent(&old(k).tasks, old(k).scheduler@.run_queue@) ==>
            Scheduler::consistent(
            &final(k).tasks,
            final(k).scheduler@.run_queue@,
        ),
    decreases 2int,
{
    proof {
        lemma_irq_save_restore(k.cpu);
    }
    // changing the queue of epilogues is a level 3 section
    let r = irq_save(&mut k.cpu);
    let rq = k.epilogue_queue.l3_get_ref_mut(&k.cpu);
    let epi = rq.queue.pop_front();
    let done = rq.queue.len() == 0;
    irq_restore(&mut k.cpu, r);
    assert(old(k).epilogue_queue@.queue@.len() > 0 ==> old(k).epilogue_queue@.queue@.subrange(
        1,
        old(k).epilogue_queue@.queue@.len() as int,
    ) == old(k).epilogue_queue@.queue@.drop_first());
    if let Some(e) = epi {
        return (IrqPhase::QueuedEpilogue { done }, IrqAction::RunEpilogue(e.call()));
    }
    round_end(k, true)
}

fn round_end(k: &mut Kernel, done: bool) -> (r: (IrqPhase, IrqAction))
    requires
        can_end_round(old(k)),
    ensures
        (final(k).dispatch(), r.0, r.1) == spec_round_end(old(k).dispatch(), old(k).tasks, done),
        dispatch_frame(old(k), final(k)),
        r.1 is RunEpilogue ==> !final(k).l2.available && is_int_enabled(&final(k).cpu),
        r.0 is Returned ==> final(k).l2.available,
        Scheduler::consistent(&old(k).tasks, old(k).scheduler@.run_queue@) ==>
            Scheduler::consistent(
            &final(k).tasks,
            final(k).scheduler@.run_queue@,
        ),
    decreases
            (if done {
                1int
            } else {
                4int
            }),
{
    // the processor may change hands here, between two epilogues: a
    // reschedule waits for one epilogue at most
    LEAVE_L2(&mut k.l2);
    let sw = Scheduler::try_reschedule(
        &mut k.cpu,
        &mut k.need_reschedule,
        &mut k.tasks,
        &mut k.scheduler,
    );
    if sw != Switch::Stay {
        return (IrqPhase::Suspended { done }, IrqAction::Switch(sw));
    }
    resume(k, done)
}

fn resume(k: &mut Kernel, done: bool) -> (r: (IrqPhase, IrqAction))
    requires
        can_resume(old(k), done),
    ensures
        (final(k).dispatch(), r.0, r.1) == spec_resume(old(k).dispatch(), old(k).tasks, done),
        dispatch_frame(old(k), final(k)),
        r.1 is RunEpilogue ==> !final(k).l2.available && is_int_enabled(&final(k).cpu),
        r.0 is Returned ==> final(k).l2.available,
        Scheduler::consistent(&old(k).tasks, old(k).scheduler@.run_queue@) ==>
            Scheduler::consistent(
            &final(k).tasks,
            final(k).scheduler@.run_queue@,
        ),
    decreases
            (if done {
                0int
            } else {
                3int
            }),
{
    ENTER_L2(&mut k.l2);
    if done {
        LEAVE_L2(&mut k.l2);
        return (IrqPhase::Returned, IrqAction::Return);
    }
    drain(k)
}

/// One step of an activation of the interrupt dispatcher.
///
/// An interrupt is served in two phases. Its prologue runs at once, with
/// interrupts disabled. Its epilogue, if it has one, runs with
/// interrupts enabled, but never while another epilogue runs: where the
/// epilogue level is occupied the epilogue is queued, and the activation
/// that occupies the level runs it later. That activation takes the queued
/// epilogues out one by one, and between two of them it leaves the level
/// for a moment and lets the scheduler look at the request for a
/// reschedule.
///
/// The caller starts an activation in the phase `Entry`, does what each
/// step hands back, and steps again until the activation has returned.
pub fn handle_irq(k: &mut Kernel, phase: IrqPhase) -> (r: (IrqPhase, IrqAction))
    requires
        can_handle_irq(old(k), phase),
    ensures
        (final(k).dispatch(), r.0, r.1) == spec_handle_irq(
            old(k).dispatch(),
            old(k).tasks,
            old(k).gates@,
            phase,
        ),
        dispatch_frame(old(k), final(k)),
        // an epilogue never starts while another one has the epilogue level
        phase is Prologue && !old(k).l2.available ==> r.1 == IrqAction::Return,
        r.1 is RunEpilogue ==> !final(k).l2.available && is_int_enabled(&final(k).cpu),
        // the activation that has entered the epilogue level leaves it before
        // it returns
        (phase is Epilogue || phase is QueuedEpilogue || phase is Suspended) && r.0 is Returned
            ==> final(k).l2.available,
        // an activation that finds the level occupied leaves it alone
        phase is Prologue && r.0 is Returned ==> final(k).l2 == old(k).l2,
        // the invariant of the kernel is kept
        old(k).inv() ==> final(k).inv(),
        Scheduler::consistent(&old(k).tasks, old(k).scheduler@.run_queue@) ==>
            Scheduler::consistent(
            &final(k).tasks,
            final(k).scheduler@.run_queue@,
        ),
{
    broadcast use vstd::std_specs::btree::group_btree_axioms;

    match phase {
        IrqPhase::Entry { nr } => {
            let gate = *k.gates.get(&nr).unwrap();
            (IrqPhase::Prologue { gate }, IrqAction::RunPrologue(gate.call_prologue()))
        },
        IrqPhase::Prologue { gate } => {
            proof {
                lemma_int_flag(k.cpu);
            }
            after_prologue(k, gate)
        },
        IrqPhase::Epilogue => drain(k),
        IrqPhase::QueuedEpilogue { done } => round_end(k, done),
        IrqPhase::Suspended { done } => resume(k, done),
        IrqPhase::Returned => (IrqPhase::Returned, IrqAction::Return),
    }
}

/// What is to be done about an exception.
#[derive(Copy, Clone, Debug, PartialEq, Eq, Structural)]
pub enum Fault {
    /// A page fault: the address that was touched, and the error code
    /// that the processor pushed.
    PageFault { fault_addr: u64, err_code: u64 },
    /// Any other exception: the machine halts.
    Halt { nr: u16 },
}

/// Where a trap goes. A trap has been served when its exception has been
/// handled or its activation of the dispatcher has returned; it then ends
/// with [`trap_exit`].
#[derive(Copy, Clone, Debug, PartialEq, Eq, Structural)]
pub enum Trap {
    /// An exception or fault.
    Exception(Fault),
    /// A device interrupt: an activation of the dispatcher, to be stepped
    /// with [`handle_irq`].
    Irq(IrqPhase),
}

/// The first vector of the device interrupts; the vectors below it are
/// exceptions.
pub const FIRST_IRQ: u16 = 0x20;

/// The entry of every trap: a vector below the first device interrupt is
/// an exception, for which no gate is looked up and no prologue is run; any
/// other vector starts an activation of the dispatcher. The processor is
/// left as it is: a trap comes in with interrupts disabled, and they stay
/// so until the trap has been served. The trap then ends with
/// [`trap_exit`].
pub fn trap_gate(cpu: &Cpu, nr: u16, frame: &TrapFrame) -> (trap: Trap)
    ensures
        trap == (if nr < FIRST_IRQ {
            Trap::Exception(spec_handle_exception(cpu, nr, frame))
        } else {
            Trap::Irq(IrqPhase::Entry { nr })
        }),
{
    if nr < FIRST_IRQ {
        Trap::Exception(handle_exception(cpu, nr, frame))
    } else {
        Trap::Irq(IrqPhase::Entry { nr })
    }
}

/// The processor when a trap has ended: interrupts are enabled, and
/// nothing else has changed.
pub open spec fn spec_trap_exit(cpu: Cpu) -> Cpu {
    cpu.with_int_enabled()
}

/// The exit of every trap. When the trap has been served, be it an
/// exception or a device interrupt, with or without an epilogue, the
/// dispatcher enables interrupts, whatever the interrupt flag was: an
/// activation that has run epilogues returns with interrupts enabled, one
/// that has only run a prologue or has queued its epilogue returns with
/// interrupts disabled, and either way they are enabled from here on.
pub fn trap_exit(cpu: &mut Cpu)
    ensures
        *final(cpu) == spec_trap_exit(*old(cpu)),
        *final(cpu) == old(cpu).with_int_enabled(),
        is_int_enabled(final(cpu)),
{
    interrupt_enable(cpu);
}

/// A trap that has been served ends with interrupts enabled. Whatever step
/// of the dispatcher has made the activation return, and whatever the
/// exception was, the exit of the trap leaves a processor that accepts
/// interrupts and is otherwise as the step or the exception left it.
pub proof fn lemma_served_trap_ends_enabled(
    d: Dispatch,
    tasks: TaskTable,
    gates: Map<u16, IRQGate>,
    phase: IrqPhase,
    cpu: Cpu,
)
    ensures
        spec_is_int_enabled(&spec_trap_exit(spec_handle_irq(d, tasks, gates, phase).0.cpu)),
        spec_is_int_enabled(&spec_trap_exit(cpu)),
        spec_trap_exit(cpu).cr2 == cpu.cr2,
        spec_trap_exit(cpu).cr3 == cpu.cr3,
        spec_trap_exit(cpu).with_int_disabled() == cpu.with_int_disabled(),
        spec_is_int_enabled(&cpu) ==> spec_trap_exit(cpu) == cpu,
{
    lemma_int_flag(cpu);
    lemma_int_flag(spec_handle_irq(d, tasks, gates, phase).0.cpu);
}

/// What is to be done about an exception: a page fault is looked at with
/// the address that was touched, anything else halts the machine.
pub open spec fn spec_handle_exception(cpu: &Cpu, nr: u16, frame: &TrapFrame) -> Fault {
    if nr == IntNumber::PAGEFAULT {
        Fault::PageFault { fault_addr: cpu.cr2, err_code: frame.err_code }
    } else {
        Fault::Halt { nr }
    }
}

/// Handle an exception, that is a trap with a vector below 32.
#[inline]
#[verifier::when_used_as_spec(spec_handle_exception)]
pub fn handle_exception(cpu: &Cpu, nr: u16, frame: &TrapFrame) -> (fault: Fault)
    ensures
        fault == spec_handle_exception(cpu, nr, frame),
{
    if nr == IntNumber::PAGEFAULT {
        let fault_address = get_fault_addr(cpu);
        Fault::PageFault { fault_addr: fault_address, err_code: frame.err_code }
    } else {
        Fault::Halt { nr }
    }
}

/// The address whose access caused the page fault.
#[inline]
pub fn get_fault_addr(cpu: &Cpu) -> (addr: u64)
    ensures
        addr == cpu.cr2,
{
    cpu.cr2
}

/// The writes to the ports of the interrupt controller that program it
/// anew, and the content of the interrupt descriptor table. The entry
/// routines must lie within the range of addresses.
pub fn init(vectors_start: u64) -> (r: (Vec<idt::GateDescriptor64>, Vec<PortWrite>))
    requires
        vectors_start + HWDefs::IDT_VALID * HWDefs::VECTOR_SIZE <= u64::MAX,
    ensures
        r.0@.len() == HWDefs::IDT_CAPACITY,
        forall|i: int|
            0 <= i < HWDefs::IDT_CAPACITY ==> {
                &&& (#[trigger] r.0@[i]).spec_offset() == idt::spec_vector_offset(vectors_start, i)
                &&& r.0@[i].selector == 0x10
                &&& r.0@[i].attrs == 0x8e
                &&& r.0@[i].ist == 0
                &&& r.0@[i].res0 == 0
            },
        r.1@ == pic_8259::spec_init(),
{
    let table = idt::init(vectors_start);
    let writes = pic_8259::init();
    (table, writes)
}

} // verus!
