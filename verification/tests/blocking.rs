use rustubs::arch::x86_64::interrupt::{
    handle_irq, interrupt_disable, interrupt_enable, IrqAction, IrqPhase,
};
use rustubs::arch::x86_64::{is_int_enabled, Cpu};
use rustubs::machine::time::{msec, nsec, sec, tick, Clock};
use rustubs::proc::sched::{Scheduler, Switch};
use rustubs::proc::sync::bellringer::{BellRinger, Sleeper};
use rustubs::proc::sync::irq::{EpilogueEntrant, IRQGate, Routine};
use rustubs::proc::sync::semaphore::{PStep, ResourceMan, Semaphore, SleepSemaphore, SpinSemaphore};
use rustubs::proc::sync::{Level2, L2Sync, L3Sync, IS_L2_AVAILABLE, LEAVE_L2};
use rustubs::proc::task::{Task, TaskId, TaskState, TaskTable};
use rustubs::proc::{create_tasks, init, spawn, Kernel};
use std::collections::{BTreeMap, VecDeque};

const X: u64 = 0xffff_8030_0001_0000;
const Y: u64 = 0xffff_8030_0001_4000;
const Z: u64 = 0xffff_8030_0001_8000;

fn kernel_with(stacks: &[u64], gates: BTreeMap<u16, IRQGate>) -> Kernel {
    let mut k = Kernel::new(gates);
    init(&mut k);
    let mut pid = 1;
    for sp in stacks {
        let (tid, _) = Task::create_task(&mut k.tasks, *sp, pid, 0x2000);
        k.scheduler.get_ref_mut_unguarded().insert_task(tid);
        pid += 1;
    }
    if !stacks.is_empty() {
        Scheduler::kickoff(&mut k.cpu, &mut k.l2, &mut k.tasks, &mut k.scheduler);
        LEAVE_L2(&mut k.l2);
        interrupt_enable(&mut k.cpu);
    }
    k
}

fn run_queue(k: &Kernel) -> Vec<u64> {
    k.scheduler.get_ref_unguarded().run_queue.iter().map(|t| t.0).collect()
}

#[test]
fn p_blocks_until_v_hands_the_item_over() {
    let mut k = kernel_with(&[X, Y], BTreeMap::new());
    let mut sem: SleepSemaphore<VecDeque<u32>> = SleepSemaphore::new(VecDeque::new());
    assert_eq!(sem.sema, 0);
    // X tries and has to wait
    let step: PStep<u32> = sem.p_unguarded(&mut k.cpu, &mut k.l2, &mut k.tasks, &mut k.scheduler);
    match step {
        PStep::Blocked(sw) => assert_eq!(sw, Switch::Swap { from: TaskId(X), to: TaskId(Y) }),
        PStep::Acquired(_) => panic!("the count was zero"),
    }
    assert_eq!(k.tasks.state(TaskId(X)), Some(TaskState::Wait));
    assert_eq!(run_queue(&k), Vec::<u64>::new());
    assert_eq!(Task::current(&k.tasks), Some(TaskId(Y)));
    // Y continues and leaves the epilogue level
    LEAVE_L2(&mut k.l2);
    assert!(is_int_enabled(&k.cpu));
    // Y produces
    sem.v_unguarded(&mut k.cpu, &mut k.tasks, &mut k.scheduler, 42u32);
    assert_eq!(sem.sema, 1);
    assert_eq!(k.tasks.state(TaskId(X)), Some(TaskState::Run));
    assert_eq!(run_queue(&k), vec![X]);
    // Y gives the processor away and X tries again
    let sw = Scheduler::yield_cpu(&mut k.cpu, &mut k.l2, &mut k.tasks, &mut k.scheduler);
    assert_eq!(sw, Switch::Swap { from: TaskId(Y), to: TaskId(X) });
    LEAVE_L2(&mut k.l2);
    let step: PStep<u32> = sem.p_unguarded(&mut k.cpu, &mut k.l2, &mut k.tasks, &mut k.scheduler);
    match step {
        PStep::Acquired(item) => assert_eq!(item, Some(42)),
        PStep::Blocked(_) => panic!("the count was one"),
    }
    assert_eq!(sem.sema, 0);
    assert!(sem.resource_pool.is_empty());
}

#[test]
fn v_without_waiters_only_counts() {
    let mut k = kernel_with(&[X, Y], BTreeMap::new());
    let mut sem: SleepSemaphore<VecDeque<u8>> = SleepSemaphore::new(VecDeque::new());
    sem.v_unguarded(&mut k.cpu, &mut k.tasks, &mut k.scheduler, 1);
    sem.v_unguarded(&mut k.cpu, &mut k.tasks, &mut k.scheduler, 2);
    assert_eq!(sem.sema, 2);
    assert_eq!(k.tasks.state(TaskId(X)), Some(TaskState::Run));
    assert_eq!(k.tasks.state(TaskId(Y)), Some(TaskState::Run));
    assert_eq!(run_queue(&k), vec![Y]);
    let step: PStep<u8> = sem.p_unguarded(&mut k.cpu, &mut k.l2, &mut k.tasks, &mut k.scheduler);
    assert!(matches!(step, PStep::Acquired(Some(1))));
    let step: PStep<u8> = sem.p_unguarded(&mut k.cpu, &mut k.l2, &mut k.tasks, &mut k.scheduler);
    assert!(matches!(step, PStep::Acquired(Some(2))));
    assert_eq!(sem.sema, 0);
}

#[test]
fn v_wakes_the_oldest_waiter_only() {
    let mut k = kernel_with(&[X, Y, Z], BTreeMap::new());
    let mut sem: SleepSemaphore<VecDeque<u8>> = SleepSemaphore::new(VecDeque::new());
    let _: PStep<u8> = sem.p_unguarded(&mut k.cpu, &mut k.l2, &mut k.tasks, &mut k.scheduler);
    LEAVE_L2(&mut k.l2);
    let _: PStep<u8> = sem.p_unguarded(&mut k.cpu, &mut k.l2, &mut k.tasks, &mut k.scheduler);
    LEAVE_L2(&mut k.l2);
    assert_eq!(Task::current(&k.tasks), Some(TaskId(Z)));
    assert_eq!(sem.wait_room.l3_get_ref_mut_unchecked().len(), 2);
    sem.v_unguarded(&mut k.cpu, &mut k.tasks, &mut k.scheduler, 9);
    assert_eq!(k.tasks.state(TaskId(X)), Some(TaskState::Run));
    assert_eq!(k.tasks.state(TaskId(Y)), Some(TaskState::Wait));
    assert_eq!(run_queue(&k), vec![X]);
    assert_eq!(sem.wait_room.l3_get_ref_mut_unchecked().len(), 1);
    assert_eq!(sem.wait_room.l3_get_ref_mut_unchecked()[0], TaskId(Y));
}

#[test]
fn count_wraps_at_the_end_of_its_range() {
    let mut k = kernel_with(&[X], BTreeMap::new());
    let mut sem: SleepSemaphore<VecDeque<u8>> = SleepSemaphore::new(VecDeque::new());
    sem.sema = u64::MAX;
    sem.v_unguarded(&mut k.cpu, &mut k.tasks, &mut k.scheduler, 1);
    assert_eq!(sem.sema, 0);
}

#[test]
fn queue_is_a_resource_manager() {
    let mut q: VecDeque<u16> = VecDeque::new();
    assert_eq!(q.get_resource(), None);
    assert!(q.insert_resource(5));
    assert!(q.insert_resource(6));
    assert_eq!(q.get_resource(), Some(5));
    assert_eq!(q.get_resource(), Some(6));
    assert_eq!(q.get_resource(), None);
}

#[test]
fn sleeper_sleeps_until_its_deadline() {
    let mut k = kernel_with(&[X, Y], BTreeMap::new());
    k.clock.ns = 1_000;
    let sw = Task::nanosleep(
        &k.clock,
        &mut k.cpu,
        &mut k.l2,
        &mut k.bellringer,
        &mut k.tasks,
        &mut k.scheduler,
        500,
    );
    assert_eq!(sw, Switch::Swap { from: TaskId(X), to: TaskId(Y) });
    LEAVE_L2(&mut k.l2);
    assert_eq!(k.tasks.state(TaskId(X)), Some(TaskState::Wait));
    {
        let bedroom = &k.bellringer.l3_get_ref_mut_unchecked().bedroom;
        assert_eq!(bedroom.len(), 1);
        assert_eq!(bedroom[0].tid, TaskId(X));
        assert_eq!(bedroom[0].until, 1_500);
    }
    // one nanosecond early
    k.clock.ns = 1_499;
    BellRinger::check_all(&k.clock, &mut k.cpu, &mut k.bellringer, &mut k.tasks, &mut k.scheduler);
    assert_eq!(k.tasks.state(TaskId(X)), Some(TaskState::Wait));
    assert_eq!(k.bellringer.l3_get_ref_mut_unchecked().bedroom.len(), 1);
    assert_eq!(run_queue(&k), Vec::<u64>::new());
    // on time
    k.clock.ns = 1_500;
    BellRinger::check_all(&k.clock, &mut k.cpu, &mut k.bellringer, &mut k.tasks, &mut k.scheduler);
    assert_eq!(k.tasks.state(TaskId(X)), Some(TaskState::Run));
    assert_eq!(k.bellringer.l3_get_ref_mut_unchecked().bedroom.len(), 0);
    assert_eq!(run_queue(&k), vec![X]);
    assert!(is_int_enabled(&k.cpu));
}

#[test]
fn check_all_keeps_the_order_of_those_who_stay() {
    let mut k = kernel_with(&[X, Y, Z], BTreeMap::new());
    k.tasks.set_state(TaskId(Y), TaskState::Wait);
    k.tasks.set_state(TaskId(Z), TaskState::Wait);
    k.scheduler.get_ref_mut_unguarded().run_queue.clear();
    let entries = [(Y, 300u64), (Z, 100), (Y, 50), (X, 10), (Z, 400)];
    for (t, until) in entries {
        BellRinger::check_in(&mut k.cpu, &mut k.bellringer, Sleeper { tid: TaskId(t), until });
    }
    k.clock.ns = 100;
    BellRinger::check_all(&k.clock, &mut k.cpu, &mut k.bellringer, &mut k.tasks, &mut k.scheduler);
    let left: Vec<(u64, u64)> = k
        .bellringer
        .l3_get_ref_mut_unchecked()
        .bedroom
        .iter()
        .map(|s| (s.tid.0, s.until))
        .collect();
    assert_eq!(left, vec![(Y, 300), (Z, 400)]);
    // Z and Y were woken in the order of the list; X did not wait
    assert_eq!(run_queue(&k), vec![Z, Y]);
    assert_eq!(k.tasks.state(TaskId(Y)), Some(TaskState::Run));
    assert_eq!(k.tasks.state(TaskId(Z)), Some(TaskState::Run));
}

#[test]
fn sleeper_new_adds_to_the_clock() {
    let clock = Clock { ns: 7 };
    let s = Sleeper::new(&clock, TaskId(X), 13);
    assert_eq!(s.until, 20);
    assert_eq!(s.tid, TaskId(X));
}

#[test]
fn clock_ticks_in_fixed_steps() {
    let mut clock = Clock::new();
    assert_eq!(tick(&mut clock), 0);
    assert_eq!(tick(&mut clock), 19_999_708);
    assert_eq!(nsec(&clock), 39_999_416);
    clock.ns = 3_999_999_999;
    assert_eq!(sec(&clock), 3);
    assert_eq!(msec(&clock), 3_999);
    clock.ns = u64::MAX;
    tick(&mut clock);
    assert_eq!(nsec(&clock), 19_999_707);
}

fn gate(prologue: u64, epilogue: Option<u64>) -> IRQGate {
    IRQGate {
        prologue: Routine(prologue),
        epilogue_entrant: epilogue.map(|e| EpilogueEntrant { epilogue: Routine(e) }),
    }
}

#[test]
fn second_epilogue_waits_for_the_first() {
    let mut gates = BTreeMap::new();
    gates.insert(0x20u16, gate(1, Some(2)));
    gates.insert(0x21u16, gate(3, Some(4)));
    let mut k = kernel_with(&[X], gates);
    let mut log = Vec::new();
    // the first interrupt
    interrupt_disable(&mut k.cpu);
    let (p1, a) = handle_irq(&mut k, IrqPhase::Entry { nr: 0x20 });
    assert_eq!(a, IrqAction::RunPrologue(Routine(1)));
    let (p1, a) = handle_irq(&mut k, p1);
    assert_eq!(a, IrqAction::RunEpilogue(Routine(2)));
    assert!(!IS_L2_AVAILABLE(&k.l2));
    assert!(is_int_enabled(&k.cpu));
    log.push("first epilogue starts");
    // the second interrupt, while the first epilogue runs
    interrupt_disable(&mut k.cpu);
    let (p2, a) = handle_irq(&mut k, IrqPhase::Entry { nr: 0x21 });
    assert_eq!(a, IrqAction::RunPrologue(Routine(3)));
    let (p2, a) = handle_irq(&mut k, p2);
    assert_eq!(a, IrqAction::Return);
    assert_eq!(p2, IrqPhase::Returned);
    assert_eq!(k.epilogue_queue.l3_get_ref_mut_unchecked().queue.len(), 1);
    interrupt_enable(&mut k.cpu);
    log.push("first epilogue ends");
    // the first epilogue is over
    let (p1, a) = handle_irq(&mut k, p1);
    assert_eq!(a, IrqAction::RunEpilogue(Routine(4)));
    assert_eq!(p1, IrqPhase::QueuedEpilogue { done: true });
    log.push("second epilogue starts");
    log.push("second epilogue ends");
    let (p1, a) = handle_irq(&mut k, p1);
    assert_eq!(a, IrqAction::Return);
    assert_eq!(p1, IrqPhase::Returned);
    assert!(IS_L2_AVAILABLE(&k.l2));
    assert_eq!(k.epilogue_queue.l3_get_ref_mut_unchecked().queue.len(), 0);
    assert_eq!(
        log,
        vec![
            "first epilogue starts",
            "first epilogue ends",
            "second epilogue starts",
            "second epilogue ends"
        ]
    );
    assert_eq!(handle_irq(&mut k, p1), (IrqPhase::Returned, IrqAction::Return));
}

#[test]
fn gate_without_epilogue_returns_after_the_prologue() {
    let mut gates = BTreeMap::new();
    gates.insert(0x22u16, gate(5, None));
    let mut k = kernel_with(&[X], gates);
    interrupt_disable(&mut k.cpu);
    let (p, a) = handle_irq(&mut k, IrqPhase::Entry { nr: 0x22 });
    assert_eq!(a, IrqAction::RunPrologue(Routine(5)));
    assert_eq!(p, IrqPhase::Prologue { gate: gate(5, None) });
    let (p, a) = handle_irq(&mut k, p);
    assert_eq!((p, a), (IrqPhase::Returned, IrqAction::Return));
    assert!(!is_int_enabled(&k.cpu));
    assert!(IS_L2_AVAILABLE(&k.l2));
}

#[test]
fn reschedule_happens_between_epilogues() {
    let mut gates = BTreeMap::new();
    gates.insert(0x20u16, gate(1, Some(2)));
    let mut k = kernel_with(&[X, Y], gates);
    interrupt_disable(&mut k.cpu);
    let (p, _) = handle_irq(&mut k, IrqPhase::Entry { nr: 0x20 });
    // the prologue of the timer asks for a reschedule
    k.need_reschedule = true;
    let (p, a) = handle_irq(&mut k, p);
    assert_eq!(a, IrqAction::RunEpilogue(Routine(2)));
    // the queue is empty: the round ends, and the processor changes hands
    let (p, a) = handle_irq(&mut k, p);
    assert_eq!(a, IrqAction::Switch(Switch::Swap { from: TaskId(X), to: TaskId(Y) }));
    assert_eq!(p, IrqPhase::Suspended { done: true });
    assert!(IS_L2_AVAILABLE(&k.l2));
    assert!(!k.need_reschedule);
    assert_eq!(run_queue(&k), vec![X]);
    // X gets the processor back later and the activation finishes
    Scheduler::do_schedule(&mut k.cpu, &mut k.tasks, &mut k.scheduler);
    let (p, a) = handle_irq(&mut k, p);
    assert_eq!((p, a), (IrqPhase::Returned, IrqAction::Return));
    assert!(IS_L2_AVAILABLE(&k.l2));
}

#[test]
fn l3_cell_hands_out_its_data() {
    let cpu = Cpu::new();
    let mut cell = L3Sync::new(5u8);
    assert_eq!(*cell.l3_get_ref(&cpu), 5);
    *cell.l3_get_ref_mut(&cpu) = 6;
    assert_eq!(*cell.l3_get_ref(&cpu), 6);
    let mut l2 = Level2::new();
    let mut cell2 = L2Sync::new(1u8);
    let g = cell2.lock(&mut l2);
    *cell2.get_ref_mut(&g) = 2;
    g.unlock(&mut l2);
    assert_eq!(*cell2.get_ref_unguarded(), 2);
}

#[test]
fn guarded_ends_behave_like_the_unguarded_ones() {
    let mut k = kernel_with(&[X, Y], BTreeMap::new());
    let mut sem: SleepSemaphore<VecDeque<u8>> = SleepSemaphore::new(VecDeque::new());
    sem.v(&mut k.cpu, &mut k.l2, &mut k.tasks, &mut k.scheduler, 3);
    assert!(IS_L2_AVAILABLE(&k.l2));
    assert_eq!(sem.sema, 1);
    let step: PStep<u8> = sem.p(&mut k.cpu, &mut k.l2, &mut k.tasks, &mut k.scheduler);
    assert!(matches!(step, PStep::Acquired(Some(3))));
    assert!(IS_L2_AVAILABLE(&k.l2));
    let step: PStep<u8> = sem.p(&mut k.cpu, &mut k.l2, &mut k.tasks, &mut k.scheduler);
    assert!(matches!(step, PStep::Blocked(Switch::Swap { .. })));
    assert!(!IS_L2_AVAILABLE(&k.l2));
}

#[test]
fn spinning_semaphore_never_sleeps() {
    let mut k = kernel_with(&[X, Y], BTreeMap::new());
    let mut sem: SpinSemaphore<VecDeque<u8>> = SpinSemaphore::new(VecDeque::new());
    let step: PStep<u8> = sem.p(&mut k.cpu, &mut k.l2, &mut k.tasks, &mut k.scheduler);
    assert!(matches!(step, PStep::Blocked(Switch::Stay)));
    assert_eq!(k.tasks.state(TaskId(X)), Some(TaskState::Run));
    assert_eq!(run_queue(&k), vec![Y]);
    sem.v(&mut k.cpu, &mut k.l2, &mut k.tasks, &mut k.scheduler, 8);
    assert_eq!(sem.sema, 1);
    let step: PStep<u8> = sem.p(&mut k.cpu, &mut k.l2, &mut k.tasks, &mut k.scheduler);
    assert!(matches!(step, PStep::Acquired(Some(8))));
    assert_eq!(sem.sema, 0);
}

#[test]
fn boot_creates_the_four_threads_in_order() {
    let mut k = Kernel::new(BTreeMap::new());
    let stacks = [X, Y, Z, Z + 0x4000];
    let words = create_tasks(&mut k, &stacks);
    assert_eq!(run_queue(&k), stacks.to_vec());
    assert_eq!(words.len(), 8);
    assert_eq!(words[0], (X + 0x4000 - 8, 0));
    assert_eq!(words[1].0, X + 0x4000 - 16);
    assert_eq!(words[7].0, Z + 0x8000 - 16);
    for (i, sp) in stacks.iter().enumerate() {
        let t = TaskId(*sp).get_task_ref(&k.tasks);
        assert_eq!(t.pid as usize, i + 1);
        assert_eq!(t.state, TaskState::Run);
    }
    assert!(IS_L2_AVAILABLE(&k.l2));
    let (tid, words) = spawn(&mut k, Z + 0x8000, 9, 0x77);
    assert_eq!(tid, TaskId(Z + 0x8000));
    assert_eq!(words[1], (Z + 0xc000 - 16, 0x77));
    assert_eq!(run_queue(&k).len(), 5);
    assert_eq!(Task::current(&k.tasks), None);
}

#[test]
fn queued_epilogues_run_oldest_first() {
    let mut gates = BTreeMap::new();
    for (nr, pro, epi) in [(0x20u16, 1, 2), (0x21, 3, 4), (0x22, 5, 6), (0x23, 7, 8)] {
        gates.insert(nr, gate(pro, Some(epi)));
    }
    let mut k = kernel_with(&[X], gates);
    interrupt_disable(&mut k.cpu);
    let (first, _) = handle_irq(&mut k, IrqPhase::Entry { nr: 0x20 });
    let (mut first, a) = handle_irq(&mut k, first);
    assert_eq!(a, IrqAction::RunEpilogue(Routine(2)));
    // three more interrupts come in while the first epilogue runs
    for nr in [0x22u16, 0x21, 0x23] {
        interrupt_disable(&mut k.cpu);
        let (p, _) = handle_irq(&mut k, IrqPhase::Entry { nr });
        assert_eq!(handle_irq(&mut k, p), (IrqPhase::Returned, IrqAction::Return));
        interrupt_enable(&mut k.cpu);
    }
    let mut ran = Vec::new();
    loop {
        let (p, a) = handle_irq(&mut k, first);
        first = p;
        match a {
            IrqAction::RunEpilogue(r) => {
                assert!(!IS_L2_AVAILABLE(&k.l2));
                ran.push(r.0);
            }
            IrqAction::Return => break,
            other => panic!("nothing else is due: {:?}", other),
        }
    }
    assert_eq!(ran, vec![6, 4, 8]);
    assert!(IS_L2_AVAILABLE(&k.l2));
}

#[test]
fn unguarded_attempt_on_a_spinning_semaphore_hands_out_nothing() {
    let mut k = kernel_with(&[X, Y], BTreeMap::new());
    let mut sem: SpinSemaphore<VecDeque<u8>> = SpinSemaphore::new(VecDeque::new());
    sem.v(&mut k.cpu, &mut k.l2, &mut k.tasks, &mut k.scheduler, 8);
    let step: PStep<u8> = sem.p_unguarded(&mut k.cpu, &mut k.l2, &mut k.tasks, &mut k.scheduler);
    assert!(matches!(step, PStep::Acquired(None)));
    // nothing was taken and nobody was switched
    assert_eq!(sem.sema, 1);
    assert_eq!(sem.resource_pool.len(), 1);
    assert!(IS_L2_AVAILABLE(&k.l2));
    assert_eq!(Task::current(&k.tasks), Some(TaskId(X)));
    assert_eq!(run_queue(&k), vec![Y]);
}

#[test]
fn queued_epilogues_keep_their_order_across_a_reschedule() {
    let mut gates = BTreeMap::new();
    for (nr, pro, epi) in [(0x20u16, 1, 2), (0x21, 3, 4), (0x22, 5, 6)] {
        gates.insert(nr, gate(pro, Some(epi)));
    }
    let mut k = kernel_with(&[X, Y], gates);
    interrupt_disable(&mut k.cpu);
    let (first, _) = handle_irq(&mut k, IrqPhase::Entry { nr: 0x20 });
    k.need_reschedule = true;
    let (mut first, a) = handle_irq(&mut k, first);
    assert_eq!(a, IrqAction::RunEpilogue(Routine(2)));
    for nr in [0x21u16, 0x22] {
        interrupt_disable(&mut k.cpu);
        let (p, _) = handle_irq(&mut k, IrqPhase::Entry { nr });
        assert_eq!(handle_irq(&mut k, p), (IrqPhase::Returned, IrqAction::Return));
        interrupt_enable(&mut k.cpu);
    }
    let mut seen = Vec::new();
    loop {
        let (p, a) = handle_irq(&mut k, first);
        first = p;
        match a {
            IrqAction::RunEpilogue(r) => seen.push(format!("epilogue {}", r.0)),
            IrqAction::Switch(sw) => {
                assert_eq!(sw, Switch::Swap { from: TaskId(X), to: TaskId(Y) });
                assert!(IS_L2_AVAILABLE(&k.l2));
                seen.push(String::from("switch"));
                // X has the processor back later, with the level free
                Scheduler::do_schedule(&mut k.cpu, &mut k.tasks, &mut k.scheduler);
            }
            IrqAction::Return => break,
            other => panic!("nothing else is due: {:?}", other),
        }
    }
    assert_eq!(seen, vec!["epilogue 4", "switch", "epilogue 6"]);
    assert!(IS_L2_AVAILABLE(&k.l2));
    assert_eq!(k.epilogue_queue.l3_get_ref_mut_unchecked().queue.len(), 0);
}
