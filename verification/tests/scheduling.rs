use rustubs::arch::x86_64::interrupt::{interrupt_enable, irq_restore, irq_save};
use rustubs::arch::x86_64::{is_int_enabled, Cpu};
use rustubs::proc::sched::{Scheduler, Switch, CLEAR_NEED_RESCHEDULE, SET_NEED_RESCHEDULE};
use rustubs::proc::sync::{Level2, L2Sync, ENTER_L2, IS_L2_AVAILABLE, LEAVE_L2};
use rustubs::proc::task::{Task, TaskId, TaskState, TaskTable};

const A: u64 = 0xffff_8030_0000_0000;
const B: u64 = 0xffff_8030_0000_4000;
const C: u64 = 0xffff_8030_0000_8000;

fn boot(stacks: &[u64]) -> (Cpu, Level2, TaskTable, L2Sync<Scheduler>) {
    let cpu = Cpu::new();
    let l2 = Level2::new();
    let mut tasks = TaskTable::new();
    let mut sched = L2Sync::new(Scheduler::new());
    let mut pid = 1;
    for sp in stacks {
        let (tid, _words) = Task::create_task(&mut tasks, *sp, pid, 0x1000);
        sched.get_ref_mut_unguarded().insert_task(tid);
        pid += 1;
    }
    (cpu, l2, tasks, sched)
}

fn queue_of(sched: &L2Sync<Scheduler>) -> Vec<u64> {
    sched.get_ref_unguarded().run_queue.iter().map(|t| t.0).collect()
}

#[test]
fn kickoff_then_three_yields_run_a_b_c_a() {
    let (mut cpu, mut l2, mut tasks, mut sched) = boot(&[A, B, C]);
    interrupt_enable(&mut cpu);
    let mut order = Vec::new();
    let sw = Scheduler::kickoff(&mut cpu, &mut l2, &mut tasks, &mut sched);
    assert_eq!(sw, Switch::To { to: TaskId(A) });
    assert!(!IS_L2_AVAILABLE(&l2));
    // the first task leaves the epilogue level with its first instructions
    LEAVE_L2(&mut l2);
    order.push(Task::current(&tasks).unwrap().0);
    for _ in 0..3 {
        let sw = Scheduler::yield_cpu(&mut cpu, &mut l2, &mut tasks, &mut sched);
        assert!(matches!(sw, Switch::Swap { .. }));
        // the task that continues leaves the level
        assert!(!IS_L2_AVAILABLE(&l2));
        LEAVE_L2(&mut l2);
        order.push(Task::current(&tasks).unwrap().0);
    }
    assert_eq!(order, vec![A, B, C, A]);
    assert_eq!(queue_of(&sched), vec![B, C]);
}

#[test]
fn kickoff_takes_the_front_of_the_queue() {
    let (mut cpu, mut l2, mut tasks, mut sched) = boot(&[B, A]);
    let sw = Scheduler::kickoff(&mut cpu, &mut l2, &mut tasks, &mut sched);
    assert_eq!(sw, Switch::To { to: TaskId(B) });
    assert_eq!(tasks.current, Some(TaskId(B)));
    assert_eq!(queue_of(&sched), vec![A]);
    assert!(!is_int_enabled(&cpu));
}

#[test]
fn yield_swaps_caller_and_front() {
    let (mut cpu, mut l2, mut tasks, mut sched) = boot(&[A, B, C]);
    Scheduler::kickoff(&mut cpu, &mut l2, &mut tasks, &mut sched);
    let sw = Scheduler::do_schedule(&mut cpu, &mut tasks, &mut sched);
    assert_eq!(sw, Switch::Swap { from: TaskId(A), to: TaskId(B) });
    assert_eq!(queue_of(&sched), vec![C, A]);
    assert_eq!(tasks.current, Some(TaskId(B)));
}

#[test]
fn single_task_does_not_switch_to_itself() {
    // the only task runs and the run queue is empty
    let (mut cpu, mut l2, mut tasks, mut sched) = boot(&[A]);
    Scheduler::kickoff(&mut cpu, &mut l2, &mut tasks, &mut sched);
    assert_eq!(Scheduler::do_schedule(&mut cpu, &mut tasks, &mut sched), Switch::Stay);
    assert_eq!(queue_of(&sched), Vec::<u64>::new());
    // the run queue holds the handle of the running task and nothing else
    sched.get_ref_mut_unguarded().insert_task(TaskId(A));
    assert_eq!(Scheduler::do_schedule(&mut cpu, &mut tasks, &mut sched), Switch::Stay);
    assert_eq!(queue_of(&sched), vec![A]);
    assert_eq!(tasks.current, Some(TaskId(A)));
}

#[test]
fn waiting_caller_is_not_requeued() {
    let (mut cpu, mut l2, mut tasks, mut sched) = boot(&[A, B]);
    Scheduler::kickoff(&mut cpu, &mut l2, &mut tasks, &mut sched);
    tasks.set_state(TaskId(A), TaskState::Wait);
    let sw = Scheduler::do_schedule(&mut cpu, &mut tasks, &mut sched);
    assert_eq!(sw, Switch::Swap { from: TaskId(A), to: TaskId(B) });
    assert_eq!(queue_of(&sched), Vec::<u64>::new());
}

#[test]
fn round_robin_runs_every_task_once_per_round() {
    let stacks = [A, B, C, C + 0x4000, C + 0x8000];
    let (mut cpu, mut l2, mut tasks, mut sched) = boot(&stacks);
    Scheduler::kickoff(&mut cpu, &mut l2, &mut tasks, &mut sched);
    let mut ran = vec![tasks.current.unwrap().0];
    for _ in 0..14 {
        Scheduler::do_schedule(&mut cpu, &mut tasks, &mut sched);
        ran.push(tasks.current.unwrap().0);
    }
    for round in ran.chunks(5) {
        let mut seen = round.to_vec();
        seen.sort();
        assert_eq!(seen, stacks.to_vec());
    }
}

#[test]
fn try_reschedule_only_acts_on_request() {
    let (mut cpu, mut l2, mut tasks, mut sched) = boot(&[A, B]);
    Scheduler::kickoff(&mut cpu, &mut l2, &mut tasks, &mut sched);
    interrupt_enable(&mut cpu);
    let mut need = false;
    let sw = Scheduler::try_reschedule(&mut cpu, &mut need, &mut tasks, &mut sched);
    assert_eq!(sw, Switch::Stay);
    assert_eq!(queue_of(&sched), vec![B]);
    assert!(!SET_NEED_RESCHEDULE(&mut need));
    assert!(need);
    let sw = Scheduler::try_reschedule(&mut cpu, &mut need, &mut tasks, &mut sched);
    assert_eq!(sw, Switch::Swap { from: TaskId(A), to: TaskId(B) });
    assert!(!need);
    assert_eq!(queue_of(&sched), vec![A]);
    assert!(!CLEAR_NEED_RESCHEDULE(&mut need));
    assert!(SET_NEED_RESCHEDULE(&mut need) == false && CLEAR_NEED_RESCHEDULE(&mut need));
}

#[test]
fn do_schedule_l2_keeps_the_level_across_a_switch() {
    let (mut cpu, mut l2, mut tasks, mut sched) = boot(&[A, B]);
    Scheduler::kickoff(&mut cpu, &mut l2, &mut tasks, &mut sched);
    LEAVE_L2(&mut l2);
    interrupt_enable(&mut cpu);
    let sw = Scheduler::do_schedule_l2(&mut cpu, &mut l2, &mut tasks, &mut sched);
    assert_eq!(sw, Switch::Swap { from: TaskId(A), to: TaskId(B) });
    assert!(!IS_L2_AVAILABLE(&l2));
    LEAVE_L2(&mut l2);
    // B is alone with A in the queue; A alone after the next step
    tasks.set_state(TaskId(A), TaskState::Dead);
    sched.get_ref_mut_unguarded().run_queue.clear();
    let sw = Scheduler::do_schedule_l2(&mut cpu, &mut l2, &mut tasks, &mut sched);
    assert_eq!(sw, Switch::Stay);
    assert!(IS_L2_AVAILABLE(&l2));
}

#[test]
fn level_two_is_entered_and_left_in_turn() {
    let mut l2 = Level2::new();
    assert!(IS_L2_AVAILABLE(&l2));
    ENTER_L2(&mut l2);
    assert!(!IS_L2_AVAILABLE(&l2));
    LEAVE_L2(&mut l2);
    assert!(IS_L2_AVAILABLE(&l2));
    let cell = L2Sync::new(7u32);
    let guard = cell.lock(&mut l2);
    assert!(!IS_L2_AVAILABLE(&l2));
    assert_eq!(*cell.get_ref(&guard), 7);
    guard.unlock(&mut l2);
    assert!(IS_L2_AVAILABLE(&l2));
}

#[test]
fn irq_save_and_restore_nest() {
    let mut cpu = Cpu::new();
    assert!(!is_int_enabled(&cpu));
    interrupt_enable(&mut cpu);
    assert_eq!(cpu.rflags, 1 << 9);
    let outer = irq_save(&mut cpu);
    assert!(outer);
    assert!(!is_int_enabled(&cpu));
    let inner = irq_save(&mut cpu);
    assert!(!inner);
    irq_restore(&mut cpu, inner);
    assert!(!is_int_enabled(&cpu));
    irq_restore(&mut cpu, outer);
    assert!(is_int_enabled(&cpu));
    cpu.rflags = 0x246;
    assert!(irq_save(&mut cpu));
    assert_eq!(cpu.rflags, 0x46);
    irq_restore(&mut cpu, true);
    assert_eq!(cpu.rflags, 0x246);
}

#[test]
fn create_task_primes_the_context() {
    let mut tasks = TaskTable::new();
    let (tid, words) = Task::create_task(&mut tasks, A, 7, 0xdead_beef);
    assert_eq!(tid, TaskId(A));
    let t = tid.get_task_ref(&tasks);
    assert_eq!(t.magic, 0x1A2B3C4D5E6F6969);
    assert_eq!(t.pid, 7);
    assert_eq!(t.kernel_stack, A);
    assert_eq!(t.state, TaskState::Run);
    assert_eq!(t.context.rsp, A + 0x4000 - 16);
    assert_eq!(words, vec![(A + 0x4000 - 8, 0), (A + 0x4000 - 16, 0xdead_beef)]);
    assert_eq!(t.mm.vmas.len(), 3);
    assert_eq!(t.mm.vmas[0].tag, "KERNEL IDMAP");
    assert_eq!(t.mm.vmas[0].vm_range, 0xffff_8000_0000_0000..0xffff_8010_0000_0000);
    assert_eq!(t.mm.vmas[1].tag, "KERNEL");
    assert_eq!(t.mm.vmas[1].vm_range, 0xffff_8020_0000_0000..0xffff_8030_0000_0000);
    assert_eq!(t.mm.vmas[2].tag, "USER STACK");
    assert_eq!(t.mm.vmas[2].vm_range, 0x7000_0000_0000..0x7000_0080_0000);
    assert_eq!(t.mm.vmas[2].user_perms.bits(), 3);
    assert_eq!(t.taskid(), tid);
    assert_eq!(t.get_init_kernel_sp(), A + 0x4000);
    // nobody runs yet, and a damaged marker hides a task
    assert_eq!(Task::current(&tasks), None);
    tasks.current = Some(tid);
    assert_eq!(Task::current(&tasks), Some(tid));
    tasks.slots.get_mut(&A).unwrap().magic = 0;
    assert_eq!(Task::current(&tasks), None);
}

#[test]
fn misuse_of_level_two_changes_nothing() {
    let mut l2 = Level2::new();
    // an exit without an entry: the exchange fails and the level stays free
    assert_eq!(l2.compare_exchange(false, true), Err(true));
    assert!(IS_L2_AVAILABLE(&l2));
    assert_eq!(l2.compare_exchange(true, false), Ok(true));
    // a second entry: the exchange fails and the level stays occupied
    assert_eq!(l2.compare_exchange(true, false), Err(false));
    assert!(!IS_L2_AVAILABLE(&l2));
    assert_eq!(l2.compare_exchange(false, true), Ok(false));
    assert!(IS_L2_AVAILABLE(&l2));
}
