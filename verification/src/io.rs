//! Output to the text screen and input from the keyboard, for the tasks of
//! the kernel.
use crate::arch::x86_64::Cpu;
use crate::machine::cgascr::{CGAScreen, Screen, MAX_COLS};
use crate::machine::device_io::PortWrite;
use crate::machine::key::Key;
use crate::proc::sched::Scheduler;
use crate::proc::sync::semaphore::{PStep, Semaphore, SleepSemaphore};
use crate::proc::sync::{Level2, L2Sync};
use crate::proc::task::TaskTable;
use std::collections::VecDeque;
use vstd::prelude::*;
use vstd::string::StringSliceAdditionalSpecFns;
use vstd::utf8::is_char_boundary;

verus! {

/// One attempt to read a key from the buffer of keys: the caller gets the
/// oldest key, or it goes to wait for one. The caller must not be in the
/// epilogue level.
pub fn read_key(
    buffer: &mut SleepSemaphore<VecDeque<Key>>,
    cpu: &mut Cpu,
    l2: &mut Level2,
    tasks: &mut TaskTable,
    sched: &mut L2Sync<Scheduler>,
) -> (step: PStep<Key>)
    requires
        old(l2).can_enter(),
        old(buffer).can_p(old(cpu), old(l2), old(tasks), old(sched)@.run_queue@),
    ensures
        *final(cpu) == *old(cpu),
        SleepSemaphore::spec_p(
            old(buffer),
            final(buffer),
            *old(l2),
            *final(l2),
            old(tasks),
            final(tasks),
            old(sched)@.run_queue@,
            final(sched)@.run_queue@,
            step,
        ),
        SleepSemaphore::keeps_order(
            old(buffer),
            final(buffer),
            old(tasks),
            final(tasks),
            old(sched)@.run_queue@,
            final(sched)@.run_queue@,
        ),
{
    buffer.p(cpu, l2, tasks, sched)
}

/// Remove what the screen shows; the cursor stays.
pub fn clear_screen(screen: &mut CGAScreen)
    requires
        old(screen)@.wf(),
    ensures
        final(screen)@ == old(screen)@.clear(),
{
    screen.clear();
}

/// Remove what the screen shows and put the cursor at its start.
pub fn reset_screen(screen: &mut CGAScreen) -> (writes: Vec<PortWrite>)
    requires
        old(screen)@.wf(),
    ensures
        final(screen)@ == (Screen { row: 0, col: 0, ..old(screen)@.clear() }),
        writes@ == final(screen)@.cursor_writes(),
{
    screen.reset()
}

/// Take the character before the cursor back.
pub fn back_space(screen: &mut CGAScreen) -> (writes: Vec<PortWrite>)
    requires
        old(screen)@.wf(),
        old(screen)@.cursor_ok(),
    ensures
        final(screen)@ == old(screen)@.backspace(),
        old(screen)@.col == 0 && old(screen)@.row == 0 ==> writes@.len() == 0,
        !(old(screen)@.col == 0
            && old(screen)@.row == 0) ==> writes@ == final(screen)@.cursor_writes(),
{
    screen.backspace()
}

/// Show a help text on the bottom line. Of a longer text the first 80
/// bytes are shown, which must not end within a character.
pub fn print_help(screen: &mut CGAScreen, s: &str, attr: u8) -> (writes: Vec<PortWrite>)
    requires
        old(screen)@.wf(),
        s.spec_bytes().len() >= MAX_COLS ==> is_char_boundary(s.spec_bytes(), MAX_COLS as int),
    ensures
        final(screen)@.wf(),
        final(screen)@.row == old(screen)@.row,
        final(screen)@.col == old(screen)@.col,
        final(screen)@.attr == old(screen)@.attr,
        final(screen)@.mem == (Screen {
            row: 24,
            col: 0,
            attr: attr,
            ..old(screen)@.clearline(24, old(screen)@.attr)
        }).puts(CGAScreen::spec_bottom_text(s.spec_bytes())).mem,
{
    screen.print_at_bottom(s, attr)
}

/// Set the attribute with which characters are written.
pub fn set_attr(screen: &mut CGAScreen, attr: u8)
    ensures
        final(screen)@ == (Screen { attr: attr, ..old(screen)@ }),
{
    screen.setattr(attr);
}

} // verus!
