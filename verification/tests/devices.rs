use rustubs::arch::x86_64::arch_regs::{Context64, TrapFrame};
use rustubs::arch::x86_64::gdt::{set_tss_ksp, to_tss_desc, TaskStateSegment};
use rustubs::arch::x86_64::interrupt::idt::{self, GateDescriptor64};
use rustubs::arch::x86_64::interrupt::pic_8259::{self, PicDeviceInt};
use rustubs::arch::x86_64::interrupt::pit::PIT;
use rustubs::arch::x86_64::interrupt::plugbox::irq_gate_map;
use rustubs::arch::x86_64::interrupt::{
    get_fault_addr, handle_exception, trap_exit, trap_gate, Fault, IrqPhase, Trap,
};
use rustubs::arch::x86_64::{read_rflags, Cpu};
use rustubs::io::{back_space, clear_screen, print_help, reset_screen, set_attr};
use rustubs::machine::cgascr::{cal_offset, CGAScreen};
use rustubs::machine::device_io::{IOPort, PortWrite, PortWriteWord};
use rustubs::machine::key::{Key, Modifiers, Scan, ASC_NUM_TAB, NORMAL_TAB, SHIFT_TAB};
use rustubs::machine::keyctrl::{
    Defs, KbdAction, KeyState, KeyboardController, KeyboardDriver, Prefix, StatusReg,
};
use rustubs::machine::multiboot::{
    check, get_mb_info, MultibootInfo, MultibootInfoFlags, MultibootInfoMem, MultibootInfoMmap,
    MultibootMmap,
};
use rustubs::machine::serial::SerialWritter;
use rustubs::proc::sync::irq::{EpilogueEntrant, IRQGate, IRQHandlerEpilogue, Routine};
use rustubs::machine::time::Clock;
use rustubs::proc::sched::Scheduler;
use rustubs::proc::sync::bellringer::{BellRinger, Sleeper};
use rustubs::proc::sync::{L2Sync, L3Sync};
use rustubs::proc::task::{TaskState, TaskTable};

#[test]
fn tss_descriptor_is_packed_by_bit_ranges() {
    assert_eq!(to_tss_desc(0x1234_5678_9abc_def0), (0x9a00_89bc_def0_0067, 0x1234_5678));
    assert_eq!(to_tss_desc(0xffff_8030_0002_0000), (0x8902_0000_0067, 0xffff_8030));
    assert_eq!(to_tss_desc(0), (0x8900_0000_0067, 0));
    assert_eq!(to_tss_desc(u64::MAX), (0xff00_89ff_ffff_0067, 0xffff_ffff));
}

#[test]
fn new_tss_has_no_stacks() {
    let mut tss = TaskStateSegment::new();
    assert_eq!(tss.privilege_stack_table, [0; 3]);
    assert_eq!(tss.interrupt_stack_table, [0; 7]);
    assert_eq!(tss.iomap_base, 104);
    set_tss_ksp(&mut tss, 0xffff_8030_0000_4000);
    assert_eq!(tss.privilege_stack_table, [0xffff_8030_0000_4000, 0, 0]);
}

#[test]
fn idt_entries_point_to_their_vectors() {
    let table = idt::init(0xffff_8020_0010_0000);
    assert_eq!(table.len(), 256);
    let offset = |d: &GateDescriptor64| {
        d.offset_1 as u64 | (d.offset_2 as u64) << 16 | (d.offset_3 as u64) << 32
    };
    assert_eq!(offset(&table[0]), 0xffff_8020_0010_0000);
    assert_eq!(offset(&table[47]), 0xffff_8020_0010_0000 + 47 * 16);
    assert_eq!(offset(&table[48]), 0xffff_8020_0010_0000 + 48 * 16);
    assert_eq!(offset(&table[255]), 0xffff_8020_0010_0000 + 48 * 16);
    for d in &table {
        assert_eq!((d.selector, d.attrs, d.ist, d.res0), (0x10, 0x8e, 0, 0));
    }
    let mut d = GateDescriptor64::new();
    d.set_offset(0x0123_4567_89ab_cdef);
    assert_eq!((d.offset_1, d.offset_2, d.offset_3), (0xcdef, 0x89ab, 0x0123_4567));
    assert_eq!(d.attrs, 0);
}

#[test]
fn pic_is_programmed_in_order() {
    let w = pic_8259::init();
    let expect = [
        (0x20, 0x11),
        (0xa0, 0x11),
        (0x21, 0x20),
        (0xa1, 0x28),
        (0x21, 0x04),
        (0xa1, 0x02),
        (0x21, 0x03),
        (0xa1, 0x03),
        (0x21, 0xfb),
        (0xa1, 0xff),
    ];
    assert_eq!(w.len(), expect.len());
    for (got, want) in w.iter().zip(expect.iter()) {
        assert_eq!((got.port, got.val), *want);
    }
}

#[test]
fn pic_masks_follow_the_interrupt() {
    assert_eq!(pic_8259::allow(PicDeviceInt::KEYBOARD, 0xfb), PortWrite { port: 0x21, val: 0xf9 });
    assert_eq!(pic_8259::allow(PicDeviceInt::TIMER, 0xf9), PortWrite { port: 0x21, val: 0xf8 });
    assert_eq!(pic_8259::allow(12, 0xff), PortWrite { port: 0xa1, val: 0xef });
    assert_eq!(pic_8259::forbid(1, 0xf8), PortWrite { port: 0x21, val: 0xfa });
    assert_eq!(pic_8259::forbid(15, 0x00), PortWrite { port: 0xa1, val: 0x80 });
    assert_eq!(pic_8259::imr_port(7), 0x21);
    assert_eq!(pic_8259::imr_port(8), 0xa1);
    assert!(pic_8259::is_masked(1, 0x01));
    assert!(!pic_8259::is_masked(1, 0x02));
    assert!(!pic_8259::is_masked(0, 0xff));
    assert!(pic_8259::is_masked(11, 0x03));
    assert!(!pic_8259::is_masked(8, 0xff));
}

#[test]
fn timer_interval_is_rounded_to_the_divider() {
    let (ns, w) = PIT::set_interval(20000);
    assert_eq!(ns, 19_999_708);
    assert_eq!(
        w,
        vec![
            PortWrite { port: 0x43, val: 0x34 },
            PortWrite { port: 0x40, val: 58 },
            PortWrite { port: 0x40, val: 93 }
        ]
    );
    assert_eq!(PIT::set_interval(1).0, 838);
    let (ns, w) = PIT::set_interval(60000);
    assert_eq!(ns, 54_918_330);
    assert_eq!((w[1].val, w[2].val), (255, 255));
    assert_eq!(PIT::set_interval(54_918).0, 54_918_330);
}

#[test]
fn timer_asks_for_a_reschedule_once_a_task_runs() {
    let mut tasks = TaskTable::new();
    let mut need = false;
    PIT::run_prologue(&tasks, &mut need);
    assert!(!need);
    let (tid, _) = rustubs::proc::task::Task::create_task(&mut tasks, 0x8000, 1, 0);
    tasks.current = Some(tid);
    PIT::run_prologue(&tasks, &mut need);
    assert!(need);
    PIT::run_prologue(&tasks, &mut need);
    assert!(need);
    // the epilogue wakes the sleepers whose time has come
    let mut cpu = Cpu::new();
    let mut bell = L3Sync::new(BellRinger::new());
    let mut sched = L2Sync::new(Scheduler::new());
    tasks.set_state(tid, TaskState::Wait);
    BellRinger::check_in(&mut cpu, &mut bell, Sleeper { tid, until: 5 });
    PIT::run_epilogue(&Clock { ns: 4 }, &mut cpu, &mut bell, &mut tasks, &mut sched);
    assert_eq!(tasks.state(tid), Some(TaskState::Wait));
    PIT::run_epilogue(&Clock { ns: 5 }, &mut cpu, &mut bell, &mut tasks, &mut sched);
    assert_eq!(tasks.state(tid), Some(TaskState::Run));
    assert_eq!(sched.get_ref_unguarded().run_queue.len(), 1);
}

#[test]
fn plugbox_registers_timer_and_keyboard() {
    let gates = irq_gate_map();
    assert_eq!(gates.len(), 2);
    assert_eq!(gates[&0x20], PIT::get_gate());
    assert_eq!(gates[&0x21], KeyboardDriver::get_gate());
    assert_eq!(
        gates[&0x20],
        IRQGate {
            prologue: Routine(PIT::PROLOGUE),
            epilogue_entrant: Some(EpilogueEntrant { epilogue: Routine(PIT::EPILOGUE) })
        }
    );
    assert_eq!(gates[&0x21].call_prologue(), Routine(KeyboardDriver::PROLOGUE));
    assert_eq!(
        gates[&0x21].get_epilogue().unwrap().call(),
        Routine(KeyboardDriver::EPILOGUE)
    );
    assert_eq!(PIT::do_prologue(), Routine(PIT::PROLOGUE));
    assert_eq!(KeyboardDriver::do_epilogue(), Routine(KeyboardDriver::EPILOGUE));
}

fn frame(err_code: u64) -> TrapFrame {
    TrapFrame { r11: 0, r10: 0, r9: 0, r8: 0, rsi: 0, rdi: 0, rdx: 0, rcx: 0, rax: 0, err_code }
}

#[test]
fn traps_below_32_are_exceptions() {
    let mut cpu = Cpu::new();
    cpu.cr2 = 0xdead_0000;
    assert_eq!(
        trap_gate(&cpu, 0xe, &frame(6)),
        Trap::Exception(Fault::PageFault { fault_addr: 0xdead_0000, err_code: 6 })
    );
    assert_eq!(trap_gate(&cpu, 0x1f, &frame(0)), Trap::Exception(Fault::Halt { nr: 0x1f }));
    assert_eq!(trap_gate(&cpu, 0x20, &frame(0)), Trap::Irq(IrqPhase::Entry { nr: 0x20 }));
    assert_eq!(trap_gate(&cpu, 0x80, &frame(0)), Trap::Irq(IrqPhase::Entry { nr: 0x80 }));
    assert_eq!(handle_exception(&cpu, 0, &frame(0)), Fault::Halt { nr: 0 });
    assert_eq!(get_fault_addr(&cpu), 0xdead_0000);
    assert_eq!(read_rflags(&cpu), 0);
    let c = Context64::default();
    assert_eq!((c.rsp, c.rbp, c.rbx, c.fpu), (0, 0, 0, [0u8; 108]));
    let (table, writes) = rustubs::arch::x86_64::interrupt::init(0x1000);
    assert_eq!((table.len(), writes.len()), (256, 10));
}

#[test]
fn ports_say_what_to_write() {
    let p = IOPort::new(0x3f8);
    assert_eq!(p.outb(0x41), PortWrite { port: 0x3f8, val: 0x41 });
    assert_eq!(p.outw(0x4142), PortWriteWord { port: 0x3f8, val: 0x4142 });
    let s = SerialWritter::new(0x3f8);
    assert_eq!(s.putchar(b'x'), PortWrite { port: 0x3f8, val: b'x' });
    let w = s.print("ok\n");
    let bytes: Vec<u8> = w.iter().map(|w| w.val).collect();
    assert_eq!(bytes, b"ok\n");
    assert!(w.iter().all(|w| w.port == 0x3f8));
}

#[test]
fn keys_pack_into_32_bits() {
    let k = Key { asc: b'a', scan: 30, modi: Modifiers { bits: Modifiers::SHIFT } };
    assert_eq!(k.to_u32(), 0x0008_1e61);
    assert_eq!(Key::from_u32(k.to_u32()), Some(k));
    assert_eq!(Key::from_u32(Key::NONE_KEY), None);
    assert_eq!(Key::from_u32(0x0100_0000), None);
    assert!(Key::is_none(0x8000_0000));
    assert!(!Key::is_none(0x00ff_ffff));
    assert_eq!(Key::new(), Key { asc: 0, scan: 0, modi: Modifiers { bits: 0 } });
    assert_eq!(Scan::F1.code(), 0x3b);
    assert_eq!(Scan::Div.code(), 8);
}

#[test]
fn modifiers_are_a_set_of_bits() {
    let mut m = Modifiers::from_bits_truncate(Modifiers::NONE);
    m.insert(Modifiers::SHIFT | Modifiers::CTRL_LEFT);
    assert_eq!(m.bits(), 0x48);
    assert!(m.contains(Modifiers::SHIFT));
    assert!(!m.contains(Modifiers::SHIFT | Modifiers::ALT_LEFT));
    m.toggle(Modifiers::CAPSLOCK | Modifiers::SHIFT);
    assert_eq!(m.bits(), 0x44);
    m.remove(Modifiers::CTRL_LEFT);
    assert_eq!(m.bits(), 0x04);
}

fn typed(ctl: &mut KeyboardController, codes: &[u8]) -> Vec<KbdAction> {
    codes.iter().map(|c| ctl.update_state(*c)).collect()
}

#[test]
fn letters_follow_shift_and_caps_lock() {
    let mut ctl = KeyboardController::new();
    assert_eq!(ctl.consume_key(), None);
    ctl.update_state(30);
    let k = ctl.consume_key().unwrap();
    assert_eq!((k.asc, k.scan, k.modi.bits), (b'a', 30, 0));
    assert_eq!(ctl.consume_key(), None);
    // shift held
    typed(&mut ctl, &[Defs::C_SHIFT_L, 30]);
    assert_eq!(ctl.consume_key().unwrap().asc, b'A');
    typed(&mut ctl, &[Defs::C_SHIFT_L | Defs::BREAK_BIT, 2]);
    assert_eq!(ctl.consume_key().unwrap().asc, b'1');
    // caps lock changes letters only
    let acts = typed(&mut ctl, &[Defs::C_CAPSLOCK, 16, 2]);
    assert_eq!(acts[0], KbdAction::UpdateLed(4));
    assert_eq!(ctl.consume_key().unwrap().asc, b'1');
    ctl.update_state(16);
    assert_eq!(ctl.consume_key().unwrap().asc, b'Q');
    // a release gathers nothing
    ctl.update_state(16 | 0x80);
    assert_eq!(ctl.consume_key(), None);
    assert_eq!(ctl.keystate.scan, Some(0x90));
}

#[test]
fn prefix_and_locks_choose_the_table() {
    let mut ctl = KeyboardController::new();
    // the divide key of the number block comes with a prefix
    let acts = typed(&mut ctl, &[Defs::C_PREFIX1, 53]);
    assert_eq!(acts, vec![KbdAction::Nothing, KbdAction::Nothing]);
    assert_eq!(ctl.consume_key().unwrap().asc, b'/');
    assert_eq!(ctl.keystate.prefix, Prefix::NONE);
    ctl.update_state(53);
    assert_eq!(ctl.consume_key().unwrap().asc, NORMAL_TAB[53]);
    // num lock turns the number block into digits
    assert_eq!(ctl.update_state(Defs::C_NUM_P), KbdAction::UpdateLed(2));
    ctl.update_state(71);
    assert_eq!(ctl.consume_key().unwrap().asc, b'7');
    assert_eq!(ASC_NUM_TAB[0], b'7');
    typed(&mut ctl, &[Defs::C_PREFIX1, 71]);
    assert_eq!(ctl.consume_key().unwrap().asc, NORMAL_TAB[71]);
    // right alt
    typed(&mut ctl, &[Defs::C_PREFIX1, Defs::C_ALT, 16]);
    let k = ctl.consume_key().unwrap();
    assert_eq!(k.asc, b'@');
    assert_eq!(k.modi.bits, Modifiers::ALT_RIGHT | Modifiers::NUMLOCK);
    typed(&mut ctl, &[Defs::C_PREFIX1, Defs::C_ALT | 0x80]);
    assert_eq!(ctl.keystate.modi.bits, Modifiers::NUMLOCK);
    assert_eq!(ctl.keystate.get_leds(), 2);
    assert_eq!(ctl.update_state(Defs::C_SCRLOCK), KbdAction::UpdateLed(3));
    assert_eq!(SHIFT_TAB[2], b'!');
}

#[test]
fn control_alt_delete_asks_for_a_reboot() {
    let mut ctl = KeyboardController::new();
    assert_eq!(ctl.update_state(Defs::C_DEL), KbdAction::Nothing);
    let acts = typed(&mut ctl, &[Defs::C_CTRL, Defs::C_ALT, Defs::C_DEL]);
    assert_eq!(acts[2], KbdAction::Reboot);
    // with left control held, pause does not switch num lock
    assert_eq!(ctl.update_state(Defs::C_NUM_P), KbdAction::Nothing);
    assert_eq!(ctl.keystate.modi.bits, Modifiers::CTRL_LEFT | Modifiers::ALT_LEFT);
    typed(&mut ctl, &[Defs::C_CTRL | 0x80]);
    assert_eq!(ctl.keystate.modi.bits, Modifiers::ALT_LEFT);
    assert_eq!(KeyState::new().get_leds(), 0);
    assert_eq!(Prefix::try_from_u8(0xe0), Some(Prefix::PREFIX1));
    assert_eq!(Prefix::try_from_u8(0xe1), Some(Prefix::PREFIX2));
    assert_eq!(Prefix::try_from_u8(0xe2), None);
}

#[test]
fn status_register_tells_keyboard_from_mouse() {
    let sr = KeyboardController::read_status(0x01).unwrap();
    assert!(KeyboardController::fetch_key(&sr));
    assert!(!KeyboardController::fetch_key(&StatusReg { bits: 0x21 }));
    assert!(!KeyboardController::fetch_key(&StatusReg { bits: 0x00 }));
    assert!(StatusReg::from_bits_truncate(0x03).contains(StatusReg::INB));
}

fn cell(s: &CGAScreen, row: usize, col: usize) -> (u8, u8) {
    let i = (row * 80 + col) * 2;
    (s.cga_mem[i], s.cga_mem[i + 1])
}

#[test]
fn screen_prints_and_wraps() {
    let mut s = CGAScreen::new();
    assert_eq!(s.cga_mem.len(), 4000);
    assert_eq!(cal_offset(3, 7), 247);
    let w = s.print("hi\nyo");
    assert_eq!(cell(&s, 0, 0), (b'h', 0x0f));
    assert_eq!(cell(&s, 0, 1), (b'i', 0x0f));
    assert_eq!(cell(&s, 1, 0), (b'y', 0x0f));
    assert_eq!((s.cursor_r, s.cursor_c), (1, 2));
    assert_eq!(
        w,
        vec![
            PortWrite { port: 0x3d4, val: 15 },
            PortWrite { port: 0x3d5, val: 82 },
            PortWrite { port: 0x3d4, val: 14 },
            PortWrite { port: 0x3d5, val: 0 }
        ]
    );
    // the last column but one ends the line
    s.setpos(2, 78);
    s.print("ab");
    assert_eq!(cell(&s, 2, 78), (b'a', 0x0f));
    assert_eq!(cell(&s, 2, 79), (b'b', 0x0f));
    assert_eq!((s.cursor_r, s.cursor_c), (3, 0));
    s.setpos(7, 208);
    let w = s.sync_cursor();
    assert_eq!((w[1].val, w[3].val), ((768u32 % 256) as u8, 3));
}

#[test]
fn screen_scrolls_at_the_bottom() {
    let mut s = CGAScreen::new();
    s.setattr(0x1f);
    s.show(1, 0, b'x', 0x2a);
    s.show(24, 5, b'y', 0x2b);
    s.setpos(24, 0);
    s.print("\n");
    assert_eq!((s.cursor_r, s.cursor_c), (24, 0));
    assert_eq!(cell(&s, 0, 0), (b'x', 0x2a));
    assert_eq!(cell(&s, 23, 5), (b'y', 0x2b));
    assert_eq!(cell(&s, 24, 5), (0, 0x1f));
    s.scroll(0);
    assert_eq!(cell(&s, 0, 0), (b'x', 0x2a));
    s.scroll(23);
    assert_eq!(cell(&s, 0, 5), (b'y', 0x2b));
    assert_eq!(cell(&s, 2, 5), (0, 0x1f));
    s.scroll(25);
    assert_eq!(cell(&s, 0, 5), (0, 0x1f));
    s.show(3, 3, b'z', 1);
    s.move_line(3, 9);
    assert_eq!(cell(&s, 9, 3), (b'z', 1));
    s.move_line(3, 25);
    s.clearline(9, 7);
    assert_eq!(cell(&s, 9, 3), (0, 7));
    s.clearline(25, 7);
    clear_screen(&mut s);
    assert_eq!(cell(&s, 3, 3), (0, 0x1f));
}

#[test]
fn backspace_steps_over_the_line_start() {
    let mut s = CGAScreen::new();
    assert!(back_space(&mut s).is_empty());
    s.print("ab");
    let w = back_space(&mut s);
    assert_eq!(w.len(), 4);
    assert_eq!((s.cursor_r, s.cursor_c), (0, 1));
    assert_eq!(cell(&s, 0, 1), (0, 0x0f));
    assert_eq!(cell(&s, 0, 0), (b'a', 0x0f));
    s.setpos(1, 0);
    back_space(&mut s);
    assert_eq!((s.cursor_r, s.cursor_c), (0, 80));
    let w = reset_screen(&mut s);
    assert_eq!((s.cursor_r, s.cursor_c), (0, 0));
    assert_eq!((w[1].val, w[3].val), (0, 0));
    assert_eq!(cell(&s, 0, 0), (0, 0x0f));
}

#[test]
fn help_line_leaves_the_cursor_alone() {
    let mut s = CGAScreen::new();
    s.print("abc");
    set_attr(&mut s, 0x0e);
    print_help(&mut s, "F1", 0x70);
    assert_eq!((s.cursor_r, s.cursor_c, s.attr), (0, 3, 0x0e));
    assert_eq!(cell(&s, 24, 0), (b'F', 0x70));
    assert_eq!(cell(&s, 24, 1), (b'1', 0x70));
    assert_eq!(cell(&s, 24, 2), (0, 0x0e));
    assert_eq!(CGAScreen::init_cursor(0xff, 0xff), (0xce, 0xef));
    assert_eq!(CGAScreen::init_cursor(0x00, 0x00), (0x0e, 0x0f));
}

#[test]
fn multiboot_info_is_checked_before_use() {
    let info = MultibootInfo {
        flags: MultibootInfoFlags { bits: MultibootInfoFlags::MEM | MultibootInfoFlags::MMAP },
        mem: MultibootInfoMem { mem_lower: 640, mem_upper: 130_000 },
        mmap: MultibootInfoMmap { mmap_length: 144, mmap_addr: 0x9000 },
    };
    assert!(check(0x2BADB002, &info));
    assert!(!check(0x2BADB003, &info));
    assert!(get_mb_info(0x2BADB002, &info).is_some());
    assert!(get_mb_info(0, &info).is_none());
    assert_eq!(info.get_mem().unwrap().lower(), 640);
    assert_eq!(info.get_mem().unwrap().upper(), 130_000);
    assert_eq!(info.get_mmap().unwrap().mmap_length, 144);
    let bad = MultibootInfo { flags: MultibootInfoFlags { bits: 0x2000 }, ..info };
    assert!(!check(0x2BADB002, &bad));
    assert!(!bad.get_flags().check_valid());
    assert!(MultibootInfoFlags { bits: 0x1fff }.check_valid());
    let none = MultibootInfo { flags: MultibootInfoFlags { bits: 2 }, ..info };
    assert_eq!(none.get_mem(), None);
    assert_eq!(none.get_mmap(), None);
    let b = MultibootMmap { size: 20, addr: 0x10_0000, len: 0x70_0000, mtype: 1 };
    assert_eq!(b.get_end(), 0x80_0000);
    assert_eq!(b.get_range(), 0x10_0000..0x80_0000);
    assert_eq!(b.kind_name(), "GOOD");
    assert_eq!(MultibootMmap { mtype: 5, ..b }.kind_name(), "BAD ");
    assert_eq!(MultibootMmap { mtype: 9, ..b }.kind_name(), "UNKN");
}

#[test]
fn help_line_takes_eighty_bytes_at_most() {
    let mut s = CGAScreen::new();
    let long: String = (0..100).map(|i| (b'a' + (i % 26) as u8) as char).collect();
    print_help(&mut s, &long, 0x70);
    // eighty characters run over the last column: the line moves up once,
    // and the new bottom line is cleared with the attribute of the text
    assert_eq!(cell(&s, 24, 0), (0, 0x70));
    assert_eq!(cell(&s, 23, 0), (b'a', 0x70));
    assert_eq!(cell(&s, 23, 79), (b'b', 0x70));
    assert_eq!((s.cursor_r, s.cursor_c), (0, 0));
    let mut t = CGAScreen::new();
    let exact: String = long.chars().take(80).collect();
    print_help(&mut t, &exact, 0x70);
    assert_eq!(s.cga_mem, t.cga_mem);
}

#[test]
fn a_trap_ends_with_interrupts_enabled() {
    // a trap comes in with interrupts disabled, and the entry leaves them so
    let mut cpu = Cpu { rflags: 0x46, cr2: 7, cr3: 9 };
    assert_eq!(trap_gate(&cpu, 0x21, &frame(0)), Trap::Irq(IrqPhase::Entry { nr: 0x21 }));
    assert_eq!(cpu.rflags, 0x46);
    trap_exit(&mut cpu);
    assert_eq!((cpu.rflags, cpu.cr2, cpu.cr3), (0x246, 7, 9));
    // an activation that has run epilogues returns with them enabled already
    trap_exit(&mut cpu);
    assert_eq!(cpu.rflags, 0x246);
}
