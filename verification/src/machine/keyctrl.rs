//! The driver of the keyboard controller: it follows the modifier keys and
//! turns scan codes into key events.
//!
//! The gathered key is either a whole key or nothing, never half a key.
use crate::arch::x86_64::{is_int_enabled, spec_is_int_enabled, Cpu};
use crate::machine::device_io::IOPort;
use crate::machine::key::{Key, Modifiers, ALT_TAB, ASC_NUM_TAB, NORMAL_TAB, SHIFT_TAB};
use crate::proc::sched::Scheduler;
use crate::proc::sync::irq::{EpilogueEntrant, IRQGate, IRQHandlerEpilogue, Routine};
use crate::proc::sync::semaphore::{Semaphore, SleepSemaphore};
use crate::proc::sync::L2Sync;
use crate::proc::task::{TaskId, TaskState, TaskTable};
use std::collections::VecDeque;
use vstd::prelude::*;

verus! {

/// Ports, commands and scan codes of the keyboard controller.
pub struct Defs;

impl Defs {
    pub const CTRL: u16 = 0x64;

    pub const DATA: u16 = 0x60;

    pub const CPU_RESET: u8 = 0xfe;

    pub const BREAK_BIT: u8 = 1 << 7;

    pub const C_PREFIX1: u8 = 0xe0;

    pub const C_PREFIX2: u8 = 0xe1;

    pub const C_SHIFT_L: u8 = 0x2a;

    pub const C_SHIFT_R: u8 = 0x36;

    pub const C_ALT: u8 = 0x38;

    pub const C_CTRL: u8 = 0x1d;

    pub const C_CAPSLOCK: u8 = 0x3a;

    pub const C_SCRLOCK: u8 = 0x46;

    /// Num lock or pause.
    pub const C_NUM_P: u8 = 0x45;

    pub const C_F1: u8 = 0x3b;

    pub const C_DEL: u8 = 0x53;

    pub const C_UP: u8 = 0x48;

    pub const C_DOWN: u8 = 0x50;

    pub const C_LEFT: u8 = 0x4b;

    pub const C_RIGHT: u8 = 0x4d;

    pub const C_DIV: u8 = 0x8;
}

/// The status register of the keyboard controller, as a bit pattern.
#[derive(Copy, Clone, Debug, PartialEq, Eq, Structural)]
pub struct StatusReg {
    pub bits: u8,
}

impl StatusReg {
    pub const NONE: u8 = 0;

    /// The output buffer is full: there is something to read.
    pub const OUTB: u8 = 1 << 0;

    /// The input buffer is full: do not write yet.
    pub const INB: u8 = 1 << 1;

    pub const SYS: u8 = 1 << 2;

    pub const CMD_DATA: u8 = 1 << 3;

    pub const NOT_LOCKED: u8 = 1 << 4;

    /// What is to be read comes from the mouse.
    pub const AUXB: u8 = 1 << 5;

    pub const TIMEOUT: u8 = 1 << 6;

    pub const PARITY_ERR: u8 = 1 << 7;

    pub fn from_bits_truncate(bits: u8) -> (s: Self)
        ensures
            s.bits == bits,
    {
        StatusReg { bits }
    }

    /// Whether every flag in `flags` is set.
    pub open spec fn spec_contains(&self, flags: u8) -> bool {
        self.bits & flags == flags
    }

    /// Whether every flag in `flags` is set.
    #[verifier::when_used_as_spec(spec_contains)]
    pub fn contains(&self, flags: u8) -> (r: bool)
        ensures
            r == self.spec_contains(flags),
    {
        self.bits & flags == flags
    }
}

/// What a key event asks the driver to do with the device.
#[derive(Copy, Clone, Debug, PartialEq, Eq, Structural)]
pub enum KbdAction {
    /// Nothing.
    Nothing,
    /// Set the lights of the keyboard to these.
    UpdateLed(u8),
    /// Reset the processor: control, alt and delete were pressed.
    Reboot,
}

/// A prefix that the keyboard sends before some scan codes.
#[derive(Clone, Copy, Debug, Eq, PartialEq, Structural)]
pub enum Prefix {
    PREFIX1,
    PREFIX2,
    NONE,
}

impl Prefix {
    /// The prefix that a scan code stands for, if it stands for one.
    pub fn try_from_u8(val: u8) -> (r: Option<Prefix>)
        ensures
            r == (if val == Defs::C_PREFIX1 {
                Some(Prefix::PREFIX1)
            } else if val == Defs::C_PREFIX2 {
                Some(Prefix::PREFIX2)
            } else {
                None
            }),
    {
        if val == Defs::C_PREFIX1 {
            Some(Self::PREFIX1)
        } else if val == Defs::C_PREFIX2 {
            Some(Self::PREFIX2)
        } else {
            None
        }
    }
}

/// What the driver remembers between scan codes.
#[derive(Clone, Copy, Debug, Eq, PartialEq, Structural)]
pub struct KeyState {
    /// The modifiers that are active.
    pub modi: Modifiers,
    /// The prefix that came before the scan code.
    pub prefix: Prefix,
    /// The scan code that came last.
    pub scan: Option<u8>,
}

impl KeyState {
    pub fn new() -> (s: Self)
        ensures
            s.modi.bits == Modifiers::NONE,
            s.prefix == Prefix::NONE,
            s.scan is None,
    {
        Self {
            modi: Modifiers::from_bits_truncate(Modifiers::NONE),
            prefix: Prefix::NONE,
            scan: None,
        }
    }

    /// The lights of the keyboard: the three locks.
    pub fn get_leds(&self) -> (leds: u8)
        ensures
            leds == self.modi.bits & 0b111,
    {
        return self.modi.bits() & 0b111;
    }
}

/// The keyboard controller.
pub struct KeyboardController {
    pub keystate: KeyState,
    /// The key that was decoded last and not consumed yet, packed into 32
    /// bits, or the pattern for "no key".
    pub gather: u32,
    pub cport: IOPort,
    pub dport: IOPort,
}

impl KeyboardController {
    pub fn new() -> (c: Self)
        ensures
            c.keystate.modi.bits == Modifiers::NONE,
            c.keystate.prefix == Prefix::NONE,
            c.keystate.scan is None,
            c.gather == Key::NONE_KEY,
            c.cport.0 == Defs::CTRL,
            c.dport.0 == Defs::DATA,
    {
        Self {
            keystate: KeyState::new(),
            cport: IOPort::new(Defs::CTRL),
            dport: IOPort::new(Defs::DATA),
            gather: Key::NONE_KEY,
        }
    }

    /// Switch a lock, and hand back the lights to show. The lights are
    /// never set on their own: they follow the locks.
    pub fn toggle_lock(&mut self, lock: u8) -> (leds: u8)
        ensures
            final(self).keystate.modi.bits == old(self).keystate.modi.bits ^ lock,
            final(self).keystate.prefix == old(self).keystate.prefix,
            final(self).keystate.scan == old(self).keystate.scan,
            final(self).gather == old(self).gather,
            final(self).cport == old(self).cport,
            final(self).dport == old(self).dport,
            leds == (old(self).keystate.modi.bits ^ lock) & 0b111,
    {
        self.keystate.modi.toggle(lock);
        self.keystate.get_leds()
    }

    /// Whether the modifiers and the prefix are what a key press of the
    /// scan code `code` leaves of the modifiers `modi` under the prefix
    /// `prefix`, and `action` and `decode` what it asks for.
    pub open spec fn spec_press(modi: u8, prefix: Prefix, code: u8) -> (u8, KbdAction, bool) {
        if code == Defs::C_SHIFT_L || code == Defs::C_SHIFT_R {
            (modi | Modifiers::SHIFT, KbdAction::Nothing, false)
        } else if code == Defs::C_ALT {
            if prefix == Prefix::PREFIX1 {
                (modi | Modifiers::ALT_RIGHT, KbdAction::Nothing, false)
            } else {
                (modi | Modifiers::ALT_LEFT, KbdAction::Nothing, false)
            }
        } else if code == Defs::C_CTRL {
            if prefix == Prefix::PREFIX1 {
                (modi | Modifiers::CTRL_RIGHT, KbdAction::Nothing, false)
            } else {
                (modi | Modifiers::CTRL_LEFT, KbdAction::Nothing, false)
            }
        } else if code == Defs::C_CAPSLOCK {
            (
                modi ^ Modifiers::CAPSLOCK,
                KbdAction::UpdateLed((modi ^ Modifiers::CAPSLOCK) & 0b111),
                false,
            )
        } else if code == Defs::C_NUM_P {
            if modi & Modifiers::CTRL_LEFT == Modifiers::CTRL_LEFT {
                (modi, KbdAction::Nothing, false)
            } else {
                (
                    modi ^ Modifiers::NUMLOCK,
                    KbdAction::UpdateLed((modi ^ Modifiers::NUMLOCK) & 0b111),
                    false,
                )
            }
        } else if code == Defs::C_SCRLOCK {
            (
                modi ^ Modifiers::SCROLL_LOCK,
                KbdAction::UpdateLed((modi ^ Modifiers::SCROLL_LOCK) & 0b111),
                false,
            )
        } else if code == Defs::C_DEL {
            if modi & (Modifiers::CTRL_LEFT | Modifiers::ALT_LEFT) == Modifiers::CTRL_LEFT
                | Modifiers::ALT_LEFT {
                (modi, KbdAction::Reboot, false)
            } else {
                (modi, KbdAction::Nothing, false)
            }
        } else {
            (modi, KbdAction::Nothing, true)
        }
    }

    /// A key was pressed: the scan code that came last. A modifier key
    /// joins the active modifiers, a lock key switches its lock, and
    /// control, alt and delete together ask for a reboot; none of these
    /// gives a character. Any other key is to be decoded. A scan code must
    /// have come.
    pub fn press_event(&mut self) -> (r: (bool, KbdAction))
        requires
            old(self).keystate.scan is Some,
        ensures
            final(self).keystate.modi.bits == Self::spec_press(
                old(self).keystate.modi.bits,
                old(self).keystate.prefix,
                old(self).keystate.scan->0,
            ).0,
            r.1 == Self::spec_press(
                old(self).keystate.modi.bits,
                old(self).keystate.prefix,
                old(self).keystate.scan->0,
            ).1,
            r.0 == Self::spec_press(
                old(self).keystate.modi.bits,
                old(self).keystate.prefix,
                old(self).keystate.scan->0,
            ).2,
            final(self).keystate.prefix == old(self).keystate.prefix,
            final(self).keystate.scan == old(self).keystate.scan,
            final(self).gather == old(self).gather,
            final(self).cport == old(self).cport,
            final(self).dport == old(self).dport,
    {
        let mut should_decode_ascii = false;
        let mut action = KbdAction::Nothing;
        let code = self.keystate.scan.unwrap();
        if code == Defs::C_SHIFT_L || code == Defs::C_SHIFT_R {
            self.keystate.modi.insert(Modifiers::SHIFT);
        } else if code == Defs::C_ALT {
            match self.keystate.prefix {
                Prefix::PREFIX1 => self.keystate.modi.insert(Modifiers::ALT_RIGHT),
                _ => self.keystate.modi.insert(Modifiers::ALT_LEFT),
            }
        } else if code == Defs::C_CTRL {
            match self.keystate.prefix {
                Prefix::PREFIX1 => self.keystate.modi.insert(Modifiers::CTRL_RIGHT),
                _ => self.keystate.modi.insert(Modifiers::CTRL_LEFT),
            }
        } else if code == Defs::C_CAPSLOCK {
            action = KbdAction::UpdateLed(self.toggle_lock(Modifiers::CAPSLOCK));
        } else if code == Defs::C_NUM_P {
            if !self.keystate.modi.contains(Modifiers::CTRL_LEFT) {
                action = KbdAction::UpdateLed(self.toggle_lock(Modifiers::NUMLOCK));
            }
        } else if code == Defs::C_SCRLOCK {
            action = KbdAction::UpdateLed(self.toggle_lock(Modifiers::SCROLL_LOCK));
        } else if code == Defs::C_DEL {
            if self.keystate.modi.contains(Modifiers::CTRL_LEFT | Modifiers::ALT_LEFT) {
                action = KbdAction::Reboot;
            }
        } else {
            should_decode_ascii = true;
        }
        (should_decode_ascii, action)
    }

    /// The modifiers that the release of the key with the scan code
    /// `code`, without its break bit, leaves of the modifiers `modi` under
    /// the prefix `prefix`.
    pub open spec fn spec_release(modi: u8, prefix: Prefix, code: u8) -> u8 {
        if code == Defs::C_SHIFT_L || code == Defs::C_SHIFT_R {
            modi & !Modifiers::SHIFT
        } else if code == Defs::C_ALT {
            if prefix == Prefix::PREFIX1 {
                modi & !Modifiers::ALT_RIGHT
            } else {
                modi & !Modifiers::ALT_LEFT
            }
        } else if code == Defs::C_CTRL {
            if prefix == Prefix::PREFIX1 {
                modi & !Modifiers::CTRL_RIGHT
            } else {
                modi & !Modifiers::CTRL_LEFT
            }
        } else {
            modi
        }
    }

    /// A key was released: only shift, alt and control matter, which leave
    /// the active modifiers. A scan code must have come.
    pub fn release_event(&mut self)
        requires
            old(self).keystate.scan is Some,
        ensures
            final(self).keystate.modi.bits == Self::spec_release(
                old(self).keystate.modi.bits,
                old(self).keystate.prefix,
                old(self).keystate.scan->0 & !Defs::BREAK_BIT,
            ),
            final(self).keystate.prefix == old(self).keystate.prefix,
            final(self).keystate.scan == old(self).keystate.scan,
            final(self).gather == old(self).gather,
            final(self).cport == old(self).cport,
            final(self).dport == old(self).dport,
    {
        let code = self.keystate.scan.unwrap() & !Defs::BREAK_BIT;
        if code == Defs::C_SHIFT_L || code == Defs::C_SHIFT_R {
            self.keystate.modi.remove(Modifiers::SHIFT);
        } else if code == Defs::C_ALT {
            match self.keystate.prefix {
                Prefix::PREFIX1 => self.keystate.modi.remove(Modifiers::ALT_RIGHT),
                _ => self.keystate.modi.remove(Modifiers::ALT_LEFT),
            }
        } else if code == Defs::C_CTRL {
            match self.keystate.prefix {
                Prefix::PREFIX1 => self.keystate.modi.remove(Modifiers::CTRL_RIGHT),
                _ => self.keystate.modi.remove(Modifiers::CTRL_LEFT),
            }
        }
    }

    /// The character of a key: of the scan code `c`, which is below 100,
    /// with the modifiers `m` and after the prefix `p`. The number block
    /// gives digits while num lock is on; otherwise the right alt key, then
    /// shift, then caps lock for the letters choose the table.
    pub open spec fn spec_asc(m: Modifiers, p: Prefix, c: u8) -> u8 {
        if c == 53 && p == Prefix::PREFIX1 {
            0x2f
        } else if m.contains(Modifiers::NUMLOCK) && p == Prefix::NONE && c >= 71 && c <= 83 {
            ASC_NUM_TAB[c - 71]
        } else if m.contains(Modifiers::ALT_RIGHT) {
            ALT_TAB[c as int]
        } else if m.contains(Modifiers::SHIFT) {
            SHIFT_TAB[c as int]
        } else if m.contains(Modifiers::CAPSLOCK) {
            if (c >= 16 && c <= 26) || (c >= 30 && c <= 40) || (c >= 44 && c <= 50) {
                SHIFT_TAB[c as int]
            } else {
                NORMAL_TAB[c as int]
            }
        } else {
            NORMAL_TAB[c as int]
        }
    }

    /// Decode the scan code that came last into a key, and gather it. The
    /// scan code must have come, and without its break bit it must be below
    /// 100, which is where the tables end.
    pub fn decode_key(&mut self)
        requires
            old(self).keystate.scan is Some,
            old(self).keystate.scan->0 & !Defs::BREAK_BIT < 100,
        ensures
            final(self).keystate == old(self).keystate,
            final(self).cport == old(self).cport,
            final(self).dport == old(self).dport,
            final(self).gather == (Key {
                asc: Self::spec_asc(
                    old(self).keystate.modi,
                    old(self).keystate.prefix,
                    old(self).keystate.scan->0 & !Defs::BREAK_BIT,
                ),
                modi: old(self).keystate.modi,
                scan: old(self).keystate.scan->0,
            }).spec_to_u32(),
    {
        let s = self.keystate.scan.unwrap();
        let c = s & !Defs::BREAK_BIT;
        let m = self.keystate.modi;
        let p = self.keystate.prefix;
        if c == 53 && p == Prefix::PREFIX1 {
            let k = Key { asc: 0x2f, modi: m, scan: s };
            self.gather = k.to_u32();
            return ;
        }
        let asc = if m.contains(Modifiers::NUMLOCK) && p == Prefix::NONE && c >= 71 && c <= 83 {
            ASC_NUM_TAB[c as usize - 71]
        } else if m.contains(Modifiers::ALT_RIGHT) {
            ALT_TAB[c as usize]
        } else if m.contains(Modifiers::SHIFT) {
            SHIFT_TAB[c as usize]
        } else if m.contains(Modifiers::CAPSLOCK) {
            if (c >= 16 && c <= 26) || (c >= 30 && c <= 40) || (c >= 44 && c <= 50) {
                SHIFT_TAB[c as usize]
            } else {
                NORMAL_TAB[c as usize]
            }
        } else {
            NORMAL_TAB[c as usize]
        };
        let k = Key { asc, modi: m, scan: s };
        self.gather = k.to_u32();
    }

    /// Take in a scan code from the keyboard. A prefix is remembered for
    /// the scan code that follows. A key press is handled as by
    /// [`KeyboardController::press_event`] and, where that says so,
    /// decoded; a key release as by [`KeyboardController::release_event`].
    /// After a scan code that is no prefix the prefix is used up. A scan
    /// code of a key press must be below 100.
    pub fn update_state(&mut self, code: u8) -> (action: KbdAction)
        requires
            code & Defs::BREAK_BIT == 0 ==> code < 100,
        ensures
            final(self).cport == old(self).cport,
            final(self).dport == old(self).dport,
            final(self).keystate.scan == Some(code),
            code == Defs::C_PREFIX1 ==> action == KbdAction::Nothing && final(self).keystate.prefix
                == Prefix::PREFIX1 && final(self).keystate.modi == old(self).keystate.modi
                && final(self).gather == old(self).gather,
            code == Defs::C_PREFIX2 ==> action == KbdAction::Nothing && final(self).keystate.prefix
                == Prefix::PREFIX2 && final(self).keystate.modi == old(self).keystate.modi
                && final(self).gather == old(self).gather,
            code != Defs::C_PREFIX1 && code != Defs::C_PREFIX2 ==> final(self).keystate.prefix
                == Prefix::NONE,
            // a key press
            code & Defs::BREAK_BIT == 0 ==> {
                let pressed = Self::spec_press(
                    old(self).keystate.modi.bits,
                    old(self).keystate.prefix,
                    code,
                );
                &&& final(self).keystate.modi.bits == pressed.0
                &&& action == pressed.1
                &&& !pressed.2 ==> final(self).gather == old(self).gather
                &&& pressed.2 ==> final(self).gather == (Key {
                    asc: Self::spec_asc(old(self).keystate.modi, old(self).keystate.prefix, code),
                    modi: old(self).keystate.modi,
                    scan: code,
                }).spec_to_u32()
            },
            // a key release
            code & Defs::BREAK_BIT != 0 && code != Defs::C_PREFIX1 && code != Defs::C_PREFIX2 ==> {
                &&& action == KbdAction::Nothing
                &&& final(self).gather == old(self).gather
                &&& final(self).keystate.modi.bits == Self::spec_release(
                    old(self).keystate.modi.bits,
                    old(self).keystate.prefix,
                    code & !Defs::BREAK_BIT,
                )
            },
    {
        assert(0xe0u8 & (1u8 << 7) != 0 && 0xe1u8 & (1u8 << 7) != 0) by (bit_vector);
        assert(code & (1u8 << 7) == 0 ==> code & !(1u8 << 7) == code) by (bit_vector);
        self.keystate.scan = Some(code);
        if let Some(p) = Prefix::try_from_u8(code) {
            self.keystate.prefix = p;
            return KbdAction::Nothing;
        }
        let mut action = KbdAction::Nothing;
        if code & Defs::BREAK_BIT == 0 {
            let (decode, a) = self.press_event();
            action = a;
            if decode {
                self.decode_key();
            }
        } else {
            self.release_event();
        }
        // the prefix has been used up
        self.keystate.prefix = Prefix::NONE;
        action
    }

    /// Whether the status register says that a scan code of the keyboard
    /// waits in the data port: the output buffer is full, and what is in it
    /// does not come from the mouse.
    pub fn fetch_key(sr: &StatusReg) -> (r: bool)
        ensures
            r == (sr.contains(StatusReg::OUTB) && !sr.contains(StatusReg::AUXB)),
    {
        if !sr.contains(StatusReg::OUTB) || sr.contains(StatusReg::AUXB) {
            return false;
        }
        true
    }

    /// The status register with the value that was read from the control
    /// port.
    #[inline(always)]
    pub fn read_status(raw: u8) -> (r: Option<StatusReg>)
        ensures
            r == Some(StatusReg { bits: raw }),
    {
        Some(StatusReg::from_bits_truncate(raw))
    }

    /// Take the gathered key, if there is one; nothing is gathered
    /// afterwards.
    #[inline]
    pub fn consume_key(&mut self) -> (r: Option<Key>)
        ensures
            r == Key::spec_from_u32(old(self).gather),
            final(self).gather == Key::NONE_KEY,
            final(self).keystate == old(self).keystate,
            final(self).cport == old(self).cport,
            final(self).dport == old(self).dport,
    {
        let res = self.gather;
        self.gather = Key::NONE_KEY;
        return Key::from_u32(res);
    }
}

/// The driver of the keyboard, as the interrupt dispatcher sees it.
pub struct KeyboardDriver {}

impl KeyboardDriver {
    /// The name of the prologue of the driver.
    pub const PROLOGUE: u64 = 0x2100;

    /// The name of the epilogue of the driver.
    pub const EPILOGUE: u64 = 0x2101;

    /// The work of the epilogue: the gathered key, if there is one, goes
    /// into the buffer of keys, which wakes a task that waits for a key.
    /// Interrupts must be enabled.
    pub fn run_epilogue(
        ctl: &mut KeyboardController,
        buffer: &mut SleepSemaphore<VecDeque<Key>>,
        cpu: &mut Cpu,
        tasks: &mut TaskTable,
        sched: &mut L2Sync<Scheduler>,
    ) -> (produced: bool)
        requires
            is_int_enabled(old(cpu)),
        ensures
            *final(cpu) == *old(cpu),
            final(sched)@.need_schedule == old(sched)@.need_schedule,
            final(ctl).gather == Key::NONE_KEY,
            final(ctl).keystate == old(ctl).keystate,
            produced == Key::spec_from_u32(old(ctl).gather) is Some,
            produced ==> SleepSemaphore::spec_v(
                old(buffer),
                final(buffer),
                old(tasks),
                final(tasks),
                old(sched)@.run_queue@,
                final(sched)@.run_queue@,
                Key::spec_from_u32(old(ctl).gather)->0,
            ),
            !produced ==> *final(buffer) == *old(buffer) && *final(tasks) == *old(tasks)
                && *final(sched) == *old(sched),
            SleepSemaphore::keeps_order(
                old(buffer),
                final(buffer),
                old(tasks),
                final(tasks),
                old(sched)@.run_queue@,
                final(sched)@.run_queue@,
            ),
    {
        let k = ctl.consume_key();
        if k.is_some() {
            buffer.v_unguarded(cpu, tasks, sched, k.unwrap());
            true
        } else {
            false
        }
    }
}

impl IRQHandlerEpilogue for KeyboardDriver {
    open spec fn prologue() -> Routine {
        Routine(Self::PROLOGUE)
    }

    open spec fn epilogue() -> Routine {
        Routine(Self::EPILOGUE)
    }

    fn do_prologue() -> (r: Routine) {
        Routine(Self::PROLOGUE)
    }

    fn do_epilogue() -> (r: Routine) {
        Routine(Self::EPILOGUE)
    }
}

} // verus!
