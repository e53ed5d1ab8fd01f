//! The programmable interrupt controller. It has no state of its own here:
//! each function says what is to be written to its ports.
use crate::machine::device_io::PortWrite;
use vstd::prelude::*;

verus! {

/// The mask register of the first controller: the interrupts 0 to 7.
pub const IMR1: u16 = 0x21;

/// The mask register of the second controller: the interrupts 8 to 15.
pub const IMR2: u16 = 0xa1;

pub const CTRL1: u16 = 0x20;

pub const CTRL2: u16 = 0xa0;

/// The vector of the first device interrupt.
pub const PIC_VECTOR_OFFSET: u8 = 0x20;

/// The interrupts of the devices.
pub struct PicDeviceInt;

impl PicDeviceInt {
    pub const TIMER: u8 = 0;

    pub const KEYBOARD: u8 = 1;
}

/// The writes that program the two controllers anew: start of the
/// initialization in cascade mode; the vector offsets 0x20 and 0x28; the
/// second controller on line 2 of the first; 8086 mode with automatic end
/// of interrupt; and the masks, which let only the cascade through.
pub open spec fn spec_init() -> Seq<PortWrite> {
    seq![
        PortWrite { port: CTRL1, val: 0x11 },
        PortWrite { port: CTRL2, val: 0x11 },
        PortWrite { port: IMR1, val: 0x20 },
        PortWrite { port: IMR2, val: 0x28 },
        PortWrite { port: IMR1, val: 0x04 },
        PortWrite { port: IMR2, val: 0x02 },
        PortWrite { port: IMR1, val: 0x03 },
        PortWrite { port: IMR2, val: 0x03 },
        PortWrite { port: IMR1, val: 0xfb },
        PortWrite { port: IMR2, val: 0xff },
    ]
}

/// The writes that program the two controllers anew. They must be written
/// before interrupts are enabled.
pub fn init() -> (writes: Vec<PortWrite>)
    ensures
        writes@ == spec_init(),
{
    let mut w: Vec<PortWrite> = Vec::new();
    w.push(PortWrite { port: CTRL1, val: 0x11 });
    w.push(PortWrite { port: CTRL2, val: 0x11 });
    w.push(PortWrite { port: IMR1, val: PIC_VECTOR_OFFSET });
    w.push(PortWrite { port: IMR2, val: PIC_VECTOR_OFFSET + 8 });
    w.push(PortWrite { port: IMR1, val: 0x04 });
    w.push(PortWrite { port: IMR2, val: 0x02 });
    w.push(PortWrite { port: IMR1, val: 0x03 });
    w.push(PortWrite { port: IMR2, val: 0x03 });
    w.push(PortWrite { port: IMR1, val: 0xfb });
    w.push(PortWrite { port: IMR2, val: 0xff });
    assert(w@ =~= spec_init());
    w
}

/// The mask register that holds the bit of an interrupt.
pub open spec fn spec_imr_port(interrupt: u8) -> u16 {
    if interrupt < 8 {
        IMR1
    } else {
        IMR2
    }
}

/// The mask register that holds the bit of an interrupt.
#[verifier::when_used_as_spec(spec_imr_port)]
pub fn imr_port(interrupt: u8) -> (port: u16)
    ensures
        port == spec_imr_port(interrupt),
{
    if interrupt < 8 {
        IMR1
    } else {
        IMR2
    }
}

/// The bit of an interrupt in its mask register.
pub open spec fn spec_mask_bit(interrupt: u8) -> u8 {
    if interrupt < 8 {
        1u8 << interrupt
    } else {
        1u8 << ((interrupt - 8) as u8)
    }
}

/// Let an interrupt through: `old_mask` is what its mask register holds,
/// and the write clears the bit of the interrupt in it. An interrupt is
/// disabled while its bit is set.
pub fn allow(interrupt: u8, old_mask: u8) -> (w: PortWrite)
    requires
        interrupt < 16,
    ensures
        w.port == imr_port(interrupt),
        w.val == old_mask & !spec_mask_bit(interrupt),
{
    if interrupt < 8 {
        PortWrite { port: IMR1, val: old_mask & !(1 << interrupt) }
    } else {
        PortWrite { port: IMR2, val: old_mask & !(1 << (interrupt - 8)) }
    }
}

/// Hold an interrupt back: `old_mask` is what its mask register holds, and
/// the write sets the bit of the interrupt in it.
pub fn forbid(interrupt: u8, old_mask: u8) -> (w: PortWrite)
    requires
        interrupt < 16,
    ensures
        w.port == imr_port(interrupt),
        w.val == old_mask | spec_mask_bit(interrupt),
{
    if interrupt < 8 {
        PortWrite { port: IMR1, val: old_mask | (1 << interrupt) }
    } else {
        PortWrite { port: IMR2, val: old_mask | (1 << (interrupt - 8)) }
    }
}

/// Whether the mask `mask`, read from the mask register of an interrupt,
/// has a bit in common with the number of the interrupt within its
/// controller.
pub fn is_masked(interrupt: u8, mask: u8) -> (r: bool)
    ensures
        r == (if interrupt < 8 {
            mask & interrupt != 0
        } else {
            mask & ((interrupt - 8) as u8) != 0
        }),
{
    if interrupt < 8 {
        mask & (interrupt) != 0
    } else {
        mask & (interrupt - 8) != 0
    }
}

} // verus!
