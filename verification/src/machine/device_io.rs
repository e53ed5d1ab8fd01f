//! Ports of devices. The kernel core does not touch a port itself: it
//! says what is to be written to which port, and its caller writes.
use vstd::prelude::*;

verus! {

/// A byte that is to be written to a port.
#[derive(Copy, Clone, Debug, PartialEq, Eq, Structural)]
pub struct PortWrite {
    pub port: u16,
    pub val: u8,
}

/// A word of 16 bits that is to be written to a port.
#[derive(Copy, Clone, Debug, PartialEq, Eq, Structural)]
pub struct PortWriteWord {
    pub port: u16,
    pub val: u16,
}

/// A port of a device.
#[derive(Copy, Clone, Debug, PartialEq, Eq, Structural)]
pub struct IOPort(pub u16);

impl IOPort {
    pub fn new(port: u16) -> (p: Self)
        ensures
            p.0 == port,
    {
        Self(port)
    }

    /// The write of a word to the port.
    pub fn outw(&self, val: u16) -> (w: PortWriteWord)
        ensures
            w == (PortWriteWord { port: self.0, val }),
    {
        PortWriteWord { port: self.0, val }
    }

    /// The write of a byte to the port.
    pub fn outb(&self, val: u8) -> (w: PortWrite)
        ensures
            w == (PortWrite { port: self.0, val }),
    {
        PortWrite { port: self.0, val }
    }
}

} // verus!
