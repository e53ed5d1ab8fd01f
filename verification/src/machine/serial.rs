//! Output through the serial port: without state, without locks, not
//! blocking.
use crate::machine::device_io::{IOPort, PortWrite};
use vstd::prelude::*;
use vstd::string::StringSliceAdditionalSpecFns;

verus! {

/// A writer to a serial port.
pub struct SerialWritter {
    pub port: IOPort,
}

impl SerialWritter {
    pub fn new(port: u16) -> (w: Self)
        ensures
            w.port.0 == port,
    {
        Self { port: IOPort::new(port) }
    }

    /// The write of one byte to the port.
    pub fn putchar(&self, ch: u8) -> (w: PortWrite)
        ensures
            w == (PortWrite { port: self.port.0, val: ch }),
    {
        self.port.outb(ch)
    }

    /// The writes that send a string: its bytes, first to last.
    pub fn print(&self, s: &str) -> (writes: Vec<PortWrite>)
        ensures
            writes@.len() == s.spec_bytes().len(),
            forall|i: int|
                0 <= i < writes@.len() ==> #[trigger] writes@[i] == (PortWrite {
                    port: self.port.0,
                    val: s.spec_bytes()[i],
                }),
    {
        let bytes = s.as_bytes();
        let mut writes: Vec<PortWrite> = Vec::new();
        let mut i: usize = 0;
        while i < bytes.len()
            invariant
                0 <= i <= bytes.len(),
                bytes@ == s.spec_bytes(),
                writes@.len() == i,
                forall|j: int|
                    0 <= j < i ==> #[trigger] writes@[j] == (PortWrite {
                        port: self.port.0,
                        val: bytes@[j],
                    }),
            decreases bytes.len() - i,
        {
            writes.push(self.putchar(bytes[i]));
            i += 1;
        }
        writes
    }
}

} // verus!
