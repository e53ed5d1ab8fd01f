//! The system timer: nanoseconds since boot, advanced by the timer tick.
use vstd::prelude::*;

verus! {

/// The nanoseconds that one tick of the timer adds.
pub const HW_INCREMENT: u64 = 19999708;

/// The clock of the system: nanoseconds since boot. A 64-bit nanosecond
/// counter takes hundreds of years to wrap around.
pub struct Clock {
    pub ns: u64,
}

impl Clock {
    /// The clock at boot.
    pub fn new() -> (clock: Self)
        ensures
            clock.ns == 0,
    {
        Clock { ns: 0 }
    }
}

/// Advance the clock by one tick, and return the time before the tick. The
/// counter wraps around at the end of its range.
pub fn tick(clock: &mut Clock) -> (before: u64)
    ensures
        before == old(clock).ns,
        final(clock).ns == (if old(clock).ns + HW_INCREMENT <= u64::MAX {
            old(clock).ns + HW_INCREMENT
        } else {
            old(clock).ns + HW_INCREMENT - 0x1_0000_0000_0000_0000
        }),
{
    let before = clock.ns;
    clock.ns = before.wrapping_add(HW_INCREMENT);
    before
}

/// Whole seconds since boot.
pub fn sec(clock: &Clock) -> (s: u64)
    ensures
        s == clock.ns / 1_000_000_000,
{
    let ns = clock.ns;
    ns / 1_000_000_000
}

/// Whole milliseconds since boot.
pub fn msec(clock: &Clock) -> (ms: u64)
    ensures
        ms == clock.ns / 1_000_000,
{
    let ns = clock.ns;
    ns / 1_000_000
}

/// Nanoseconds since boot.
pub fn nsec(clock: &Clock) -> (ns: u64)
    ensures
        ns == clock.ns,
{
    clock.ns
}

} // verus!
