//! The registrar of the interrupt handlers.
use crate::arch::x86_64::interrupt::pit::PIT;
use crate::defs::IntNumber;
use crate::machine::keyctrl::KeyboardDriver;
use crate::proc::sync::irq::{EpilogueEntrant, IRQGate, IRQHandlerEpilogue, Routine};
use std::collections::BTreeMap;
use vstd::prelude::*;

verus! {

/// The table of the interrupt handlers: the timer and the keyboard, each
/// under its vector.
pub fn irq_gate_map() -> (gates: BTreeMap<u16, IRQGate>)
    ensures
        gates@.dom() == set![IntNumber::TIMER, IntNumber::KEYBOARD],
        gates@[IntNumber::TIMER] == (IRQGate {
            prologue: Routine(PIT::PROLOGUE),
            epilogue_entrant: Some(EpilogueEntrant { epilogue: Routine(PIT::EPILOGUE) }),
        }),
        gates@[IntNumber::KEYBOARD] == (IRQGate {
            prologue: Routine(KeyboardDriver::PROLOGUE),
            epilogue_entrant: Some(
                EpilogueEntrant { epilogue: Routine(KeyboardDriver::EPILOGUE) },
            ),
        }),
{
    broadcast use vstd::std_specs::btree::group_btree_axioms;

    let mut gates: BTreeMap<u16, IRQGate> = BTreeMap::new();
    gates.insert(IntNumber::TIMER, PIT::get_gate());
    gates.insert(IntNumber::KEYBOARD, KeyboardDriver::get_gate());
    assert(gates@.dom() =~= set![IntNumber::TIMER, IntNumber::KEYBOARD]);
    gates
}

} // verus!
