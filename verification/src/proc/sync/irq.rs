//! Interrupt gates: the two-phase handlers that device drivers register, and
//! the queue in which epilogues wait for the epilogue level.
use std::collections::VecDeque;
use vstd::prelude::*;

verus! {

/// The name of a driver routine. The kernel core does not run driver code
/// itself: it hands the routine to its caller, who runs it.
#[derive(Copy, Clone, Debug, PartialEq, Eq, Structural)]
pub struct Routine(pub u64);

/// The queue of the epilogues that could not run when their interrupt came,
/// oldest first. It is changed in level 3 sections only.
pub struct EpilogueQueue {
    pub queue: VecDeque<EpilogueEntrant>,
}

impl EpilogueQueue {
    pub fn new() -> (q: Self)
        ensures
            q.queue@ == Seq::<EpilogueEntrant>::empty(),
    {
        Self { queue: VecDeque::new() }
    }
}

/// The handler of a device interrupt: a prologue, which every gate has, and
/// an epilogue, which a gate may have.
#[derive(Copy, Clone, Debug, PartialEq, Eq, Structural)]
pub struct IRQGate {
    pub prologue: Routine,
    pub epilogue_entrant: Option<EpilogueEntrant>,
}

impl IRQGate {
    /// The prologue, for the caller to run with interrupts disabled.
    pub fn call_prologue(&self) -> (r: Routine)
        ensures
            r == self.prologue,
    {
        self.prologue
    }

    /// The epilogue of the handler, if it has one. An epilogue is never run
    /// straight from here: it goes through the dispatcher, which runs
    /// epilogues one at a time.
    pub fn get_epilogue(&self) -> (e: Option<EpilogueEntrant>)
        ensures
            e == self.epilogue_entrant,
    {
        return self.epilogue_entrant;
    }
}

/// An epilogue that is ready to run.
#[derive(Copy, Clone, Debug, PartialEq, Eq, Structural)]
pub struct EpilogueEntrant {
    pub epilogue: Routine,
}

impl EpilogueEntrant {
    /// The epilogue routine, for the holder of the epilogue level to run.
    pub fn call(&self) -> (r: Routine)
        ensures
            r == self.epilogue,
    {
        self.epilogue
    }
}

/// A device driver that has a prologue only.
pub trait IRQHandler {
    /// The prologue of the driver.
    spec fn prologue() -> Routine;

    /// The first half of the handler. It runs with interrupts disabled, is
    /// short and bounded, and must not block.
    fn do_prologue() -> (r: Routine)
        ensures
            r == Self::prologue(),
    ;

    /// The handler to register for the driver.
    fn get_gate() -> (gate: IRQGate)
        ensures
            gate.prologue == Self::prologue(),
            gate.epilogue_entrant is None,
    {
        IRQGate { prologue: Self::do_prologue(), epilogue_entrant: None }
    }
}

/// A device driver that has a prologue and an epilogue.
pub trait IRQHandlerEpilogue {
    /// The prologue of the driver.
    spec fn prologue() -> Routine;

    /// The epilogue of the driver.
    spec fn epilogue() -> Routine;

    /// The first half of the handler, as in [`IRQHandler`].
    fn do_prologue() -> (r: Routine)
        ensures
            r == Self::prologue(),
    ;

    /// The second half of the handler. It runs with interrupts enabled, but
    /// no two epilogues run at the same time.
    fn do_epilogue() -> (r: Routine)
        ensures
            r == Self::epilogue(),
    ;

    /// The handler to register for the driver.
    fn get_gate() -> (gate: IRQGate)
        ensures
            gate.prologue == Self::prologue(),
            gate.epilogue_entrant == Some(EpilogueEntrant { epilogue: Self::epilogue() }),
    {
        IRQGate {
            prologue: Self::do_prologue(),
            epilogue_entrant: Some(EpilogueEntrant { epilogue: Self::do_epilogue() }),
        }
    }
}

} // verus!
