//! The prologue/epilogue synchronization model.
//!
//! Shared kernel state is protected by the level from which it may be
//! touched, not by locks. Level 2 is the epilogue level: at most one flow of
//! control is in it at a time. Level 3 is a short section with interrupts
//! disabled.
use crate::arch::x86_64::{is_int_enabled, spec_is_int_enabled, Cpu};
use vstd::prelude::*;

pub mod bellringer;
pub mod irq;
pub mod semaphore;

verus! {

/// The system-wide flag of the epilogue level.
pub struct Level2 {
    pub available: bool,
}

impl Level2 {
    /// The flag of a level that nobody has entered.
    pub fn new() -> (l2: Self)
        ensures
            l2.available,
    {
        Level2 { available: true }
    }

    /// Only a free level can be entered.
    pub open spec fn can_enter(self) -> bool {
        self.available
    }

    /// Only an entered level can be left.
    pub open spec fn can_leave(self) -> bool {
        !self.available
    }

    /// The flag after the level was entered.
    pub open spec fn entered(self) -> Level2 {
        Level2 { available: false }
    }

    /// The flag after the level was left.
    pub open spec fn left(self) -> Level2 {
        Level2 { available: true }
    }

    /// What an exchange does to the flag: where the flag is `current`, it
    /// becomes `new` and the exchange succeeds with the value that the flag
    /// had; where it is not, the flag stays as it is and the exchange fails
    /// with the value that the flag has.
    pub open spec fn spec_compare_exchange(self, current: bool, new: bool) -> (
        Result<bool, bool>,
        Level2,
    ) {
        if self.available == current {
            (Ok(current), Level2 { available: new })
        } else {
            (Err(self.available), self)
        }
    }

    /// Exchange the flag: set it to `new` if it is `current`, and say what
    /// it was. A failed exchange changes nothing. This is the one way in
    /// which the flag is written, and it never stops the machine: an entry
    /// or an exit that must not fail is made with [`ENTER_L2`] or
    /// [`LEAVE_L2`].
    pub fn compare_exchange(&mut self, current: bool, new: bool) -> (r: Result<bool, bool>)
        ensures
            (r, *final(self)) == old(self).spec_compare_exchange(current, new),
            r is Ok == (old(self).available == current),
            r is Err ==> *final(self) == *old(self),
    {
        if self.available == current {
            self.available = new;
            Ok(current)
        } else {
            Err(self.available)
        }
    }
}

/// Whether the epilogue level is free.
#[inline(always)]
pub fn IS_L2_AVAILABLE(l2: &Level2) -> (r: bool)
    ensures
        r == l2.available,
        r == l2.can_enter(),
        r == !l2.can_leave(),
{
    return l2.available;
}

/// Enter the epilogue level: the flag is exchanged from free to occupied.
/// Entering the level while it is occupied is a programming error: the
/// exchange would fail and leave the level to the one who has entered it.
/// The precondition rules that call out; it admits exactly the calls whose
/// exchange succeeds.
#[inline(always)]
pub fn ENTER_L2(l2: &mut Level2)
    requires
        old(l2).can_enter(),
    ensures
        *final(l2) == old(l2).entered(),
        (Ok::<bool, bool>(true), *final(l2)) == old(l2).spec_compare_exchange(true, false),
        final(l2).can_leave(),
        !final(l2).can_enter(),
{
    let r = l2.compare_exchange(true, false);
    assert(r == Ok::<bool, bool>(true));
}

/// Leave the epilogue level: the flag is exchanged from occupied to free.
/// Leaving the level without having entered it is a programming error: the
/// exchange would fail and leave the level free. The precondition rules
/// that call out; it admits exactly the calls whose exchange succeeds.
#[inline(always)]
pub fn LEAVE_L2(l2: &mut Level2)
    requires
        old(l2).can_leave(),
    ensures
        *final(l2) == old(l2).left(),
        (Ok::<bool, bool>(false), *final(l2)) == old(l2).spec_compare_exchange(false, true),
        final(l2).can_enter(),
        !final(l2).can_leave(),
{
    let r = l2.compare_exchange(false, true);
    assert(r == Ok::<bool, bool>(false));
}

/// A misuse of the epilogue level is rejected and changes nothing. An
/// entry is accepted exactly where its exchange succeeds, and so is an
/// exit. On an occupied level the exchange of an entry fails, the entry is
/// not accepted, and the level stays occupied, in the hands of the one who
/// has entered it. On a free level the exchange of an exit fails, the exit
/// is not accepted, and the level stays free.
pub proof fn lemma_l2_misuse_is_rejected(l2: Level2)
    ensures
        l2.can_enter() == (l2.spec_compare_exchange(true, false).0 is Ok),
        l2.can_leave() == (l2.spec_compare_exchange(false, true).0 is Ok),
        !l2.available ==> !l2.can_enter() && l2.spec_compare_exchange(true, false) == (
            Err::<bool, bool>(false),
            l2,
        ),
        l2.available ==> !l2.can_leave() && l2.spec_compare_exchange(false, true) == (
            Err::<bool, bool>(true),
            l2,
        ),
{
}

/// Entries and exits of the epilogue level alternate strictly: in every
/// state exactly one of the two is accepted, an entry is followed only by an
/// exit, and an exit only by an entry.
pub proof fn lemma_l2_entries_and_exits_alternate(l2: Level2)
    ensures
        l2.can_enter() != l2.can_leave(),
        l2.can_enter() ==> l2.entered().can_leave() && !l2.entered().can_enter(),
        l2.can_leave() ==> l2.left().can_enter() && !l2.left().can_leave(),
        l2.can_enter() ==> l2.entered().left() == l2,
        l2.can_leave() ==> l2.left().entered() == l2,
{
}

/// The evidence that its holder has entered the epilogue level through
/// [`L2Sync::lock`]. It is given back with [`L2Guard::unlock`].
pub struct L2Guard {
    _entered: (),
}

impl L2Guard {
    /// Give the epilogue level back.
    pub fn unlock(self, l2: &mut Level2)
        requires
            old(l2).can_leave(),
        ensures
            *final(l2) == old(l2).left(),
    {
        LEAVE_L2(l2);
    }
}

/// Data that is synchronized on the epilogue level.
pub struct L2Sync<T> {
    data: T,
}

impl<T> View for L2Sync<T> {
    type V = T;

    closed spec fn view(&self) -> T {
        self.data
    }
}

impl<T> L2Sync<T> {
    pub fn new(data: T) -> (s: Self)
        ensures
            s@ == data,
    {
        Self { data }
    }

    /// Enter the epilogue level for the sake of this data.
    pub fn lock(&self, l2: &mut Level2) -> (guard: L2Guard)
        requires
            old(l2).can_enter(),
        ensures
            *final(l2) == old(l2).entered(),
    {
        ENTER_L2(l2);
        L2Guard { _entered: () }
    }

    /// Read the data as the holder of the epilogue level.
    pub fn get_ref(&self, guard: &L2Guard) -> (r: &T)
        ensures
            *r == self@,
    {
        &self.data
    }

    /// Change the data as the holder of the epilogue level.
    pub fn get_ref_mut(&mut self, guard: &L2Guard) -> (r: &mut T)
        ensures
            *r == old(self)@,
            final(self)@ == *final(r),
    {
        &mut self.data
    }

    /// Read the data without any check of the level. The caller has to look
    /// at the flag of the epilogue level itself.
    pub fn get_ref_unguarded(&self) -> (r: &T)
        ensures
            *r == self@,
    {
        &self.data
    }

    /// Change the data without any check of the level.
    pub fn get_ref_mut_unguarded(&mut self) -> (r: &mut T)
        ensures
            *r == old(self)@,
            final(self)@ == *final(r),
    {
        &mut self.data
    }
}

/// Data that may only be touched in a level 3 section, that is with
/// interrupts disabled.
pub struct L3Sync<T> {
    data: T,
}

impl<T> View for L3Sync<T> {
    type V = T;

    closed spec fn view(&self) -> T {
        self.data
    }
}

impl<T> L3Sync<T> {
    pub fn new(data: T) -> (s: Self)
        ensures
            s@ == data,
    {
        Self { data }
    }

    /// Read the protected data. Interrupts must be disabled.
    pub fn l3_get_ref(&self, cpu: &Cpu) -> (r: &T)
        requires
            !is_int_enabled(cpu),
        ensures
            *r == self@,
    {
        &self.data
    }

    /// Change the protected data. Interrupts must be disabled.
    pub fn l3_get_ref_mut(&mut self, cpu: &Cpu) -> (r: &mut T)
        requires
            !is_int_enabled(cpu),
        ensures
            *r == old(self)@,
            final(self)@ == *final(r),
    {
        &mut self.data
    }

    /// Change the protected data without a check of the interrupt flag.
    pub fn l3_get_ref_mut_unchecked(&mut self) -> (r: &mut T)
        ensures
            *r == old(self)@,
            final(self)@ == *final(r),
    {
        &mut self.data
    }
}

} // verus!
