//! An emergency stop: a flag that operations consult before they act.

use vstd::prelude::*;

verus! {

/// Why a call on the stop is refused.
#[derive(Clone, Copy, Debug, PartialEq, Eq, Structural)]
pub enum PausableError {
    /// `pause` while paused.
    AlreadyPaused,
    /// `unpause` while not paused.
    AlreadyUnpaused,
    /// An operation that needs the contract running found it paused.
    Paused,
    /// An operation that needs the contract paused found it running.
    NotPaused,
}

/// The stop of one contract. It starts released.
#[derive(Clone, Copy, Debug, PartialEq, Eq, Structural)]
pub struct Pausable {
    paused: bool,
}

impl View for Pausable {
    type V = bool;

    closed spec fn view(&self) -> bool {
        self.paused
    }
}

impl Pausable {
    /// A released stop.
    pub fn new() -> (stop: Self)
        ensures
            !stop@,
    {
        Pausable { paused: false }
    }

    /// The stop in the given state.
    pub fn restore(paused: bool) -> (stop: Self)
        ensures
            stop@ == paused,
    {
        Pausable { paused }
    }

    /// Whether the contract is paused.
    pub fn is_paused(&self) -> (paused: bool)
        ensures
            paused == self@,
    {
        self.paused
    }

    /// Pauses the contract. Refused while it is paused.
    pub fn pause(&mut self) -> (done: Result<(), PausableError>)
        ensures
            old(self)@ ==> done == Err::<(), PausableError>(PausableError::AlreadyPaused) && final(self)@,
            !old(self)@ ==> done is Ok && final(self)@,
    {
        if self.paused {
            return Err(PausableError::AlreadyPaused);
        }
        self.paused = true;
        Ok(())
    }

    /// Lets the contract run again. Refused while it is running.
    pub fn unpause(&mut self) -> (done: Result<(), PausableError>)
        ensures
            !old(self)@ ==> done == Err::<(), PausableError>(PausableError::AlreadyUnpaused) && !final(self)@,
            old(self)@ ==> done is Ok && !final(self)@,
    {
        if !self.paused {
            return Err(PausableError::AlreadyUnpaused);
        }
        self.paused = false;
        Ok(())
    }

    /// Accepts exactly while the contract is running.
    pub fn require_not_paused(&self) -> (outcome: Result<(), PausableError>)
        ensures
            self@ ==> outcome == Err::<(), PausableError>(PausableError::Paused),
            !self@ ==> outcome is Ok,
    {
        if self.paused {
            Err(PausableError::Paused)
        } else {
            Ok(())
        }
    }

    /// Accepts exactly while the contract is paused.
    pub fn require_paused(&self) -> (outcome: Result<(), PausableError>)
        ensures
            !self@ ==> outcome == Err::<(), PausableError>(PausableError::NotPaused),
            self@ ==> outcome is Ok,
    {
        if self.paused {
            Ok(())
        } else {
            Err(PausableError::NotPaused)
        }
    }
}

} // verus!
