//! The signal an instruction hands back to the machine's run loop.

use vstd::prelude::*;

verus! {

/// The different actions that can occur in the VM.
///
/// `Halt` pauses the machine so that it can be resumed later; `Panic` stops
/// it because of an error, carrying a fixed message.
#[derive(Debug)]
pub enum Action {
    /// Stops the VM allowing to resume its execution.
    Halt,
    /// Stops the VM because of an error.
    Panic(&'static str),
}

impl Action {
    pub fn is_halt(&self) -> (r: bool)
        ensures
            r == (self is Halt),
    {
        matches!(self, Action::Halt)
    }

    pub fn is_panic(&self) -> (r: bool)
        ensures
            r == (self is Panic),
    {
        matches!(self, Action::Panic(_))
    }

    /// Returns the message of a `Panic` action.
    pub fn unwrap_panic(self) -> (r: &'static str)
        requires
            self is Panic,
        ensures
            self == Action::Panic(r),
    {
        match self {
            Action::Panic(v) => v,
            Action::Halt => "",
        }
    }
}

} // verus!
