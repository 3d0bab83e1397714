//! Control states.

use vstd::prelude::*;
use vstd::std_specs::convert::FromSpecImpl;

verus! {

/// A control state: one of the machine's numbered states, or the halt
/// sentinel. No rule is ever keyed by `Halt`; reaching it ends the run.
#[derive(Clone, Copy, Debug, PartialEq, Eq, Structural, Hash)]
pub enum State {
    Ordinary(u32),
    Halt,
}

impl State {
    /// The halt sentinel.
    pub fn halt() -> (s: State)
        ensures
            s == State::Halt,
    {
        State::Halt
    }

    /// Whether this is the halt sentinel.
    pub fn is_halt(&self) -> (b: bool)
        ensures
            b == (*self is Halt),
    {
        match self {
            State::Halt => true,
            State::Ordinary(_) => false,
        }
    }

    /// The number of an ordinary state; `None` for the halt sentinel.
    pub fn id(&self) -> (n: Option<u32>)
        ensures
            n == match *self {
                State::Ordinary(i) => Some(i),
                State::Halt => None,
            },
    {
        match self {
            State::Ordinary(i) => Some(*i),
            State::Halt => None,
        }
    }
}

impl From<u32> for State {
    fn from(id: u32) -> (s: State) {
        State::Ordinary(id)
    }
}

impl FromSpecImpl<u32> for State {
    open spec fn obeys_from_spec() -> bool {
        true
    }

    open spec fn from_spec(id: u32) -> State {
        State::Ordinary(id)
    }
}

} // verus!
