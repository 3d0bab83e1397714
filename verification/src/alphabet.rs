//! Tape symbols and the write half of a transition.

use vstd::prelude::*;
use vstd::std_specs::convert::FromSpecImpl;

verus! {

/// One letter of the tape alphabet. The letter `0` is the blank that fills
/// every cell nobody has written yet.
#[derive(Clone, Copy, Debug, PartialEq, Eq, Structural, Hash)]
pub struct Symbol(pub u8);

impl Symbol {
    /// The blank symbol, for use in contracts.
    pub open spec fn blank() -> Symbol {
        Symbol(0)
    }

    /// The blank symbol.
    pub fn empty() -> (s: Symbol)
        ensures
            s == Symbol::blank(),
    {
        Symbol(0)
    }

    /// The letter's number.
    pub fn value(&self) -> (v: u8)
        ensures
            v == self.0,
    {
        self.0
    }

    /// Whether this is the blank symbol.
    pub fn is_empty(&self) -> (b: bool)
        ensures
            b == (*self == Symbol::blank()),
    {
        self.0 == 0
    }
}

impl From<u8> for Symbol {
    fn from(value: u8) -> (s: Symbol) {
        Symbol(value)
    }
}

impl FromSpecImpl<u8> for Symbol {
    open spec fn obeys_from_spec() -> bool {
        true
    }

    open spec fn from_spec(value: u8) -> Symbol {
        Symbol(value)
    }
}

/// The symbol a transition commits to the cell under the head.
#[derive(Clone, Copy, Debug, PartialEq, Eq, Structural, Hash)]
pub struct Write(pub Symbol);

impl Write {
    /// The symbol to be written.
    pub fn symbol(&self) -> (s: Symbol)
        ensures
            s == self.0,
    {
        self.0
    }
}

impl From<Symbol> for Write {
    fn from(symbol: Symbol) -> (w: Write) {
        Write(symbol)
    }
}

impl FromSpecImpl<Symbol> for Write {
    open spec fn obeys_from_spec() -> bool {
        true
    }

    open spec fn from_spec(symbol: Symbol) -> Write {
        Write(symbol)
    }
}

} // verus!
