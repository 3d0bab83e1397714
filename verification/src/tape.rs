//! The tape as it is stored: two growable buffers that meet at a fixed
//! origin, so that the tape grows at either end without moving a cell.

use vstd::prelude::*;

use crate::alphabet::Symbol;
use crate::machine::tape_of;

verus! {

/// A tape that is blank everywhere but in finitely many stored cells.
///
/// `right[i]` is the cell at position `origin + i`, `left[i]` the cell at
/// position `origin - 1 - i`. A cell that is not stored is blank.
pub struct Tape {
    origin: usize,
    left: Vec<Symbol>,
    right: Vec<Symbol>,
}

impl View for Tape {
    type V = Map<int, Symbol>;

    closed spec fn view(&self) -> Map<int, Symbol> {
        Map::new(|p: int| true, |p: int| self.cell(p))
    }
}

impl Tape {
    /// The symbol in the cell at `position`.
    pub closed spec fn cell(&self, position: int) -> Symbol {
        let offset = position - self.origin;
        if 0 <= offset < self.right.len() {
            self.right@[offset]
        } else if -(self.left.len() as int) <= offset < 0 {
            self.left@[-offset - 1]
        } else {
            Symbol::blank()
        }
    }

    /// Whether the cell at `position` is stored.
    pub closed spec fn holds(&self, position: int) -> bool {
        self.origin - self.left.len() <= position < self.origin + self.right.len()
    }

    /// The position at which the two buffers meet.
    pub closed spec fn origin(&self) -> int {
        self.origin as int
    }

    /// Every position is a cell, and the view gives what `cell` gives.
    pub proof fn lemma_view(&self)
        ensures
            forall|p: int| #[trigger] self@.contains_key(p),
            forall|p: int| #[trigger] self@[p] == self.cell(p),
            forall|p: int| !self.holds(p) ==> #[trigger] self.cell(p) == Symbol::blank(),
            forall|p: int| #[trigger]
                self.holds(p) ==> -u64::MAX <= p - self.origin() < u64::MAX && 0 <= self.origin()
                    <= u64::MAX,
    {
    }

    /// The tape that holds `contents` in the cells `0, 1, ..`, stored around
    /// `origin`. Where contents end before the origin, blank cells are stored
    /// from their end up to it; without contents nothing is stored.
    pub fn new(contents: Vec<Symbol>, origin: usize) -> (t: Tape)
        ensures
            t@ == tape_of(contents@),
            t.origin() == origin,
    {
        let n = contents.len();
        let mut left: Vec<Symbol> = Vec::new();
        let mut right: Vec<Symbol> = Vec::new();
        if n > 0 {
            let mut p: usize = origin;
            while p > 0
                invariant
                    p <= origin,
                    n == contents@.len(),
                    left@.len() == origin - p,
                    forall|i: int|
                        0 <= i < left@.len() ==> #[trigger] left@[i] == tape_of(
                            contents@,
                        )[origin - 1 - i],
                decreases p,
            {
                p = p - 1;
                let s = if p < n {
                    contents[p]
                } else {
                    Symbol::empty()
                };
                left.push(s);
            }
            let mut q: usize = origin;
            while q < n
                invariant
                    origin <= q,
                    q <= n || q == origin,
                    n == contents@.len(),
                    right@.len() == q - origin,
                    forall|i: int|
                        0 <= i < right@.len() ==> #[trigger] right@[i] == contents@[origin + i],
                decreases n - q,
            {
                right.push(contents[q]);
                q = q + 1;
            }
        }
        let t = Tape { origin, left, right };
        assert(t@ =~= tape_of(contents@));
        t
    }

    /// The symbol in the cell at `position`; a blank where none is stored.
    pub fn read(&self, position: i128) -> (s: Symbol)
        ensures
            s == self@[position as int],
    {
        let origin = self.origin as i128;
        if position >= origin {
            let offset = position - origin;
            if offset < self.right.len() as i128 {
                self.right[offset as usize]
            } else {
                Symbol::empty()
            }
        } else if position < -(u64::MAX as i128) {
            Symbol::empty()
        } else {
            let offset = origin - 1 - position;
            if offset < self.left.len() as i128 {
                self.left[offset as usize]
            } else {
                Symbol::empty()
            }
        }
    }

    /// Puts `symbol` into the stored cell at `position`.
    pub fn write(&mut self, position: i128, symbol: Symbol)
        requires
            old(self).holds(position as int),
        ensures
            final(self)@ == old(self)@.insert(position as int, symbol),
            final(self).origin() == old(self).origin(),
            forall|p: int| final(self).holds(p) == old(self).holds(p),
    {
        let origin = self.origin as i128;
        if position >= origin {
            self.right.set((position - origin) as usize, symbol);
        } else {
            self.left.set((origin - 1 - position) as usize, symbol);
        }
        assert(self@ =~= old(self)@.insert(position as int, symbol));
    }

    /// Stores the cell at `position`, which is stored already or lies next to
    /// a stored cell or to the origin. A cell that is new is blank, as it was
    /// before it was stored.
    pub fn reach(&mut self, position: i128)
        requires
            old(self).holds(position as int) || old(self).holds(position - 1) || old(self).holds(
                position + 1,
            ) || position == old(self).origin() || position == old(self).origin() - 1,
        ensures
            final(self).holds(position as int),
            final(self)@ == old(self)@,
            final(self).origin() == old(self).origin(),
            forall|p: int| old(self).holds(p) ==> final(self).holds(p),
    {
        let origin = self.origin as i128;
        if position >= origin {
            if position - origin >= self.right.len() as i128 {
                self.right.push(Symbol::empty());
            }
        } else {
            if origin - 1 - position >= self.left.len() as i128 {
                self.left.push(Symbol::empty());
            }
        }
        assert(self@ =~= old(self)@);
    }
}

} // verus!
