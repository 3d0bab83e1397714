//! The engine: a tape, a head, a control state and a transition function,
//! advanced one step at a time or run under a step limit.

use vstd::prelude::*;

use crate::alphabet::Symbol;
use crate::machine::{lemma_after_after, lemma_running_at_limit, lemma_terminal_is_final};
use crate::machine::{Configuration, Status};
use crate::rules::{Action, Rules, TransitionFunction};
use crate::state::State;
use crate::tape::Tape;

verus! {

/// `step` was asked of a machine that has halted or is stuck.
#[derive(Clone, Copy, Debug, PartialEq, Eq, Structural, Hash)]
pub struct IllegalStepError {
    /// The terminal status the machine was in: `Halted` or `Stuck`.
    pub status: Status,
}

/// What a run reports for the configuration in which it ends: the status of
/// a machine that halted or is stuck, `BudgetExceeded` for one that could
/// still go on.
pub open spec fn verdict(end: Configuration) -> Status {
    if end.status() is Running {
        Status::BudgetExceeded
    } else {
        end.status()
    }
}

/// The step limit that a budget stands for; without one the limit is the
/// largest count the step counter can hold.
pub open spec fn limit_of(budget: Option<u64>) -> nat {
    match budget {
        Some(b) => b as nat,
        None => u64::MAX as nat,
    }
}

/// What `step` returns from the configuration `before`, under `rules`.
pub open spec fn step_outcome(before: Configuration, rules: Rules) -> Result<
    (Status, u64),
    IllegalStepError,
> {
    if !(before.status() is Running) {
        Err(IllegalStepError { status: before.status() })
    } else if before.steps >= u64::MAX {
        Ok((Status::BudgetExceeded, u64::MAX))
    } else {
        Ok((before.step(rules).status(), before.step(rules).steps as u64))
    }
}

/// The configuration `step` leaves behind from `before`, under `rules`: a
/// machine that is not running, or whose step counter is full, is not
/// touched.
pub open spec fn step_effect(before: Configuration, rules: Rules) -> Configuration {
    if before.status() is Running && before.steps < u64::MAX {
        before.step(rules)
    } else {
        before
    }
}

/// One simulation: it owns its tape, head, control state, step counter and
/// transition function.
///
/// Cell positions are signed: the caller's initial contents lie in the
/// cells `0, 1, ..`, and a position names the same cell for the whole run,
/// however far the tape has grown to the left.
pub struct Universe {
    tape: Tape,
    head: i128,
    state: State,
    steps: u64,
    stuck: bool,
    transition_function: TransitionFunction,
}

impl View for Universe {
    type V = Configuration;

    closed spec fn view(&self) -> Configuration {
        Configuration {
            tape: self.tape@,
            head: self.head as int,
            state: self.state,
            steps: self.steps as nat,
            stuck: self.stuck,
        }
    }
}

impl Universe {
    /// The cell under the head is stored.
    pub closed spec fn wf(&self) -> bool {
        self.tape.holds(self.head as int)
    }

    /// The rules this machine runs under.
    pub closed spec fn rules(&self) -> Rules {
        self.transition_function@
    }

    /// What every universe's view satisfies: each integer is a cell, and the
    /// step count fits the counter.
    pub proof fn lemma_view_bounds(&self)
        ensures
            forall|p: int| self@.tape.contains_key(p),
            self@.steps <= u64::MAX,
            i128::MIN <= self@.head <= i128::MAX,
    {
        self.tape.lemma_view();
    }

    /// Two universes that show the same configuration under the same rules
    /// go the same way, however each stores its tape: `step` and `run` leave
    /// them in equal configurations and report the same, and so does any
    /// number of steps.
    pub proof fn lemma_same_start_same_run(&self, other: &Universe, budget: Option<u64>, n: nat)
        requires
            self@ == other@,
            self.rules() == other.rules(),
        ensures
            step_effect(self@, self.rules()) == step_effect(other@, other.rules()),
            step_outcome(self@, self.rules()) == step_outcome(other@, other.rules()),
            self@.run_to(self.rules(), limit_of(budget)) == other@.run_to(
                other.rules(),
                limit_of(budget),
            ),
            self@.after(self.rules(), n) == other@.after(other.rules(), n),
    {
    }

    /// A machine in `start_state` with its head on the cell `head_offset`,
    /// on a tape that holds `tape` in the cells `0, 1, ..` and blanks
    /// elsewhere. No step has been taken.
    pub fn new(
        tape: Vec<Symbol>,
        head_offset: usize,
        start_state: State,
        transition_function: TransitionFunction,
    ) -> (u: Universe)
        ensures
            u.wf(),
            u@ == Configuration::initial(tape@, head_offset as int, start_state),
            u.rules() == transition_function@,
    {
        let mut cells = Tape::new(tape, head_offset);
        cells.reach(head_offset as i128);
        Universe {
            tape: cells,
            head: head_offset as i128,
            state: start_state,
            steps: 0,
            stuck: false,
            transition_function,
        }
    }

    /// Running, halted or stuck. A budget that ran out leaves the machine
    /// running.
    pub fn status(&self) -> (s: Status)
        ensures
            s == self@.status(),
    {
        if self.state.is_halt() {
            Status::Halted
        } else if self.stuck {
            Status::Stuck
        } else {
            Status::Running
        }
    }

    /// The number of rules applied so far.
    pub fn steps(&self) -> (n: u64)
        ensures
            n == self@.steps,
    {
        self.steps
    }

    /// The position of the head.
    pub fn head(&self) -> (p: i128)
        ensures
            p == self@.head,
    {
        self.head
    }

    /// The control state.
    pub fn state(&self) -> (s: State)
        ensures
            s == self@.state,
    {
        self.state
    }

    /// The transition function this machine runs under.
    pub fn transition_function(&self) -> (f: &TransitionFunction)
        ensures
            f@ == self.rules(),
    {
        &self.transition_function
    }

    /// The symbol in the cell at `position`. Every position is a cell: one
    /// that was never written, and lies outside the initial contents, is
    /// blank.
    pub fn read(&self, position: i128) -> (s: Symbol)
        ensures
            s == self@.tape[position as int],
    {
        self.tape.read(position)
    }

    /// The symbols in the `len` cells from `start` on, in order.
    pub fn tape_range(&self, start: i128, len: usize) -> (cells: Vec<Symbol>)
        ensures
            cells@ == self@.window(start as int, len as nat),
    {
        let mut cells: Vec<Symbol> = Vec::new();
        let mut i: usize = 0;
        while i < len
            invariant
                i <= len,
                cells@ == self@.window(start as int, i as nat),
            decreases len - i,
        {
            let s = if start <= i128::MAX - (i as i128) {
                self.tape.read(start + (i as i128))
            } else {
                proof {
                    self.tape.lemma_view();
                }
                Symbol::empty()
            };
            cells.push(s);
            i = i + 1;
            assert(cells@ =~= self@.window(start as int, i as nat));
        }
        cells
    }

    /// One step of a running machine whose counter is not full.
    fn advance(&mut self) -> (s: Status)
        requires
            old(self).wf(),
            old(self)@.status() is Running,
            old(self)@.steps < u64::MAX,
        ensures
            final(self).wf(),
            final(self).rules() == old(self).rules(),
            final(self)@ == old(self)@.step(old(self).rules()),
            s == final(self)@.status(),
    {
        let scanned = self.tape.read(self.head);
        match self.transition_function.lookup(self.state, scanned) {
            None => {
                self.stuck = true;
                Status::Stuck
            },
            Some(rule) => {
                proof {
                    self.tape.lemma_view();
                }
                self.tape.write(self.head, rule.write.0);
                let target = match rule.action {
                    Action::L => self.head - 1,
                    Action::R => self.head + 1,
                };
                self.tape.reach(target);
                self.head = target;
                self.state = rule.next_state;
                self.steps = self.steps + 1;
                self.status()
            },
        }
    }

    /// Takes one step and reports the status after it and the step count.
    ///
    /// A running machine reads the cell under the head and looks up the rule
    /// for its state and that symbol. Where there is one, it writes, moves
    /// the head by one cell and takes the next state; a rule that leads to
    /// the halt sentinel is applied in full before the machine counts as
    /// halted. Where there is none, the machine is stuck, and tape, head,
    /// state and step count stay as they were.
    ///
    /// A machine that has halted or is stuck is not touched and the call
    /// fails. A running machine whose step counter is full is not touched
    /// either and reports `BudgetExceeded`.
    pub fn step(&mut self) -> (r: Result<(Status, u64), IllegalStepError>)
        requires
            old(self).wf(),
        ensures
            final(self).wf(),
            final(self).rules() == old(self).rules(),
            final(self)@ == step_effect(old(self)@, old(self).rules()),
            r == step_outcome(old(self)@, old(self).rules()),
    {
        let status = self.status();
        match status {
            Status::Running => {
                if self.steps == u64::MAX {
                    Ok((Status::BudgetExceeded, self.steps))
                } else {
                    let after = self.advance();
                    Ok((after, self.steps))
                }
            },
            _ => Err(IllegalStepError { status }),
        }
    }

    /// Steps until the machine halts or is stuck, or until the step count
    /// has reached the budget; without a budget, until the step counter is
    /// full. Reports how the run ended and the step count.
    ///
    /// The budget bounds the step count of the machine, not of this call: a
    /// run that ended with `BudgetExceeded` is taken up again by a call with
    /// a larger budget.
    pub fn run(&mut self, budget: Option<u64>) -> (r: (Status, u64))
        requires
            old(self).wf(),
        ensures
            final(self).wf(),
            final(self).rules() == old(self).rules(),
            final(self)@ == old(self)@.run_to(old(self).rules(), limit_of(budget)),
            r.0 == verdict(final(self)@),
            r.1 == final(self)@.steps,
            !(old(self)@.status() is Running) ==> final(self)@ == old(self)@,
            r.0 is BudgetExceeded ==> r.1 == (if old(self)@.steps >= limit_of(budget) {
                old(self)@.steps
            } else {
                limit_of(budget)
            }),
    {
        let limit = match budget {
            Some(b) => b,
            None => u64::MAX,
        };
        let ghost start = self@;
        let ghost rules = self.rules();
        let ghost mut taken: nat = 0;
        let mut status = self.status();
        while self.steps < limit && matches!(status, Status::Running)
            invariant
                self.wf(),
                self.rules() == rules,
                status == self@.status(),
                self@ == start.after(rules, taken),
                taken == 0 || (start.status() is Running && start.steps < limit && taken <= limit
                    - start.steps),
                status is Running ==> self@.steps == start.steps + taken,
            decreases limit - self.steps + (if status is Running { 1nat } else { 0nat }),
        {
            status = self.advance();
            proof {
                taken = taken + 1;
            }
        }
        proof {
            lemma_running_at_limit(start, rules, limit as nat);
            if start.steps < limit {
                let whole = (limit - start.steps) as nat;
                if status is Running {
                    assert(taken == whole);
                } else {
                    lemma_after_after(start, rules, taken, (whole - taken) as nat);
                    lemma_terminal_is_final(self@, rules, (whole - taken) as nat);
                }
            }
        }
        let report = match status {
            Status::Running => Status::BudgetExceeded,
            _ => status,
        };
        (report, self.steps)
    }
}

} // verus!
