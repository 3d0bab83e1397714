//! The mathematical model of a run: configurations, the step relation as a
//! function, and the laws that every run obeys.
//!
//! Nothing here is executable. The executable engine states its contracts
//! over these definitions.

use vstd::prelude::*;

use crate::alphabet::Symbol;
use crate::rules::{Action, Rules, TransitionRule};
use crate::state::State;

verus! {

/// How a simulation stands.
#[derive(Clone, Copy, Debug, PartialEq, Eq, Structural, Hash)]
pub enum Status {
    /// A further step may be taken.
    Running,
    /// The control state is the halt sentinel.
    Halted,
    /// No rule exists for the state and the symbol under the head.
    Stuck,
    /// A step limit was reached while the machine was still running.
    BudgetExceeded,
}

/// A machine at one instant: the whole tape, the head, the control state,
/// the number of rules applied so far, and whether a missing rule was met.
pub struct Configuration {
    /// The symbol in every cell, cell positions being all the integers.
    pub tape: Map<int, Symbol>,
    pub head: int,
    pub state: State,
    pub steps: nat,
    pub stuck: bool,
}

/// The tape that holds `contents` in the cells `0, 1, ..` and a blank in
/// every other cell.
pub open spec fn tape_of(contents: Seq<Symbol>) -> Map<int, Symbol> {
    Map::new(
        |p: int| true,
        |p: int|
            if 0 <= p < contents.len() {
                contents[p]
            } else {
                Symbol::blank()
            },
    )
}

impl Configuration {
    /// The configuration before the first step: `contents` lies in the cells
    /// `0, 1, ..`, every other cell is blank.
    pub open spec fn initial(contents: Seq<Symbol>, head: int, state: State) -> Configuration {
        Configuration {
            tape: tape_of(contents),
            head,
            state,
            steps: 0,
            stuck: false,
        }
    }

    /// Halted once the halt sentinel is reached, stuck once a rule was found
    /// missing, running otherwise.
    pub open spec fn status(self) -> Status {
        if self.state is Halt {
            Status::Halted
        } else if self.stuck {
            Status::Stuck
        } else {
            Status::Running
        }
    }

    /// The symbol under the head.
    pub open spec fn scanned(self) -> Symbol {
        self.tape[self.head]
    }

    /// Whether a step from here finds a rule to apply.
    pub open spec fn has_rule(self, rules: Rules) -> bool {
        rules.contains_key((self.state, self.scanned()))
    }

    /// The effect of one rule: write under the head, move by one cell, take
    /// the next state, count the step.
    pub open spec fn apply(self, rule: TransitionRule) -> Configuration {
        Configuration {
            tape: self.tape.insert(self.head, rule.write.0),
            head: match rule.action {
                Action::L => self.head - 1,
                Action::R => self.head + 1,
            },
            state: rule.next_state,
            steps: self.steps + 1,
            stuck: false,
        }
    }

    /// One step from a running configuration: the rule for what is scanned
    /// is applied; where there is none, the machine is stuck and nothing
    /// else changes.
    pub open spec fn step(self, rules: Rules) -> Configuration {
        if self.has_rule(rules) {
            self.apply(rules[(self.state, self.scanned())])
        } else {
            Configuration { stuck: true, ..self }
        }
    }

    /// One step where the machine is running; a halted or stuck machine
    /// stays as it is.
    pub open spec fn advance(self, rules: Rules) -> Configuration {
        if self.status() is Running {
            self.step(rules)
        } else {
            self
        }
    }

    /// The configuration reached by `n` steps.
    pub open spec fn after(self, rules: Rules, n: nat) -> Configuration
        decreases n,
    {
        if n == 0 {
            self
        } else {
            self.after(rules, (n - 1) as nat).advance(rules)
        }
    }

    /// The configuration in which a run under the step limit `limit` ends:
    /// steps are taken until the machine halts or is stuck, or until the
    /// step count has reached `limit`.
    pub open spec fn run_to(self, rules: Rules, limit: nat) -> Configuration {
        if self.steps >= limit {
            self
        } else {
            self.after(rules, (limit - self.steps) as nat)
        }
    }

    /// Whether one of the first `n` steps writes into the cell `position`.
    pub open spec fn writes_within(self, rules: Rules, n: nat, position: int) -> bool {
        exists|i: nat|
            i < n && {
                let c = #[trigger] self.after(rules, i);
                c.status() is Running && c.has_rule(rules) && c.head == position
            }
    }

    /// The symbols in the `len` cells from `start` on.
    pub open spec fn window(self, start: int, len: nat) -> Seq<Symbol> {
        Seq::new(len, |i: int| self.tape[start + i])
    }
}

/// A halted or stuck machine never moves again.
pub proof fn lemma_terminal_is_final(c: Configuration, rules: Rules, n: nat)
    requires
        !(c.status() is Running),
    ensures
        c.after(rules, n) == c,
    decreases n,
{
    if n > 0 {
        lemma_terminal_is_final(c, rules, (n - 1) as nat);
    }
}

/// Taking `m` steps and then `n` more is taking `m + n` steps.
pub proof fn lemma_after_after(c: Configuration, rules: Rules, m: nat, n: nat)
    ensures
        c.after(rules, m).after(rules, n) == c.after(rules, m + n),
    decreases n,
{
    if n > 0 {
        lemma_after_after(c, rules, m, (n - 1) as nat);
    }
}

/// The step count never decreases and grows by at most one each step. A
/// machine still running after `n` steps has applied a rule in each of them,
/// and was running all along.
pub proof fn lemma_step_count(c: Configuration, rules: Rules, n: nat)
    ensures
        c.steps <= c.after(rules, n).steps <= c.steps + n,
        c.after(rules, n).status() is Running ==> c.after(rules, n).steps == c.steps + n,
        c.after(rules, n).status() is Running ==> forall|i: nat|
            i <= n ==> (#[trigger] c.after(rules, i)).status() is Running,
    decreases n,
{
    if n > 0 {
        let m = (n - 1) as nat;
        lemma_step_count(c, rules, m);
        if c.after(rules, n).status() is Running {
            assert forall|i: nat| i <= n implies (#[trigger] c.after(rules, i)).status()
                is Running by {
                if i < n {
                    assert(i <= m);
                }
            }
        }
    }
}

/// A run that is taken up again under a larger limit ends where a single
/// run under the larger limit ends.
pub proof fn lemma_resume_equals_longer_run(
    c: Configuration,
    rules: Rules,
    first: nat,
    second: nat,
)
    requires
        first <= second,
    ensures
        c.run_to(rules, first).run_to(rules, second) == c.run_to(rules, second),
{
    if c.steps < first {
        let n = (first - c.steps) as nat;
        let mid = c.after(rules, n);
        let rest = (second - first) as nat;
        lemma_step_count(c, rules, n);
        lemma_after_after(c, rules, n, rest);
        if mid.status() is Running {
            assert(mid.steps == first);
        } else {
            lemma_terminal_is_final(mid, rules, rest);
            if mid.steps < second {
                lemma_terminal_is_final(mid, rules, (second - mid.steps) as nat);
            }
        }
    }
}

/// A machine still running when a run under `limit` ends has taken exactly
/// `limit` steps, unless it had taken more before the run began.
pub proof fn lemma_running_at_limit(c: Configuration, rules: Rules, limit: nat)
    ensures
        c.run_to(rules, limit).status() is Running ==> c.run_to(rules, limit).steps == (if c.steps
            >= limit {
            c.steps
        } else {
            limit
        }),
{
    if c.steps < limit {
        lemma_step_count(c, rules, (limit - c.steps) as nat);
    }
}

/// A step changes no cell but the one under the head, moves the head by at
/// most one cell, and leaves the tape alone entirely where no rule applies.
pub proof fn lemma_advance_is_local(c: Configuration, rules: Rules)
    ensures
        forall|p: int| p != c.head ==> c.advance(rules).tape[p] == #[trigger] c.tape[p],
        c.head - 1 <= c.advance(rules).head <= c.head + 1,
        !(c.status() is Running && c.has_rule(rules)) ==> c.advance(rules).tape == c.tape,
{
}

/// A running machine is stuck after its next step exactly if no rule exists
/// for its state and the symbol under its head; the stuck step changes
/// neither tape nor head nor state nor step count.
pub proof fn lemma_stuck_iff_rule_missing(c: Configuration, rules: Rules)
    requires
        c.status() is Running,
    ensures
        c.advance(rules).status() is Stuck <==> !c.has_rule(rules),
        !c.has_rule(rules) ==> c.advance(rules) == (Configuration { stuck: true, ..c }),
{
}

/// The machine is running after `n` steps and stuck after `n + 1` exactly
/// if, after `n` steps, it is running and has no rule for what it scans.
/// That last step leaves the tape as it was.
pub proof fn lemma_stuck_on_the_step_that_lacks_a_rule(c: Configuration, rules: Rules, n: nat)
    ensures
        (c.after(rules, n).status() is Running && !c.after(rules, n).has_rule(rules)) <==> (c.after(
            rules,
            n,
        ).status() is Running && c.after(rules, n + 1).status() is Stuck),
        c.after(rules, n).status() is Running && !c.after(rules, n).has_rule(rules) ==> c.after(
            rules,
            n + 1,
        ).tape == c.after(rules, n).tape,
{
    assert(c.after(rules, n + 1) == c.after(rules, n).advance(rules));
}

/// A cell that none of the first `n` steps writes into holds after them what
/// it held before.
pub proof fn lemma_unwritten_cell_keeps_symbol(
    c: Configuration,
    rules: Rules,
    n: nat,
    position: int,
)
    requires
        !c.writes_within(rules, n, position),
    ensures
        c.after(rules, n).tape[position] == c.tape[position],
    decreases n,
{
    if n > 0 {
        let m = (n - 1) as nat;
        let before = c.after(rules, m);
        assert(!c.writes_within(rules, m, position)) by {
            if c.writes_within(rules, m, position) {
                let i = choose|i: nat|
                    i < m && {
                        let d = #[trigger] c.after(rules, i);
                        d.status() is Running && d.has_rule(rules) && d.head == position
                    };
                assert(i < n);
            }
        }
        lemma_unwritten_cell_keeps_symbol(c, rules, m, position);
        assert(m < n);
        assert(!(before.status() is Running && before.has_rule(rules) && before.head
            == position));
    }
}

/// After `n` steps the head is at most `n` cells from where it was, and
/// every cell farther away than the head has been holds what it held before.
pub proof fn lemma_reach(c: Configuration, rules: Rules, n: nat)
    ensures
        c.head - n <= c.after(rules, n).head <= c.head + n,
        forall|p: int|
            p <= c.head - n || c.head + n <= p ==> c.after(rules, n).tape[p] == #[trigger] c.tape[p],
    decreases n,
{
    if n > 0 {
        lemma_reach(c, rules, (n - 1) as nat);
    }
}

/// A cell of a fresh machine outside the initial contents is blank until a
/// step writes into it, however far the head has gone to the left or right.
pub proof fn lemma_fresh_cell_is_blank(
    contents: Seq<Symbol>,
    head: int,
    state: State,
    rules: Rules,
    n: nat,
    position: int,
)
    requires
        position < 0 || position >= contents.len(),
        !Configuration::initial(contents, head, state).writes_within(rules, n, position),
    ensures
        Configuration::initial(contents, head, state).after(rules, n).tape[position]
            == Symbol::blank(),
        Configuration::initial(contents, head, state).after(rules, n).tape.contains_key(position),
{
    let c = Configuration::initial(contents, head, state);
    lemma_unwritten_cell_keeps_symbol(c, rules, n, position);
    lemma_tape_is_total(c, rules, n);
}

/// Every integer is a cell: a tape that is defined everywhere stays so.
pub proof fn lemma_tape_is_total(c: Configuration, rules: Rules, n: nat)
    requires
        forall|p: int| c.tape.contains_key(p),
    ensures
        forall|p: int| c.after(rules, n).tape.contains_key(p),
    decreases n,
{
    if n > 0 {
        lemma_tape_is_total(c, rules, (n - 1) as nat);
    }
}

} // verus!
