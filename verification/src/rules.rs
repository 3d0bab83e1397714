//! Transition rules, the builder that collects them and the frozen
//! transition function.
//!
//! Both containers are read through one model: a map from `(State, Symbol)`
//! to the rule registered for that pair. No pair whose state is the halt
//! sentinel is ever in that map.

use std::collections::HashMap;
use vstd::prelude::*;

use crate::alphabet::{Symbol, Write};
use crate::state::State;

verus! {

/// Where the head goes after writing: one cell to the left or to the right.
#[derive(Clone, Copy, Debug, PartialEq, Eq, Structural, Hash)]
pub enum Action {
    L,
    R,
}

/// What a machine does in one configuration: write, move, change state.
#[derive(Clone, Copy, Debug, PartialEq, Eq, Structural, Hash)]
pub struct TransitionRule {
    pub write: Write,
    pub action: Action,
    pub next_state: State,
}

/// Why the builder refused a rule.
#[derive(Clone, Copy, Debug, PartialEq, Eq, Structural, Hash)]
pub enum RuleError {
    /// A rule for the same `(state, symbol)` pair is already registered.
    DuplicateRule,
    /// The rule is keyed by the halt sentinel, which is never looked up.
    HaltAsKey,
}

/// The rules of a machine, as a map from what is seen to what is done.
pub type Rules = Map<(State, Symbol), TransitionRule>;

/// The number under which the rule for `(Ordinary(id), symbol)` is stored.
spec fn slot(id: u32, symbol: Symbol) -> u64 {
    (id * 256 + symbol.0) as u64
}

/// The rules that a table of numbered slots holds.
spec fn rules_of(table: Map<u64, TransitionRule>) -> Rules {
    Map::new(
        |k: (State, Symbol)| k.0 is Ordinary && table.contains_key(slot(k.0->0, k.1)),
        |k: (State, Symbol)| table[slot(k.0->0, k.1)],
    )
}

/// What `rules` becomes when a rule for `key` is offered: a pair that is
/// keyed by the halt sentinel or already present changes nothing.
pub open spec fn register(rules: Rules, key: (State, Symbol), rule: TransitionRule) -> Rules {
    if key.0 is Halt || rules.contains_key(key) {
        rules
    } else {
        rules.insert(key, rule)
    }
}

/// The error, if any, with which a rule for `key` is refused.
pub open spec fn refusal(rules: Rules, key: (State, Symbol)) -> Option<RuleError> {
    if key.0 is Halt {
        Some(RuleError::HaltAsKey)
    } else if rules.contains_key(key) {
        Some(RuleError::DuplicateRule)
    } else {
        None
    }
}

/// A rule as it is offered to a builder: the pair it is for, and the rule.
pub type Offer = ((State, Symbol), TransitionRule);

/// The rules a builder holds after it was offered `offers` in order, from
/// empty.
pub open spec fn register_all(offers: Seq<Offer>) -> Rules
    decreases offers.len(),
{
    if offers.len() == 0 {
        Rules::empty()
    } else {
        register(register_all(offers.drop_last()), offers.last().0, offers.last().1)
    }
}

/// Whether no offer before `offers[i]` is for the same pair.
pub open spec fn first_for_its_pair(offers: Seq<Offer>, i: int) -> bool {
    forall|j: int| 0 <= j < i ==> (#[trigger] offers[j]).0 != offers[i].0
}

/// After any sequence of offers, a pair has a rule exactly if it is not
/// keyed by the halt sentinel and some offer was for it; the rule is then
/// that of the first such offer.
pub proof fn lemma_registered_rules(offers: Seq<Offer>, key: (State, Symbol))
    ensures
        register_all(offers).contains_key(key) <==> key.0 is Ordinary && exists|i: int|
            0 <= i < offers.len() && (#[trigger] offers[i]).0 == key,
        forall|i: int|
            0 <= i < offers.len() && (#[trigger] offers[i]).0 == key && key.0 is Ordinary
                && first_for_its_pair(offers, i) ==> register_all(offers)[key] == offers[i].1,
    decreases offers.len(),
{
    if offers.len() > 0 {
        let earlier = offers.drop_last();
        let last = offers.len() - 1;
        lemma_registered_rules(earlier, key);
        if register_all(earlier).contains_key(key) {
            let i = choose|i: int| 0 <= i < earlier.len() && (#[trigger] earlier[i]).0 == key;
            assert(offers[i].0 == key);
        }
        assert forall|i: int|
            0 <= i < offers.len() && (#[trigger] offers[i]).0 == key && key.0 is Ordinary
                && first_for_its_pair(offers, i) implies register_all(offers)[key]
            == offers[i].1 by {
            if i < last {
                assert(earlier[i] == offers[i]);
                assert(first_for_its_pair(earlier, i)) by {
                    assert forall|j: int| 0 <= j < i implies (#[trigger] earlier[j]).0
                        != earlier[i].0 by {
                        assert(earlier[j] == offers[j]);
                    }
                }
            } else {
                if register_all(earlier).contains_key(key) {
                    let j = choose|j: int|
                        0 <= j < earlier.len() && (#[trigger] earlier[j]).0 == key;
                    assert(offers[j].0 == key);
                }
            }
        }
        if key.0 is Ordinary && exists|i: int|
            0 <= i < offers.len() && (#[trigger] offers[i]).0 == key {
            let i = choose|i: int| 0 <= i < offers.len() && (#[trigger] offers[i]).0 == key;
            if i < last {
                assert(earlier[i].0 == key);
            }
        }
    }
}

/// The offer `offers[i]` is refused exactly if it is keyed by the halt
/// sentinel or an earlier offer was for the same pair.
pub proof fn lemma_refused_offers(offers: Seq<Offer>, i: int)
    requires
        0 <= i < offers.len(),
    ensures
        refusal(register_all(offers.take(i)), offers[i].0) == (if offers[i].0.0 is Halt {
            Some(RuleError::HaltAsKey)
        } else if !first_for_its_pair(offers, i) {
            Some(RuleError::DuplicateRule)
        } else {
            None
        }),
{
    let before = offers.take(i);
    let key = offers[i].0;
    lemma_registered_rules(before, key);
    if key.0 is Ordinary {
        if register_all(before).contains_key(key) {
            let j = choose|j: int| 0 <= j < before.len() && (#[trigger] before[j]).0 == key;
            assert(offers[j].0 == key);
        } else if !first_for_its_pair(offers, i) {
            let j = choose|j: int| 0 <= j < i && (#[trigger] offers[j]).0 == offers[i].0;
            assert(before[j].0 == key);
        }
    }
}

/// Distinct pairs are stored under distinct numbers.
proof fn lemma_slot_injective(a: u32, s: Symbol, b: u32, t: Symbol)
    ensures
        slot(a, s) == slot(b, t) <==> (a == b && s == t),
{
}

/// The number under which the rule for `(Ordinary(id), symbol)` is stored.
fn slot_of(id: u32, symbol: Symbol) -> (k: u64)
    ensures
        k == slot(id, symbol),
{
    (id as u64) * 256 + (symbol.0 as u64)
}

/// Collects rules one at a time and refuses a second rule for a pair.
pub struct TransitionFunctionBuilder {
    table: HashMap<u64, TransitionRule>,
}

impl View for TransitionFunctionBuilder {
    type V = Rules;

    closed spec fn view(&self) -> Rules {
        rules_of(self.table@)
    }
}

impl Default for TransitionFunctionBuilder {
    fn default() -> (b: TransitionFunctionBuilder)
        ensures
            b@ == Rules::empty(),
    {
        let b = TransitionFunctionBuilder { table: HashMap::new() };
        assert(b@ =~= Rules::empty());
        b
    }
}

impl Clone for TransitionFunctionBuilder {
    fn clone(&self) -> (b: TransitionFunctionBuilder)
        ensures
            b@ == self@,
    {
        TransitionFunctionBuilder { table: self.table.clone() }
    }
}

impl TransitionFunctionBuilder {
    /// No rule is keyed by the halt sentinel.
    pub proof fn lemma_halt_has_no_rule(&self, symbol: Symbol)
        ensures
            !self@.contains_key((State::Halt, symbol)),
    {
    }

    /// Registers `(write, action, next_state)` for the pair `(state, read)`.
    ///
    /// A pair is registered at most once: the first rule stays, and a later
    /// one is refused with `DuplicateRule`. A rule keyed by the halt sentinel
    /// is refused with `HaltAsKey`. A refused rule changes nothing.
    pub fn add(
        &mut self,
        state: State,
        read: Symbol,
        write: Write,
        action: Action,
        next_state: State,
    ) -> (r: Result<(), RuleError>)
        ensures
            final(self)@ == register(
                old(self)@,
                (state, read),
                (TransitionRule { write, action, next_state }),
            ),
            r == match refusal(old(self)@, (state, read)) {
                Some(e) => Err::<(), RuleError>(e),
                None => Ok(()),
            },
    {
        match state {
            State::Halt => Err(RuleError::HaltAsKey),
            State::Ordinary(id) => {
                let k = slot_of(id, read);
                if self.table.contains_key(&k) {
                    Err(RuleError::DuplicateRule)
                } else {
                    let rule = TransitionRule { write, action, next_state };
                    self.table.insert(k, rule);
                    proof {
                        assert forall|p: (State, Symbol)|
                            p.0 is Ordinary && p != (state, read) implies slot(p.0->0, p.1)
                            != k by {
                            lemma_slot_injective(p.0->0, p.1, id, read);
                        }
                        assert(self@ =~= old(self)@.insert((state, read), rule));
                    }
                    Ok(())
                }
            },
        }
    }

    /// Freezes the rules collected so far. The builder stays usable; what is
    /// added to it later does not reach the function returned here.
    pub fn build(&self) -> (f: TransitionFunction)
        ensures
            f@ == self@,
    {
        TransitionFunction { table: self.table.clone() }
    }
}

/// An immutable set of rules, at most one for each `(state, symbol)` pair.
pub struct TransitionFunction {
    table: HashMap<u64, TransitionRule>,
}

impl View for TransitionFunction {
    type V = Rules;

    closed spec fn view(&self) -> Rules {
        rules_of(self.table@)
    }
}

impl Clone for TransitionFunction {
    fn clone(&self) -> (f: TransitionFunction)
        ensures
            f@ == self@,
    {
        TransitionFunction { table: self.table.clone() }
    }
}

impl TransitionFunction {
    /// No rule is keyed by the halt sentinel.
    pub proof fn lemma_halt_has_no_rule(&self, symbol: Symbol)
        ensures
            !self@.contains_key((State::Halt, symbol)),
    {
    }

    /// The rule registered for `(state, symbol)`, or `None` where there is
    /// none. For the halt sentinel there never is one.
    pub fn lookup(&self, state: State, symbol: Symbol) -> (r: Option<TransitionRule>)
        ensures
            r == if self@.contains_key((state, symbol)) {
                Some(self@[(state, symbol)])
            } else {
                None
            },
            state is Halt ==> r is None,
    {
        match state {
            State::Halt => None,
            State::Ordinary(id) => {
                let k = slot_of(id, symbol);
                match self.table.get(&k) {
                    Some(rule) => Some(*rule),
                    None => None,
                }
            },
        }
    }
}

} // verus!
