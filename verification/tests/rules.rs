use turing_machine::Action::{L, R};
use turing_machine::{
    RuleError, State, Symbol, TransitionFunctionBuilder, TransitionRule, Write,
};

fn rule(write: u8, action: turing_machine::Action, next_state: State) -> TransitionRule {
    TransitionRule { write: Write::from(Symbol::from(write)), action, next_state }
}

#[test]
fn symbol_values() {
    assert_eq!(Symbol::empty(), Symbol::from(0));
    assert_eq!(Symbol::empty().value(), 0);
    assert_eq!(Symbol::from(1).value(), 1);
    assert_eq!(Symbol::from(255).value(), 255);
    assert!(Symbol::empty().is_empty());
    assert!(!Symbol::from(1).is_empty());
    assert_ne!(Symbol::from(1), Symbol::from(2));
}

#[test]
fn write_carries_its_symbol() {
    assert_eq!(Write::from(Symbol::from(7)).symbol(), Symbol::from(7));
    assert_eq!(Write::from(Symbol::empty()).symbol(), Symbol::empty());
    assert_ne!(Write::from(Symbol::from(1)), Write::from(Symbol::empty()));
}

#[test]
fn state_values() {
    assert_eq!(State::from(0).id(), Some(0));
    assert_eq!(State::from(4_000_000_000).id(), Some(4_000_000_000));
    assert_eq!(State::halt().id(), None);
    assert!(State::halt().is_halt());
    assert!(!State::from(0).is_halt());
    assert_ne!(State::from(0), State::halt());
    assert_ne!(State::from(0), State::from(1));
    assert_eq!(State::from(3), State::Ordinary(3));
}

#[test]
fn lookup_finds_what_was_added() {
    let mut builder = TransitionFunctionBuilder::default();
    let a = State::from(0);
    let b = State::from(1);
    let s0 = Symbol::empty();
    let s1 = Symbol::from(1);
    assert_eq!(builder.add(a, s0, Write::from(s1), R, b), Ok(()));
    assert_eq!(builder.add(a, s1, Write::from(s0), L, State::halt()), Ok(()));
    assert_eq!(builder.add(b, s1, Write::from(s1), L, a), Ok(()));
    let f = builder.build();
    assert_eq!(f.lookup(a, s0), Some(rule(1, R, b)));
    assert_eq!(f.lookup(a, s1), Some(rule(0, L, State::halt())));
    assert_eq!(f.lookup(b, s1), Some(rule(1, L, a)));
}

#[test]
fn lookup_misses_what_was_never_added() {
    let mut builder = TransitionFunctionBuilder::default();
    let a = State::from(0);
    let b = State::from(1);
    assert_eq!(builder.add(a, Symbol::from(0), Write::from(Symbol::from(1)), R, b), Ok(()));
    let f = builder.build();
    assert_eq!(f.lookup(a, Symbol::from(1)), None);
    assert_eq!(f.lookup(b, Symbol::from(0)), None);
    assert_eq!(f.lookup(State::from(2), Symbol::from(0)), None);
    assert_eq!(f.lookup(State::halt(), Symbol::from(0)), None);
    let empty = TransitionFunctionBuilder::default().build();
    assert_eq!(empty.lookup(a, Symbol::from(0)), None);
}

#[test]
fn second_rule_for_a_pair_is_refused() {
    let mut builder = TransitionFunctionBuilder::default();
    let a = State::from(0);
    let b = State::from(1);
    let s0 = Symbol::empty();
    let s1 = Symbol::from(1);
    assert_eq!(builder.add(a, s0, Write::from(s1), R, b), Ok(()));
    assert_eq!(builder.add(a, s0, Write::from(s0), L, a), Err(RuleError::DuplicateRule));
    assert_eq!(builder.add(a, s0, Write::from(s1), R, b), Err(RuleError::DuplicateRule));
    // the first rule stays, and the builder still takes rules for other pairs
    assert_eq!(builder.add(a, s1, Write::from(s1), L, b), Ok(()));
    let f = builder.build();
    assert_eq!(f.lookup(a, s0), Some(rule(1, R, b)));
    assert_eq!(f.lookup(a, s1), Some(rule(1, L, b)));
}

#[test]
fn rule_keyed_by_halt_is_refused() {
    let mut builder = TransitionFunctionBuilder::default();
    let s0 = Symbol::empty();
    assert_eq!(
        builder.add(State::halt(), s0, Write::from(s0), R, State::from(0)),
        Err(RuleError::HaltAsKey)
    );
    // refused every time, not as a duplicate
    assert_eq!(
        builder.add(State::halt(), s0, Write::from(s0), R, State::from(0)),
        Err(RuleError::HaltAsKey)
    );
    assert_eq!(builder.build().lookup(State::halt(), s0), None);
}

#[test]
fn pairs_with_large_numbers_do_not_collide() {
    let mut builder = TransitionFunctionBuilder::default();
    let big = State::from(u32::MAX);
    let one = State::from(1);
    let zero = State::from(0);
    assert_eq!(builder.add(big, Symbol::from(255), Write::from(Symbol::from(9)), L, zero), Ok(()));
    assert_eq!(builder.add(zero, Symbol::from(255), Write::from(Symbol::from(8)), R, zero), Ok(()));
    // state 1 with symbol 0 and state 0 with symbol 255 are different pairs
    assert_eq!(builder.add(one, Symbol::from(0), Write::from(Symbol::from(7)), R, one), Ok(()));
    let f = builder.build();
    assert_eq!(f.lookup(big, Symbol::from(255)), Some(rule(9, L, zero)));
    assert_eq!(f.lookup(zero, Symbol::from(255)), Some(rule(8, R, zero)));
    assert_eq!(f.lookup(one, Symbol::from(0)), Some(rule(7, R, one)));
    assert_eq!(f.lookup(big, Symbol::from(254)), None);
    assert_eq!(f.lookup(State::from(u32::MAX - 1), Symbol::from(255)), None);
}

#[test]
fn build_does_not_see_later_rules() {
    let mut builder = TransitionFunctionBuilder::default();
    let a = State::from(0);
    let s0 = Symbol::empty();
    let s1 = Symbol::from(1);
    assert_eq!(builder.add(a, s0, Write::from(s1), R, a), Ok(()));
    let early = builder.build();
    assert_eq!(builder.add(a, s1, Write::from(s0), L, a), Ok(()));
    let late = builder.build();
    assert_eq!(early.lookup(a, s0), Some(rule(1, R, a)));
    assert_eq!(early.lookup(a, s1), None);
    assert_eq!(late.lookup(a, s0), Some(rule(1, R, a)));
    assert_eq!(late.lookup(a, s1), Some(rule(0, L, a)));
}

#[test]
fn clones_are_independent() {
    let mut builder = TransitionFunctionBuilder::default();
    let a = State::from(0);
    let s0 = Symbol::empty();
    let s1 = Symbol::from(1);
    assert_eq!(builder.add(a, s0, Write::from(s1), R, a), Ok(()));
    let mut copy = builder.clone();
    assert_eq!(copy.add(a, s0, Write::from(s0), L, a), Err(RuleError::DuplicateRule));
    assert_eq!(copy.add(a, s1, Write::from(s0), L, a), Ok(()));
    assert_eq!(builder.build().lookup(a, s1), None);
    let f = copy.build();
    let g = f.clone();
    assert_eq!(g.lookup(a, s0), Some(rule(1, R, a)));
    assert_eq!(g.lookup(a, s1), Some(rule(0, L, a)));
    assert_eq!(g.lookup(a, Symbol::from(2)), None);
}
