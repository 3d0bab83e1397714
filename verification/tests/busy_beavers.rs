use turing_machine::presets::busy_beaver::{
    five_state_busy_beaver, four_state_busy_beaver, pick_beaver, three_state_busy_beaver,
};
use turing_machine::presets::UniverseMetadata;
use turing_machine::Action::{L, R};
use turing_machine::{State, Status, Symbol, TransitionRule, Write};

fn rule(write: u8, action: turing_machine::Action, next_state: State) -> TransitionRule {
    TransitionRule { write: Write::from(Symbol::from(write)), action, next_state }
}

fn ones(m: &UniverseMetadata, start: i128, len: usize) -> usize {
    m.universe.tape_range(start, len).iter().filter(|s| **s == Symbol::from(1)).count()
}

#[test]
fn three_state_description() {
    let m = three_state_busy_beaver();
    assert_eq!(m.name, "3-state, 2-symbol busy beaver");
    assert_eq!(m.head_offset_hint, 1);
    assert_eq!(m.symbol_set, vec![Symbol::empty(), Symbol::from(1)]);
    assert_eq!(m.state_set, vec![State::from(0), State::from(1), State::from(2)]);
    assert_eq!(m.display_state_as.len(), 3);
    assert_eq!(m.state_label(State::from(0)).map(|s| s.as_str()), Some("A"));
    assert_eq!(m.state_label(State::from(1)).map(|s| s.as_str()), Some("B"));
    assert_eq!(m.state_label(State::from(2)).map(|s| s.as_str()), Some("C"));
    assert_eq!(m.state_label(State::from(3)), None);
    assert_eq!(m.state_label(State::halt()), None);
    assert_eq!(m.universe.head(), 1);
    assert_eq!(m.universe.state(), State::from(0));
    assert_eq!(m.universe.steps(), 0);
    assert_eq!(m.universe.status(), Status::Running);
    assert_eq!(ones(&m, -50, 100), 0);
}

#[test]
fn three_state_rules() {
    let m = three_state_busy_beaver();
    let (a, b, c) = (State::from(0), State::from(1), State::from(2));
    let (s0, s1) = (Symbol::empty(), Symbol::from(1));
    let built = m.transition_function_buidler.build();
    for f in [&built, m.universe.transition_function()] {
        assert_eq!(f.lookup(a, s0), Some(rule(1, R, b)));
        assert_eq!(f.lookup(a, s1), Some(rule(1, R, State::halt())));
        assert_eq!(f.lookup(b, s0), Some(rule(0, R, c)));
        assert_eq!(f.lookup(b, s1), Some(rule(1, R, b)));
        assert_eq!(f.lookup(c, s0), Some(rule(1, L, c)));
        assert_eq!(f.lookup(c, s1), Some(rule(1, L, a)));
        assert_eq!(f.lookup(State::from(3), s0), None);
        assert_eq!(f.lookup(a, Symbol::from(2)), None);
    }
}

#[test]
fn three_state_halts_with_six_ones() {
    let mut m = three_state_busy_beaver();
    // thirteen rules keep the machine running and leave the six ones
    assert_eq!(m.universe.run(Some(13)), (Status::BudgetExceeded, 13));
    assert_eq!(ones(&m, -50, 100), 6);
    assert_eq!(m.universe.state(), State::from(0));
    assert_eq!(m.universe.head(), 2);
    assert_eq!(m.universe.read(2), Symbol::from(1));
    // the fourteenth is the halting rule: on a one in state A, write one, go right
    assert_eq!(m.universe.step(), Ok((Status::Halted, 14)));
    assert_eq!(m.universe.head(), 3);
    assert_eq!(m.universe.state(), State::halt());
    assert_eq!(
        m.universe.tape_range(-1, 8),
        [0u8, 1, 1, 1, 1, 1, 1, 0].iter().map(|v| Symbol::from(*v)).collect::<Vec<_>>()
    );
    assert_eq!(ones(&m, -50, 100), 6);
}

#[test]
fn three_state_runs_to_completion() {
    let mut m = three_state_busy_beaver();
    assert_eq!(m.universe.run(None), (Status::Halted, 14));
    assert_eq!(m.universe.status(), Status::Halted);
    assert_eq!(m.universe.steps(), 14);
    assert_eq!(ones(&m, -50, 100), 6);
}

#[test]
fn three_state_trace() {
    // (state, symbol read, head) before each of the fourteen steps
    let expected: [(u32, u8, i128); 14] = [
        (0, 0, 1),
        (1, 0, 2),
        (2, 0, 3),
        (2, 0, 2),
        (2, 1, 1),
        (0, 0, 0),
        (1, 1, 1),
        (1, 1, 2),
        (1, 1, 3),
        (1, 0, 4),
        (2, 0, 5),
        (2, 0, 4),
        (2, 1, 3),
        (0, 1, 2),
    ];
    let mut m = three_state_busy_beaver();
    for (i, (state, read, head)) in expected.iter().enumerate() {
        assert_eq!(m.universe.state(), State::from(*state));
        assert_eq!(m.universe.head(), *head);
        assert_eq!(m.universe.read(m.universe.head()), Symbol::from(*read));
        let (status, steps) = m.universe.step().unwrap();
        assert_eq!(steps, i as u64 + 1);
        assert_eq!(status, if i == 13 { Status::Halted } else { Status::Running });
    }
}

#[test]
fn four_state_description() {
    let m = four_state_busy_beaver();
    assert_eq!(m.name, "4-state, 2-symbol busy beaver");
    assert_eq!(m.head_offset_hint, 9);
    assert_eq!(m.symbol_set, vec![Symbol::empty(), Symbol::from(1)]);
    assert_eq!(m.state_set, vec![State::from(0), State::from(1), State::from(2)]);
    assert_eq!(m.display_state_as.len(), 4);
    assert_eq!(m.state_label(State::from(3)).map(|s| s.as_str()), Some("D"));
    assert_eq!(m.state_label(State::from(4)), None);
    assert_eq!(m.universe.head(), 9);
    assert_eq!(m.universe.state(), State::from(0));
    let f = m.transition_function_buidler.build();
    assert_eq!(f.lookup(State::from(1), Symbol::from(1)), Some(rule(0, L, State::from(2))));
    assert_eq!(f.lookup(State::from(2), Symbol::from(0)), Some(rule(1, R, State::halt())));
    assert_eq!(f.lookup(State::from(3), Symbol::from(1)), Some(rule(0, R, State::from(0))));
    assert_eq!(f.lookup(State::from(4), Symbol::from(0)), None);
}

#[test]
fn four_state_halts_with_thirteen_ones() {
    let mut m = four_state_busy_beaver();
    assert_eq!(m.universe.run(None), (Status::Halted, 107));
    assert_eq!(ones(&m, -200, 400), 13);
    assert!(m.universe.head() >= 0);
}

#[test]
fn five_state_description() {
    let m = five_state_busy_beaver();
    assert_eq!(m.name, "5-state, 2-symbol busy beaver");
    assert_eq!(m.head_offset_hint, 300);
    assert_eq!(m.symbol_set, vec![Symbol::empty(), Symbol::from(1)]);
    assert_eq!(m.state_set, vec![State::from(0), State::from(1), State::from(2)]);
    assert_eq!(m.display_state_as.len(), 5);
    assert_eq!(m.state_label(State::from(4)).map(|s| s.as_str()), Some("E"));
    assert_eq!(m.state_label(State::from(5)), None);
    assert_eq!(m.universe.head(), 300);
    let f = m.transition_function_buidler.build();
    assert_eq!(f.lookup(State::from(0), Symbol::from(1)), Some(rule(1, L, State::from(2))));
    assert_eq!(f.lookup(State::from(2), Symbol::from(1)), Some(rule(0, L, State::from(4))));
    assert_eq!(f.lookup(State::from(4), Symbol::from(0)), Some(rule(1, R, State::halt())));
    assert_eq!(f.lookup(State::from(4), Symbol::from(1)), Some(rule(0, L, State::from(0))));
}

#[test]
fn five_state_outlasts_a_budget() {
    let mut m = five_state_busy_beaver();
    assert_eq!(m.universe.run(Some(20_000)), (Status::BudgetExceeded, 20_000));
    assert_eq!(m.universe.status(), Status::Running);
    let mut whole = five_state_busy_beaver();
    assert_eq!(whole.universe.run(Some(50_000)), (Status::BudgetExceeded, 50_000));
    assert_eq!(m.universe.run(Some(50_000)), (Status::BudgetExceeded, 50_000));
    assert_eq!(m.universe.head(), whole.universe.head());
    assert_eq!(m.universe.state(), whole.universe.state());
    assert_eq!(m.universe.tape_range(-1000, 3000), whole.universe.tape_range(-1000, 3000));
}

#[test]
fn pick_beaver_by_number() {
    assert_eq!(pick_beaver("3").map(|m| m.name), Some("3-state, 2-symbol busy beaver".to_string()));
    assert_eq!(pick_beaver("4").map(|m| m.name), Some("4-state, 2-symbol busy beaver".to_string()));
    assert_eq!(pick_beaver("5").map(|m| m.name), Some("5-state, 2-symbol busy beaver".to_string()));
    assert_eq!(pick_beaver("3").map(|m| m.head_offset_hint), Some(1));
    assert_eq!(pick_beaver("4").map(|m| m.head_offset_hint), Some(9));
    assert_eq!(pick_beaver("5").map(|m| m.head_offset_hint), Some(300));
}

#[test]
fn pick_beaver_refuses_other_input() {
    for input in ["", "2", "6", "33", "3 ", " 3", "three", "3\n", "III"] {
        assert!(pick_beaver(input).is_none());
    }
}

#[test]
fn five_state_halts_with_4098_ones() {
    let mut m = five_state_busy_beaver();
    assert_eq!(m.universe.run(None), (Status::Halted, 47_176_870));
    assert_eq!(ones(&m, -20_000, 40_000), 4098);
}
