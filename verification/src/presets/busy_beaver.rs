//! The busy beavers with three, four and five states over the alphabet
//! `{0, 1}`: among the machines of their size that halt on a blank tape,
//! those that leave the most ones.

use std::collections::HashMap;
use vstd::prelude::*;
use vstd::string::StrSliceExecFns;

use super::{labels_of, UniverseMetadata};
use crate::alphabet::{Symbol, Write};
use crate::machine::{lemma_after_after, lemma_terminal_is_final, Configuration};
use crate::rules::Action::{L, R};
use crate::rules::{Action, Rules, TransitionFunctionBuilder, TransitionRule};
use crate::state::State;
use crate::universe::Universe;

verus! {

/// The rule that writes `write`, moves by `action` and enters `next_state`.
pub open spec fn rule(write: u8, action: Action, next_state: State) -> TransitionRule {
    TransitionRule { write: Write(Symbol(write)), action, next_state }
}

/// The pair of the state numbered `state` and the symbol `read`.
pub open spec fn on(state: u32, read: u8) -> (State, Symbol) {
    (State::Ordinary(state), Symbol(read))
}

/// The state numbered `id`.
pub open spec fn to(id: u32) -> State {
    State::Ordinary(id)
}

/// The letter by which the state numbered `id` is presented.
pub open spec fn letter(id: u32) -> Seq<char> {
    if id == 0 {
        "A"@
    } else if id == 1 {
        "B"@
    } else if id == 2 {
        "C"@
    } else if id == 3 {
        "D"@
    } else {
        "E"@
    }
}

/// The labels `A`, `B`, .. of the first `count` states.
pub open spec fn letters(count: u32) -> Map<State, Seq<char>> {
    Map::new(|s: State| s is Ordinary && s->0 < count, |s: State| letter(s->0))
}

/// The rules of the busy beaver with three states.
pub open spec fn three_state_rules() -> Rules {
    Rules::empty()
        .insert(on(0, 0), rule(1, R, to(1)))
        .insert(on(0, 1), rule(1, R, State::Halt))
        .insert(on(1, 0), rule(0, R, to(2)))
        .insert(on(1, 1), rule(1, R, to(1)))
        .insert(on(2, 0), rule(1, L, to(2)))
        .insert(on(2, 1), rule(1, L, to(0)))
}

/// The rules of the busy beaver with four states.
pub open spec fn four_state_rules() -> Rules {
    Rules::empty()
        .insert(on(0, 0), rule(1, R, to(1)))
        .insert(on(0, 1), rule(1, L, to(1)))
        .insert(on(1, 0), rule(1, L, to(0)))
        .insert(on(1, 1), rule(0, L, to(2)))
        .insert(on(2, 0), rule(1, R, State::Halt))
        .insert(on(2, 1), rule(1, L, to(3)))
        .insert(on(3, 0), rule(1, R, to(3)))
        .insert(on(3, 1), rule(0, R, to(0)))
}

/// The rules of the busy beaver with five states.
pub open spec fn five_state_rules() -> Rules {
    Rules::empty()
        .insert(on(0, 0), rule(1, R, to(1)))
        .insert(on(0, 1), rule(1, L, to(2)))
        .insert(on(1, 0), rule(1, R, to(2)))
        .insert(on(1, 1), rule(1, R, to(1)))
        .insert(on(2, 0), rule(1, R, to(3)))
        .insert(on(2, 1), rule(0, L, to(4)))
        .insert(on(3, 0), rule(1, L, to(0)))
        .insert(on(3, 1), rule(1, L, to(3)))
        .insert(on(4, 0), rule(1, R, State::Halt))
        .insert(on(4, 1), rule(0, L, to(0)))
}

/// The states `A`, `B` and `C`, which every preset lists for presentation.
pub open spec fn listed_states() -> Seq<State> {
    seq![to(0), to(1), to(2)]
}

/// Whether `m` is the busy beaver with three states, head on cell 1.
pub open spec fn is_three_state_busy_beaver(m: UniverseMetadata) -> bool {
    m.describes(
        "3-state, 2-symbol busy beaver"@,
        1,
        listed_states(),
        letters(3),
        three_state_rules(),
    )
}

/// Whether `m` is the busy beaver with four states, head on cell 9.
pub open spec fn is_four_state_busy_beaver(m: UniverseMetadata) -> bool {
    m.describes(
        "4-state, 2-symbol busy beaver"@,
        9,
        listed_states(),
        letters(4),
        four_state_rules(),
    )
}

/// Whether `m` is the busy beaver with five states, head on cell 300.
pub open spec fn is_five_state_busy_beaver(m: UniverseMetadata) -> bool {
    m.describes(
        "5-state, 2-symbol busy beaver"@,
        300,
        listed_states(),
        letters(5),
        five_state_rules(),
    )
}

/// The tape with a one in each cell of `cells` and a blank in every other.
pub open spec fn marked(cells: Set<int>) -> Map<int, Symbol> {
    Map::new(
        |p: int| true,
        |p: int|
            if cells.contains(p) {
                Symbol(1)
            } else {
                Symbol::blank()
            },
    )
}

/// The configuration with ones in `cells`, the head on `head`, in `state`,
/// after `steps` steps.
pub open spec fn snapshot(cells: Set<int>, head: int, state: State, steps: nat) -> Configuration {
    Configuration { tape: marked(cells), head, state, steps, stuck: false }
}

/// What one step of the busy beaver with three states does to a tape that
/// holds ones and blanks only.
proof fn lemma_three_state_step(cells: Set<int>, head: int, state: u32, steps: nat)
    requires
        state < 3,
    ensures
        snapshot(cells, head, to(state), steps).advance(three_state_rules()) == ({
            let one = cells.contains(head);
            if state == 0 && !one {
                snapshot(cells.insert(head), head + 1, to(1), steps + 1)
            } else if state == 0 {
                snapshot(cells, head + 1, State::Halt, steps + 1)
            } else if state == 1 && !one {
                snapshot(cells, head + 1, to(2), steps + 1)
            } else if state == 1 {
                snapshot(cells, head + 1, to(1), steps + 1)
            } else if !one {
                snapshot(cells.insert(head), head - 1, to(2), steps + 1)
            } else {
                snapshot(cells, head - 1, to(0), steps + 1)
            }
        }),
{
    let c = snapshot(cells, head, to(state), steps);
    let next = c.advance(three_state_rules());
    let one = cells.contains(head);
    assert(c.scanned() == (if one {
        Symbol(1)
    } else {
        Symbol(0)
    }));
    if (state == 0 && !one) || (state == 2 && !one) {
        assert(next.tape =~= marked(cells.insert(head)));
    } else {
        assert(next.tape =~= marked(cells));
    }
}

/// The busy beaver with three states, started on a blank tape with its head
/// on cell 1, is still running after thirteen steps, with ones in the cells
/// 0 to 5. Its fourteenth step applies the halting rule: it leaves the six
/// ones as they are and the head on cell 3.
pub proof fn lemma_three_state_run()
    ensures
        Configuration::initial(Seq::empty(), 1, to(0)).after(three_state_rules(), 13) == snapshot(
            set![0, 1, 2, 3, 4, 5],
            2,
            to(0),
            13,
        ),
        Configuration::initial(Seq::empty(), 1, to(0)).after(three_state_rules(), 14) == snapshot(
            set![0, 1, 2, 3, 4, 5],
            3,
            State::Halt,
            14,
        ),
        Configuration::initial(Seq::empty(), 1, to(0)).run_to(three_state_rules(), u64::MAX as nat)
            == snapshot(set![0, 1, 2, 3, 4, 5], 3, State::Halt, 14),
{
    let r = three_state_rules();
    let c = Configuration::initial(Seq::empty(), 1, to(0));
    assert(c.tape =~= marked(Set::empty()));
    assert(c.after(r, 0) == snapshot(Set::empty(), 1, to(0), 0));
    lemma_three_state_step(Set::empty(), 1, 0, 0);
    assert(Set::<int>::empty().insert(1) =~= set![1]);
    assert(c.after(r, 1) == snapshot(set![1], 2, to(1), 1));
    lemma_three_state_step(set![1], 2, 1, 1);
    assert(c.after(r, 2) == snapshot(set![1], 3, to(2), 2));
    lemma_three_state_step(set![1], 3, 2, 2);
    assert(set![1int].insert(3) =~= set![1, 3]);
    assert(c.after(r, 3) == snapshot(set![1, 3], 2, to(2), 3));
    lemma_three_state_step(set![1, 3], 2, 2, 3);
    assert(set![1int, 3].insert(2) =~= set![1, 2, 3]);
    assert(c.after(r, 4) == snapshot(set![1, 2, 3], 1, to(2), 4));
    lemma_three_state_step(set![1, 2, 3], 1, 2, 4);
    assert(c.after(r, 5) == snapshot(set![1, 2, 3], 0, to(0), 5));
    lemma_three_state_step(set![1, 2, 3], 0, 0, 5);
    assert(set![1int, 2, 3].insert(0) =~= set![0, 1, 2, 3]);
    assert(c.after(r, 6) == snapshot(set![0, 1, 2, 3], 1, to(1), 6));
    lemma_three_state_step(set![0, 1, 2, 3], 1, 1, 6);
    assert(c.after(r, 7) == snapshot(set![0, 1, 2, 3], 2, to(1), 7));
    lemma_three_state_step(set![0, 1, 2, 3], 2, 1, 7);
    assert(c.after(r, 8) == snapshot(set![0, 1, 2, 3], 3, to(1), 8));
    lemma_three_state_step(set![0, 1, 2, 3], 3, 1, 8);
    assert(c.after(r, 9) == snapshot(set![0, 1, 2, 3], 4, to(1), 9));
    lemma_three_state_step(set![0, 1, 2, 3], 4, 1, 9);
    assert(c.after(r, 10) == snapshot(set![0, 1, 2, 3], 5, to(2), 10));
    lemma_three_state_step(set![0, 1, 2, 3], 5, 2, 10);
    assert(set![0int, 1, 2, 3].insert(5) =~= set![0, 1, 2, 3, 5]);
    assert(c.after(r, 11) == snapshot(set![0, 1, 2, 3, 5], 4, to(2), 11));
    lemma_three_state_step(set![0, 1, 2, 3, 5], 4, 2, 11);
    assert(set![0int, 1, 2, 3, 5].insert(4) =~= set![0, 1, 2, 3, 4, 5]);
    assert(c.after(r, 12) == snapshot(set![0, 1, 2, 3, 4, 5], 3, to(2), 12));
    lemma_three_state_step(set![0, 1, 2, 3, 4, 5], 3, 2, 12);
    assert(c.after(r, 13) == snapshot(set![0, 1, 2, 3, 4, 5], 2, to(0), 13));
    lemma_three_state_step(set![0, 1, 2, 3, 4, 5], 2, 0, 13);
    assert(c.after(r, 14) == snapshot(set![0, 1, 2, 3, 4, 5], 3, State::Halt, 14));
    lemma_after_after(c, r, 14, (u64::MAX - 14) as nat);
    lemma_terminal_is_final(c.after(r, 14), r, (u64::MAX - 14) as nat);
}

/// Whether `m` is the busy beaver that `input` names by its number of
/// states.
pub open spec fn names(input: Seq<char>, m: UniverseMetadata) -> bool {
    ||| input == "3"@ && is_three_state_busy_beaver(m)
    ||| input == "4"@ && is_four_state_busy_beaver(m)
    ||| input == "5"@ && is_five_state_busy_beaver(m)
}

/// The busy beaver with three states, on a blank tape with its head on
/// cell 1.
pub fn three_state_busy_beaver() -> (m: UniverseMetadata)
    ensures
        is_three_state_busy_beaver(m),
{
    let name = "3-state, 2-symbol busy beaver".to_owned();
    let initial_head = 1_usize;

    let s0 = Symbol::empty();
    let s1 = Symbol::from(1);

    let s_a = State::from(0);
    let s_b = State::from(1);
    let s_c = State::from(2);

    let mut display_state_as: HashMap<u32, String> = HashMap::new();
    display_state_as.insert(0, "A".to_owned());
    display_state_as.insert(1, "B".to_owned());
    display_state_as.insert(2, "C".to_owned());
    assert(labels_of(display_state_as@) =~= letters(3));

    let mut builder = TransitionFunctionBuilder::default();
    builder.add(s_a, s0, Write::from(s1), R, s_b).unwrap();
    builder.add(s_a, s1, Write::from(s1), R, State::halt()).unwrap();

    builder.add(s_b, s0, Write::from(s0), R, s_c).unwrap();
    builder.add(s_b, s1, Write::from(s1), R, s_b).unwrap();

    builder.add(s_c, s0, Write::from(s1), L, s_c).unwrap();
    builder.add(s_c, s1, Write::from(s1), L, s_a).unwrap();

    let transition_function = builder.build();
    let universe = Universe::new(Vec::new(), initial_head, s_a, transition_function);

    UniverseMetadata {
        name,
        head_offset_hint: initial_head,
        symbol_set: vec![s0, s1],
        state_set: vec![s_a, s_b, s_c],
        display_state_as,
        transition_function_buidler: builder,
        universe,
    }
}

/// The busy beaver with four states, on a blank tape with its head on
/// cell 9.
pub fn four_state_busy_beaver() -> (m: UniverseMetadata)
    ensures
        is_four_state_busy_beaver(m),
{
    let name = "4-state, 2-symbol busy beaver".to_owned();
    let initial_head = 9_usize;

    let s0 = Symbol::empty();
    let s1 = Symbol::from(1);

    let s_a = State::from(0);
    let s_b = State::from(1);
    let s_c = State::from(2);
    let s_d = State::from(3);

    let mut display_state_as: HashMap<u32, String> = HashMap::new();
    display_state_as.insert(0, "A".to_owned());
    display_state_as.insert(1, "B".to_owned());
    display_state_as.insert(2, "C".to_owned());
    display_state_as.insert(3, "D".to_owned());
    assert(labels_of(display_state_as@) =~= letters(4));

    let mut builder = TransitionFunctionBuilder::default();
    builder.add(s_a, s0, Write::from(s1), R, s_b).unwrap();
    builder.add(s_a, s1, Write::from(s1), L, s_b).unwrap();

    builder.add(s_b, s0, Write::from(s1), L, s_a).unwrap();
    builder.add(s_b, s1, Write::from(s0), L, s_c).unwrap();

    builder.add(s_c, s0, Write::from(s1), R, State::halt()).unwrap();
    builder.add(s_c, s1, Write::from(s1), L, s_d).unwrap();

    builder.add(s_d, s0, Write::from(s1), R, s_d).unwrap();
    builder.add(s_d, s1, Write::from(s0), R, s_a).unwrap();

    let transition_function = builder.build();
    let universe = Universe::new(Vec::new(), initial_head, s_a, transition_function);

    UniverseMetadata {
        name,
        head_offset_hint: initial_head,
        symbol_set: vec![s0, s1],
        state_set: vec![s_a, s_b, s_c],
        display_state_as,
        transition_function_buidler: builder,
        universe,
    }
}

/// The busy beaver with five states, on a blank tape with its head on
/// cell 300, which leaves the run some room on the left.
pub fn five_state_busy_beaver() -> (m: UniverseMetadata)
    ensures
        is_five_state_busy_beaver(m),
{
    let name = "5-state, 2-symbol busy beaver".to_owned();
    let initial_head = 300_usize;

    let s0 = Symbol::empty();
    let s1 = Symbol::from(1);

    let s_a = State::from(0);
    let s_b = State::from(1);
    let s_c = State::from(2);
    let s_d = State::from(3);
    let s_e = State::from(4);

    let mut display_state_as: HashMap<u32, String> = HashMap::new();
    display_state_as.insert(0, "A".to_owned());
    display_state_as.insert(1, "B".to_owned());
    display_state_as.insert(2, "C".to_owned());
    display_state_as.insert(3, "D".to_owned());
    display_state_as.insert(4, "E".to_owned());
    assert(labels_of(display_state_as@) =~= letters(5));

    let mut builder = TransitionFunctionBuilder::default();
    builder.add(s_a, s0, Write::from(s1), R, s_b).unwrap();
    builder.add(s_a, s1, Write::from(s1), L, s_c).unwrap();

    builder.add(s_b, s0, Write::from(s1), R, s_c).unwrap();
    builder.add(s_b, s1, Write::from(s1), R, s_b).unwrap();

    builder.add(s_c, s0, Write::from(s1), R, s_d).unwrap();
    builder.add(s_c, s1, Write::from(s0), L, s_e).unwrap();

    builder.add(s_d, s0, Write::from(s1), L, s_a).unwrap();
    builder.add(s_d, s1, Write::from(s1), L, s_d).unwrap();

    builder.add(s_e, s0, Write::from(s1), R, State::halt()).unwrap();
    builder.add(s_e, s1, Write::from(s0), L, s_a).unwrap();

    let transition_function = builder.build();
    let universe = Universe::new(Vec::new(), initial_head, s_a, transition_function);

    UniverseMetadata {
        name,
        head_offset_hint: initial_head,
        symbol_set: vec![s0, s1],
        state_set: vec![s_a, s_b, s_c],
        display_state_as,
        transition_function_buidler: builder,
        universe,
    }
}

/// The busy beaver that `input` names: `3`, `4` or `5`. Any other text
/// names none.
pub fn pick_beaver(input: &str) -> (choice: Option<UniverseMetadata>)
    ensures
        choice matches Some(m) ==> names(input@, m),
        choice is None <==> input@ != "3"@ && input@ != "4"@ && input@ != "5"@,
{
    proof {
        reveal_strlit("3");
        reveal_strlit("4");
        reveal_strlit("5");
    }
    if input.unicode_len() != 1 {
        return None;
    }
    let c = input.get_char(0);
    if c == '3' {
        assert(input@ =~= "3"@);
        Some(three_state_busy_beaver())
    } else if c == '4' {
        assert(input@ =~= "4"@);
        Some(four_state_busy_beaver())
    } else if c == '5' {
        assert(input@ =~= "5"@);
        Some(five_state_busy_beaver())
    } else {
        None
    }
}

} // verus!
