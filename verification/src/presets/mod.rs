//! Ready-made machines.

pub mod busy_beaver;

use std::collections::HashMap;
use vstd::prelude::*;

use crate::alphabet::Symbol;
use crate::machine::Configuration;
use crate::rules::{Rules, TransitionFunctionBuilder};
use crate::state::State;
use crate::universe::Universe;

verus! {

/// A machine together with what a front end needs to present it.
pub struct UniverseMetadata {
    /// A title for the machine.
    pub name: String,
    /// The cell the head starts on.
    pub head_offset_hint: usize,
    /// The tape alphabet, the blank first.
    pub symbol_set: Vec<Symbol>,
    /// The control states to present.
    pub state_set: Vec<State>,
    /// The label of each ordinary state, by the state's number.
    pub display_state_as: HashMap<u32, String>,
    /// The builder the rules were collected in.
    pub transition_function_buidler: TransitionFunctionBuilder,
    /// The machine itself, before its first step.
    pub universe: Universe,
}

/// The labels in `table`, by state and as text.
pub open spec fn labels_of(table: Map<u32, String>) -> Map<State, Seq<char>> {
    Map::new(
        |s: State| s is Ordinary && table.contains_key(s->0),
        |s: State| table[s->0]@,
    )
}

impl UniverseMetadata {
    /// Whether this is the description of a fresh machine on a blank tape
    /// over the alphabet `{0, 1}`: titled `name`, its head on the cell
    /// `head`, in the state numbered 0, under `rules`, with `states` to
    /// present and `labels` to present them by.
    pub open spec fn describes(
        &self,
        name: Seq<char>,
        head: usize,
        states: Seq<State>,
        labels: Map<State, Seq<char>>,
        rules: Rules,
    ) -> bool {
        &&& self.name@ == name
        &&& self.head_offset_hint == head
        &&& self.symbol_set@ == seq![Symbol(0), Symbol(1)]
        &&& self.state_set@ == states
        &&& labels_of(self.display_state_as@) == labels
        &&& self.transition_function_buidler@ == rules
        &&& self.universe.wf()
        &&& self.universe.rules() == rules
        &&& self.universe@ == Configuration::initial(
            Seq::empty(),
            head as int,
            State::Ordinary(0),
        )
    }

    /// The label under which `state` is presented, if it has one. The halt
    /// sentinel has none.
    pub fn state_label(&self, state: State) -> (label: Option<&String>)
        ensures
            match label {
                Some(text) => labels_of(self.display_state_as@).contains_key(state) && text@
                    == labels_of(self.display_state_as@)[state],
                None => !labels_of(self.display_state_as@).contains_key(state),
            },
    {
        match state {
            State::Halt => None,
            State::Ordinary(id) => self.display_state_as.get(&id),
        }
    }
}

} // verus!
