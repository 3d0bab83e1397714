//! A single-tape Turing-machine simulator.
//!
//! Rules are collected by a [`TransitionFunctionBuilder`], frozen into a
//! [`TransitionFunction`] and handed to a [`Universe`], which owns the tape,
//! the head and the control state. A universe advances one step at a time,
//! or runs until it halts, is stuck for want of a rule, or has used up a
//! step budget.
//!
//! - [`alphabet`] and [`state`]: symbols and control states;
//! - [`rules`]: transition rules, their builder and the frozen function;
//! - [`machine`]: the mathematical model of a run, and its laws;
//! - [`universe`]: the engine, with its contracts over that model;
//! - [`presets`]: ready-made machines.

pub mod alphabet;
pub mod machine;
pub mod presets;
pub mod rules;
pub mod state;
mod tape;
pub mod universe;

pub use alphabet::{Symbol, Write};
pub use machine::{Configuration, Status};
pub use rules::{Action, RuleError, TransitionFunction, TransitionFunctionBuilder, TransitionRule};
pub use state::State;
pub use universe::{IllegalStepError, Universe};
