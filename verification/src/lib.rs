//! A verified cellular-automaton engine: a rectangular grid of cells,
//! Moore neighborhoods under a clamped or wrapped (toroidal) boundary
//! policy, a double-buffered generation loop driven by a pluggable rule,
//! and the Game of Life rule table as the reference ruleset.

pub mod automata;
pub mod grid;
pub mod loader;
pub mod rulesets;
pub mod states;
pub mod windows;
