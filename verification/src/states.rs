use vstd::prelude::*;

verus! {

/// The cell values of a basic life-like automaton: exactly two states.
#[derive(Clone, Copy, Debug, PartialEq, Eq, Structural)]
pub enum BasicCellState {
    Alive,
    Dead,
}

} // verus!
