use vstd::prelude::*;

use crate::states::BasicCellState;
use crate::windows::MooreNeighborhood;

verus! {

/// A pluggable rule: a pure, deterministic map from a Moore neighborhood
/// to the next state of its center cell. `rule_spec` is the rule itself,
/// as mathematics; `apply` must compute exactly it.
pub trait RuleFunction<T> {
    spec fn rule_spec(&self, window: MooreNeighborhood<T>) -> T;

    fn apply(&self, window: &MooreNeighborhood<T>) -> (r: T)
        ensures
            r == self.rule_spec(*window);
}

/// The canonical Game-of-Life transition table, with `c` the number of
/// Alive cells among the eight neighbors (center excluded): an Alive
/// center survives iff `c` is 2 or 3 (underpopulation below 2,
/// overpopulation above 3); a Dead center is born iff `c` is exactly 3,
/// and otherwise stays Dead.
pub open spec fn conway_next(window: MooreNeighborhood<BasicCellState>) -> BasicCellState {
    let c = window.spec_count(BasicCellState::Alive);
    match window.center {
        BasicCellState::Alive => if 2 <= c <= 3 {
            BasicCellState::Alive
        } else {
            BasicCellState::Dead
        },
        BasicCellState::Dead => if c == 3 {
            BasicCellState::Alive
        } else {
            BasicCellState::Dead
        },
    }
}

/// Computes the Game-of-Life transition for one neighborhood, exactly as
/// `conway_next` states it.
pub fn conways_game_of_life(window: &MooreNeighborhood<BasicCellState>) -> (r: BasicCellState)
    ensures
        r == conway_next(*window),
{
    let c = window.count(&BasicCellState::Alive);
    match window.center {
        BasicCellState::Alive => {
            if c < 2 {
                BasicCellState::Dead
            } else if c <= 3 {
                BasicCellState::Alive
            } else {
                BasicCellState::Dead
            }
        },
        BasicCellState::Dead => {
            if c == 3 {
                BasicCellState::Alive
            } else {
                BasicCellState::Dead
            }
        },
    }
}

/// The Game of Life as a rule value for the engine.
#[derive(Clone, Copy, Debug)]
pub struct ConwaysLife;

impl RuleFunction<BasicCellState> for ConwaysLife {
    open spec fn rule_spec(&self, window: MooreNeighborhood<BasicCellState>) -> BasicCellState {
        conway_next(window)
    }

    fn apply(&self, window: &MooreNeighborhood<BasicCellState>) -> (r: BasicCellState) {
        conways_game_of_life(window)
    }
}

/// Rule-table exactness: an Alive cell with exactly 3 live neighbors
/// stays Alive, an Alive cell with exactly 1 becomes Dead, a Dead cell
/// with exactly 3 becomes Alive, and a Dead cell with 2 stays Dead.
pub proof fn lemma_rule_table(window: MooreNeighborhood<BasicCellState>)
    ensures
        window.center == BasicCellState::Alive && window.spec_count(BasicCellState::Alive) == 3
            ==> conway_next(window) == BasicCellState::Alive,
        window.center == BasicCellState::Alive && window.spec_count(BasicCellState::Alive) == 1
            ==> conway_next(window) == BasicCellState::Dead,
        window.center == BasicCellState::Dead && window.spec_count(BasicCellState::Alive) == 3
            ==> conway_next(window) == BasicCellState::Alive,
        window.center == BasicCellState::Dead && window.spec_count(BasicCellState::Alive) == 2
            ==> conway_next(window) == BasicCellState::Dead,
{
}

} // verus!
