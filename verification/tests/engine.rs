use cellular_automata::automata::Automata;
use cellular_automata::grid::{Grid, GridError};
use cellular_automata::rulesets::{conways_game_of_life, ConwaysLife};
use cellular_automata::states::BasicCellState;
use cellular_automata::windows::MooreNeighborhood;

const A: BasicCellState = BasicCellState::Alive;
const D: BasicCellState = BasicCellState::Dead;

fn make_grid(data: Vec<BasicCellState>, w: usize, h: usize) -> Grid<BasicCellState> {
    Grid::new(data, w, h, D).expect("valid dimensions")
}

fn advance_times(engine: &mut Automata<BasicCellState>, n: usize) {
    for _ in 0..n {
        engine.advance(&ConwaysLife);
    }
}

fn snapshot(engine: &Automata<BasicCellState>) -> Vec<BasicCellState> {
    let w = engine.grid().width;
    let h = engine.grid().height;
    let mut out = Vec::new();
    for y in 0..h {
        for x in 0..w {
            out.push(engine.cell_at(x as i16, y as i16));
        }
    }
    out
}

#[test]
fn grid_new_rejects_wrong_length() {
    let r = Grid::new(vec![D; 5], 2, 3, D);
    assert_eq!(r.unwrap_err(), GridError::InvalidDimensions);
}

#[test]
fn grid_new_accepts_exact_length() {
    let g = make_grid(vec![D; 6], 2, 3);
    assert_eq!(g.width, 2);
    assert_eq!(g.height, 3);
    assert_eq!(g.data.len(), 6);
}

#[test]
fn idx_is_row_major() {
    let g = make_grid(vec![D; 12], 4, 3);
    assert_eq!(g.idx(0, 0), 0);
    assert_eq!(g.idx(3, 0), 3);
    assert_eq!(g.idx(0, 1), 4);
    assert_eq!(g.idx(2, 2), 10);
}

#[test]
fn is_valid_matches_bounds() {
    let g = make_grid(vec![D; 6], 3, 2);
    assert!(g.is_valid(0, 0));
    assert!(g.is_valid(2, 1));
    assert!(!g.is_valid(-1, 0));
    assert!(!g.is_valid(0, -1));
    assert!(!g.is_valid(3, 0));
    assert!(!g.is_valid(0, 2));
}

#[test]
fn clamped_at_returns_default_out_of_bounds() {
    let g = Grid::new(vec![D, D, D, D], 2, 2, A).expect("valid dimensions");
    assert_eq!(*g.at(-1, -1), A);
    assert_eq!(*g.at(2, 2), A);
    assert_eq!(*g.at(0, 0), D);
}

#[test]
fn wrapped_window_reaches_opposite_edges() {
    // 3 x 2 grid:  A D D
    //              D D A
    let g = make_grid(vec![A, D, D, D, D, A], 3, 2);
    // At (0, 0) the left neighbor wraps to column 2, the top neighbors
    // wrap to row 1.
    let w = g.window_moore_wrap(0, 0);
    assert_eq!(w.center, A);
    assert_eq!(w.left, D); // (2, 0)
    assert_eq!(w.top, D); // (0, 1)
    assert_eq!(w.top_left, A); // (2, 1)
    // At (2, 1) the right neighbor wraps to column 0.
    let w = g.window_moore_wrap(2, 1);
    assert_eq!(w.center, A);
    assert_eq!(w.right, D); // (0, 1)
    assert_eq!(w.bot_right, A); // (0, 0)
}

#[test]
fn clamped_window_sees_default_beyond_border() {
    let g = Grid::new(vec![D, D, D, D], 2, 2, A).expect("valid dimensions");
    let w = g.window_moore_nowrap(0, 0);
    assert_eq!(w.top_left, A);
    assert_eq!(w.top, A);
    assert_eq!(w.left, A);
    assert_eq!(w.center, D);
    assert_eq!(w.right, D);
    assert_eq!(w.bot, D);
    assert_eq!(w.bot_right, D);
}

#[test]
fn iter_covers_grid_row_major() {
    let g = make_grid(vec![D; 6], 3, 2);
    let coords = g.iter();
    assert_eq!(coords, vec![(0, 0), (1, 0), (2, 0), (0, 1), (1, 1), (2, 1)]);
    // Stateless: a second call yields the same sequence.
    assert_eq!(g.iter(), coords);
}

#[test]
fn count_on_all_alive_center() {
    // 3 x 3 all-Alive grid, neighborhood centered away from any edge.
    let g = make_grid(vec![A; 9], 3, 3);
    let w = g.window_moore_nowrap(1, 1);
    assert_eq!(w.count(&A), 8);
    assert_eq!(w.count_all(&A), 9);
    assert_eq!(w.count(&D), 0);
    assert_eq!(w.count_all(&D), 0);
}

fn window_with(center: BasicCellState, alive_neighbors: u8) -> MooreNeighborhood<BasicCellState> {
    let pick = |i: u8| if i < alive_neighbors { A } else { D };
    MooreNeighborhood {
        top_left: pick(0),
        top: pick(1),
        top_right: pick(2),
        left: pick(3),
        right: pick(4),
        bot_left: pick(5),
        bot: pick(6),
        bot_right: pick(7),
        center,
    }
}

#[test]
fn rule_table_is_exact() {
    // Survival: an Alive cell with exactly 3 (and 2) live neighbors stays Alive.
    assert_eq!(conways_game_of_life(&window_with(A, 3)), A);
    assert_eq!(conways_game_of_life(&window_with(A, 2)), A);
    // Underpopulation: an Alive cell with exactly 1 live neighbor dies.
    assert_eq!(conways_game_of_life(&window_with(A, 1)), D);
    assert_eq!(conways_game_of_life(&window_with(A, 0)), D);
    // Overpopulation.
    assert_eq!(conways_game_of_life(&window_with(A, 4)), D);
    assert_eq!(conways_game_of_life(&window_with(A, 8)), D);
    // Birth: a Dead cell with exactly 3 live neighbors is born.
    assert_eq!(conways_game_of_life(&window_with(D, 3)), A);
    // Stasis: a Dead cell with 2 live neighbors stays Dead.
    assert_eq!(conways_game_of_life(&window_with(D, 2)), D);
    assert_eq!(conways_game_of_life(&window_with(D, 4)), D);
}

#[test]
fn construct_then_reset_restores_supplied_data() {
    let data = vec![A, D, D, A, A, D];
    let mut engine = Automata::new(make_grid(data.clone(), 3, 2));
    engine.reset();
    assert_eq!(engine.generation(), 0);
    assert_eq!(snapshot(&engine), data);
}

#[test]
fn warm_up_skip_leaves_grid_untouched() {
    let data = vec![A, A, A, D, D, D, D, D, D];
    let mut engine = Automata::new(make_grid(data.clone(), 3, 3));
    assert_eq!(engine.generation(), 0);
    // The single warm-up call increments the counter only.
    engine.advance(&ConwaysLife);
    assert_eq!(engine.generation(), 1);
    assert_eq!(snapshot(&engine), data);
    // The next call computes.
    engine.advance(&ConwaysLife);
    assert_eq!(engine.generation(), 2);
    assert_ne!(snapshot(&engine), data);
}

#[test]
fn all_dead_grid_stays_all_dead() {
    let mut engine = Automata::new(make_grid(vec![D; 20], 5, 4));
    for _ in 0..6 {
        engine.advance(&ConwaysLife);
    }
    assert_eq!(snapshot(&engine), vec![D; 20]);
}

#[test]
fn blinker_oscillates_with_period_two() {
    // 5 x 5, all Dead except a horizontal 3-cell run at row 2, columns 1..=3.
    let mut data = vec![D; 25];
    data[2 * 5 + 1] = A;
    data[2 * 5 + 2] = A;
    data[2 * 5 + 3] = A;
    let mut vertical = vec![D; 25];
    vertical[1 * 5 + 2] = A;
    vertical[2 * 5 + 2] = A;
    vertical[3 * 5 + 2] = A;

    let mut engine = Automata::new(make_grid(data.clone(), 5, 5));
    // Let the warm-up window elapse, then run one computed sweep.
    engine.advance(&ConwaysLife);
    assert_eq!(snapshot(&engine), data);
    engine.advance(&ConwaysLife);
    assert_eq!(snapshot(&engine), vertical);
    // One further computed sweep returns the original horizontal run.
    engine.advance(&ConwaysLife);
    assert_eq!(snapshot(&engine), data);
}

#[test]
fn block_is_still_life() {
    // 4 x 4 with a 2 x 2 block in the middle.
    let mut data = vec![D; 16];
    data[1 * 4 + 1] = A;
    data[1 * 4 + 2] = A;
    data[2 * 4 + 1] = A;
    data[2 * 4 + 2] = A;
    let mut engine = Automata::new(make_grid(data.clone(), 4, 4));
    advance_times(&mut engine, 4);
    assert_eq!(snapshot(&engine), data);
}

#[test]
fn glider_translates_diagonally() {
    // A glider on a 6 x 6 grid repeats its shape shifted by (1, 1) after
    // four computed sweeps.
    let mut data = vec![D; 36];
    data[0 * 6 + 1] = A;
    data[1 * 6 + 2] = A;
    data[2 * 6 + 0] = A;
    data[2 * 6 + 1] = A;
    data[2 * 6 + 2] = A;
    let mut shifted = vec![D; 36];
    shifted[1 * 6 + 2] = A;
    shifted[2 * 6 + 3] = A;
    shifted[3 * 6 + 1] = A;
    shifted[3 * 6 + 2] = A;
    shifted[3 * 6 + 3] = A;

    let mut engine = Automata::new(make_grid(data, 6, 6));
    engine.advance(&ConwaysLife); // warm-up
    advance_times(&mut engine, 4);
    assert_eq!(snapshot(&engine), shifted);
}

#[test]
fn reset_then_replay_reproduces_snapshots() {
    let mut data = vec![D; 25];
    // An R-pentomino-like seed with rich evolution.
    data[1 * 5 + 2] = A;
    data[1 * 5 + 3] = A;
    data[2 * 5 + 1] = A;
    data[2 * 5 + 2] = A;
    data[3 * 5 + 2] = A;

    let mut engine = Automata::new(make_grid(data, 5, 5));
    let n = 5;
    let mut first_run = Vec::new();
    for _ in 0..n {
        engine.advance(&ConwaysLife);
        first_run.push(snapshot(&engine));
    }
    engine.reset();
    assert_eq!(engine.generation(), 0);
    let mut second_run = Vec::new();
    for _ in 0..n {
        engine.advance(&ConwaysLife);
        second_run.push(snapshot(&engine));
    }
    assert_eq!(first_run, second_run);
}

#[test]
fn generation_counts_every_advance_call() {
    let mut engine = Automata::new(make_grid(vec![D; 4], 2, 2));
    for expected in 1..=5u32 {
        engine.advance(&ConwaysLife);
        assert_eq!(engine.generation(), expected);
    }
    engine.reset();
    assert_eq!(engine.generation(), 0);
}
