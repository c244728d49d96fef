use vstd::prelude::*;

use vstd::pervasive::VecAdditionalExecFns;

use crate::grid::{lemma_row_major_decompose, lemma_row_major_index_in_range, Grid};
use crate::rulesets::{conway_next, ConwaysLife, RuleFunction};
use crate::states::BasicCellState;
use crate::windows::clamped_window;

verus! {

/// How many initial `advance` calls are warm-up skips: they increment the
/// generation counter but leave the grid untouched, so a caller can render
/// the true initial state before the first transition.
pub const WARMUP_SKIP: u32 = 1;

/// The observable state of an engine: the generation counter, the live
/// cell buffer with its shape and clamped default, and the
/// construction-time snapshot that `reset` restores.
#[verifier::ext_equal]
pub struct EngineModel<T> {
    pub t: nat,
    pub cells: Seq<T>,
    pub width: int,
    pub height: int,
    pub default: T,
    pub initial: Seq<T>,
}

/// One computed sweep: every cell is replaced by the rule applied to its
/// clamped Moore neighborhood in the old buffer.
pub open spec fn step_data<T, R: RuleFunction<T>>(
    data: Seq<T>,
    width: int,
    height: int,
    default: T,
    rule: R,
) -> Seq<T> {
    Seq::new(
        (width * height) as nat,
        |k: int| rule.rule_spec(clamped_window(data, width, height, default, k % width, k / width)),
    )
}

/// What one `advance` call does to the observable state: the counter
/// always increments; the cells change only once past the warm-up window,
/// and then by exactly one computed sweep.
pub open spec fn advanced<T, R: RuleFunction<T>>(m: EngineModel<T>, rule: R) -> EngineModel<T> {
    EngineModel {
        t: m.t + 1,
        cells: if m.t >= WARMUP_SKIP as nat {
            step_data(m.cells, m.width, m.height, m.default, rule)
        } else {
            m.cells
        },
        ..m
    }
}

/// The observable state after `n` successive `advance` calls.
pub open spec fn advanced_n<T, R: RuleFunction<T>>(
    m: EngineModel<T>,
    rule: R,
    n: nat,
) -> EngineModel<T>
    decreases n,
{
    if n == 0 {
        m
    } else {
        advanced(advanced_n(m, rule, (n - 1) as nat), rule)
    }
}

/// What `reset` does to the observable state: the counter returns to zero
/// and the cells return to the construction-time snapshot.
pub open spec fn reset_model<T>(m: EngineModel<T>) -> EngineModel<T> {
    EngineModel { t: 0, cells: m.initial, ..m }
}

/// The observable state of an engine freshly constructed over `g`.
pub open spec fn new_model<T>(g: Grid<T>) -> EngineModel<T> {
    EngineModel {
        t: 0,
        cells: g.data@,
        width: g.width as int,
        height: g.height as int,
        default: g.default,
        initial: g.data@,
    }
}

/// A double-buffered automaton engine: the live grid, exposed read-only
/// between calls; a same-shape scratch buffer, exclusively owned and never
/// exposed; and the construction-time snapshot used by `reset`.
#[derive(Debug)]
pub struct Automata<T> {
    t: u32,
    initial: Vec<T>,
    scratch: Vec<T>,
    grid: Grid<T>,
}

/// A vector holding `len` copies of `value`.
fn filled_vec<T: Copy>(value: T, len: usize) -> (r: Vec<T>)
    ensures
        r@.len() == len,
        forall|i: int| 0 <= i < len ==> r@[i] == value,
{
    let mut r: Vec<T> = Vec::new();
    let mut i: usize = 0;
    while i < len
        invariant
            i <= len,
            r@.len() == i,
            forall|j: int| 0 <= j < i ==> r@[j] == value,
        decreases len - i,
    {
        r.push(value);
        i = i + 1;
    }
    r
}

/// An exact element-by-element copy of a vector of plain values.
fn copied_vec<T: Copy>(v: &Vec<T>) -> (r: Vec<T>)
    ensures
        r@ == v@,
{
    let mut r: Vec<T> = Vec::new();
    let mut i: usize = 0;
    while i < v.len()
        invariant
            i <= v@.len(),
            r@ == v@.take(i as int),
        decreases v@.len() - i,
    {
        let x = v[i];
        r.push(x);
        proof {
            assert(v@.take(i + 1) =~= v@.take(i as int).push(v@[i as int]));
        }
        i = i + 1;
    }
    proof {
        assert(v@.take(v@.len() as int) =~= v@);
    }
    r
}

impl<T: Copy> Automata<T> {
    /// The engine's observable state.
    pub closed spec fn model(self) -> EngineModel<T> {
        EngineModel {
            t: self.t as nat,
            cells: self.grid.data@,
            width: self.grid.width as int,
            height: self.grid.height as int,
            default: self.grid.default,
            initial: self.initial@,
        }
    }

    /// The scratch buffer's contents. The buffer itself is never exposed:
    /// this view only lets contracts state the double-buffer exchange.
    pub closed spec fn scratch_view(self) -> Seq<T> {
        self.scratch@
    }

    /// Internal shape invariant: the grid is well formed and both private
    /// buffers have the grid's length.
    pub closed spec fn wf(self) -> bool {
        &&& self.grid.wf()
        &&& self.scratch@.len() == self.grid.data@.len()
        &&& self.initial@.len() == self.grid.data@.len()
    }

    /// Read-only access to the live grid between calls.
    pub fn grid(&self) -> (r: &Grid<T>)
        ensures
            r.data@ == self.model().cells,
            r.width as int == self.model().width,
            r.height as int == self.model().height,
            r.default == self.model().default,
            self.wf() ==> r.wf(),
    {
        &self.grid
    }

    /// Builds an engine over `grid`: the generation counter starts at
    /// zero, the snapshot copies the grid's cells, and the scratch buffer
    /// is allocated once, filled with the grid's default. The supplied
    /// grid becomes the engine's live grid, unchanged.
    pub fn new(grid: Grid<T>) -> (r: Automata<T>)
        requires
            grid.wf(),
        ensures
            r.wf(),
            r.model() == new_model(grid),
            r.scratch_view().len() == grid.data@.len(),
            forall|i: int| 0 <= i < r.scratch_view().len() ==> r.scratch_view()[i] == grid.default,
    {
        let len = grid.data.len();
        let scratch = filled_vec(grid.default, len);
        let initial = copied_vec(&grid.data);
        Automata { t: 0, initial, scratch, grid }
    }

    /// The generation counter: how many `advance` calls have run since
    /// construction or the last `reset`.
    pub fn generation(&self) -> (r: u32)
        ensures
            r as nat == self.model().t,
    {
        self.t
    }

    /// Clamped read of the live grid, total over every coordinate pair.
    pub fn cell_at(&self, x: i16, y: i16) -> (r: T)
        requires
            self.wf(),
        ensures
            r == crate::windows::clamped_at(
                self.model().cells,
                self.model().width,
                self.model().height,
                self.model().default,
                x as int,
                y as int,
            ),
    {
        *self.grid.at(x, y)
    }

    /// Returns the generation counter to zero and overwrites the live
    /// grid, cell by cell, with the construction-time snapshot. The
    /// scratch buffer is left alone: the next computed sweep overwrites
    /// it anyway.
    pub fn reset(&mut self)
        requires
            old(self).wf(),
        ensures
            final(self).wf(),
            final(self).model() == reset_model(old(self).model()),
            final(self).scratch_view() == old(self).scratch_view(),
    {
        self.t = 0;
        let len = self.initial.len();
        let mut i: usize = 0;
        while i < len
            invariant
                i <= len,
                self.t == 0,
                len == self.initial@.len(),
                self.scratch@ == old(self).scratch@,
                self.initial@ == old(self).initial@,
                self.grid.width == old(self).grid.width,
                self.grid.height == old(self).grid.height,
                self.grid.default == old(self).grid.default,
                self.grid.data@.len() == old(self).grid.data@.len(),
                self.initial@.len() == self.grid.data@.len(),
                self.grid.wf(),
                forall|j: int| 0 <= j < i ==> self.grid.data@[j] == self.initial@[j],
            decreases len - i,
        {
            let x = self.initial[i];
            self.grid.data.set(i, x);
            i = i + 1;
        }
        proof {
            assert(self.grid.data@ =~= self.initial@);
        }
    }

    /// One `advance` call. Within the warm-up window only the generation
    /// counter increments. Past it, every coordinate is swept in row-major
    /// order: the rule is applied to the clamped Moore neighborhood read
    /// from the live grid and written into scratch; then grid and scratch
    /// buffers are exchanged in constant time, and the counter increments.
    pub fn advance<R: RuleFunction<T>>(&mut self, ruleset: &R)
        requires
            old(self).wf(),
            old(self).model().t < u32::MAX,
        ensures
            final(self).wf(),
            final(self).model() == advanced(old(self).model(), *ruleset),
            old(self).model().t >= WARMUP_SKIP as nat ==> final(self).scratch_view() == old(
                self,
            ).model().cells,
            old(self).model().t < WARMUP_SKIP as nat ==> final(self).scratch_view() == old(
                self,
            ).scratch_view(),
    {
        if self.t >= WARMUP_SKIP {
            let w = self.grid.width;
            let h = self.grid.height;
            let ghost target = step_data(
                self.grid.data@,
                w as int,
                h as int,
                self.grid.default,
                *ruleset,
            );
            let mut y: usize = 0;
            while y < h
                invariant
                    y <= h,
                    w == self.grid.width,
                    h == self.grid.height,
                    self.t == old(self).t,
                    self.initial@ == old(self).initial@,
                    self.grid.data@ == old(self).grid.data@,
                    self.grid.default == old(self).grid.default,
                    self.grid.wf(),
                    self.scratch@.len() == self.grid.data@.len(),
                    self.initial@.len() == self.grid.data@.len(),
                    target == step_data(
                        self.grid.data@,
                        w as int,
                        h as int,
                        self.grid.default,
                        *ruleset,
                    ),
                    target.len() == w * h,
                    forall|k: int| 0 <= k < y * w ==> self.scratch@[k] == target[k],
                decreases h - y,
            {
                let mut x: usize = 0;
                while x < w
                    invariant
                        x <= w,
                        y < h,
                        w == self.grid.width,
                        h == self.grid.height,
                        self.t == old(self).t,
                        self.initial@ == old(self).initial@,
                        self.grid.data@ == old(self).grid.data@,
                        self.grid.default == old(self).grid.default,
                        self.grid.wf(),
                        self.scratch@.len() == self.grid.data@.len(),
                        self.initial@.len() == self.grid.data@.len(),
                        target == step_data(
                            self.grid.data@,
                            w as int,
                            h as int,
                            self.grid.default,
                            *ruleset,
                        ),
                        target.len() == w * h,
                        forall|k: int| 0 <= k < y * w + x ==> self.scratch@[k] == target[k],
                    decreases w - x,
                {
                    let window = self.grid.window_moore_nowrap(x, y);
                    let val = ruleset.apply(&window);
                    let i = self.grid.idx(x, y);
                    self.scratch.set(i, val);
                    proof {
                        lemma_row_major_decompose(x as int, y as int, w as int);
                        lemma_row_major_index_in_range(x as int, y as int, w as int, h as int);
                    }
                    x = x + 1;
                }
                proof {
                    assert((y + 1) * w == y * w + w) by (nonlinear_arith);
                }
                y = y + 1;
            }
            proof {
                assert(h * w == w * h) by (nonlinear_arith);
                assert(self.scratch@ =~= target);
            }
            core::mem::swap(&mut self.scratch, &mut self.grid.data);
        }
        self.t = self.t + 1;
    }
}

/// The shape of the observable state under repeated `advance` calls: the
/// counter advances by `n`; dimensions, default, snapshot, and the cell
/// count of a full grid are all preserved.
pub proof fn lemma_advanced_n_shape<T, R: RuleFunction<T>>(m: EngineModel<T>, rule: R, n: nat)
    ensures
        advanced_n(m, rule, n).t == m.t + n,
        advanced_n(m, rule, n).width == m.width,
        advanced_n(m, rule, n).height == m.height,
        advanced_n(m, rule, n).default == m.default,
        advanced_n(m, rule, n).initial == m.initial,
        (m.cells.len() == m.width * m.height) ==> advanced_n(m, rule, n).cells.len()
            == m.cells.len(),
    decreases n,
{
    if n > 0 {
        lemma_advanced_n_shape(m, rule, (n - 1) as nat);
    }
}

/// Construct-then-reset law: building an engine over `g` and immediately
/// resetting it leaves the generation counter at zero and the cells
/// exactly as supplied.
pub proof fn lemma_reset_after_new<T>(g: Grid<T>)
    ensures
        reset_model(new_model(g)).t == 0,
        reset_model(new_model(g)).cells == g.data@,
{
}

/// Determinism of replay: resetting after any number of `advance` calls
/// restores precisely the fresh-engine state, so replaying any number of
/// calls yields the identical grid snapshots as the first run.
pub proof fn lemma_reset_replays<T, R: RuleFunction<T>>(g: Grid<T>, rule: R, n: nat)
    ensures
        reset_model(advanced_n(new_model(g), rule, n)) == new_model(g),
        forall|k: nat|
            advanced_n(reset_model(advanced_n(new_model(g), rule, n)), rule, k).cells
                == advanced_n(new_model(g), rule, k).cells,
{
    lemma_advanced_n_shape(new_model(g), rule, n);
    assert(reset_model(advanced_n(new_model(g), rule, n)) =~= new_model(g));
}

/// True iff every cell of the buffer is Dead.
pub open spec fn all_dead(s: Seq<BasicCellState>) -> bool {
    forall|i: int| 0 <= i < s.len() ==> s[i] == BasicCellState::Dead
}

/// A clamped read of an all-Dead buffer whose default is Dead yields
/// Dead, whatever the coordinates.
proof fn lemma_clamped_at_dead(data: Seq<BasicCellState>, width: int, height: int, x: int, y: int)
    requires
        data.len() == width * height,
        all_dead(data),
    ensures
        crate::windows::clamped_at(data, width, height, BasicCellState::Dead, x, y)
            == BasicCellState::Dead,
{
    if 0 <= x < width && 0 <= y < height {
        lemma_row_major_index_in_range(x, y, width, height);
    }
}

/// One computed sweep of the Game of Life over an all-Dead buffer with a
/// Dead clamped default leaves every cell Dead.
proof fn lemma_step_data_dead(data: Seq<BasicCellState>, width: int, height: int)
    requires
        data.len() == width * height,
        all_dead(data),
    ensures
        all_dead(step_data(data, width, height, BasicCellState::Dead, ConwaysLife)),
{
    let s2 = step_data(data, width, height, BasicCellState::Dead, ConwaysLife);
    assert forall|k: int| 0 <= k < s2.len() implies s2[k] == BasicCellState::Dead by {
        let x = k % width;
        let y = k / width;
        lemma_clamped_at_dead(data, width, height, x - 1, y - 1);
        lemma_clamped_at_dead(data, width, height, x, y - 1);
        lemma_clamped_at_dead(data, width, height, x + 1, y - 1);
        lemma_clamped_at_dead(data, width, height, x - 1, y);
        lemma_clamped_at_dead(data, width, height, x, y);
        lemma_clamped_at_dead(data, width, height, x + 1, y);
        lemma_clamped_at_dead(data, width, height, x - 1, y + 1);
        lemma_clamped_at_dead(data, width, height, x, y + 1);
        lemma_clamped_at_dead(data, width, height, x + 1, y + 1);
    }
}

/// No spontaneous generation: an all-Dead grid whose clamped default is
/// Dead stays all-Dead under the Game of Life for any number of `advance`
/// calls. (The Dead default matters: were the out-of-bounds default
/// Alive, a Dead border cell could see exactly three live neighbors and
/// be born.)
pub proof fn lemma_dead_grid_stays_dead(g: Grid<BasicCellState>, n: nat)
    requires
        g.wf(),
        g.default == BasicCellState::Dead,
        all_dead(g.data@),
    ensures
        all_dead(advanced_n(new_model(g), ConwaysLife, n).cells),
        advanced_n(new_model(g), ConwaysLife, n).cells.len() == g.data@.len(),
    decreases n,
{
    if n > 0 {
        lemma_dead_grid_stays_dead(g, (n - 1) as nat);
        lemma_advanced_n_shape(new_model(g), ConwaysLife, (n - 1) as nat);
        let m = advanced_n(new_model(g), ConwaysLife, (n - 1) as nat);
        if m.t >= WARMUP_SKIP as nat {
            lemma_step_data_dead(m.cells, m.width, m.height);
        }
    }
}

} // verus!
