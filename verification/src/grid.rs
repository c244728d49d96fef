use vstd::prelude::*;

use vstd::arithmetic::div_mod::lemma_fundamental_div_mod_converse;

use crate::windows::{clamped_at, clamped_window, wrapped_at, wrapped_window, MooreNeighborhood};

verus! {

/// Failure conditions of grid construction and of ASCII-grid parsing.
#[derive(Clone, Copy, Debug, PartialEq, Eq, Structural)]
pub enum GridError {
    /// The supplied buffer length does not equal `width * height`.
    InvalidDimensions,
    /// A text line after the first data line exceeds the established width.
    WidthViolation,
}

/// A fixed-size rectangular grid of cells, stored row-major: the cell at
/// `(x, y)` sits at index `y * width + x`. `default` is the value that
/// out-of-bounds reads resolve to under the clamped boundary policy.
#[derive(Debug)]
pub struct Grid<T> {
    pub data: Vec<T>,
    pub default: T,
    pub width: usize,
    pub height: usize,
}

/// In a `width * height` row-major buffer, the index of an in-bounds
/// coordinate pair lies inside the buffer.
pub proof fn lemma_row_major_index_in_range(x: int, y: int, width: int, height: int)
    requires
        0 <= x < width,
        0 <= y < height,
    ensures
        0 <= y * width + x < width * height,
{
    assert(0 <= y * width + x < width * height) by (nonlinear_arith)
        requires
            0 <= x < width,
            0 <= y < height,
    ;
}

/// A row-major index decomposes back into its coordinate pair.
pub proof fn lemma_row_major_decompose(x: int, y: int, width: int)
    requires
        0 <= x < width,
        0 <= y,
    ensures
        (y * width + x) % width == x,
        (y * width + x) / width == y,
{
    lemma_fundamental_div_mod_converse(y * width + x, width, y, x);
}

impl<T> Grid<T> {
    /// The grid's one structural invariant: the buffer holds exactly
    /// `width * height` cells.
    pub open spec fn wf(self) -> bool {
        self.data@.len() == self.width * self.height
    }

    /// True iff `(x, y)` lies inside `[0, width) x [0, height)`.
    pub open spec fn in_bounds(self, x: int, y: int) -> bool {
        0 <= x < self.width && 0 <= y < self.height
    }

    /// The cell at an in-bounds coordinate pair.
    pub open spec fn cell(self, x: int, y: int) -> T {
        self.data@[y * self.width + x]
    }

    /// The cell at `(x, y)` under the clamped boundary policy.
    pub open spec fn cell_clamped(self, x: int, y: int) -> T {
        clamped_at(self.data@, self.width as int, self.height as int, self.default, x, y)
    }

    /// The cell at `(x, y)` under the wrapped (toroidal) boundary policy.
    pub open spec fn cell_wrapped(self, x: int, y: int) -> T {
        wrapped_at(self.data@, self.width as int, self.height as int, x, y)
    }

    /// The Moore neighborhood at `(x, y)` under the clamped policy.
    pub open spec fn spec_window_clamped(self, x: int, y: int) -> MooreNeighborhood<T> {
        clamped_window(self.data@, self.width as int, self.height as int, self.default, x, y)
    }

    /// The Moore neighborhood at `(x, y)` under the wrapped policy.
    pub open spec fn spec_window_wrapped(self, x: int, y: int) -> MooreNeighborhood<T> {
        wrapped_window(self.data@, self.width as int, self.height as int, x, y)
    }
}

impl<T: Copy> Grid<T> {
    /// Builds a grid from a row-major buffer. The only validation is the
    /// dimension check: the buffer length must equal `width * height`.
    pub fn new(data: Vec<T>, width: usize, height: usize, default: T) -> (r: Result<
        Grid<T>,
        GridError,
    >)
        ensures
            (match r {
                Ok(g) => {
                    &&& data@.len() == width * height
                    &&& g.data@ == data@
                    &&& g.width == width
                    &&& g.height == height
                    &&& g.default == default
                    &&& g.wf()
                },
                Err(e) => {
                    &&& e == GridError::InvalidDimensions
                    &&& data@.len() != width * height
                },
            }),
    {
        let l = data.len();
        match width.checked_mul(height) {
            Some(n) => {
                if l == n {
                    Ok(Grid { data, width, height, default })
                } else {
                    Err(GridError::InvalidDimensions)
                }
            },
            None => Err(GridError::InvalidDimensions),
        }
    }

    /// The row-major buffer index of an in-bounds coordinate pair.
    pub fn idx(&self, x: usize, y: usize) -> (r: usize)
        requires
            self.wf(),
            x < self.width,
            y < self.height,
        ensures
            r == y * self.width + x,
            r < self.data@.len(),
    {
        // The buffer length is a usize, so the in-range index fits too.
        let _len = self.data.len();
        proof {
            lemma_row_major_index_in_range(
                x as int,
                y as int,
                self.width as int,
                self.height as int,
            );
        }
        y * self.width + x
    }

    /// True iff `(x, y)` is an in-bounds coordinate pair.
    pub fn is_valid(&self, x: i16, y: i16) -> (r: bool)
        ensures
            r == self.in_bounds(x as int, y as int),
    {
        x >= 0 && (x as usize) < self.width && y >= 0 && (y as usize) < self.height
    }

    /// Clamped read: the cell at `(x, y)` if valid, else the grid's
    /// default value. Total over every coordinate pair, negatives included.
    pub fn at(&self, x: i16, y: i16) -> (r: &T)
        requires
            self.wf(),
        ensures
            *r == self.cell_clamped(x as int, y as int),
    {
        if !self.is_valid(x, y) {
            &self.default
        } else {
            let i = self.idx(x as usize, y as usize);
            &self.data[i]
        }
    }

    /// The cell at an in-bounds coordinate pair.
    fn read(&self, x: usize, y: usize) -> (r: T)
        requires
            self.wf(),
            x < self.width,
            y < self.height,
        ensures
            r == self.cell(x as int, y as int),
    {
        let i = self.idx(x, y);
        self.data[i]
    }

    /// The cell one step of `(dx, dy)` away from `(x, y)`, read under the
    /// clamped policy.
    fn neighbor(&self, x: usize, y: usize, dx: i8, dy: i8) -> (r: T)
        requires
            self.wf(),
            x < self.width,
            y < self.height,
            -1 <= dx <= 1,
            -1 <= dy <= 1,
        ensures
            r == self.cell_clamped(x + dx as int, y + dy as int),
    {
        if dx < 0 && x == 0 {
            return self.default;
        }
        if dy < 0 && y == 0 {
            return self.default;
        }
        let nx: usize = if dx < 0 {
            x - 1
        } else if dx > 0 {
            x + 1
        } else {
            x
        };
        let ny: usize = if dy < 0 {
            y - 1
        } else if dy > 0 {
            y + 1
        } else {
            y
        };
        if nx >= self.width || ny >= self.height {
            return self.default;
        }
        self.read(nx, ny)
    }

    /// The Moore neighborhood at an in-bounds `(x, y)` under the clamped
    /// policy: each of the eight neighbor positions resolves through the
    /// clamped read, so edge cells see the default value beyond the border.
    pub fn window_moore_nowrap(&self, x: usize, y: usize) -> (r: MooreNeighborhood<T>)
        requires
            self.wf(),
            x < self.width,
            y < self.height,
        ensures
            r == self.spec_window_clamped(x as int, y as int),
    {
        MooreNeighborhood {
            top_left: self.neighbor(x, y, -1, -1),
            top: self.neighbor(x, y, 0, -1),
            top_right: self.neighbor(x, y, 1, -1),
            left: self.neighbor(x, y, -1, 0),
            center: self.neighbor(x, y, 0, 0),
            right: self.neighbor(x, y, 1, 0),
            bot_left: self.neighbor(x, y, -1, 1),
            bot: self.neighbor(x, y, 0, 1),
            bot_right: self.neighbor(x, y, 1, 1),
        }
    }

    /// The Moore neighborhood at an in-bounds `(x, y)` under the wrapped
    /// (toroidal) policy: offset coordinates are reduced with true modulo,
    /// so they are always valid and the default value is never consulted.
    pub fn window_moore_wrap(&self, x: usize, y: usize) -> (r: MooreNeighborhood<T>)
        requires
            self.wf(),
            x < self.width,
            y < self.height,
        ensures
            r == self.spec_window_wrapped(x as int, y as int),
    {
        let xm1 = if x == 0 {
            self.width - 1
        } else {
            x - 1
        };
        let xp1 = if x + 1 == self.width {
            0
        } else {
            x + 1
        };
        let ym1 = if y == 0 {
            self.height - 1
        } else {
            y - 1
        };
        let yp1 = if y + 1 == self.height {
            0
        } else {
            y + 1
        };
        proof {
            lemma_wrap_adjacent(x as int, self.width as int);
            lemma_wrap_adjacent(y as int, self.height as int);
        }
        MooreNeighborhood {
            top_left: self.read(xm1, ym1),
            top: self.read(x, ym1),
            top_right: self.read(xp1, ym1),
            left: self.read(xm1, y),
            center: self.read(x, y),
            right: self.read(xp1, y),
            bot_left: self.read(xm1, yp1),
            bot: self.read(x, yp1),
            bot_right: self.read(xp1, yp1),
        }
    }

    /// Every coordinate pair of the grid, row-major, each exactly once.
    /// Stateless: calling it again yields the same sequence.
    pub fn iter(&self) -> (r: Vec<(usize, usize)>)
        requires
            self.wf(),
        ensures
            r@.len() == self.width * self.height,
            forall|k: int|
                0 <= k < r@.len() ==> r@[k] == ((
                    (k % self.width as int) as usize,
                    (k / self.width as int) as usize,
                )),
    {
        let mut r: Vec<(usize, usize)> = Vec::new();
        let mut y: usize = 0;
        while y < self.height
            invariant
                y <= self.height,
                r@.len() == y * self.width,
                forall|k: int|
                    0 <= k < r@.len() ==> r@[k] == ((
                        (k % self.width as int) as usize,
                        (k / self.width as int) as usize,
                    )),
            decreases self.height - y,
        {
            let mut x: usize = 0;
            while x < self.width
                invariant
                    x <= self.width,
                    y < self.height,
                    r@.len() == y * self.width + x,
                    forall|k: int|
                        0 <= k < r@.len() ==> r@[k] == ((
                            (k % self.width as int) as usize,
                            (k / self.width as int) as usize,
                        )),
                decreases self.width - x,
            {
                r.push((x, y));
                proof {
                    lemma_row_major_decompose(x as int, y as int, self.width as int);
                }
                x = x + 1;
            }
            proof {
                assert((y + 1) * self.width == y * self.width + self.width) by (nonlinear_arith);
            }
            y = y + 1;
        }
        proof {
            assert(self.height * self.width == self.width * self.height) by (nonlinear_arith);
        }
        r
    }
}

/// For an in-range coordinate `i` of an axis of length `m`, the wrapped
/// forms of `i - 1`, `i`, and `i + 1` are what stepping with wrap-around
/// computes.
proof fn lemma_wrap_adjacent(i: int, m: int)
    requires
        0 <= i < m,
    ensures
        (i - 1) % m == (if i == 0 {
            m - 1
        } else {
            i - 1
        }),
        i % m == i,
        (i + 1) % m == (if i + 1 == m {
            0
        } else {
            i + 1
        }),
{
    if i == 0 {
        lemma_fundamental_div_mod_converse(i - 1, m, -1, m - 1);
    } else {
        lemma_fundamental_div_mod_converse(i - 1, m, 0, i - 1);
    }
    lemma_fundamental_div_mod_converse(i, m, 0, i);
    if i + 1 == m {
        lemma_fundamental_div_mod_converse(i + 1, m, 1, 0);
    } else {
        lemma_fundamental_div_mod_converse(i + 1, m, 0, i + 1);
    }
}

/// Clamped boundary law: an out-of-bounds coordinate always resolves to
/// the grid's default value, for every grid.
pub proof fn lemma_clamped_out_of_bounds<T>(g: Grid<T>, x: int, y: int)
    requires
        !g.in_bounds(x, y),
    ensures
        g.cell_clamped(x, y) == g.default,
{
}

/// Wrapped boundary law: for any valid row `y`, column `width` resolves to
/// the same cell as column `0`.
pub proof fn lemma_wrapped_width_is_zero<T>(g: Grid<T>, y: int)
    requires
        g.width > 0,
        g.height > 0,
        0 <= y < g.height,
    ensures
        g.cell_wrapped(g.width as int, y) == g.cell_wrapped(0, y),
{
    lemma_fundamental_div_mod_converse(g.width as int, g.width as int, 1, 0);
    lemma_fundamental_div_mod_converse(0, g.width as int, 0, 0);
}

} // verus!
