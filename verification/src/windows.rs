use vstd::prelude::*;

use crate::states::BasicCellState;

verus! {

/// A read-only view of the nine cells around one grid position: the eight
/// Moore neighbors plus the center cell. Built against one grid snapshot
/// and one boundary policy; it holds plain copies of the cell values.
#[derive(Clone, Copy, Debug)]
pub struct MooreNeighborhood<T> {
    pub top_left: T,
    pub top: T,
    pub top_right: T,

    pub left: T,
    pub center: T,
    pub right: T,

    pub bot_left: T,
    pub bot: T,
    pub bot_right: T,
}

/// The cell of a row-major buffer at `(x, y)` under the clamped boundary
/// policy: any coordinate outside `[0, width) x [0, height)` resolves to
/// `default`.
pub open spec fn clamped_at<T>(
    data: Seq<T>,
    width: int,
    height: int,
    default: T,
    x: int,
    y: int,
) -> T {
    if 0 <= x < width && 0 <= y < height {
        data[y * width + x]
    } else {
        default
    }
}

/// The cell of a row-major buffer at `(x, y)` under the wrapped (toroidal)
/// boundary policy: both coordinates are reduced with true (never negative)
/// modulo, so every coordinate is valid and no default is consulted.
pub open spec fn wrapped_at<T>(data: Seq<T>, width: int, height: int, x: int, y: int) -> T {
    data[(y % height) * width + (x % width)]
}

/// The Moore neighborhood centered at `(x, y)` under the clamped policy.
pub open spec fn clamped_window<T>(
    data: Seq<T>,
    width: int,
    height: int,
    default: T,
    x: int,
    y: int,
) -> MooreNeighborhood<T> {
    MooreNeighborhood {
        top_left: clamped_at(data, width, height, default, x - 1, y - 1),
        top: clamped_at(data, width, height, default, x, y - 1),
        top_right: clamped_at(data, width, height, default, x + 1, y - 1),
        left: clamped_at(data, width, height, default, x - 1, y),
        center: clamped_at(data, width, height, default, x, y),
        right: clamped_at(data, width, height, default, x + 1, y),
        bot_left: clamped_at(data, width, height, default, x - 1, y + 1),
        bot: clamped_at(data, width, height, default, x, y + 1),
        bot_right: clamped_at(data, width, height, default, x + 1, y + 1),
    }
}

/// The Moore neighborhood centered at `(x, y)` under the wrapped policy.
pub open spec fn wrapped_window<T>(
    data: Seq<T>,
    width: int,
    height: int,
    x: int,
    y: int,
) -> MooreNeighborhood<T> {
    MooreNeighborhood {
        top_left: wrapped_at(data, width, height, x - 1, y - 1),
        top: wrapped_at(data, width, height, x, y - 1),
        top_right: wrapped_at(data, width, height, x + 1, y - 1),
        left: wrapped_at(data, width, height, x - 1, y),
        center: wrapped_at(data, width, height, x, y),
        right: wrapped_at(data, width, height, x + 1, y),
        bot_left: wrapped_at(data, width, height, x - 1, y + 1),
        bot: wrapped_at(data, width, height, x, y + 1),
        bot_right: wrapped_at(data, width, height, x + 1, y + 1),
    }
}

impl<T> MooreNeighborhood<T> {
    /// How many of the eight neighbors (center excluded) equal `val`.
    pub open spec fn spec_count(self, val: T) -> int {
        (if self.top_left == val { 1int } else { 0int })
            + (if self.top == val { 1int } else { 0int })
            + (if self.top_right == val { 1int } else { 0int })
            + (if self.left == val { 1int } else { 0int })
            + (if self.right == val { 1int } else { 0int })
            + (if self.bot_left == val { 1int } else { 0int })
            + (if self.bot == val { 1int } else { 0int })
            + (if self.bot_right == val { 1int } else { 0int })
    }

    /// `spec_count`, with the center cell included as a ninth candidate.
    pub open spec fn spec_count_all(self, val: T) -> int {
        self.spec_count(val) + (if self.center == val { 1int } else { 0int })
    }
}

fn count_(a: &BasicCellState, b: &BasicCellState) -> (r: u8)
    ensures
        r == (if *a == *b { 1int } else { 0int }),
{
    if *a == *b {
        1
    } else {
        0
    }
}

impl MooreNeighborhood<BasicCellState> {
    /// The number of the eight neighbors (center excluded) equal to `val`;
    /// always between 0 and 8.
    pub fn count(&self, val: &BasicCellState) -> (r: u8)
        ensures
            r == self.spec_count(*val),
            0 <= r <= 8,
    {
        count_(&self.top_left, val) + count_(&self.top, val) + count_(&self.top_right, val)
            + count_(&self.left, val) + count_(&self.right, val) + count_(&self.bot_left, val)
            + count_(&self.bot, val) + count_(&self.bot_right, val)
    }

    /// `count`, with the center cell included; always between 0 and 9.
    pub fn count_all(&self, val: &BasicCellState) -> (r: u8)
        ensures
            r == self.spec_count_all(*val),
            0 <= r <= 9,
    {
        self.count(val) + count_(&self.center, val)
    }
}

} // verus!
