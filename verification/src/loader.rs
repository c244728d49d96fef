use vstd::prelude::*;

use crate::grid::{Grid, GridError};
use crate::states::BasicCellState;

verus! {

/// The characters that mark a live cell in the ASCII grid format; every
/// other character is a dead cell.
pub open spec fn is_alive_char(c: char) -> bool {
    c == '*' || c == '#' || c == 'O' || c == 'X'
}

/// The cell a character denotes.
pub open spec fn char_cell(c: char) -> BasicCellState {
    if is_alive_char(c) {
        BasicCellState::Alive
    } else {
        BasicCellState::Dead
    }
}

/// ASCII whitespace, as far as a single text line can hold it.
pub open spec fn is_ws(c: char) -> bool {
    c == ' ' || c == '\t' || c == '\r' || c == '\n'
}

/// A line that is skipped ahead of the first data line: a comment line
/// (starting with `#` or `!`) or a line of nothing but whitespace.
pub open spec fn is_skippable(line: Seq<char>) -> bool {
    (line.len() > 0 && (line[0] == '#' || line[0] == '!')) || (forall|j: int|
        0 <= j < line.len() ==> is_ws(line[j]))
}

/// The length of the leading run of skippable lines: these, and only
/// these, are ignored; a comment or blank line after the first data line
/// counts as data.
pub open spec fn skip_count(ls: Seq<Seq<char>>) -> nat
    decreases ls.len(),
{
    if ls.len() == 0 {
        0
    } else if is_skippable(ls[0]) {
        1 + skip_count(ls.drop_first())
    } else {
        0
    }
}

/// The data lines: everything after the leading skippable run.
pub open spec fn data_lines(ls: Seq<Seq<char>>) -> Seq<Seq<char>> {
    ls.skip(skip_count(ls) as int)
}

/// The established grid width: the caller-supplied minimum, widened once
/// if the first data line exceeds it.
pub open spec fn established_width(dl: Seq<Seq<char>>, min_width: int) -> int {
    if dl.len() > 0 && dl[0].len() > min_width {
        dl[0].len() as int
    } else {
        min_width
    }
}

/// A fatal width violation: some data line after the first is longer than
/// the established width.
pub open spec fn has_width_violation(dl: Seq<Seq<char>>, width: int) -> bool {
    exists|j: int| 1 <= j < dl.len() && dl[j].len() > width
}

/// The grid height: the number of data lines, raised to the
/// caller-supplied minimum by appending all-Dead rows.
pub open spec fn grid_height(dl: Seq<Seq<char>>, min_height: int) -> int {
    if dl.len() >= min_height {
        dl.len() as int
    } else {
        min_height
    }
}

/// One text line as one grid row of the established width: each character
/// maps to its cell, and a short line is right-padded with Dead.
pub open spec fn row_of(line: Seq<char>, width: int) -> Seq<BasicCellState> {
    Seq::new(
        width as nat,
        |x: int|
            if x < line.len() {
                char_cell(line[x])
            } else {
                BasicCellState::Dead
            },
    )
}

/// The rows of all the given lines, concatenated row-major.
pub open spec fn rows_data(dl: Seq<Seq<char>>, width: int) -> Seq<BasicCellState>
    decreases dl.len(),
{
    if dl.len() == 0 {
        Seq::empty()
    } else {
        rows_data(dl.drop_last(), width) + row_of(dl.last(), width)
    }
}

/// The data lines, extended with empty lines (all-Dead rows) up to
/// `height`.
pub open spec fn padded_lines(dl: Seq<Seq<char>>, height: int) -> Seq<Seq<char>> {
    if height <= dl.len() {
        dl
    } else {
        dl + Seq::new((height - dl.len()) as nat, |j: int| Seq::<char>::empty())
    }
}

/// The view of a list of text lines as a sequence of character sequences.
pub open spec fn lines_view(lines: Seq<Vec<char>>) -> Seq<Seq<char>> {
    lines.map_values(|l: Vec<char>| l@)
}

proof fn lemma_skip_count_characterized(ls: Seq<Seq<char>>, i: int)
    requires
        0 <= i <= ls.len(),
        forall|j: int| 0 <= j < i ==> is_skippable(ls[j]),
        i < ls.len() ==> !is_skippable(ls[i]),
    ensures
        skip_count(ls) == i,
    decreases ls.len(),
{
    if ls.len() == 0 {
    } else if is_skippable(ls[0]) {
        assert(i >= 1);
        lemma_skip_count_characterized(ls.drop_first(), i - 1);
    } else {
        assert(i == 0);
    }
}

proof fn lemma_rows_data_push(s: Seq<Seq<char>>, width: int, line: Seq<char>)
    ensures
        rows_data(s.push(line), width) == rows_data(s, width) + row_of(line, width),
{
    assert(s.push(line).drop_last() =~= s);
    assert(s.push(line).last() == line);
}

proof fn lemma_rows_data_len(s: Seq<Seq<char>>, width: int)
    requires
        width >= 0,
    ensures
        rows_data(s, width).len() == s.len() * width,
    decreases s.len(),
{
    if s.len() > 0 {
        lemma_rows_data_len(s.drop_last(), width);
        assert((s.len() - 1) * width + width == s.len() * width) by (nonlinear_arith);
    }
}

fn is_ws_char(c: char) -> (r: bool)
    ensures
        r == is_ws(c),
{
    c == ' ' || c == '\t' || c == '\r' || c == '\n'
}

fn cell_of_char(c: char) -> (r: BasicCellState)
    ensures
        r == char_cell(c),
{
    if c == '*' || c == '#' || c == 'O' || c == 'X' {
        BasicCellState::Alive
    } else {
        BasicCellState::Dead
    }
}

fn is_skippable_line(line: &Vec<char>) -> (r: bool)
    ensures
        r == is_skippable(line@),
{
    if line.len() > 0 {
        let c0 = line[0];
        if c0 == '#' || c0 == '!' {
            return true;
        }
    }
    let mut i: usize = 0;
    while i < line.len()
        invariant
            i <= line@.len(),
            !(line@.len() > 0 && (line@[0] == '#' || line@[0] == '!')),
            forall|j: int| 0 <= j < i ==> is_ws(line@[j]),
        decreases line@.len() - i,
    {
        if !is_ws_char(line[i]) {
            return false;
        }
        i = i + 1;
    }
    true
}

/// Appends one text line as one grid row of length `width`, padding the
/// tail with Dead.
fn push_row(data: &mut Vec<BasicCellState>, line: &Vec<char>, width: usize)
    requires
        line@.len() <= width,
    ensures
        final(data)@ == old(data)@ + row_of(line@, width as int),
{
    let mut x: usize = 0;
    while x < width
        invariant
            x <= width,
            line@.len() <= width,
            data@ == old(data)@ + row_of(line@, width as int).take(x as int),
        decreases width - x,
    {
        let c = if x < line.len() {
            cell_of_char(line[x])
        } else {
            BasicCellState::Dead
        };
        data.push(c);
        proof {
            let row = row_of(line@, width as int);
            assert(data@ =~= old(data)@ + row.take(x + 1));
        }
        x = x + 1;
    }
    proof {
        assert(old(data)@ + row_of(line@, width as int).take(width as int) =~= old(data)@
            + row_of(line@, width as int));
    }
}

/// Parses an ASCII grid from pre-split text lines. Leading comment or
/// blank lines are skipped; the width is the caller-supplied minimum,
/// widened once if the first data line exceeds it; any later line longer
/// than that width is a fatal `WidthViolation`; short lines are
/// right-padded with Dead and all-Dead rows are appended up to the
/// caller-supplied minimum height. The resulting grid's default is Dead.
pub fn parse_ascii_grid(lines: &Vec<Vec<char>>, min_width: usize, min_height: usize) -> (r: Result<
    Grid<BasicCellState>,
    GridError,
>)
    ensures
        (match r {
            Ok(g) => {
                let dl = data_lines(lines_view(lines@));
                let w = established_width(dl, min_width as int);
                let h = grid_height(dl, min_height as int);
                &&& !has_width_violation(dl, w)
                &&& g.wf()
                &&& g.width as int == w
                &&& g.height as int == h
                &&& g.default == BasicCellState::Dead
                &&& g.data@ == rows_data(padded_lines(dl, h), w)
            },
            Err(e) => {
                let dl = data_lines(lines_view(lines@));
                let w = established_width(dl, min_width as int);
                &&& e == GridError::WidthViolation
                &&& has_width_violation(dl, w)
            },
        }),
{
    let ghost ls = lines_view(lines@);
    let n = lines.len();
    let mut i: usize = 0;
    while i < n
        invariant
            n == ls.len(),
            ls == lines_view(lines@),
            i <= n,
            forall|j: int| 0 <= j < i ==> is_skippable(ls[j]),
        ensures
            n == ls.len(),
            ls == lines_view(lines@),
            i <= n,
            forall|j: int| 0 <= j < i ==> is_skippable(ls[j]),
            i < n ==> !is_skippable(ls[i as int]),
        decreases n - i,
    {
        if !is_skippable_line(&lines[i]) {
            break ;
        }
        i = i + 1;
    }
    proof {
        lemma_skip_count_characterized(ls, i as int);
    }
    let ghost i0 = i as int;
    let ghost dl = data_lines(ls);
    let mut width = min_width;
    if i < n {
        if lines[i].len() > width {
            width = lines[i].len();
        }
    }
    let mut data: Vec<BasicCellState> = Vec::new();
    let mut y: usize = 0;
    while i < n
        invariant
            n == ls.len(),
            ls == lines_view(lines@),
            dl == data_lines(ls),
            skip_count(ls) == i0,
            dl == ls.skip(i0),
            0 <= i0 <= n,
            i as int == i0 + y,
            i <= n,
            dl.len() == n - i0,
            width as int == established_width(dl, min_width as int),
            dl.len() > 0 ==> dl[0].len() <= width,
            forall|j: int| 0 <= j < y ==> dl[j].len() <= width,
            y <= dl.len(),
            data@ == rows_data(dl.take(y as int), width as int),
        decreases n - i,
    {
        let line = &lines[i];
        if line.len() > width {
            proof {
                assert(dl[y as int].len() > width);
                assert(y >= 1);
                assert(has_width_violation(dl, width as int));
            }
            return Err(GridError::WidthViolation);
        }
        push_row(&mut data, line, width);
        proof {
            assert(dl.take(y + 1).drop_last() =~= dl.take(y as int));
            assert(dl.take(y + 1).last() == dl[y as int]);
        }
        i = i + 1;
        y = y + 1;
    }
    proof {
        assert(y == dl.len());
        assert(dl.take(y as int) =~= dl);
    }

    let empty_line: Vec<char> = Vec::new();
    proof {
        assert(empty_line@ =~= Seq::<char>::empty());
        assert(padded_lines(dl, y as int) =~= dl);
    }
    while y < min_height
        invariant
            dl.len() <= y,
            y <= grid_height(dl, min_height as int),
            width as int == established_width(dl, min_width as int),
            forall|j: int| 0 <= j < dl.len() ==> dl[j].len() <= width,
            empty_line@ == Seq::<char>::empty(),
            data@ == rows_data(padded_lines(dl, y as int), width as int),
        decreases min_height - y,
    {
        push_row(&mut data, &empty_line, width);
        proof {
            lemma_rows_data_push(
                padded_lines(dl, y as int),
                width as int,
                Seq::<char>::empty(),
            );
            assert(padded_lines(dl, y + 1) =~= padded_lines(dl, y as int).push(
                Seq::<char>::empty(),
            ));
        }
        y = y + 1;
    }
    proof {
        assert(y as int == grid_height(dl, min_height as int));
        lemma_rows_data_len(padded_lines(dl, y as int), width as int);
        assert(padded_lines(dl, y as int).len() == y);
        assert(y as int * width as int == width as int * y as int) by (nonlinear_arith);
    }
    match Grid::new(data, width, y, BasicCellState::Dead) {
        Ok(g) => Ok(g),
        Err(e) => {
            proof {
                assert(false);
            }
            Err(e)
        },
    }
}

} // verus!
