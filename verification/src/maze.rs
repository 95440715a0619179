//! The maze grid and the arithmetic of stepping from one cell to the next.

use vstd::prelude::*;
use crate::cell::Cell;
use crate::direction::Direction;

verus! {

/// A cell's place in the grid: its column, counted from the left, and its
/// row, counted from the top.
#[derive(Clone, Copy, Debug, PartialEq, Eq, Structural, Hash)]
pub struct Position {
    pub col: usize,
    pub row: usize,
}

/// Mathematical model of a maze: its rows of cells from top to bottom, and the
/// index of the one row on which an agent that walks off one end comes back
/// in at the other.
#[verifier::ext_equal]
pub struct MazeView {
    pub cells: Seq<Seq<Cell>>,
    pub tunnel_row: int,
}

impl MazeView {
    /// Number of rows.
    pub open spec fn height(self) -> int {
        self.cells.len() as int
    }

    /// Number of columns, which is the length of every row of a well-formed maze.
    pub open spec fn width(self) -> int {
        if self.cells.len() > 0 {
            self.cells[0].len() as int
        } else {
            0
        }
    }

    /// A maze is a rectangle with at least one cell, small enough for every
    /// cell to have a `Position`.
    pub open spec fn wf(self) -> bool {
        &&& 0 < self.cells.len() <= usize::MAX
        &&& 0 < self.cells[0].len() <= usize::MAX
        &&& forall|r: int|
            0 <= r < self.cells.len() ==> (#[trigger] self.cells[r]).len() == self.cells[0].len()
    }

    /// The position names a cell of this maze.
    pub open spec fn contains(self, pos: Position) -> bool {
        pos.row < self.height() && pos.col < self.width()
    }

    /// The cell at a position.
    pub open spec fn at(self, pos: Position) -> Cell
        recommends
            self.contains(pos),
    {
        self.cells[pos.row as int][pos.col as int]
    }

    /// The maze with one cell overwritten.
    pub open spec fn put(self, pos: Position, cell: Cell) -> MazeView
        recommends
            self.contains(pos),
    {
        MazeView {
            cells: self.cells.update(
                pos.row as int,
                self.cells[pos.row as int].update(pos.col as int, cell),
            ),
            tunnel_row: self.tunnel_row,
        }
    }

    /// The cell an agent standing at `pos` and facing `direction` would step
    /// to, whatever that cell holds.
    ///
    /// A step changes one coordinate by one. At the edge of the grid the
    /// agent stays where it is, except on the tunnel row, where a step off
    /// the left end lands on the last column and a step off the right end on
    /// the first. An agent that faces nowhere stays put.
    pub open spec fn next_position(self, pos: Position, direction: Option<Direction>) -> Position {
        match direction {
            None => pos,
            Some(Direction::Up) => Position {
                col: pos.col,
                row: if pos.row > 0 {
                    (pos.row - 1) as usize
                } else {
                    0
                },
            },
            Some(Direction::Down) => Position {
                col: pos.col,
                row: if pos.row + 1 < self.height() {
                    (pos.row + 1) as usize
                } else {
                    (self.height() - 1) as usize
                },
            },
            Some(Direction::Left) => Position {
                col: if pos.col > 0 {
                    (pos.col - 1) as usize
                } else if pos.row == self.tunnel_row {
                    (self.width() - 1) as usize
                } else {
                    0
                },
                row: pos.row,
            },
            Some(Direction::Right) => Position {
                col: if pos.col + 1 < self.width() {
                    (pos.col + 1) as usize
                } else if pos.row == self.tunnel_row {
                    0
                } else {
                    (self.width() - 1) as usize
                },
                row: pos.row,
            },
        }
    }
}

/// A step from a cell of the maze ends on a cell of the maze. It changes at
/// most one coordinate, and that by one, except for the two wraps of the
/// tunnel row, which end on the opposite edge of the same row.
pub proof fn lemma_next_position_in_bounds(
    maze: MazeView,
    pos: Position,
    direction: Option<Direction>,
)
    requires
        maze.wf(),
        maze.contains(pos),
    ensures
        maze.contains(maze.next_position(pos, direction)),
        ({
            let next = maze.next_position(pos, direction);
            let wraps_left = direction == Some(Direction::Left) && pos.col == 0 && pos.row
                == maze.tunnel_row;
            let wraps_right = direction == Some(Direction::Right) && pos.col == maze.width() - 1
                && pos.row == maze.tunnel_row;
            &&& wraps_left ==> next.row == pos.row && next.col == maze.width() - 1
            &&& wraps_right ==> next.row == pos.row && next.col == 0
            &&& !wraps_left && !wraps_right ==> {
                ||| next == pos
                ||| next.col == pos.col && (next.row == pos.row + 1 || next.row == pos.row - 1)
                ||| next.row == pos.row && (next.col == pos.col + 1 || next.col == pos.col - 1)
            }
        }),
{
}

/// The rows form a rectangle with at least one cell.
pub open spec fn rectangular(rows: Seq<Vec<Cell>>) -> bool {
    &&& 0 < rows.len() <= usize::MAX
    &&& 0 < rows[0]@.len() <= usize::MAX
    &&& forall|r: int| 0 <= r < rows.len() ==> (#[trigger] rows[r])@.len() == rows[0]@.len()
}

/// The maze grid: a rectangle of cells with one tunnel row.
///
/// The shape is fixed when the maze is made; afterwards only the contents of
/// single cells change.
pub struct Maze {
    rows: Vec<Vec<Cell>>,
    tunnel_row: usize,
}

impl View for Maze {
    type V = MazeView;

    closed spec fn view(&self) -> MazeView {
        MazeView { cells: cells_of(self.rows@), tunnel_row: self.tunnel_row as int }
    }
}

/// The contents of the rows, row by row.
pub open spec fn cells_of(rows: Seq<Vec<Cell>>) -> Seq<Seq<Cell>> {
    Seq::new(rows.len(), |r: int| rows[r]@)
}

/// Rows that form a rectangle are the cells of a well-formed maze, and the other way round.
proof fn lemma_rectangular_is_wf(rows: Seq<Vec<Cell>>, tunnel_row: int)
    ensures
        rectangular(rows) <==> (MazeView { cells: cells_of(rows), tunnel_row }).wf(),
{
    let view = MazeView { cells: cells_of(rows), tunnel_row };
    if rectangular(rows) {
        assert forall|r: int| 0 <= r < view.cells.len() implies (#[trigger] view.cells[r]).len()
            == view.cells[0].len() by {
            assert(rows[r]@.len() == rows[0]@.len());
        }
    }
    if view.wf() {
        assert forall|r: int| 0 <= r < rows.len() implies (#[trigger] rows[r])@.len()
            == rows[0]@.len() by {
            assert(view.cells[r].len() == view.cells[0].len());
        }
    }
}

impl Maze {
    #[verifier::type_invariant]
    spec fn inv(self) -> bool {
        rectangular(self.rows@)
    }

    /// Makes a maze of the given rows. `tunnel_row` names the row that wraps
    /// round; a number that is no row's index gives a maze without a tunnel.
    ///
    /// `None` when the rows do not form a rectangle with at least one cell.
    pub fn new(rows: Vec<Vec<Cell>>, tunnel_row: usize) -> (made: Option<Maze>)
        ensures
            made is Some <==> rectangular(rows@),
            made matches Some(maze) ==> {
                &&& maze@.wf()
                &&& maze@.tunnel_row == tunnel_row
                &&& maze@.cells == cells_of(rows@)
            },
    {
        if rows.len() == 0 {
            return None;
        }
        let width: usize = rows[0].len();
        if width == 0 {
            return None;
        }
        let mut r: usize = 1;
        while r < rows.len()
            invariant
                1 <= r <= rows.len(),
                width == rows[0]@.len(),
                width > 0,
                forall|k: int| 0 <= k < r ==> (#[trigger] rows@[k])@.len() == width,
            decreases rows.len() - r,
        {
            if rows[r].len() != width {
                return None;
            }
            r = r + 1;
        }
        proof {
            lemma_rectangular_is_wf(rows@, tunnel_row as int);
        }
        Some(Maze { rows, tunnel_row })
    }

    /// Number of rows.
    pub fn height(&self) -> (rows: usize)
        ensures
            rows == self@.height(),
            self@.wf(),
    {
        proof {
            use_type_invariant(self);
            lemma_rectangular_is_wf(self.rows@, self.tunnel_row as int);
        }
        self.rows.len()
    }

    /// Number of columns.
    pub fn width(&self) -> (columns: usize)
        ensures
            columns == self@.width(),
            self@.wf(),
    {
        proof {
            use_type_invariant(self);
            lemma_rectangular_is_wf(self.rows@, self.tunnel_row as int);
        }
        self.rows[0].len()
    }

    /// Index of the row that wraps round.
    pub fn tunnel_row(&self) -> (row: usize)
        ensures
            row == self@.tunnel_row,
    {
        self.tunnel_row
    }

    /// Whether the position names a cell of this maze.
    pub fn contains(&self, pos: Position) -> (inside: bool)
        ensures
            inside == self@.contains(pos),
            self@.wf(),
    {
        proof {
            use_type_invariant(self);
            lemma_rectangular_is_wf(self.rows@, self.tunnel_row as int);
        }
        pos.row < self.rows.len() && pos.col < self.rows[0].len()
    }

    /// Reads the cell at a position of the maze.
    pub fn get(&self, pos: Position) -> (cell: Cell)
        requires
            self@.contains(pos),
        ensures
            cell == self@.at(pos),
    {
        proof {
            use_type_invariant(self);
            assert(self.rows@[pos.row as int]@.len() == self.rows@[0]@.len());
        }
        self.rows[pos.row][pos.col]
    }

    /// The cell an agent standing at `pos` and facing `direction` would step
    /// to. Nothing is read from the grid but its size and its tunnel row, and
    /// an agent on the grid is never sent off it.
    pub fn next_position(&self, pos: Position, direction: Option<Direction>) -> (next: Position)
        ensures
            next == self@.next_position(pos, direction),
            self@.contains(pos) ==> self@.contains(next),
    {
        proof {
            use_type_invariant(self);
            lemma_rectangular_is_wf(self.rows@, self.tunnel_row as int);
        }
        let height: usize = self.rows.len();
        let width: usize = self.rows[0].len();
        match direction {
            None => pos,
            Some(Direction::Up) => Position {
                col: pos.col,
                row: if pos.row > 0 {
                    pos.row - 1
                } else {
                    0
                },
            },
            Some(Direction::Down) => Position {
                col: pos.col,
                row: if pos.row < height - 1 {
                    pos.row + 1
                } else {
                    height - 1
                },
            },
            Some(Direction::Left) => Position {
                col: if pos.col > 0 {
                    pos.col - 1
                } else if pos.row == self.tunnel_row {
                    width - 1
                } else {
                    0
                },
                row: pos.row,
            },
            Some(Direction::Right) => Position {
                col: if pos.col < width - 1 {
                    pos.col + 1
                } else if pos.row == self.tunnel_row {
                    0
                } else {
                    width - 1
                },
                row: pos.row,
            },
        }
    }

    /// The glyphs that the maze is drawn with, row by row.
    pub fn glyphs(&self) -> (drawn: Vec<Vec<char>>)
        ensures
            drawn@.len() == self@.height(),
            forall|r: int|
                0 <= r < self@.height() ==> (#[trigger] drawn@[r])@ == Seq::new(
                    self@.width() as nat,
                    |c: int| self@.cells[r][c].spec_glyph(),
                ),
    {
        proof {
            use_type_invariant(self);
            lemma_rectangular_is_wf(self.rows@, self.tunnel_row as int);
        }
        let mut drawn: Vec<Vec<char>> = Vec::new();
        let mut r: usize = 0;
        while r < self.rows.len()
            invariant
                r <= self.rows@.len(),
                rectangular(self.rows@),
                self@.cells == cells_of(self.rows@),
                self@.wf(),
                drawn@.len() == r,
                forall|k: int|
                    0 <= k < r ==> (#[trigger] drawn@[k])@ == Seq::new(
                        self@.width() as nat,
                        |c: int| self@.cells[k][c].spec_glyph(),
                    ),
            decreases self.rows@.len() - r,
        {
            let row = &self.rows[r];
            assert(row@.len() == self.rows@[0]@.len());
            let mut line: Vec<char> = Vec::new();
            let mut c: usize = 0;
            while c < row.len()
                invariant
                    c <= row@.len(),
                    row@ == self@.cells[r as int],
                    line@ == Seq::new(c as nat, |k: int| self@.cells[r as int][k].spec_glyph()),
                decreases row@.len() - c,
            {
                line.push(row[c].glyph());
                c = c + 1;
            }
            drawn.push(line);
            r = r + 1;
        }
        drawn
    }

    /// Overwrites the cell at a position of the maze, whatever it held.
    pub fn set(&mut self, pos: Position, cell: Cell)
        requires
            old(self)@.contains(pos),
        ensures
            final(self)@ == old(self)@.put(pos, cell),
            final(self)@.wf(),
        no_unwind
    {
        proof {
            use_type_invariant(&*self);
        }
        overwrite(&mut self.rows, pos, cell);
        proof {
            lemma_rectangular_is_wf(self.rows@, self.tunnel_row as int);
        }
    }
}

/// Overwrites one cell in a rectangle of rows and leaves every other cell,
/// and the shape, as it was.
fn overwrite(rows: &mut Vec<Vec<Cell>>, pos: Position, cell: Cell)
    requires
        rectangular(old(rows)@),
        pos.row < old(rows)@.len(),
        pos.col < old(rows)@[0]@.len(),
    ensures
        rectangular(final(rows)@),
        cells_of(final(rows)@) == cells_of(old(rows)@).update(
            pos.row as int,
            cells_of(old(rows)@)[pos.row as int].update(pos.col as int, cell),
        ),
    no_unwind
{
    assert(rows@[pos.row as int]@.len() == rows@[0]@.len());
    rows[pos.row][pos.col] = cell;
    proof {
        assert forall|r: int| 0 <= r < rows@.len() implies (#[trigger] rows@[r])@.len()
            == rows@[0]@.len() by {
            assert(old(rows)@[r]@.len() == old(rows)@[0]@.len());
        }
        assert(cells_of(rows@) =~= cells_of(old(rows)@).update(
            pos.row as int,
            cells_of(old(rows)@)[pos.row as int].update(pos.col as int, cell),
        ));
    }
}

} // verus!
