//! Mazes written down as rows of glyphs, the maze the game is played on, and
//! the seeding of pellets.

use vstd::prelude::*;
use vstd::string::StrSliceExecFns;
use crate::cell::{Cell, PELLET_GLYPH};
use crate::maze::{cells_of, rectangular, Maze};
use crate::random::random_ratio;
use rand::rngs::StdRng;

verus! {

/// Index of the tunnel row of the reference maze.
pub const TUNNEL_ROW: usize = 10;

/// Number of rows of the reference maze.
pub const REFERENCE_HEIGHT: usize = 22;

/// Number of columns of the reference maze.
pub const REFERENCE_WIDTH: usize = 19;

/// A blank cell is seeded with a pellet `PELLET_CHANCES` times out of `PELLET_CHANCES_OUT_OF`.
pub const PELLET_CHANCES: u32 = 3;

/// See `PELLET_CHANCES`.
pub const PELLET_CHANCES_OUT_OF: u32 = 4;

/// The cell that a glyph of a layout becomes, given whether the seeding
/// dropped a pellet on it.
///
/// Only a blank can take a pellet. Any other glyph is the cell it is drawn
/// for, and a glyph that no cell is drawn with leaves the cell empty, and
/// never seeded.
pub open spec fn spec_seed_cell(glyph: char, pellet: bool) -> Cell {
    if glyph == ' ' {
        if pellet {
            Cell::Pellet
        } else {
            Cell::Empty
        }
    } else {
        match Cell::spec_from_glyph(glyph) {
            Some(cell) => cell,
            None => Cell::Empty,
        }
    }
}

/// The cell is one that seeding can make of the glyph.
pub open spec fn may_seed(glyph: char, cell: Cell) -> bool {
    cell == spec_seed_cell(glyph, false) || cell == spec_seed_cell(glyph, true)
}

/// The glyphs of a layout, row by row.
pub open spec fn glyph_rows(layout: Seq<Vec<char>>) -> Seq<Seq<char>> {
    Seq::new(layout.len(), |r: int| layout[r]@)
}

/// The glyphs form a rectangle with at least one glyph.
pub open spec fn layout_rectangular(glyphs: Seq<Seq<char>>) -> bool {
    &&& glyphs.len() > 0
    &&& glyphs[0].len() > 0
    &&& forall|r: int| 0 <= r < glyphs.len() ==> (#[trigger] glyphs[r]).len() == glyphs[0].len()
}

/// The cells of a layout read without seeding.
pub open spec fn cells_read(glyphs: Seq<Seq<char>>) -> Seq<Seq<Cell>> {
    Seq::new(
        glyphs.len(),
        |r: int| Seq::new(glyphs[r].len(), |c: int| spec_seed_cell(glyphs[r][c], false)),
    )
}

/// The cells are of the layout's shape, and each is one that seeding can
/// make of its glyph.
pub open spec fn cells_seeded(glyphs: Seq<Seq<char>>, cells: Seq<Seq<Cell>>) -> bool {
    &&& cells.len() == glyphs.len()
    &&& forall|r: int| 0 <= r < glyphs.len() ==> (#[trigger] cells[r]).len() == glyphs[r].len()
    &&& forall|r: int, c: int|
        0 <= r < glyphs.len() && 0 <= c < glyphs[r].len() ==> may_seed(
            glyphs[r][c],
            #[trigger] cells[r][c],
        )
}

/// The glyphs of the reference maze, 22 rows of 19. `K` marks the
/// player's start and `m` the ghost's; row 10 is the tunnel.
pub open spec fn reference_rows() -> Seq<Seq<char>> {
    seq![
        "___________________"@,
        "|        #        |"@,
        "| ## ### # ### ## |"@,
        "| ## ### # ### ## |"@,
        "|                 |"@,
        "| ## #  ###  # ## |"@,
        "|    #   #   #    |"@,
        "|### ### # ### ###|"@,
        "|ZZ# #       # #ZZ|"@,
        "|### # ## ## # ###|"@,
        "  K    ##m##       "@,
        "|### # ##### # ###|"@,
        "|  # #       # #  |"@,
        "|### # ##### # ###|"@,
        "|        #        |"@,
        "| ## ##  #  ## ## |"@,
        "|  #           #  |"@,
        "|# # #  ###  # #  |"@,
        "|    #   #   #    |"@,
        "| ###### # ###### |"@,
        "|                 |"@,
        "-------------------"@,
    ]
}

/// The cell that a glyph of a layout becomes, given whether the seeding
/// dropped a pellet on it.
#[verifier::when_used_as_spec(spec_seed_cell)]
pub fn seed_cell(glyph: char, pellet: bool) -> (cell: Cell)
    ensures
        cell == spec_seed_cell(glyph, pellet),
{
    if glyph == ' ' {
        if pellet {
            Cell::Pellet
        } else {
            Cell::Empty
        }
    } else {
        match Cell::from_glyph(glyph) {
            Some(cell) => cell,
            None => Cell::Empty,
        }
    }
}

/// The glyphs of a text, one by one.
pub fn glyphs_of(text: &str) -> (glyphs: Vec<char>)
    ensures
        glyphs@ == text@,
{
    let count: usize = text.unicode_len();
    let mut glyphs: Vec<char> = Vec::new();
    let mut i: usize = 0;
    while i < count
        invariant
            i <= count,
            count == text@.len(),
            glyphs@ == text@.take(i as int),
        decreases count - i,
    {
        glyphs.push(text.get_char(i));
        i = i + 1;
    }
    glyphs
}

/// Reads one row of a layout, without seeding.
fn read_row(glyphs: &Vec<char>) -> (row: Vec<Cell>)
    ensures
        row@ == Seq::new(glyphs@.len(), |c: int| spec_seed_cell(glyphs@[c], false)),
{
    let mut row: Vec<Cell> = Vec::new();
    let mut c: usize = 0;
    while c < glyphs.len()
        invariant
            c <= glyphs.len(),
            row@ == Seq::new(c as nat, |k: int| spec_seed_cell(glyphs@[k], false)),
        decreases glyphs.len() - c,
    {
        row.push(seed_cell(glyphs[c], false));
        c = c + 1;
    }
    row
}

/// Reads one row of a layout and seeds its blanks.
fn seed_row(glyphs: &Vec<char>, rng: &mut StdRng) -> (row: Vec<Cell>)
    ensures
        row@.len() == glyphs@.len(),
        forall|c: int| 0 <= c < glyphs@.len() ==> may_seed(glyphs@[c], #[trigger] row@[c]),
{
    let mut row: Vec<Cell> = Vec::new();
    let mut c: usize = 0;
    while c < glyphs.len()
        invariant
            c <= glyphs.len(),
            row@.len() == c,
            forall|k: int| 0 <= k < c ==> may_seed(glyphs@[k], #[trigger] row@[k]),
        decreases glyphs.len() - c,
    {
        let glyph = glyphs[c];
        let pellet = glyph == ' ' && random_ratio(rng, PELLET_CHANCES, PELLET_CHANCES_OUT_OF);
        row.push(seed_cell(glyph, pellet));
        c = c + 1;
    }
    row
}

/// Builds the maze that a layout draws, without any seeding: a blank is an
/// empty cell.
///
/// `None` when the layout is not a rectangle with at least one glyph.
pub fn read_layout(layout: &Vec<Vec<char>>, tunnel_row: usize) -> (made: Option<Maze>)
    ensures
        made is Some <==> layout_rectangular(glyph_rows(layout@)),
        made matches Some(maze) ==> {
            &&& maze@.wf()
            &&& maze@.tunnel_row == tunnel_row
            &&& maze@.cells == cells_read(glyph_rows(layout@))
        },
{
    let mut rows: Vec<Vec<Cell>> = Vec::new();
    let mut r: usize = 0;
    while r < layout.len()
        invariant
            r <= layout.len(),
            rows@.len() == r,
            forall|k: int|
                0 <= k < r ==> (#[trigger] rows@[k])@ == Seq::new(
                    layout@[k]@.len(),
                    |c: int| spec_seed_cell(layout@[k]@[c], false),
                ),
        decreases layout.len() - r,
    {
        rows.push(read_row(&layout[r]));
        r = r + 1;
    }
    proof {
        lemma_same_shape(glyph_rows(layout@), rows@);
        assert(cells_of(rows@) =~= cells_read(glyph_rows(layout@)));
    }
    Maze::new(rows, tunnel_row)
}

/// Builds the maze that a layout draws and seeds it with pellets: every
/// blank becomes a pellet with a chance of three in four, each decided by
/// a draw of its own.
///
/// `None` when the layout is not a rectangle with at least one glyph.
pub fn seed_layout(layout: &Vec<Vec<char>>, tunnel_row: usize, rng: &mut StdRng) -> (made: Option<
    Maze,
>)
    ensures
        made is Some <==> layout_rectangular(glyph_rows(layout@)),
        made matches Some(maze) ==> {
            &&& maze@.wf()
            &&& maze@.tunnel_row == tunnel_row
            &&& cells_seeded(glyph_rows(layout@), maze@.cells)
        },
{
    let mut rows: Vec<Vec<Cell>> = Vec::new();
    let mut r: usize = 0;
    while r < layout.len()
        invariant
            r <= layout.len(),
            rows@.len() == r,
            forall|k: int| 0 <= k < r ==> (#[trigger] rows@[k])@.len() == layout@[k]@.len(),
            forall|k: int, c: int|
                0 <= k < r && 0 <= c < layout@[k]@.len() ==> may_seed(
                    layout@[k]@[c],
                    #[trigger] rows@[k]@[c],
                ),
        decreases layout.len() - r,
    {
        rows.push(seed_row(&layout[r], rng));
        r = r + 1;
    }
    proof {
        lemma_same_shape(glyph_rows(layout@), rows@);
        assert(cells_seeded(glyph_rows(layout@), cells_of(rows@)));
    }
    Maze::new(rows, tunnel_row)
}

/// The layout of the reference maze.
pub fn reference_layout() -> (layout: Vec<Vec<char>>)
    ensures
        glyph_rows(layout@) == reference_rows(),
{
    let mut layout: Vec<Vec<char>> = Vec::new();
    layout.push(glyphs_of("___________________"));
    layout.push(glyphs_of("|        #        |"));
    layout.push(glyphs_of("| ## ### # ### ## |"));
    layout.push(glyphs_of("| ## ### # ### ## |"));
    layout.push(glyphs_of("|                 |"));
    layout.push(glyphs_of("| ## #  ###  # ## |"));
    layout.push(glyphs_of("|    #   #   #    |"));
    layout.push(glyphs_of("|### ### # ### ###|"));
    layout.push(glyphs_of("|ZZ# #       # #ZZ|"));
    layout.push(glyphs_of("|### # ## ## # ###|"));
    layout.push(glyphs_of("  K    ##m##       "));
    layout.push(glyphs_of("|### # ##### # ###|"));
    layout.push(glyphs_of("|  # #       # #  |"));
    layout.push(glyphs_of("|### # ##### # ###|"));
    layout.push(glyphs_of("|        #        |"));
    layout.push(glyphs_of("| ## ##  #  ## ## |"));
    layout.push(glyphs_of("|  #           #  |"));
    layout.push(glyphs_of("|# # #  ###  # #  |"));
    layout.push(glyphs_of("|    #   #   #    |"));
    layout.push(glyphs_of("| ###### # ###### |"));
    layout.push(glyphs_of("|                 |"));
    layout.push(glyphs_of("-------------------"));
    assert(glyph_rows(layout@) =~= reference_rows());
    layout
}

/// The reference maze, freshly seeded with pellets.
pub fn create_tilemap(rng: &mut StdRng) -> (maze: Maze)
    ensures
        maze@.wf(),
        maze@.height() == REFERENCE_HEIGHT,
        maze@.width() == REFERENCE_WIDTH,
        maze@.tunnel_row == TUNNEL_ROW,
        cells_seeded(reference_rows(), maze@.cells),
{
    let layout = reference_layout();
    proof {
        lemma_reference_shape();
    }
    match seed_layout(&layout, TUNNEL_ROW, rng) {
        Some(maze) => maze,
        None => {
            proof {
                assert(false);
            }
            unreached()
        },
    }
}

/// Rows of cells that have the lengths of the rows of a layout form a
/// rectangle exactly when the layout does.
proof fn lemma_same_shape(glyphs: Seq<Seq<char>>, rows: Seq<Vec<Cell>>)
    requires
        rows.len() == glyphs.len(),
        rows.len() <= usize::MAX,
        forall|r: int| 0 <= r < rows.len() ==> (#[trigger] rows[r])@.len() == glyphs[r].len(),
    ensures
        rectangular(rows) <==> layout_rectangular(glyphs),
{
    if rectangular(rows) {
        assert forall|r: int| 0 <= r < glyphs.len() implies (#[trigger] glyphs[r]).len()
            == glyphs[0].len() by {
            assert(rows[r]@.len() == rows[0]@.len());
        }
    }
    if layout_rectangular(glyphs) {
        assert(rows[0]@.len() == rows[0].len());
        assert forall|r: int| 0 <= r < rows.len() implies (#[trigger] rows[r])@.len()
            == rows[0]@.len() by {
            assert(glyphs[r].len() == glyphs[0].len());
        }
    }
}

/// In the reference maze the player's glyph stands on one cell, row 10
/// column 2, the ghost's on one cell, row 10 column 9, and no cell is drawn
/// as a pellet or as a ghost over a pellet.
pub proof fn lemma_reference_marks()
    ensures
        reference_rows()[10][2] == 'K',
        reference_rows()[10][9] == 'm',
        forall|r: int, c: int|
            0 <= r < REFERENCE_HEIGHT && 0 <= c < REFERENCE_WIDTH ==> {
                let glyph = #[trigger] reference_rows()[r][c];
                &&& glyph == 'K' ==> r == 10 && c == 2
                &&& glyph == 'm' ==> r == 10 && c == 9
                &&& glyph != 'M'
                &&& glyph != PELLET_GLYPH
            },
{

    reveal_strlit("___________________");
    reveal_strlit("|        #        |");
    reveal_strlit("| ## ### # ### ## |");
    reveal_strlit("|                 |");
    reveal_strlit("| ## #  ###  # ## |");
    reveal_strlit("|    #   #   #    |");
    reveal_strlit("|### ### # ### ###|");
    reveal_strlit("|ZZ# #       # #ZZ|");
    reveal_strlit("|### # ## ## # ###|");
    reveal_strlit("  K    ##m##       ");
    reveal_strlit("|### # ##### # ###|");
    reveal_strlit("|  # #       # #  |");
    reveal_strlit("| ## ##  #  ## ## |");
    reveal_strlit("|  #           #  |");
    reveal_strlit("|# # #  ###  # #  |");
    reveal_strlit("| ###### # ###### |");
    reveal_strlit("-------------------");
}

/// However the reference maze is seeded, it shows the player on its start
/// cell and nowhere else, and the ghost on its start cell and nowhere else.
pub proof fn lemma_seeded_reference_marks(cells: Seq<Seq<Cell>>)
    requires
        cells_seeded(reference_rows(), cells),
    ensures
        cells[10][2] == Cell::PlayerMark,
        cells[10][9] == Cell::GhostMark,
        forall|r: int, c: int|
            0 <= r < REFERENCE_HEIGHT && 0 <= c < REFERENCE_WIDTH ==> {
                let cell = #[trigger] cells[r][c];
                &&& cell == Cell::PlayerMark ==> r == 10 && c == 2
                &&& cell.spec_holds_ghost() ==> r == 10 && c == 9
            },
{
    lemma_reference_shape();
    lemma_reference_marks();
    assert(reference_rows()[10].len() == REFERENCE_WIDTH);
    assert(may_seed(reference_rows()[10][2], cells[10][2]));
    assert(may_seed(reference_rows()[10][9], cells[10][9]));
    assert forall|r: int, c: int|
        0 <= r < REFERENCE_HEIGHT && 0 <= c < REFERENCE_WIDTH implies {
            let cell = #[trigger] cells[r][c];
            &&& cell == Cell::PlayerMark ==> r == 10 && c == 2
            &&& cell.spec_holds_ghost() ==> r == 10 && c == 9
        } by {
        assert(reference_rows()[r].len() == REFERENCE_WIDTH);
        let glyph = reference_rows()[r][c];
        assert(may_seed(glyph, cells[r][c]));
    }
}

/// The reference maze has 22 rows of 19 glyphs.
pub proof fn lemma_reference_shape()
    ensures
        reference_rows().len() == REFERENCE_HEIGHT,
        forall|r: int|
            0 <= r < REFERENCE_HEIGHT ==> (#[trigger] reference_rows()[r]).len() == REFERENCE_WIDTH,
        layout_rectangular(reference_rows()),
{
    reveal_strlit("___________________");
    reveal_strlit("|        #        |");
    reveal_strlit("| ## ### # ### ## |");
    reveal_strlit("|                 |");
    reveal_strlit("| ## #  ###  # ## |");
    reveal_strlit("|    #   #   #    |");
    reveal_strlit("|### ### # ### ###|");
    reveal_strlit("|ZZ# #       # #ZZ|");
    reveal_strlit("|### # ## ## # ###|");
    reveal_strlit("  K    ##m##       ");
    reveal_strlit("|### # ##### # ###|");
    reveal_strlit("|  # #       # #  |");
    reveal_strlit("| ## ##  #  ## ## |");
    reveal_strlit("|  #           #  |");
    reveal_strlit("|# # #  ###  # #  |");
    reveal_strlit("| ###### # ###### |");
    reveal_strlit("-------------------");
}

} // verus!
