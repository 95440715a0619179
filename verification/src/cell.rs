//! What a single cell of the maze holds.

use vstd::prelude::*;

verus! {

/// The glyph a wall is drawn with. All four are impassable.
#[derive(Clone, Copy, Debug, PartialEq, Eq, Structural, Hash)]
pub enum Wall {
    /// Upper border, drawn `_`.
    Top,
    /// Left or right border, drawn `|`.
    Side,
    /// Lower border, drawn `-`.
    Bottom,
    /// A block inside the maze, drawn `#`.
    Block,
}

/// The contents of one cell. One read of a cell decides both how it is drawn
/// and what happens to an agent that steps onto it.
#[derive(Clone, Copy, Debug, PartialEq, Eq, Structural, Hash)]
pub enum Cell {
    /// Impassable.
    Wall(Wall),
    /// Nothing here.
    Empty,
    /// A pellet waiting to be eaten.
    Pellet,
    /// The player stands here.
    PlayerMark,
    /// The ghost stands here, on a cell that was empty.
    GhostMark,
    /// The ghost stands here on top of a pellet, which is still there
    /// underneath and comes back when the ghost leaves.
    GhostOnPellet,
}

/// Glyph of the pellet, a bullet.
pub const PELLET_GLYPH: char = '\u{2022}';

impl Wall {
    /// The glyph this wall is drawn with.
    pub open spec fn spec_glyph(self) -> char {
        match self {
            Wall::Top => '_',
            Wall::Side => '|',
            Wall::Bottom => '-',
            Wall::Block => '#',
        }
    }
}

impl Cell {
    /// No agent can enter a wall.
    pub open spec fn spec_is_wall(self) -> bool {
        self is Wall
    }

    /// The ghost stands on this cell, with or without a pellet under it.
    pub open spec fn spec_holds_ghost(self) -> bool {
        self == Cell::GhostMark || self == Cell::GhostOnPellet
    }

    /// The glyph this cell is drawn with.
    pub open spec fn spec_glyph(self) -> char {
        match self {
            Cell::Wall(wall) => wall.spec_glyph(),
            Cell::Empty => ' ',
            Cell::Pellet => PELLET_GLYPH,
            Cell::PlayerMark => 'K',
            Cell::GhostMark => 'm',
            Cell::GhostOnPellet => 'M',
        }
    }

    /// The cell a glyph stands for, if it stands for one.
    pub open spec fn spec_from_glyph(glyph: char) -> Option<Cell> {
        if glyph == '_' {
            Some(Cell::Wall(Wall::Top))
        } else if glyph == '|' {
            Some(Cell::Wall(Wall::Side))
        } else if glyph == '-' {
            Some(Cell::Wall(Wall::Bottom))
        } else if glyph == '#' {
            Some(Cell::Wall(Wall::Block))
        } else if glyph == ' ' {
            Some(Cell::Empty)
        } else if glyph == PELLET_GLYPH {
            Some(Cell::Pellet)
        } else if glyph == 'K' {
            Some(Cell::PlayerMark)
        } else if glyph == 'm' {
            Some(Cell::GhostMark)
        } else if glyph == 'M' {
            Some(Cell::GhostOnPellet)
        } else {
            None
        }
    }

    /// Whether the cell is a wall of any kind.
    #[verifier::when_used_as_spec(spec_is_wall)]
    pub fn is_wall(self) -> (wall: bool)
        ensures
            wall == self.spec_is_wall(),
    {
        match self {
            Cell::Wall(_) => true,
            _ => false,
        }
    }

    /// Whether the ghost stands on the cell.
    #[verifier::when_used_as_spec(spec_holds_ghost)]
    pub fn holds_ghost(self) -> (occupied: bool)
        ensures
            occupied == self.spec_holds_ghost(),
    {
        match self {
            Cell::GhostMark => true,
            Cell::GhostOnPellet => true,
            _ => false,
        }
    }

    /// The printable character the cell is drawn with.
    #[verifier::when_used_as_spec(spec_glyph)]
    pub fn glyph(self) -> (glyph: char)
        ensures
            glyph == self.spec_glyph(),
    {
        match self {
            Cell::Wall(Wall::Top) => '_',
            Cell::Wall(Wall::Side) => '|',
            Cell::Wall(Wall::Bottom) => '-',
            Cell::Wall(Wall::Block) => '#',
            Cell::Empty => ' ',
            Cell::Pellet => PELLET_GLYPH,
            Cell::PlayerMark => 'K',
            Cell::GhostMark => 'm',
            Cell::GhostOnPellet => 'M',
        }
    }

    /// Reads a glyph back into the cell it is drawn for; `None` for a glyph
    /// that no cell is drawn with.
    #[verifier::when_used_as_spec(spec_from_glyph)]
    pub fn from_glyph(glyph: char) -> (cell: Option<Cell>)
        ensures
            cell == Cell::spec_from_glyph(glyph),
    {
        if glyph == '_' {
            Some(Cell::Wall(Wall::Top))
        } else if glyph == '|' {
            Some(Cell::Wall(Wall::Side))
        } else if glyph == '-' {
            Some(Cell::Wall(Wall::Bottom))
        } else if glyph == '#' {
            Some(Cell::Wall(Wall::Block))
        } else if glyph == ' ' {
            Some(Cell::Empty)
        } else if glyph == PELLET_GLYPH {
            Some(Cell::Pellet)
        } else if glyph == 'K' {
            Some(Cell::PlayerMark)
        } else if glyph == 'm' {
            Some(Cell::GhostMark)
        } else if glyph == 'M' {
            Some(Cell::GhostOnPellet)
        } else {
            None
        }
    }
}

/// Drawing a cell and reading the glyph back gives the cell again, and a
/// glyph that reads as a cell is the glyph that cell is drawn with.
pub proof fn lemma_glyph_round_trip(cell: Cell, glyph: char)
    ensures
        Cell::spec_from_glyph(cell.spec_glyph()) == Some(cell),
        Cell::spec_from_glyph(glyph) is Some ==> Cell::spec_from_glyph(glyph)->0.spec_glyph()
            == glyph,
{
}

} // verus!
