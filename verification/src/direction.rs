//! The four directions an agent can face.

use vstd::prelude::*;

verus! {

/// A direction of travel on the grid.
#[derive(Clone, Copy, Debug, PartialEq, Eq, Structural, Hash)]
pub enum Direction {
    Up,
    Down,
    Left,
    Right,
}

impl Direction {
    /// The direction pointing the other way: `Up` and `Down` swap, `Left` and `Right` swap.
    pub open spec fn spec_opposite(self) -> Direction {
        match self {
            Direction::Up => Direction::Down,
            Direction::Down => Direction::Up,
            Direction::Left => Direction::Right,
            Direction::Right => Direction::Left,
        }
    }

    /// The direction pointing the other way.
    #[verifier::when_used_as_spec(spec_opposite)]
    pub fn opposite(self) -> (turned: Direction)
        ensures
            turned == self.spec_opposite(),
    {
        match self {
            Direction::Up => Direction::Down,
            Direction::Down => Direction::Up,
            Direction::Left => Direction::Right,
            Direction::Right => Direction::Left,
        }
    }

    /// Number of counter-clockwise quarter turns that carry a figure drawn
    /// facing down onto this direction: `Down` is 0, `Right` 1, `Up` 2, `Left` 3.
    pub open spec fn spec_quarter_turns(self) -> int {
        match self {
            Direction::Down => 0,
            Direction::Right => 1,
            Direction::Up => 2,
            Direction::Left => 3,
        }
    }
}

/// Number of quarter turns for a direction, as `Direction::spec_quarter_turns` defines it.
pub fn dir_to_int(dir: Direction) -> (turns: i32)
    ensures
        turns == dir.spec_quarter_turns(),
{
    match dir {
        Direction::Down => 0,
        Direction::Right => 1,
        Direction::Up => 2,
        Direction::Left => 3,
    }
}

/// Turning round twice gives the direction one started with, and turning
/// round once never gives it.
pub proof fn lemma_opposite_involution(dir: Direction)
    ensures
        dir.spec_opposite().spec_opposite() == dir,
        dir.spec_opposite() != dir,
{
}

} // verus!
