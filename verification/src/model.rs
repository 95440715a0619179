//! The mathematical model of a game in progress.

use vstd::prelude::*;
use crate::cell::Cell;
use crate::direction::Direction;
use crate::maze::{MazeView, Position};

verus! {

/// Everything a game in progress consists of, as plain mathematical values.
/// The contracts of the tick operations are stated over this model.
#[verifier::ext_equal]
pub struct GameView {
    /// The grid.
    pub maze: MazeView,
    /// Where the player stands.
    pub player_position: Position,
    /// Where the player is heading; `None` while it stands still.
    pub current_direction: Option<Direction>,
    /// Where the ghost stands.
    pub ghost_position: Position,
    /// Where the ghost is heading; `None` while it stands still.
    pub ghost_direction: Option<Direction>,
    /// Number of ticks in a row on which the ghost kept its direction.
    pub ghost_ticks: nat,
    /// Best score on record. No tick touches it.
    pub high_score: nat,
    /// Pellets counted in this game.
    pub current_score: nat,
    /// Set once an agent has run into the other; nothing moves afterwards.
    pub game_over: bool,
}

/// How an agent's part of a tick ended. None of these is an error; the
/// caller branches on them.
#[derive(Clone, Copy, Debug, PartialEq, Eq, Structural, Hash)]
pub enum MoveOutcome {
    /// No step was attempted: the game is over, the agent stands still, or
    /// it faces the edge of the grid.
    Idle,
    /// A wall was in the way and the agent did not get past it.
    Rejected,
    /// The agent ran into the other one, which ends the game.
    Collision,
    /// The agent stepped onto a cell without a pellet.
    Moved,
    /// The agent stepped onto a pellet, for one point.
    Scored,
}

impl GameView {
    /// The maze is well formed and both agents stand on it.
    pub open spec fn wf(self) -> bool {
        &&& self.maze.wf()
        &&& self.maze.contains(self.player_position)
        &&& self.maze.contains(self.ghost_position)
    }

    /// The player's cell shows the player.
    pub open spec fn player_shown(self) -> bool {
        self.maze.at(self.player_position) == Cell::PlayerMark
    }

    /// The ghost's cell shows the ghost.
    pub open spec fn ghost_shown(self) -> bool {
        self.maze.at(self.ghost_position).spec_holds_ghost()
    }

    /// No cell but the player's shows the player, and no cell but the
    /// ghost's shows the ghost. So at most one cell shows either.
    pub open spec fn marks_in_place(self) -> bool {
        forall|pos: Position| #[trigger]
            self.maze.contains(pos) ==> {
                &&& self.maze.at(pos) == Cell::PlayerMark ==> pos == self.player_position
                &&& self.maze.at(pos).spec_holds_ghost() ==> pos == self.ghost_position
            }
    }
}

} // verus!
