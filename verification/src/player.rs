//! What one tick does to the player.

use vstd::prelude::*;
use crate::cell::Cell;
use crate::maze::Position;
use crate::model::{GameView, MoveOutcome};

verus! {

/// The cell the player would step to on this tick.
pub open spec fn player_target(game: GameView) -> Position {
    game.maze.next_position(game.player_position, game.current_direction)
}

/// Whether the player has a step to attempt at all: the game is running, the
/// player is heading somewhere, and that way is not off the edge of the grid.
pub open spec fn player_attempts(game: GameView) -> bool {
    &&& !game.game_over
    &&& game.current_direction is Some
    &&& player_target(game) != game.player_position
}

/// The game after the player's part of a tick.
///
/// A player with no step to attempt leaves the game as it is. Otherwise
/// what the target cell holds decides: the ghost ends the game, a wall
/// rejects the step, and anything else lets the player in. A player that
/// steps in marks the target, blanks the cell it left, and scores one if
/// the target held a pellet.
pub open spec fn player_step(game: GameView) -> GameView {
    let target = player_target(game);
    let found = game.maze.at(target);
    if !player_attempts(game) {
        game
    } else if found.spec_holds_ghost() {
        GameView { game_over: true, ..game }
    } else if found.spec_is_wall() {
        game
    } else {
        GameView {
            maze: game.maze.put(target, Cell::PlayerMark).put(game.player_position, Cell::Empty),
            player_position: target,
            current_score: if found == Cell::Pellet {
                game.current_score + 1
            } else {
                game.current_score
            },
            ..game
        }
    }
}

/// How the player's part of a tick ends.
pub open spec fn player_outcome(game: GameView) -> MoveOutcome {
    let found = game.maze.at(player_target(game));
    if !player_attempts(game) {
        MoveOutcome::Idle
    } else if found.spec_holds_ghost() {
        MoveOutcome::Collision
    } else if found.spec_is_wall() {
        MoveOutcome::Rejected
    } else if found == Cell::Pellet {
        MoveOutcome::Scored
    } else {
        MoveOutcome::Moved
    }
}

} // verus!
