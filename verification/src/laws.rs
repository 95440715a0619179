//! Laws of the game: what holds of every state and every tick, proved of
//! the model that the operations are specified by.

use vstd::prelude::*;
use crate::cell::Cell;
use crate::direction::Direction;
use crate::ghost::{
    ghost_arrives, ghost_attempts, ghost_blocked, ghost_step, ghost_target, is_legal,
    legal_moves, lemma_pick_is_a_choice, lemma_turn_choices_hold_the_allowed, spec_pick,
    turn_choices,
};
use crate::maze::{lemma_next_position_in_bounds, MazeView, Position};
use crate::model::GameView;
use crate::player::{player_attempts, player_step, player_target};

verus! {

/// Overwriting a cell of a maze changes that cell and nothing else: not
/// the shape, not the tunnel, not any other cell.
pub proof fn lemma_put(maze: MazeView, pos: Position, cell: Cell)
    requires
        maze.wf(),
        maze.contains(pos),
    ensures
        maze.put(pos, cell).wf(),
        maze.put(pos, cell).height() == maze.height(),
        maze.put(pos, cell).width() == maze.width(),
        maze.put(pos, cell).tunnel_row == maze.tunnel_row,
        maze.put(pos, cell).at(pos) == cell,
        forall|other: Position|
            maze.contains(other) && other != pos ==> #[trigger] maze.put(pos, cell).at(other)
                == maze.at(other),
        forall|other: Position| #[trigger]
            maze.put(pos, cell).contains(other) <==> maze.contains(other),
        forall|from: Position, direction: Option<Direction>| #[trigger]
            maze.put(pos, cell).next_position(from, direction) == maze.next_position(
                from,
                direction,
            ),
{
    let after = maze.put(pos, cell);
    assert(after.cells[0].len() == maze.cells[0].len());
    assert forall|r: int| 0 <= r < after.cells.len() implies (#[trigger] after.cells[r]).len()
        == after.cells[0].len() by {
        assert(maze.cells[r].len() == maze.cells[0].len());
    }
}

/// Both parts of a tick keep the game well formed: the maze keeps its
/// shape and both agents stay on it.
pub proof fn lemma_tick_keeps_wf(game: GameView, draw: nat)
    requires
        game.wf(),
    ensures
        player_step(game).wf(),
        ghost_step(game, draw).wf(),
        player_step(game).maze.width() == game.maze.width(),
        player_step(game).maze.height() == game.maze.height(),
        ghost_step(game, draw).maze.width() == game.maze.width(),
        ghost_step(game, draw).maze.height() == game.maze.height(),
{
    lemma_player_step_keeps_wf(game);
    lemma_ghost_step_keeps_wf(game, draw);
}

proof fn lemma_player_step_keeps_wf(game: GameView)
    requires
        game.wf(),
    ensures
        player_step(game).wf(),
        player_step(game).maze.width() == game.maze.width(),
        player_step(game).maze.height() == game.maze.height(),
{
    let target = player_target(game);
    lemma_next_position_in_bounds(game.maze, game.player_position, game.current_direction);
    lemma_put(game.maze, target, Cell::PlayerMark);
    lemma_put(game.maze.put(target, Cell::PlayerMark), game.player_position, Cell::Empty);
}

proof fn lemma_ghost_arrives_keeps_wf(game: GameView, direction: Direction, ticks: nat)
    requires
        game.wf(),
    ensures
        ghost_arrives(game, direction, ticks).wf(),
        ghost_arrives(game, direction, ticks).maze.width() == game.maze.width(),
        ghost_arrives(game, direction, ticks).maze.height() == game.maze.height(),
{
    let dest = game.maze.next_position(game.ghost_position, Some(direction));
    lemma_next_position_in_bounds(game.maze, game.ghost_position, Some(direction));
    let mark = if game.maze.at(dest) == Cell::Pellet {
        Cell::GhostOnPellet
    } else {
        Cell::GhostMark
    };
    let rest = if game.maze.at(game.ghost_position) == Cell::GhostOnPellet {
        Cell::Pellet
    } else {
        Cell::Empty
    };
    lemma_put(game.maze, dest, mark);
    lemma_put(game.maze.put(dest, mark), game.ghost_position, rest);
}

proof fn lemma_ghost_step_keeps_wf(game: GameView, draw: nat)
    requires
        game.wf(),
    ensures
        ghost_step(game, draw).wf(),
        ghost_step(game, draw).maze.width() == game.maze.width(),
        ghost_step(game, draw).maze.height() == game.maze.height(),
{
    if ghost_attempts(game) {
        let held = game.ghost_direction->0;
        lemma_ghost_arrives_keeps_wf(game, held, game.ghost_ticks + 1);
        match spec_pick(turn_choices(game.maze, game.ghost_position, held), draw) {
            Some(turn) => {
                lemma_ghost_arrives_keeps_wf(game, turn, 0);
            },
            None => {},
        }
    }
}

/// A wall rejects the player: a step that leads into a wall leaves the
/// whole game as it was, position, grid and all, and does not end it. Trying
/// again changes nothing either.
pub proof fn lemma_wall_rejects_player(game: GameView)
    requires
        game.wf(),
        game.maze.at(player_target(game)).spec_is_wall(),
    ensures
        player_step(game) == game,
        player_step(player_step(game)) == game,
{
}

/// The score never goes down, and the player's part of a tick raises it
/// by exactly one exactly when the player steps onto a pellet.
pub proof fn lemma_player_scores_pellets(game: GameView)
    requires
        game.wf(),
    ensures
        player_step(game).current_score == game.current_score || player_step(game).current_score
            == game.current_score + 1,
        player_step(game).current_score == game.current_score + 1 <==> player_step(
            game,
        ).player_position != game.player_position && game.maze.at(
            player_step(game).player_position,
        ) == Cell::Pellet,
        player_step(game).high_score == game.high_score,
{
}

/// The score never goes down, and the ghost's part of a tick raises it by
/// exactly one exactly when the ghost steps onto a pellet, whatever the
/// draw.
pub proof fn lemma_ghost_scores_pellets(game: GameView, draw: nat)
    requires
        game.wf(),
    ensures
        ghost_step(game, draw).current_score == game.current_score || ghost_step(
            game,
            draw,
        ).current_score == game.current_score + 1,
        ghost_step(game, draw).current_score == game.current_score + 1 <==> ghost_step(
            game,
            draw,
        ).ghost_position != game.ghost_position && game.maze.at(
            ghost_step(game, draw).ghost_position,
        ) == Cell::Pellet,
        ghost_step(game, draw).high_score == game.high_score,
{
}

/// A player that steps at the cell where the ghost stands ends the game
/// and stays where it is; the grid is untouched.
pub proof fn lemma_player_runs_into_ghost(game: GameView)
    requires
        game.wf(),
        game.ghost_shown(),
        player_attempts(game),
        player_target(game) == game.ghost_position,
    ensures
        player_step(game).game_over,
        player_step(game).player_position == game.player_position,
        player_step(game) == (GameView { game_over: true, ..game }),
{
}

/// A ghost that steps at the cell where the player stands ends the game
/// and stays where it is, whatever the draw; the grid is untouched.
pub proof fn lemma_ghost_runs_into_player(game: GameView, draw: nat)
    requires
        game.wf(),
        game.player_shown(),
        ghost_attempts(game),
        ghost_target(game) == game.player_position,
    ensures
        ghost_step(game, draw).game_over,
        ghost_step(game, draw).ghost_position == game.ghost_position,
        ghost_step(game, draw) == (GameView { game_over: true, ..game }),
{
}

/// The ghost does not turn straight back at an intersection: when a wall
/// stops it where three or more steps are legal, the direction it leaves
/// with is legal and is not the opposite of the one it came with, whatever
/// the draw. It starts counting from zero.
pub proof fn lemma_no_reversal_at_intersection(game: GameView, draw: nat)
    requires
        game.wf(),
        ghost_blocked(game),
        legal_moves(game.maze, game.ghost_position).len() >= 3,
    ensures
        ghost_step(game, draw).ghost_direction matches Some(turn) && turn
            != game.ghost_direction->0.spec_opposite() && is_legal(
            game.maze,
            game.ghost_position,
            turn,
        ),
        ghost_step(game, draw).ghost_ticks == 0,
{
    let held = game.ghost_direction->0;
    let choices = turn_choices(game.maze, game.ghost_position, held);
    lemma_turn_choices_hold_the_allowed(game.maze, game.ghost_position, held);
    lemma_pick_is_a_choice(choices, draw);
}

/// Wherever a wall stops the ghost and some step is legal, the ghost
/// leaves with a legal direction; only a ghost walled in on all sides
/// stays as it is.
pub proof fn lemma_ghost_turns_to_a_legal_step(game: GameView, draw: nat)
    requires
        game.wf(),
        ghost_blocked(game),
    ensures
        legal_moves(game.maze, game.ghost_position).len() == 0 ==> ghost_step(game, draw) == game,
        legal_moves(game.maze, game.ghost_position).len() > 0 ==> (ghost_step(
            game,
            draw,
        ).ghost_direction matches Some(turn) && is_legal(game.maze, game.ghost_position, turn)),
{
    let held = game.ghost_direction->0;
    let choices = turn_choices(game.maze, game.ghost_position, held);
    lemma_turn_choices_hold_the_allowed(game.maze, game.ghost_position, held);
    lemma_pick_is_a_choice(choices, draw);
}

/// A pellet survives the ghost. When the ghost steps onto a pellet, the
/// cell shows the ghost over the pellet; it shows that for as long as the
/// ghost stays, and it is a pellet again as soon as the ghost has left.
/// The player's part of the tick in between does not touch the cell,
/// provided the player does not stand on it.
pub proof fn lemma_pellet_survives_ghost(game: GameView, first: nat, second: nat)
    requires
        game.wf(),
        ghost_step(game, first).ghost_position != game.ghost_position,
        game.maze.at(ghost_step(game, first).ghost_position) == Cell::Pellet,
        ghost_step(game, first).player_position != ghost_step(game, first).ghost_position,
    ensures
        ({
            let arrived = ghost_step(game, first);
            let cell = arrived.ghost_position;
            let between = player_step(arrived);
            let after = ghost_step(between, second);
            &&& arrived.maze.at(cell) == Cell::GhostOnPellet
            &&& between.maze.at(cell) == Cell::GhostOnPellet
            &&& between.ghost_position == cell
            &&& after.ghost_position != cell ==> after.maze.at(cell) == Cell::Pellet
            &&& after.ghost_position == cell ==> after.maze.at(cell) == Cell::GhostOnPellet
        }),
{
    let arrived = ghost_step(game, first);
    let cell = arrived.ghost_position;
    lemma_ghost_step_keeps_wf(game, first);
    lemma_ghost_lands(game, first);
    lemma_player_step_keeps_wf(arrived);
    lemma_player_leaves_others(arrived, cell);
    let between = player_step(arrived);
    lemma_ghost_step_keeps_wf(between, second);
    lemma_ghost_leaves(between, second);
}

/// Two parts of a tick of the ghost in a row, with nothing in between: the
/// pellet that the ghost stepped onto is a pellet again once the ghost has
/// left.
pub proof fn lemma_pellet_restored(game: GameView, first: nat, second: nat)
    requires
        game.wf(),
        ghost_step(game, first).ghost_position != game.ghost_position,
        game.maze.at(ghost_step(game, first).ghost_position) == Cell::Pellet,
    ensures
        ({
            let arrived = ghost_step(game, first);
            let cell = arrived.ghost_position;
            let after = ghost_step(arrived, second);
            &&& arrived.maze.at(cell) == Cell::GhostOnPellet
            &&& after.ghost_position != cell ==> after.maze.at(cell) == Cell::Pellet
            &&& after.ghost_position == cell ==> after.maze.at(cell) == Cell::GhostOnPellet
        }),
{
    let arrived = ghost_step(game, first);
    lemma_ghost_step_keeps_wf(game, first);
    lemma_ghost_lands(game, first);
    lemma_ghost_step_keeps_wf(arrived, second);
    lemma_ghost_leaves(arrived, second);
}

/// Where the ghost has moved, the cell it entered shows it: over the
/// pellet if the cell held one, plainly otherwise.
proof fn lemma_ghost_lands(game: GameView, draw: nat)
    requires
        game.wf(),
        ghost_step(game, draw).ghost_position != game.ghost_position,
    ensures
        ghost_step(game, draw).maze.at(ghost_step(game, draw).ghost_position) == (if game.maze.at(
            ghost_step(game, draw).ghost_position,
        ) == Cell::Pellet {
            Cell::GhostOnPellet
        } else {
            Cell::GhostMark
        }),
{
    let held = game.ghost_direction->0;
    lemma_ghost_arrives_lands(game, held, game.ghost_ticks + 1);
    match spec_pick(turn_choices(game.maze, game.ghost_position, held), draw) {
        Some(turn) => {
            lemma_ghost_arrives_lands(game, turn, 0);
        },
        None => {},
    }
}

proof fn lemma_ghost_arrives_lands(game: GameView, direction: Direction, ticks: nat)
    requires
        game.wf(),
    ensures
        ({
            let after = ghost_arrives(game, direction, ticks);
            let dest = after.ghost_position;
            &&& dest == game.maze.next_position(game.ghost_position, Some(direction))
            &&& dest != game.ghost_position ==> after.maze.at(dest) == (if game.maze.at(dest)
                == Cell::Pellet {
                Cell::GhostOnPellet
            } else {
                Cell::GhostMark
            })
            &&& dest != game.ghost_position ==> after.maze.at(game.ghost_position) == (
            if game.maze.at(game.ghost_position) == Cell::GhostOnPellet {
                Cell::Pellet
            } else {
                Cell::Empty
            })
            &&& forall|other: Position|
                game.maze.contains(other) && other != dest && other != game.ghost_position
                    ==> #[trigger] after.maze.at(other) == game.maze.at(other)
        }),
{
    let dest = game.maze.next_position(game.ghost_position, Some(direction));
    lemma_next_position_in_bounds(game.maze, game.ghost_position, Some(direction));
    let mark = if game.maze.at(dest) == Cell::Pellet {
        Cell::GhostOnPellet
    } else {
        Cell::GhostMark
    };
    let rest = if game.maze.at(game.ghost_position) == Cell::GhostOnPellet {
        Cell::Pellet
    } else {
        Cell::Empty
    };
    lemma_put(game.maze, dest, mark);
    lemma_put(game.maze.put(dest, mark), game.ghost_position, rest);
}

/// The ghost's part of a tick leaves a ghost on a pellet as it is while the
/// ghost stays, and leaves the pellet behind when the ghost goes.
proof fn lemma_ghost_leaves(game: GameView, draw: nat)
    requires
        game.wf(),
        game.maze.at(game.ghost_position) == Cell::GhostOnPellet,
    ensures
        ({
            let after = ghost_step(game, draw);
            &&& after.ghost_position != game.ghost_position ==> after.maze.at(game.ghost_position)
                == Cell::Pellet
            &&& after.ghost_position == game.ghost_position ==> after.maze.at(game.ghost_position)
                == Cell::GhostOnPellet
        }),
{
    let held = game.ghost_direction->0;
    lemma_ghost_arrives_lands(game, held, game.ghost_ticks + 1);
    match spec_pick(turn_choices(game.maze, game.ghost_position, held), draw) {
        Some(turn) => {
            lemma_ghost_arrives_lands(game, turn, 0);
        },
        None => {},
    }
}

/// The player's part of a tick changes no cell but the one the player
/// leaves and the one it enters, and it never enters a cell that shows the
/// ghost.
proof fn lemma_player_leaves_others(game: GameView, cell: Position)
    requires
        game.wf(),
        game.maze.contains(cell),
        cell != game.player_position,
        game.maze.at(cell).spec_holds_ghost(),
    ensures
        player_step(game).maze.at(cell) == game.maze.at(cell),
        player_step(game).ghost_position == game.ghost_position,
{
    let target = player_target(game);
    lemma_next_position_in_bounds(game.maze, game.player_position, game.current_direction);
    lemma_put(game.maze, target, Cell::PlayerMark);
    lemma_put(game.maze.put(target, Cell::PlayerMark), game.player_position, Cell::Empty);
}

/// At most one cell shows the player and at most one shows the ghost, and
/// a cell that shows an agent is the cell where that agent stands. No part
/// of a tick breaks this.
pub proof fn lemma_marks_stay_in_place(game: GameView, draw: nat)
    requires
        game.wf(),
        game.marks_in_place(),
    ensures
        player_step(game).marks_in_place(),
        ghost_step(game, draw).marks_in_place(),
{
    lemma_player_keeps_marks(game);
    if ghost_attempts(game) {
        let held = game.ghost_direction->0;
        lemma_ghost_arrives_keeps_marks(game, held, game.ghost_ticks + 1);
        match spec_pick(turn_choices(game.maze, game.ghost_position, held), draw) {
            Some(turn) => {
                lemma_ghost_arrives_keeps_marks(game, turn, 0);
            },
            None => {},
        }
    }
}

proof fn lemma_player_keeps_marks(game: GameView)
    requires
        game.wf(),
        game.marks_in_place(),
    ensures
        player_step(game).marks_in_place(),
{
    let after = player_step(game);
    let target = player_target(game);
    lemma_next_position_in_bounds(game.maze, game.player_position, game.current_direction);
    lemma_put(game.maze, target, Cell::PlayerMark);
    lemma_put(game.maze.put(target, Cell::PlayerMark), game.player_position, Cell::Empty);
    assert forall|pos: Position| #[trigger] after.maze.contains(pos) implies {
        &&& after.maze.at(pos) == Cell::PlayerMark ==> pos == after.player_position
        &&& after.maze.at(pos).spec_holds_ghost() ==> pos == after.ghost_position
    } by {
        assert(game.maze.contains(pos));
    }
}

proof fn lemma_ghost_arrives_keeps_marks(game: GameView, direction: Direction, ticks: nat)
    requires
        game.wf(),
        game.marks_in_place(),
    ensures
        ghost_arrives(game, direction, ticks).marks_in_place(),
{
    let after = ghost_arrives(game, direction, ticks);
    lemma_ghost_arrives_keeps_wf(game, direction, ticks);
    lemma_ghost_arrives_lands(game, direction, ticks);
    assert forall|pos: Position| #[trigger] after.maze.contains(pos) implies {
        &&& after.maze.at(pos) == Cell::PlayerMark ==> pos == after.player_position
        &&& after.maze.at(pos).spec_holds_ghost() ==> pos == after.ghost_position
    } by {
        assert(game.maze.contains(pos));
    }
}

/// Once the game is over no part of a tick changes anything.
pub proof fn lemma_game_over_is_final(game: GameView, draw: nat)
    requires
        game.game_over,
    ensures
        player_step(game) == game,
        ghost_step(game, draw) == game,
{
}

/// No part of a tick restarts a game that is over.
pub proof fn lemma_game_over_stays(game: GameView, draw: nat)
    ensures
        game.game_over ==> player_step(game).game_over && ghost_step(game, draw).game_over,
{
}

} // verus!
