//! What one tick does to the ghost, and how the ghost picks a new direction
//! when a wall stops it.

use vstd::arithmetic::div_mod::lemma_small_mod;
use vstd::prelude::*;
use crate::cell::Cell;
use crate::direction::Direction;
use crate::maze::{Maze, MazeView, Position};
use crate::model::{GameView, MoveOutcome};

verus! {

/// A step is legal when the cell it leads to is not a wall.
pub open spec fn is_legal(maze: MazeView, from: Position, direction: Direction) -> bool {
    !maze.at(maze.next_position(from, Some(direction))).spec_is_wall()
}

/// The one direction, if it is kept, and nothing otherwise.
pub open spec fn keep_if(keep: bool, direction: Direction) -> Seq<Direction> {
    if keep {
        seq![direction]
    } else {
        Seq::empty()
    }
}

/// The legal steps from a cell, in the order up, down, left, right.
pub open spec fn legal_moves(maze: MazeView, from: Position) -> Seq<Direction> {
    keep_if(is_legal(maze, from, Direction::Up), Direction::Up) + keep_if(
        is_legal(maze, from, Direction::Down),
        Direction::Down,
    ) + keep_if(is_legal(maze, from, Direction::Left), Direction::Left) + keep_if(
        is_legal(maze, from, Direction::Right),
        Direction::Right,
    )
}

/// Whether a ghost that was heading `held` and is stopped at `from` may turn
/// to `direction`: the step must be legal, and where more than two steps
/// are legal it must not lead straight back.
pub open spec fn may_turn(
    maze: MazeView,
    from: Position,
    held: Direction,
    direction: Direction,
) -> bool {
    &&& is_legal(maze, from, direction)
    &&& legal_moves(maze, from).len() > 2 ==> direction != held.spec_opposite()
}

/// The directions a stopped ghost chooses among, in the order up, down,
/// left, right.
pub open spec fn turn_choices(maze: MazeView, from: Position, held: Direction) -> Seq<Direction> {
    keep_if(may_turn(maze, from, held, Direction::Up), Direction::Up) + keep_if(
        may_turn(maze, from, held, Direction::Down),
        Direction::Down,
    ) + keep_if(may_turn(maze, from, held, Direction::Left), Direction::Left) + keep_if(
        may_turn(maze, from, held, Direction::Right),
        Direction::Right,
    )
}

/// The choice that a draw makes: the draw counts round the choices, so each
/// of them is picked by equally many draws below any multiple of their
/// number. No choices, no pick.
pub open spec fn spec_pick(choices: Seq<Direction>, draw: nat) -> Option<Direction> {
    if choices.len() == 0 {
        None
    } else {
        Some(choices[(draw % choices.len()) as int])
    }
}

/// The cell the ghost would step to on this tick if nothing stopped it.
pub open spec fn ghost_target(game: GameView) -> Position {
    game.maze.next_position(game.ghost_position, game.ghost_direction)
}

/// Whether the ghost has a step to attempt at all: the game is running, the
/// ghost is heading somewhere, and that way is not off the edge of the grid.
pub open spec fn ghost_attempts(game: GameView) -> bool {
    &&& !game.game_over
    &&& game.ghost_direction is Some
    &&& ghost_target(game) != game.ghost_position
}

/// Whether a wall stops the ghost on this tick, so that it has to turn.
pub open spec fn ghost_blocked(game: GameView) -> bool {
    ghost_attempts(game) && game.maze.at(ghost_target(game)).spec_is_wall()
}

/// The game after the ghost has taken one step in `direction`, which it
/// holds from now on, with `ticks` on its counter.
///
/// The ghost marks the cell it enters, over the pellet if there is one, and
/// scores one for a pellet. The cell it leaves gets its pellet back if the
/// ghost was standing on one, and is blank otherwise. A step that leads off
/// the edge of the grid moves nothing.
pub open spec fn ghost_arrives(game: GameView, direction: Direction, ticks: nat) -> GameView {
    let dest = game.maze.next_position(game.ghost_position, Some(direction));
    let found = game.maze.at(dest);
    let left = game.maze.at(game.ghost_position);
    if dest == game.ghost_position {
        GameView { ghost_direction: Some(direction), ghost_ticks: ticks, ..game }
    } else {
        GameView {
            maze: game.maze.put(
                dest,
                if found == Cell::Pellet {
                    Cell::GhostOnPellet
                } else {
                    Cell::GhostMark
                },
            ).put(
                game.ghost_position,
                if left == Cell::GhostOnPellet {
                    Cell::Pellet
                } else {
                    Cell::Empty
                },
            ),
            ghost_position: dest,
            ghost_direction: Some(direction),
            ghost_ticks: ticks,
            current_score: if found == Cell::Pellet {
                game.current_score + 1
            } else {
                game.current_score
            },
            ..game
        }
    }
}

/// The game after the ghost's part of a tick, where `draw` is the random
/// number that decides a turn.
///
/// A ghost with no step to attempt leaves the game as it is. Otherwise what
/// the target cell holds decides. The player there ends the game. A wall
/// there makes the ghost turn: it picks among `turn_choices` by the draw,
/// steps that way and starts counting from zero, or stays as it is if it has
/// no choice. Any other cell lets the ghost in, and its counter goes up by
/// one.
pub open spec fn ghost_step(game: GameView, draw: nat) -> GameView {
    let found = game.maze.at(ghost_target(game));
    if !ghost_attempts(game) {
        game
    } else if found == Cell::PlayerMark {
        GameView { game_over: true, ..game }
    } else if !found.spec_is_wall() {
        ghost_arrives(game, game.ghost_direction->0, game.ghost_ticks + 1)
    } else {
        match spec_pick(
            turn_choices(game.maze, game.ghost_position, game.ghost_direction->0),
            draw,
        ) {
            Some(turn) => ghost_arrives(game, turn, 0),
            None => game,
        }
    }
}

/// How the ghost's part of a tick ends. A ghost that a wall stops and
/// that turns counts by where the turn takes it; it is rejected when it has
/// no choice, or when its choice leads off the edge of the grid.
pub open spec fn ghost_outcome(game: GameView, draw: nat) -> MoveOutcome {
    let after = ghost_step(game, draw);
    if !ghost_attempts(game) {
        MoveOutcome::Idle
    } else if game.maze.at(ghost_target(game)) == Cell::PlayerMark {
        MoveOutcome::Collision
    } else if after.ghost_position == game.ghost_position {
        MoveOutcome::Rejected
    } else if game.maze.at(after.ghost_position) == Cell::Pellet {
        MoveOutcome::Scored
    } else {
        MoveOutcome::Moved
    }
}

/// Whether a step from a cell of the maze is legal.
pub fn step_is_legal(maze: &Maze, from: Position, direction: Direction) -> (legal: bool)
    requires
        maze@.contains(from),
    ensures
        legal == is_legal(maze@, from, direction),
{
    let next = maze.next_position(from, Some(direction));
    !maze.get(next).is_wall()
}

/// Lists the legal steps from a cell of the maze.
pub fn list_legal_moves(maze: &Maze, from: Position) -> (moves: Vec<Direction>)
    requires
        maze@.contains(from),
    ensures
        moves@ == legal_moves(maze@, from),
{
    let mut moves: Vec<Direction> = Vec::new();
    if step_is_legal(maze, from, Direction::Up) {
        moves.push(Direction::Up);
    }
    if step_is_legal(maze, from, Direction::Down) {
        moves.push(Direction::Down);
    }
    if step_is_legal(maze, from, Direction::Left) {
        moves.push(Direction::Left);
    }
    if step_is_legal(maze, from, Direction::Right) {
        moves.push(Direction::Right);
    }
    assert(moves@ =~= legal_moves(maze@, from));
    moves
}

/// Lists the directions that a ghost stopped at `from`, and heading `held`
/// until now, chooses among.
pub fn list_turn_choices(maze: &Maze, from: Position, held: Direction) -> (choices: Vec<Direction>)
    requires
        maze@.contains(from),
    ensures
        choices@ == turn_choices(maze@, from, held),
{
    let legal = list_legal_moves(maze, from);
    if legal.len() <= 2 {
        proof {
            lemma_legal_moves_hold_the_legal(maze@, from);
            assert(legal@ =~= turn_choices(maze@, from, held));
        }
        return legal;
    }
    let back = held.opposite();
    let mut choices: Vec<Direction> = Vec::new();
    if back != Direction::Up && step_is_legal(maze, from, Direction::Up) {
        choices.push(Direction::Up);
    }
    if back != Direction::Down && step_is_legal(maze, from, Direction::Down) {
        choices.push(Direction::Down);
    }
    if back != Direction::Left && step_is_legal(maze, from, Direction::Left) {
        choices.push(Direction::Left);
    }
    if back != Direction::Right && step_is_legal(maze, from, Direction::Right) {
        choices.push(Direction::Right);
    }
    assert(choices@ =~= turn_choices(maze@, from, held));
    choices
}

/// Picks among the choices by a draw; `None` when there is nothing to pick from.
pub fn pick(choices: &Vec<Direction>, draw: usize) -> (picked: Option<Direction>)
    ensures
        picked == spec_pick(choices@, draw as nat),
{
    if choices.len() == 0 {
        None
    } else {
        Some(choices[draw % choices.len()])
    }
}

/// `legal_moves` lists exactly the legal steps, each once.
pub proof fn lemma_legal_moves_hold_the_legal(maze: MazeView, from: Position)
    ensures
        forall|direction: Direction| #[trigger]
            legal_moves(maze, from).contains(direction) <==> is_legal(maze, from, direction),
        legal_moves(maze, from).no_duplicates(),
        legal_moves(maze, from).len() <= 4,
{
    lemma_kept_in_order(
        is_legal(maze, from, Direction::Up),
        is_legal(maze, from, Direction::Down),
        is_legal(maze, from, Direction::Left),
        is_legal(maze, from, Direction::Right),
    );
}

/// `turn_choices` lists exactly the directions that the ghost may turn to,
/// each once. With at most two legal steps they are the legal steps; with
/// more, at least two are left.
pub proof fn lemma_turn_choices_hold_the_allowed(maze: MazeView, from: Position, held: Direction)
    ensures
        forall|direction: Direction| #[trigger]
            turn_choices(maze, from, held).contains(direction) <==> may_turn(
                maze,
                from,
                held,
                direction,
            ),
        turn_choices(maze, from, held).no_duplicates(),
        legal_moves(maze, from).len() <= 2 ==> turn_choices(maze, from, held) == legal_moves(
            maze,
            from,
        ),
        legal_moves(maze, from).len() > 2 ==> turn_choices(maze, from, held).len() >= 2,
{
    lemma_kept_in_order(
        is_legal(maze, from, Direction::Up),
        is_legal(maze, from, Direction::Down),
        is_legal(maze, from, Direction::Left),
        is_legal(maze, from, Direction::Right),
    );
    lemma_kept_in_order(
        may_turn(maze, from, held, Direction::Up),
        may_turn(maze, from, held, Direction::Down),
        may_turn(maze, from, held, Direction::Left),
        may_turn(maze, from, held, Direction::Right),
    );
    if legal_moves(maze, from).len() <= 2 {
        assert(turn_choices(maze, from, held) =~= legal_moves(maze, from));
    }
}

/// A pick is one of the choices, and there is a pick whenever there is a choice.
pub proof fn lemma_pick_is_a_choice(choices: Seq<Direction>, draw: nat)
    ensures
        spec_pick(choices, draw) is Some <==> choices.len() > 0,
        spec_pick(choices, draw) matches Some(picked) ==> choices.contains(picked),
        draw < choices.len() ==> spec_pick(choices, draw) == Some(choices[draw as int]),
{
    if choices.len() > 0 {
        let index = (draw % choices.len()) as int;
        assert(0 <= index < choices.len());
        assert(choices[index] == spec_pick(choices, draw)->0);
        if draw < choices.len() {
            lemma_small_mod(draw, choices.len());
        }
    }
}

/// Of the four directions, kept or dropped one by one and listed in order,
/// the list holds exactly the kept ones, each once.
proof fn lemma_kept_in_order(up: bool, down: bool, left: bool, right: bool)
    ensures
        ({
            let kept = keep_if(up, Direction::Up) + keep_if(down, Direction::Down) + keep_if(
                left,
                Direction::Left,
            ) + keep_if(right, Direction::Right);
            &&& kept.contains(Direction::Up) <==> up
            &&& kept.contains(Direction::Down) <==> down
            &&& kept.contains(Direction::Left) <==> left
            &&& kept.contains(Direction::Right) <==> right
            &&& kept.no_duplicates()
            &&& kept.len() == (if up { 1int } else { 0 }) + (if down { 1int } else { 0 }) + (if left { 1int } else { 0 }) + (if right { 1int } else { 0 })
        }),
{
    let a = keep_if(up, Direction::Up);
    let b = keep_if(down, Direction::Down);
    let c = keep_if(left, Direction::Left);
    let d = keep_if(right, Direction::Right);
    let kept = a + b + c + d;
    if up {
        assert(kept[0] == Direction::Up);
    }
    if down {
        assert(kept[a.len() as int] == Direction::Down);
    }
    if left {
        assert(kept[(a.len() + b.len()) as int] == Direction::Left);
    }
    if right {
        assert(kept[(a.len() + b.len() + c.len()) as int] == Direction::Right);
    }
}

} // verus!
