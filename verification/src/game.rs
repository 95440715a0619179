//! The game state and the operations that advance it.

use vstd::prelude::*;
use crate::cell::Cell;
use crate::command::{read_input, spec_read_input, Command, KeyEvent};
use crate::direction::Direction;
use crate::layout::{
    cells_seeded, create_tilemap, lemma_seeded_reference_marks, reference_rows, TUNNEL_ROW,
};
use crate::ghost::{
    ghost_arrives, ghost_blocked, ghost_outcome, ghost_step, ghost_target, list_turn_choices,
    pick, turn_choices,
};
use crate::maze::{Maze, MazeView, Position};
use crate::model::{GameView, MoveOutcome};
use crate::player::{player_outcome, player_step, player_target};
use crate::random::random_below;
use rand::rngs::StdRng;

verus! {

/// The two scores shown to the player.
#[derive(Clone, Copy, Debug, PartialEq, Eq, Structural, Hash)]
pub struct Scores {
    /// Best score on record; the simulation never changes it.
    pub high_score: u64,
    /// Pellets counted in this game.
    pub current_score: u64,
}

/// What the program around the game is doing.
#[derive(Clone, Copy, Debug, PartialEq, Eq, Structural, Hash)]
pub enum AppState {
    /// The game is running.
    Playing,
    /// A fresh game has been asked for and is to be set up.
    Restarting,
    /// The game has ended.
    GameOver,
}

/// Column of the cell the player starts on.
pub const PLAYER_START_COL: usize = 2;

/// Row of the cell the player starts on.
pub const PLAYER_START_ROW: usize = 10;

/// Column of the cell the ghost starts on.
pub const GHOST_START_COL: usize = 9;

/// Row of the cell the ghost starts on.
pub const GHOST_START_ROW: usize = 10;

/// The game at its start on a given maze: the player stands still on its
/// start cell, the ghost heads left from its own, nothing is scored.
pub open spec fn start_view(maze: MazeView) -> GameView {
    GameView {
        maze,
        player_position: Position { col: PLAYER_START_COL, row: PLAYER_START_ROW },
        current_direction: None,
        ghost_position: Position { col: GHOST_START_COL, row: GHOST_START_ROW },
        ghost_direction: Some(Direction::Left),
        ghost_ticks: 0,
        high_score: 0,
        current_score: 0,
        game_over: false,
    }
}

/// The game after a command. A move heads the player in its direction and
/// changes nothing else; no other command changes the game at all.
pub open spec fn command_step(game: GameView, command: Command) -> GameView {
    match command {
        Command::Move(direction) => GameView { current_direction: Some(direction), ..game },
        Command::Quit => game,
        Command::Reset => game,
    }
}

/// What the program is to do after a command: end on a quit, set up a
/// fresh game on a reset, and otherwise go on, unless the game is over.
pub open spec fn command_phase(game: GameView, command: Command) -> AppState {
    match command {
        Command::Quit => AppState::GameOver,
        Command::Reset => AppState::Restarting,
        Command::Move(_) => spec_phase(game),
    }
}

/// What the program is doing while no command comes in.
pub open spec fn spec_phase(game: GameView) -> AppState {
    if game.game_over {
        AppState::GameOver
    } else {
        AppState::Playing
    }
}

/// A cell an agent is about to try, with what it holds.
#[derive(Clone, Copy, Debug, PartialEq, Eq, Structural, Hash)]
pub struct NextPosition {
    pub pos: Position,
    pub contents: Cell,
}

/// A game in progress: the grid, both agents, the scores and the flag that
/// ends it. One tick advances it, the player first and the ghost second.
///
/// Both agents stand on the grid at all times.
pub struct GameState {
    grid: Maze,
    player_position: Position,
    current_direction: Option<Direction>,
    ghost_position: Position,
    ghost_direction: Option<Direction>,
    ghost_ticks: u64,
    scores: Scores,
    game_over: bool,
}

impl View for GameState {
    type V = GameView;

    closed spec fn view(&self) -> GameView {
        GameView {
            maze: self.grid@,
            player_position: self.player_position,
            current_direction: self.current_direction,
            ghost_position: self.ghost_position,
            ghost_direction: self.ghost_direction,
            ghost_ticks: self.ghost_ticks as nat,
            high_score: self.scores.high_score as nat,
            current_score: self.scores.current_score as nat,
            game_over: self.game_over,
        }
    }
}

impl GameState {
    #[verifier::type_invariant]
    spec fn inv(self) -> bool {
        self@.wf()
    }

    /// Starts a game on the given grid, with both scores at zero. The grid is
    /// taken as it is: no mark is written for either agent.
    ///
    /// `None` when an agent would not stand on the grid.
    pub fn new(
        grid: Maze,
        player_position: Position,
        current_direction: Option<Direction>,
        ghost_position: Position,
        ghost_direction: Option<Direction>,
    ) -> (made: Option<GameState>)
        ensures
            made is Some <==> grid@.contains(player_position) && grid@.contains(ghost_position),
            made matches Some(game) ==> game@ == (GameView {
                maze: grid@,
                player_position,
                current_direction,
                ghost_position,
                ghost_direction,
                ghost_ticks: 0,
                high_score: 0,
                current_score: 0,
                game_over: false,
            }) && game@.wf(),
    {
        if !grid.contains(player_position) || !grid.contains(ghost_position) {
            return None;
        }
        Some(
            GameState {
                grid,
                player_position,
                current_direction,
                ghost_position,
                ghost_direction,
                ghost_ticks: 0,
                scores: Scores { high_score: 0, current_score: 0 },
                game_over: false,
            },
        )
    }

    /// Starts a game on the given maze, as `start_view` describes it.
    ///
    /// `None` when a start cell is not on the maze.
    pub fn start_state(grid: Maze) -> (made: Option<GameState>)
        ensures
            made is Some <==> grid@.contains(start_view(grid@).player_position) && grid@.contains(
                start_view(grid@).ghost_position,
            ),
            made matches Some(game) ==> game@ == start_view(grid@) && game@.wf(),
    {
        GameState::new(
            grid,
            Position { col: PLAYER_START_COL, row: PLAYER_START_ROW },
            None,
            Position { col: GHOST_START_COL, row: GHOST_START_ROW },
            Some(Direction::Left),
        )
    }

    /// Starts a game on the reference maze, freshly seeded with pellets.
    /// Each agent stands on the one cell that shows it.
    pub fn new_game(rng: &mut StdRng) -> (game: GameState)
        ensures
            game@ == start_view(game@.maze),
            game@.wf(),
            game@.maze.tunnel_row == TUNNEL_ROW,
            cells_seeded(reference_rows(), game@.maze.cells),
            game@.player_shown(),
            game@.ghost_shown(),
            game@.marks_in_place(),
    {
        let grid = create_tilemap(rng);
        proof {
            lemma_seeded_reference_marks(grid@.cells);
        }
        match GameState::start_state(grid) {
            Some(game) => game,
            None => {
                proof {
                    assert(false);
                }
                unreached()
            },
        }
    }

    /// Takes a command. Only a move changes the game, and only the
    /// direction the player is heading in; no command moves anything.
    /// The result says what the program is to do next.
    pub fn apply_command(&mut self, command: Command) -> (next: AppState)
        ensures
            final(self)@ == command_step(old(self)@, command),
            next == command_phase(old(self)@, command),
            final(self)@.wf(),
    {
        proof {
            use_type_invariant(&*self);
        }
        match command {
            Command::Move(direction) => {
                self.current_direction = Some(direction);
                self.phase()
            },
            Command::Quit => AppState::GameOver,
            Command::Reset => AppState::Restarting,
        }
    }

    /// Takes a key event: decodes it and applies the command, if it stands
    /// for one.
    pub fn text_input(&mut self, event: KeyEvent) -> (next: AppState)
        ensures
            final(self)@ == (match spec_read_input(event) {
                Some(command) => command_step(old(self)@, command),
                None => old(self)@,
            }),
            next == (match spec_read_input(event) {
                Some(command) => command_phase(old(self)@, command),
                None => spec_phase(old(self)@),
            }),
            final(self)@.wf(),
    {
        proof {
            use_type_invariant(&*self);
        }
        match read_input(event) {
            Some(command) => self.apply_command(command),
            None => self.phase(),
        }
    }

    /// What the program is doing: the game is over or it is being played.
    pub fn phase(&self) -> (now: AppState)
        ensures
            now == spec_phase(self@),
    {
        if self.game_over {
            AppState::GameOver
        } else {
            AppState::Playing
        }
    }

    /// The cell the player would step to on this tick, and what it holds.
    pub fn update_next_position(&self) -> (next: NextPosition)
        ensures
            next.pos == player_target(self@),
            next.contents == self@.maze.at(next.pos),
            self@.maze.contains(next.pos),
    {
        proof {
            use_type_invariant(self);
        }
        let pos = self.grid.next_position(self.player_position, self.current_direction);
        NextPosition { pos, contents: self.grid.get(pos) }
    }

    /// The cell the ghost would step to on this tick if nothing stopped it,
    /// and what it holds.
    pub fn update_next_position_ghost1(&self) -> (next: NextPosition)
        ensures
            next.pos == ghost_target(self@),
            next.contents == self@.maze.at(next.pos),
            self@.maze.contains(next.pos),
    {
        proof {
            use_type_invariant(self);
        }
        let pos = self.grid.next_position(self.ghost_position, self.ghost_direction);
        NextPosition { pos, contents: self.grid.get(pos) }
    }

    /// The player's part of a tick.
    ///
    /// Nothing happens once the game is over, while the player stands still,
    /// or when the player faces the edge of the grid. Otherwise the player
    /// tries the next cell in its direction: the ghost there ends the game, a
    /// wall there rejects the step, and any other cell lets the player in,
    /// for one point if it held a pellet.
    pub fn player_move(&mut self) -> (outcome: MoveOutcome)
        requires
            old(self)@.current_score < u64::MAX,
        ensures
            final(self)@ == player_step(old(self)@),
            outcome == player_outcome(old(self)@),
            final(self)@.wf(),
    {
        proof {
            use_type_invariant(&*self);
        }
        if self.game_over || self.current_direction.is_none() {
            return MoveOutcome::Idle;
        }
        let next = self.update_next_position();
        if next.pos == self.player_position {
            return MoveOutcome::Idle;
        }
        if next.contents.holds_ghost() {
            self.game_over = true;
            return MoveOutcome::Collision;
        }
        if next.contents.is_wall() {
            return MoveOutcome::Rejected;
        }
        let scored = next.contents == Cell::Pellet;
        if scored {
            self.scores.current_score = self.scores.current_score + 1;
        }
        self.grid.set(next.pos, Cell::PlayerMark);
        self.grid.set(self.player_position, Cell::Empty);
        self.player_position = next.pos;
        if scored {
            MoveOutcome::Scored
        } else {
            MoveOutcome::Moved
        }
    }

    /// Number of directions the ghost has to choose among on this tick:
    /// none unless a wall stops it.
    pub fn ghost_choices(&self) -> (count: usize)
        ensures
            count == (if ghost_blocked(self@) {
                turn_choices(
                    self@.maze,
                    self@.ghost_position,
                    self@.ghost_direction->0,
                ).len()
            } else {
                0
            }),
    {
        proof {
            use_type_invariant(self);
        }
        if self.game_over {
            return 0;
        }
        let held = match self.ghost_direction {
            Some(held) => held,
            None => {
                return 0;
            },
        };
        let target = self.grid.next_position(self.ghost_position, Some(held));
        if target == self.ghost_position || !self.grid.get(target).is_wall() {
            return 0;
        }
        list_turn_choices(&self.grid, self.ghost_position, held).len()
    }

    /// The ghost's part of a tick, with the random number that decides a
    /// turn handed in.
    ///
    /// Nothing happens once the game is over, while the ghost stands still,
    /// or when the ghost faces the edge of the grid. Otherwise the ghost
    /// tries the next cell in its direction: the player there ends the game;
    /// a wall there makes the ghost turn where the draw says and step that
    /// way; any other cell lets the ghost in.
    pub fn ghost_move_with(&mut self, draw: usize) -> (outcome: MoveOutcome)
        requires
            old(self)@.current_score < u64::MAX,
            old(self)@.ghost_ticks < u64::MAX,
        ensures
            final(self)@ == ghost_step(old(self)@, draw as nat),
            outcome == ghost_outcome(old(self)@, draw as nat),
            final(self)@.wf(),
    {
        proof {
            use_type_invariant(&*self);
        }
        if self.game_over {
            return MoveOutcome::Idle;
        }
        let held = match self.ghost_direction {
            Some(held) => held,
            None => {
                return MoveOutcome::Idle;
            },
        };
        let next = self.update_next_position_ghost1();
        if next.pos == self.ghost_position {
            return MoveOutcome::Idle;
        }
        if next.contents == Cell::PlayerMark {
            self.game_over = true;
            return MoveOutcome::Collision;
        }
        if !next.contents.is_wall() {
            let ticks: u64 = self.ghost_ticks + 1;
            return self.ghost_arrive(held, ticks);
        }
        let choices = list_turn_choices(&self.grid, self.ghost_position, held);
        match pick(&choices, draw) {
            Some(turn) => self.ghost_arrive(turn, 0),
            None => MoveOutcome::Rejected,
        }
    }

    /// The ghost's part of a tick. Where the ghost has to turn, the
    /// generator decides which way, with the same chance for each choice.
    pub fn ghost1_move(&mut self, rng: &mut StdRng) -> (outcome: MoveOutcome)
        requires
            old(self)@.current_score < u64::MAX,
            old(self)@.ghost_ticks < u64::MAX,
        ensures
            exists|draw: nat|
                final(self)@ == #[trigger] ghost_step(old(self)@, draw) && outcome == ghost_outcome(
                    old(self)@,
                    draw,
                ),
            final(self)@.wf(),
    {
        let count = self.ghost_choices();
        let draw: usize = if count > 0 {
            random_below(rng, count)
        } else {
            0
        };
        self.ghost_move_with(draw)
    }

    /// One tick of the game: the player moves, then the ghost. The result
    /// holds the player's outcome first and the ghost's second.
    pub fn tick(&mut self, rng: &mut StdRng) -> (outcomes: (MoveOutcome, MoveOutcome))
        requires
            old(self)@.current_score + 1 < u64::MAX,
            old(self)@.ghost_ticks < u64::MAX,
        ensures
            outcomes.0 == player_outcome(old(self)@),
            exists|draw: nat|
                final(self)@ == #[trigger] ghost_step(player_step(old(self)@), draw) && outcomes.1
                    == ghost_outcome(player_step(old(self)@), draw),
            final(self)@.wf(),
    {
        let of_player = self.player_move();
        let of_ghost = self.ghost1_move(rng);
        (of_player, of_ghost)
    }

    /// The grid, to read and to draw.
    pub fn grid(&self) -> (grid: &Maze)
        ensures
            grid@ == self@.maze,
            self@.wf(),
    {
        proof {
            use_type_invariant(self);
        }
        &self.grid
    }

    /// Where the player stands.
    pub fn player_position(&self) -> (pos: Position)
        ensures
            pos == self@.player_position,
            self@.maze.contains(pos),
    {
        proof {
            use_type_invariant(self);
        }
        self.player_position
    }

    /// Where the player is heading, if anywhere.
    pub fn current_direction(&self) -> (direction: Option<Direction>)
        ensures
            direction == self@.current_direction,
    {
        self.current_direction
    }

    /// Where the ghost stands.
    pub fn ghost_position(&self) -> (pos: Position)
        ensures
            pos == self@.ghost_position,
            self@.maze.contains(pos),
    {
        proof {
            use_type_invariant(self);
        }
        self.ghost_position
    }

    /// Where the ghost is heading, if anywhere.
    pub fn ghost_direction(&self) -> (direction: Option<Direction>)
        ensures
            direction == self@.ghost_direction,
    {
        self.ghost_direction
    }

    /// Number of ticks in a row on which the ghost kept its direction.
    pub fn ghost_ticks(&self) -> (ticks: u64)
        ensures
            ticks == self@.ghost_ticks,
    {
        self.ghost_ticks
    }

    /// The two scores.
    pub fn scores(&self) -> (scores: Scores)
        ensures
            scores.high_score == self@.high_score,
            scores.current_score == self@.current_score,
    {
        self.scores
    }

    /// Records a best score. The game itself never does; this is for the
    /// program that keeps the record.
    pub fn set_high_score(&mut self, best: u64)
        ensures
            final(self)@ == (GameView { high_score: best as nat, ..old(self)@ }),
            final(self)@.wf(),
    {
        proof {
            use_type_invariant(&*self);
        }
        self.scores.high_score = best;
    }

    /// Whether the game has ended.
    pub fn game_over(&self) -> (over: bool)
        ensures
            over == self@.game_over,
    {
        self.game_over
    }

    /// Whether a tick can be taken without a counter running over: the
    /// score has room for the two points a tick can bring, and the ghost's
    /// counter for one more tick.
    pub fn can_tick(&self) -> (ready: bool)
        ensures
            ready == (self@.current_score + 1 < u64::MAX && self@.ghost_ticks < u64::MAX),
    {
        self.scores.current_score < u64::MAX - 1 && self.ghost_ticks < u64::MAX
    }

    /// Moves the ghost one step in `direction`.
    fn ghost_arrive(&mut self, direction: Direction, ticks: u64) -> (outcome: MoveOutcome)
        requires
            old(self)@.current_score < u64::MAX,
        ensures
            final(self)@ == ghost_arrives(old(self)@, direction, ticks as nat),
            outcome == (if final(self)@.ghost_position == old(self)@.ghost_position {
                MoveOutcome::Rejected
            } else if old(self)@.maze.at(final(self)@.ghost_position) == Cell::Pellet {
                MoveOutcome::Scored
            } else {
                MoveOutcome::Moved
            }),
            final(self)@.wf(),
    {
        proof {
            use_type_invariant(&*self);
        }
        let dest = self.grid.next_position(self.ghost_position, Some(direction));
        self.ghost_direction = Some(direction);
        self.ghost_ticks = ticks;
        if dest == self.ghost_position {
            return MoveOutcome::Rejected;
        }
        let found = self.grid.get(dest);
        let left = self.grid.get(self.ghost_position);
        let scored = found == Cell::Pellet;
        if scored {
            self.scores.current_score = self.scores.current_score + 1;
            self.grid.set(dest, Cell::GhostOnPellet);
        } else {
            self.grid.set(dest, Cell::GhostMark);
        }
        if left == Cell::GhostOnPellet {
            self.grid.set(self.ghost_position, Cell::Pellet);
        } else {
            self.grid.set(self.ghost_position, Cell::Empty);
        }
        self.ghost_position = dest;
        if scored {
            MoveOutcome::Scored
        } else {
            MoveOutcome::Moved
        }
    }
}

} // verus!
