use maze_chase::cell::{Cell, Wall};
use maze_chase::command::{Command, Key, KeyEvent};
use maze_chase::direction::Direction;
use maze_chase::game::{AppState, GameState, Scores};
use maze_chase::ghost::{list_legal_moves, list_turn_choices, pick, step_is_legal};
use maze_chase::layout::{glyphs_of, read_layout};
use maze_chase::maze::{Maze, Position};
use maze_chase::model::MoveOutcome;

fn maze_of(rows: &[&str], tunnel_row: usize) -> Maze {
    let layout: Vec<Vec<char>> = rows.iter().map(|row| glyphs_of(row)).collect();
    read_layout(&layout, tunnel_row).unwrap()
}

fn at(col: usize, row: usize) -> Position {
    Position { col, row }
}

fn find(rows: &[&str], glyph: char) -> Option<Position> {
    for (row, text) in rows.iter().enumerate() {
        if let Some(col) = text.chars().position(|c| c == glyph) {
            return Some(at(col, row));
        }
    }
    None
}

/// A game on the drawn maze, without a tunnel. The player stands on `K`
/// and the ghost on `m` or `M`; an agent that is not drawn stands in the
/// top left corner.
fn game_of(
    rows: &[&str],
    player_heading: Option<Direction>,
    ghost_heading: Option<Direction>,
) -> GameState {
    game_with_tunnel(rows, usize::MAX, player_heading, ghost_heading)
}

fn game_with_tunnel(
    rows: &[&str],
    tunnel_row: usize,
    player_heading: Option<Direction>,
    ghost_heading: Option<Direction>,
) -> GameState {
    let player = find(rows, 'K').unwrap_or(at(0, 0));
    let ghost = find(rows, 'm').or(find(rows, 'M')).unwrap_or(at(0, 0));
    GameState::new(maze_of(rows, tunnel_row), player, player_heading, ghost, ghost_heading).unwrap()
}

fn drawn(game: &GameState) -> Vec<String> {
    game.grid().glyphs().iter().map(|row| row.iter().collect()).collect()
}

#[test]
fn new_refuses_an_agent_off_the_grid() {
    assert!(GameState::new(maze_of(&["  "], 0), at(2, 0), None, at(0, 0), None).is_none());
    assert!(GameState::new(maze_of(&["  "], 0), at(0, 0), None, at(0, 1), None).is_none());
    assert!(GameState::new(maze_of(&["  "], 0), at(1, 0), None, at(0, 0), None).is_some());
}

#[test]
fn new_starts_from_nothing() {
    let game = game_of(&["K m"], Some(Direction::Up), Some(Direction::Down));
    assert_eq!(game.player_position(), at(0, 0));
    assert_eq!(game.ghost_position(), at(2, 0));
    assert_eq!(game.current_direction(), Some(Direction::Up));
    assert_eq!(game.ghost_direction(), Some(Direction::Down));
    assert_eq!(game.ghost_ticks(), 0);
    assert_eq!(game.scores(), Scores { high_score: 0, current_score: 0 });
    assert!(!game.game_over());
    assert_eq!(game.phase(), AppState::Playing);
    assert_eq!(drawn(&game), ["K m"]);
}

#[test]
fn start_state_places_the_agents() {
    let rows = ["          "; 11];
    let game = GameState::start_state(maze_of(&rows, 10)).unwrap();
    assert_eq!(game.player_position(), at(2, 10));
    assert_eq!(game.ghost_position(), at(9, 10));
    assert_eq!(game.current_direction(), None);
    assert_eq!(game.ghost_direction(), Some(Direction::Left));
    assert_eq!(game.ghost_ticks(), 0);
    assert_eq!(game.scores(), Scores { high_score: 0, current_score: 0 });
    assert!(!game.game_over());
}

#[test]
fn start_state_needs_room_for_both_agents() {
    assert!(GameState::start_state(maze_of(&["          "; 10], 0)).is_none());
    assert!(GameState::start_state(maze_of(&["         "; 11], 0)).is_none());
}

#[test]
fn player_rejected_by_the_wall_in_the_row() {
    let rows = ["|K  # |"];
    let mut game = game_of(&rows, Some(Direction::Right), None);
    assert_eq!(game.player_move(), MoveOutcome::Moved);
    assert_eq!(game.player_move(), MoveOutcome::Moved);
    assert_eq!(game.player_position(), at(3, 0));
    let before = drawn(&game);
    assert_eq!(before, ["|  K# |"]);
    assert_eq!(game.player_move(), MoveOutcome::Rejected);
    assert_eq!(game.player_position(), at(3, 0));
    assert_eq!(drawn(&game), before);
    assert!(!game.game_over());
    assert_eq!(game.scores().current_score, 0);
    assert_eq!(game.player_move(), MoveOutcome::Rejected);
    assert_eq!(drawn(&game), before);
}

#[test]
fn every_kind_of_wall_rejects_the_player() {
    for wall in ['#', '|', '_', '-'] {
        let row: String = ['K', wall].iter().collect();
        let mut game = game_of(&[&row, "m "], Some(Direction::Right), None);
        assert_eq!(game.player_move(), MoveOutcome::Rejected);
        assert_eq!(game.player_position(), at(0, 0));
        assert_eq!(drawn(&game), [row.as_str(), "m "]);
        assert!(!game.game_over());
    }
}

#[test]
fn player_eats_a_pellet() {
    let mut game = game_of(&["K\u{2022} ", "  m"], Some(Direction::Right), None);
    assert_eq!(game.player_move(), MoveOutcome::Scored);
    assert_eq!(game.scores().current_score, 1);
    assert_eq!(game.scores().high_score, 0);
    assert_eq!(game.player_position(), at(1, 0));
    assert_eq!(game.grid().get(at(1, 0)), Cell::PlayerMark);
    assert_eq!(game.grid().get(at(0, 0)), Cell::Empty);
    assert_eq!(game.player_move(), MoveOutcome::Moved);
    assert_eq!(game.scores().current_score, 1);
    assert_eq!(drawn(&game), ["  K", "  m"]);
}

#[test]
fn player_runs_into_the_ghost() {
    let mut game = game_of(&["Km "], Some(Direction::Right), None);
    assert!(!game.game_over());
    assert_eq!(game.player_move(), MoveOutcome::Collision);
    assert!(game.game_over());
    assert_eq!(game.phase(), AppState::GameOver);
    assert_eq!(game.player_position(), at(0, 0));
    assert_eq!(drawn(&game), ["Km "]);
}

#[test]
fn player_runs_into_the_ghost_on_a_pellet() {
    let mut game = game_of(&["KM "], Some(Direction::Right), None);
    assert_eq!(game.player_move(), MoveOutcome::Collision);
    assert!(game.game_over());
    assert_eq!(game.scores().current_score, 0);
    assert_eq!(drawn(&game), ["KM "]);
}

#[test]
fn player_without_direction_is_idle() {
    let mut game = game_of(&["K\u{2022}m"], None, None);
    assert_eq!(game.player_move(), MoveOutcome::Idle);
    assert_eq!(drawn(&game), ["K\u{2022}m"]);
    assert_eq!(game.player_position(), at(0, 0));
}

#[test]
fn player_facing_the_edge_is_idle() {
    let mut game = game_of(&["K ", " m"], Some(Direction::Left), None);
    assert_eq!(game.player_move(), MoveOutcome::Idle);
    assert_eq!(drawn(&game), ["K ", " m"]);
    game.apply_command(Command::Move(Direction::Up));
    assert_eq!(game.player_move(), MoveOutcome::Idle);
    assert_eq!(drawn(&game), ["K ", " m"]);
}

#[test]
fn player_goes_through_the_tunnel() {
    let mut game = game_with_tunnel(&["K  \u{2022}", "m   "], 0, Some(Direction::Left), None);
    assert_eq!(game.player_move(), MoveOutcome::Scored);
    assert_eq!(game.player_position(), at(3, 0));
    assert_eq!(drawn(&game), ["   K", "m   "]);
    game.apply_command(Command::Move(Direction::Right));
    assert_eq!(game.player_move(), MoveOutcome::Moved);
    assert_eq!(game.player_position(), at(0, 0));
}

#[test]
fn nothing_moves_once_the_game_is_over() {
    let mut game = game_of(&["Km ", "   "], Some(Direction::Right), Some(Direction::Down));
    assert_eq!(game.player_move(), MoveOutcome::Collision);
    game.apply_command(Command::Move(Direction::Down));
    let before = drawn(&game);
    assert_eq!(game.player_move(), MoveOutcome::Idle);
    assert_eq!(game.ghost_move_with(0), MoveOutcome::Idle);
    assert_eq!(drawn(&game), before);
    assert_eq!(game.player_position(), at(0, 0));
    assert_eq!(game.ghost_position(), at(1, 0));
    assert_eq!(game.ghost_ticks(), 0);
    assert!(game.game_over());
}

#[test]
fn ghost_goes_through_the_tunnel() {
    let mut game = game_with_tunnel(&["m   ", "K   "], 0, None, Some(Direction::Left));
    assert_eq!(game.ghost_move_with(0), MoveOutcome::Moved);
    assert_eq!(game.ghost_position(), at(3, 0));
    assert_eq!(game.ghost_direction(), Some(Direction::Left));
    assert_eq!(drawn(&game), ["   m", "K   "]);
}

#[test]
fn ghost_keeps_going_and_counts() {
    let mut game = game_of(&["m   ", "K   "], None, Some(Direction::Right));
    for step in 1..=3u64 {
        assert_eq!(game.ghost_move_with(5), MoveOutcome::Moved);
        assert_eq!(game.ghost_ticks(), step);
        assert_eq!(game.ghost_direction(), Some(Direction::Right));
    }
    assert_eq!(game.ghost_position(), at(3, 0));
    assert_eq!(game.ghost_move_with(5), MoveOutcome::Idle);
    assert_eq!(game.ghost_ticks(), 3);
}

#[test]
fn ghost_runs_into_the_player() {
    let mut game = game_of(&["mK "], Some(Direction::Right), Some(Direction::Right));
    assert_eq!(game.ghost_move_with(0), MoveOutcome::Collision);
    assert!(game.game_over());
    assert_eq!(game.ghost_position(), at(0, 0));
    assert_eq!(game.ghost_ticks(), 0);
    assert_eq!(drawn(&game), ["mK "]);
}

#[test]
fn ghost_covers_a_pellet_and_gives_it_back() {
    let mut game = game_of(&["m\u{2022} ", "K  "], None, Some(Direction::Right));
    assert_eq!(game.ghost_move_with(0), MoveOutcome::Scored);
    assert_eq!(game.grid().get(at(1, 0)), Cell::GhostOnPellet);
    assert_eq!(game.grid().get(at(0, 0)), Cell::Empty);
    assert_eq!(game.scores().current_score, 1);
    assert_eq!(game.ghost_move_with(0), MoveOutcome::Moved);
    assert_eq!(game.grid().get(at(1, 0)), Cell::Pellet);
    assert_eq!(game.grid().get(at(2, 0)), Cell::GhostMark);
    assert_eq!(game.scores().current_score, 1);
    assert_eq!(drawn(&game), [" \u{2022}m", "K  "]);
}

#[test]
fn ghost_steps_from_pellet_to_pellet() {
    let mut game = game_of(&["M\u{2022}", "K "], None, Some(Direction::Right));
    assert_eq!(game.ghost_move_with(0), MoveOutcome::Scored);
    assert_eq!(drawn(&game), ["\u{2022}M", "K "]);
}

#[test]
fn ghost_without_direction_is_idle() {
    let mut game = game_of(&["mK"], None, None);
    assert_eq!(game.ghost_move_with(3), MoveOutcome::Idle);
    assert_eq!(drawn(&game), ["mK"]);
    assert_eq!(game.ghost_choices(), 0);
}

#[test]
fn ghost_in_a_dead_end_turns_back() {
    let rows = ["###", " m#", "###", "K  "];
    for draw in 0..5 {
        let mut game = game_of(&rows, None, Some(Direction::Right));
        assert_eq!(game.ghost_choices(), 1);
        assert_eq!(game.ghost_move_with(draw), MoveOutcome::Moved);
        assert_eq!(game.ghost_direction(), Some(Direction::Left));
        assert_eq!(game.ghost_position(), at(0, 1));
        assert_eq!(game.ghost_ticks(), 0);
    }
}

#[test]
fn ghost_in_a_corner_may_turn_back() {
    let rows = ["###", " m#", "# #", "K  "];
    let mut game = game_of(&rows, None, Some(Direction::Right));
    assert_eq!(game.ghost_choices(), 2);
    assert_eq!(
        list_turn_choices(game.grid(), at(1, 1), Direction::Right),
        [Direction::Down, Direction::Left]
    );
    assert_eq!(game.ghost_move_with(1), MoveOutcome::Moved);
    assert_eq!(game.ghost_direction(), Some(Direction::Left));
    let mut game = game_of(&rows, None, Some(Direction::Right));
    assert_eq!(game.ghost_move_with(0), MoveOutcome::Moved);
    assert_eq!(game.ghost_direction(), Some(Direction::Down));
    assert_eq!(game.ghost_position(), at(1, 2));
}

#[test]
fn ghost_does_not_turn_back_at_an_intersection() {
    let rows = ["# #", " m#", "# #", "K  "];
    for draw in 0..12 {
        let mut game = game_of(&rows, None, Some(Direction::Right));
        assert_eq!(game.ghost_choices(), 2);
        assert_eq!(game.ghost_move_with(draw), MoveOutcome::Moved);
        let expected = if draw % 2 == 0 { Direction::Up } else { Direction::Down };
        assert_eq!(game.ghost_direction(), Some(expected));
        assert_ne!(game.ghost_direction(), Some(Direction::Left));
        assert_eq!(game.ghost_ticks(), 0);
    }
}

#[test]
fn ghost_walled_in_stays() {
    let rows = ["K# ", "#m#", " # "];
    let mut game = game_of(&rows, None, Some(Direction::Up));
    assert_eq!(game.ghost_choices(), 0);
    assert_eq!(game.ghost_move_with(2), MoveOutcome::Rejected);
    assert_eq!(game.ghost_direction(), Some(Direction::Up));
    assert_eq!(game.ghost_position(), at(1, 1));
    assert_eq!(drawn(&game), rows);
}

#[test]
fn ghost_resets_its_counter_on_a_turn() {
    let rows = ["m  #", "#K #"];
    let mut game = game_of(&rows, None, Some(Direction::Right));
    assert_eq!(game.ghost_move_with(0), MoveOutcome::Moved);
    assert_eq!(game.ghost_move_with(0), MoveOutcome::Moved);
    assert_eq!(game.ghost_ticks(), 2);
    assert_eq!(game.ghost_choices(), 2);
    assert_eq!(
        list_legal_moves(game.grid(), game.ghost_position()),
        [Direction::Up, Direction::Down, Direction::Left]
    );
    assert_eq!(
        list_turn_choices(game.grid(), game.ghost_position(), Direction::Right),
        [Direction::Up, Direction::Down]
    );
    assert_eq!(game.ghost_move_with(1), MoveOutcome::Moved);
    assert_eq!(game.ghost_ticks(), 0);
    assert_eq!(game.ghost_direction(), Some(Direction::Down));
    assert_eq!(game.ghost_position(), at(2, 1));
}

#[test]
fn ghost_that_turns_to_the_edge_does_not_move() {
    let rows = ["m#", "#K"];
    let mut game = game_of(&rows, None, Some(Direction::Right));
    assert_eq!(
        list_legal_moves(game.grid(), at(0, 0)),
        [Direction::Up, Direction::Left]
    );
    assert_eq!(game.ghost_move_with(0), MoveOutcome::Rejected);
    assert_eq!(game.ghost_direction(), Some(Direction::Up));
    assert_eq!(game.ghost_position(), at(0, 0));
    assert_eq!(game.ghost_ticks(), 0);
    assert_eq!(drawn(&game), rows);
}

#[test]
fn legal_steps_are_those_not_into_walls() {
    let maze = maze_of(&["#\u{2022}#", "K m", "#_#"], 9);
    assert!(step_is_legal(&maze, at(1, 1), Direction::Up));
    assert!(!step_is_legal(&maze, at(1, 1), Direction::Down));
    assert!(step_is_legal(&maze, at(1, 1), Direction::Left));
    assert!(step_is_legal(&maze, at(1, 1), Direction::Right));
    assert_eq!(
        list_legal_moves(&maze, at(1, 1)),
        [Direction::Up, Direction::Left, Direction::Right]
    );
    assert_eq!(list_legal_moves(&maze, at(0, 0)), [Direction::Down, Direction::Right]);
}

#[test]
fn pick_counts_round_the_choices() {
    let choices = vec![Direction::Up, Direction::Left, Direction::Right];
    assert_eq!(pick(&choices, 0), Some(Direction::Up));
    assert_eq!(pick(&choices, 1), Some(Direction::Left));
    assert_eq!(pick(&choices, 2), Some(Direction::Right));
    assert_eq!(pick(&choices, 3), Some(Direction::Up));
    assert_eq!(pick(&choices, 7), Some(Direction::Left));
    assert_eq!(pick(&vec![], 4), None);
}

#[test]
fn commands_only_head_the_player() {
    let mut game = game_of(&["K \u{2022}m"], None, Some(Direction::Left));
    let before = drawn(&game);
    assert_eq!(game.apply_command(Command::Move(Direction::Right)), AppState::Playing);
    assert_eq!(game.current_direction(), Some(Direction::Right));
    assert_eq!(game.player_position(), at(0, 0));
    assert_eq!(drawn(&game), before);
    assert_eq!(game.apply_command(Command::Reset), AppState::Restarting);
    assert_eq!(game.apply_command(Command::Quit), AppState::GameOver);
    assert_eq!(game.current_direction(), Some(Direction::Right));
    assert!(!game.game_over());
    assert_eq!(drawn(&game), before);
}

#[test]
fn text_input_decodes_and_applies() {
    let mut game = game_of(&["K m"], None, None);
    let press = |symbol| KeyEvent { key: Key::Char(symbol), released: false };
    assert_eq!(game.text_input(press('s')), AppState::Playing);
    assert_eq!(game.current_direction(), Some(Direction::Down));
    assert_eq!(game.text_input(KeyEvent { key: Key::Char('w'), released: true }), AppState::Playing);
    assert_eq!(game.current_direction(), Some(Direction::Down));
    assert_eq!(game.text_input(press('x')), AppState::Playing);
    assert_eq!(game.current_direction(), Some(Direction::Down));
    assert_eq!(game.text_input(press('r')), AppState::Restarting);
    assert_eq!(game.text_input(press('q')), AppState::GameOver);
    assert_eq!(game.text_input(KeyEvent { key: Key::Other, released: false }), AppState::Playing);
}

#[test]
fn next_positions_are_peeked_at() {
    let game = game_of(&["K\u{2022} ", "#m "], Some(Direction::Right), Some(Direction::Left));
    let of_player = game.update_next_position();
    assert_eq!(of_player.pos, at(1, 0));
    assert_eq!(of_player.contents, Cell::Pellet);
    let of_ghost = game.update_next_position_ghost1();
    assert_eq!(of_ghost.pos, at(0, 1));
    assert_eq!(of_ghost.contents, Cell::Wall(Wall::Block));
}

#[test]
fn marks_stay_single_through_a_game() {
    let rows = ["#######", "#K\u{2022}\u{2022} \u{2022}#", "#\u{2022}# #\u{2022}#", "#\u{2022}\u{2022}\u{2022}\u{2022}m#", "#######"];
    let mut game = game_of(&rows, Some(Direction::Right), Some(Direction::Left));
    let headings = [Direction::Right, Direction::Down, Direction::Left, Direction::Up];
    let mut score = 0;
    for step in 0..40usize {
        game.apply_command(Command::Move(headings[(step / 3) % 4]));
        let of_player = game.player_move();
        let of_ghost = game.ghost_move_with(step * 7 + 1);
        for outcome in [of_player, of_ghost] {
            if outcome == MoveOutcome::Scored {
                score += 1;
            }
        }
        assert_eq!(game.scores().current_score, score);
        let text: String = drawn(&game).concat();
        assert!(text.chars().filter(|&c| c == 'K').count() <= 1);
        assert!(text.chars().filter(|&c| c == 'm' || c == 'M').count() <= 1);
        assert_eq!(text.chars().filter(|&c| c == '#').count(), 22);
    }
}

#[test]
fn can_tick_while_the_counters_have_room() {
    let game = game_of(&["K m"], None, None);
    assert!(game.can_tick());
}

#[test]
fn high_score_is_kept_by_the_caller() {
    let mut game = game_of(&["K\u{2022}m"], Some(Direction::Right), None);
    game.set_high_score(12);
    assert_eq!(game.player_move(), MoveOutcome::Scored);
    assert_eq!(game.scores(), Scores { high_score: 12, current_score: 1 });
    assert_eq!(drawn(&game), [" Km"]);
}
