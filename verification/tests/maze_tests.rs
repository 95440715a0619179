use maze_chase::cell::{Cell, Wall};
use maze_chase::direction::Direction;
use maze_chase::layout::{glyphs_of, read_layout};
use maze_chase::maze::{Maze, Position};

fn maze_of(rows: &[&str], tunnel_row: usize) -> Maze {
    let layout: Vec<Vec<char>> = rows.iter().map(|row| glyphs_of(row)).collect();
    read_layout(&layout, tunnel_row).unwrap()
}

fn at(col: usize, row: usize) -> Position {
    Position { col, row }
}

const DIRECTIONS: [Direction; 4] =
    [Direction::Up, Direction::Down, Direction::Left, Direction::Right];

#[test]
fn new_refuses_what_is_no_rectangle() {
    assert!(Maze::new(vec![], 0).is_none());
    assert!(Maze::new(vec![vec![]], 0).is_none());
    assert!(Maze::new(vec![vec![Cell::Empty], vec![]], 0).is_none());
    assert!(Maze::new(vec![vec![Cell::Empty, Cell::Empty], vec![Cell::Empty]], 0).is_none());
    assert!(Maze::new(vec![vec![Cell::Empty], vec![Cell::Empty, Cell::Empty]], 0).is_none());
}

#[test]
fn new_keeps_the_rows() {
    let maze = Maze::new(
        vec![vec![Cell::Empty, Cell::Pellet, Cell::Wall(Wall::Block)], vec![Cell::Pellet; 3]],
        1,
    )
    .unwrap();
    assert_eq!(maze.height(), 2);
    assert_eq!(maze.width(), 3);
    assert_eq!(maze.tunnel_row(), 1);
    assert_eq!(maze.get(at(0, 0)), Cell::Empty);
    assert_eq!(maze.get(at(1, 0)), Cell::Pellet);
    assert_eq!(maze.get(at(2, 0)), Cell::Wall(Wall::Block));
    assert_eq!(maze.get(at(2, 1)), Cell::Pellet);
}

#[test]
fn contains_is_the_rectangle() {
    let maze = maze_of(&["   ", "   "], 0);
    assert!(maze.contains(at(0, 0)));
    assert!(maze.contains(at(2, 1)));
    assert!(!maze.contains(at(3, 0)));
    assert!(!maze.contains(at(0, 2)));
}

#[test]
fn set_overwrites_one_cell() {
    let mut maze = maze_of(&["   ", "   "], 0);
    maze.set(at(1, 1), Cell::Pellet);
    for row in 0..2 {
        for col in 0..3 {
            let expected = if (col, row) == (1, 1) { Cell::Pellet } else { Cell::Empty };
            assert_eq!(maze.get(at(col, row)), expected);
        }
    }
    maze.set(at(1, 1), Cell::Wall(Wall::Top));
    assert_eq!(maze.get(at(1, 1)), Cell::Wall(Wall::Top));
    assert_eq!(maze.width(), 3);
    assert_eq!(maze.height(), 2);
}

#[test]
fn next_position_steps_by_one() {
    let maze = maze_of(&["   ", "   ", "   "], 7);
    let middle = at(1, 1);
    assert_eq!(maze.next_position(middle, Some(Direction::Up)), at(1, 0));
    assert_eq!(maze.next_position(middle, Some(Direction::Down)), at(1, 2));
    assert_eq!(maze.next_position(middle, Some(Direction::Left)), at(0, 1));
    assert_eq!(maze.next_position(middle, Some(Direction::Right)), at(2, 1));
}

#[test]
fn next_position_without_direction_stays() {
    let maze = maze_of(&["   ", "   "], 0);
    assert_eq!(maze.next_position(at(2, 1), None), at(2, 1));
}

#[test]
fn next_position_stops_at_the_edges() {
    let maze = maze_of(&["   ", "   ", "   "], 1);
    assert_eq!(maze.next_position(at(1, 0), Some(Direction::Up)), at(1, 0));
    assert_eq!(maze.next_position(at(1, 2), Some(Direction::Down)), at(1, 2));
    assert_eq!(maze.next_position(at(0, 0), Some(Direction::Left)), at(0, 0));
    assert_eq!(maze.next_position(at(2, 2), Some(Direction::Right)), at(2, 2));
}

#[test]
fn next_position_wraps_on_the_tunnel_row() {
    let maze = maze_of(&["   ", "   ", "   "], 1);
    assert_eq!(maze.next_position(at(0, 1), Some(Direction::Left)), at(2, 1));
    assert_eq!(maze.next_position(at(2, 1), Some(Direction::Right)), at(0, 1));
    assert_eq!(maze.next_position(at(1, 1), Some(Direction::Left)), at(0, 1));
    assert_eq!(maze.next_position(at(1, 1), Some(Direction::Right)), at(2, 1));
}

#[test]
fn next_position_never_leaves_the_grid() {
    let maze = maze_of(&["    ", "    ", "    "], 1);
    for row in 0..3 {
        for col in 0..4 {
            for direction in DIRECTIONS {
                let next = maze.next_position(at(col, row), Some(direction));
                assert!(maze.contains(next));
                let moved = next.col.abs_diff(col) + next.row.abs_diff(row);
                let wrapped = row == 1 && next.row == 1 && next.col.abs_diff(col) == 3;
                assert!(moved <= 1 || wrapped);
            }
        }
    }
}

#[test]
fn glyphs_draw_the_maze() {
    let rows = ["|K \u{2022}#", "_m-M "];
    let maze = maze_of(&rows, 0);
    let drawn: Vec<String> = maze.glyphs().iter().map(|row| row.iter().collect()).collect();
    assert_eq!(drawn, rows);
}

#[test]
fn a_maze_without_a_tunnel_never_wraps() {
    let maze = maze_of(&["  ", "  "], 2);
    for row in 0..2 {
        assert_eq!(maze.next_position(at(0, row), Some(Direction::Left)), at(0, row));
        assert_eq!(maze.next_position(at(1, row), Some(Direction::Right)), at(1, row));
    }
}
