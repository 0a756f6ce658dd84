use super_snake::cell::{Cell, Color, Direction};
use super_snake::snake::{Input, Snake};

const HEAD: Color = (255, 255, 255);
const BODY: Color = (0, 255, 0);

fn cell_at(left: i64, top: i64, direction: Direction, color: Color) -> Cell {
    Cell::new(left, top, 10, direction, 40, 40, color)
}

fn single_cell_snake(direction: Direction) -> Snake {
    Snake { cells: vec![cell_at(20, 20, direction, HEAD)] }
}

#[test]
fn test_new_builds_a_column() {
    let snake = Snake::new(40, 40, 3, 10, HEAD, BODY);
    let cells = snake.get_cells();
    assert_eq!(cells.len(), 3);
    // Head on top, body below, all in the middle column, all moving up.
    assert_eq!((cells[0].get_left(), cells[0].get_top()), (20, 0));
    assert_eq!((cells[1].get_left(), cells[1].get_top()), (20, 10));
    assert_eq!((cells[2].get_left(), cells[2].get_top()), (20, 20));
    assert_eq!(cells[0].get_color(), HEAD);
    assert_eq!(cells[1].get_color(), BODY);
    assert_eq!(cells[2].get_color(), BODY);
    for c in cells.iter() {
        assert_eq!(c.get_direction(), Direction::Up);
    }
}

#[test]
fn test_turn_rejects_each_exact_reversal() {
    let opposites = [
        (Direction::Up, Direction::Down),
        (Direction::Down, Direction::Up),
        (Direction::Left, Direction::Right),
        (Direction::Right, Direction::Left),
    ];
    for (current, requested) in opposites {
        let mut snake = single_cell_snake(current);
        snake.turn(requested);
        assert_eq!(snake.cells[0].get_direction(), current);
    }
}

#[test]
fn test_turn_accepts_every_other_direction() {
    let all = [Direction::Up, Direction::Down, Direction::Left, Direction::Right];
    for current in all {
        for requested in all {
            let reversal = matches!(
                (current, requested),
                (Direction::Up, Direction::Down)
                    | (Direction::Down, Direction::Up)
                    | (Direction::Left, Direction::Right)
                    | (Direction::Right, Direction::Left)
            );
            if !reversal {
                let mut snake = single_cell_snake(current);
                snake.turn(requested);
                assert_eq!(snake.cells[0].get_direction(), requested);
            }
        }
    }
}

#[test]
fn test_go_ignores_reversal_input() {
    // Issuing Down while moving Up leaves the direction Up.
    let mut snake = single_cell_snake(Direction::Up);
    snake.go(Some(Input::Down));
    assert_eq!(snake.cells[0].get_direction(), Direction::Up);
    assert_eq!((snake.cells[0].get_left(), snake.cells[0].get_top()), (20, 10));
}

#[test]
fn test_three_ticks_wrap_scenario() {
    // A 3-cell snake on a 40x40 board, head at (20, 20) moving up,
    // ticked three times with no input: 20 -> 10 -> 0 -> wraps to 30.
    let snake_cells = vec![
        cell_at(20, 20, Direction::Up, HEAD),
        cell_at(20, 30, Direction::Up, BODY),
        cell_at(30, 30, Direction::Left, BODY),
    ];
    let mut snake = Snake { cells: snake_cells };
    snake.go(None);
    snake.go(None);
    snake.go(None);
    let cells = snake.get_cells();
    assert_eq!(cells.len(), 3);
    assert_eq!((cells[0].get_left(), cells[0].get_top()), (20, 30));
    // The body followed the head's path.
    assert_eq!((cells[1].get_left(), cells[1].get_top()), (20, 0));
    assert_eq!((cells[2].get_left(), cells[2].get_top()), (20, 10));
}

#[test]
fn test_follow_the_leader_takes_the_vacated_path() {
    // The body cell moves onto the spot the head just left, then takes
    // over the direction the head moved with.
    let mut snake = Snake {
        cells: vec![
            cell_at(20, 20, Direction::Up, HEAD),
            cell_at(10, 20, Direction::Right, BODY),
        ],
    };
    snake.go(None);
    assert_eq!((snake.cells[0].get_left(), snake.cells[0].get_top()), (20, 10));
    assert_eq!((snake.cells[1].get_left(), snake.cells[1].get_top()), (20, 20));
    assert_eq!(snake.cells[1].get_direction(), Direction::Up);
}

#[test]
fn test_is_tangled() {
    let tangled = Snake {
        cells: vec![
            cell_at(20, 20, Direction::Up, HEAD),
            cell_at(20, 30, Direction::Up, BODY),
            cell_at(20, 20, Direction::Up, BODY),
        ],
    };
    assert!(tangled.is_tangled());

    let untangled = Snake {
        cells: vec![
            cell_at(20, 20, Direction::Up, HEAD),
            cell_at(20, 30, Direction::Up, BODY),
            cell_at(20, 0, Direction::Up, BODY),
        ],
    };
    assert!(!untangled.is_tangled());
}

#[test]
fn test_change_head_grows_by_exactly_one() {
    let mut snake = Snake {
        cells: vec![
            cell_at(20, 20, Direction::Up, HEAD),
            cell_at(20, 30, Direction::Up, BODY),
        ],
    };
    let new_head = cell_at(20, 10, Direction::Stop, (9, 9, 9));
    snake.change_head(new_head);
    let cells = snake.get_cells();
    assert_eq!(cells.len(), 3);
    // The new head sits where the supplied cell was and continues the
    // old head's motion and color.
    assert_eq!((cells[0].get_left(), cells[0].get_top()), (20, 10));
    assert_eq!(cells[0].get_direction(), Direction::Up);
    assert_eq!(cells[0].get_color(), HEAD);
    // The old head keeps its position but wears the body color now.
    assert_eq!((cells[1].get_left(), cells[1].get_top()), (20, 20));
    assert_eq!(cells[1].get_color(), BODY);
    // The body cell is untouched.
    assert_eq!((cells[2].get_left(), cells[2].get_top()), (20, 30));
    assert_eq!(cells[2].get_color(), BODY);
}

#[test]
fn test_change_head_on_a_single_cell_snake() {
    let mut snake = single_cell_snake(Direction::Left);
    let new_head = cell_at(10, 20, Direction::Stop, (9, 9, 9));
    snake.change_head(new_head);
    assert_eq!(snake.cells.len(), 2);
    assert_eq!((snake.cells[0].get_left(), snake.cells[0].get_top()), (10, 20));
    assert_eq!(snake.cells[0].get_direction(), Direction::Left);
}

#[test]
fn test_is_collecting_point_looks_one_step_ahead() {
    let snake = single_cell_snake(Direction::Up);
    let ahead = cell_at(20, 10, Direction::Stop, BODY);
    let elsewhere = cell_at(20, 0, Direction::Stop, BODY);
    assert!(snake.is_collecting_point(&ahead));
    assert!(!snake.is_collecting_point(&elsewhere));
    // The look-ahead must not move the real snake.
    assert_eq!((snake.cells[0].get_left(), snake.cells[0].get_top()), (20, 20));
}
