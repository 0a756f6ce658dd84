use super_snake::cell::{Cell, Color, Direction, MAX_DIM};

const RED: Color = (255, 0, 0);

fn cell_at(left: i64, top: i64, direction: Direction) -> Cell {
    Cell::new(left, top, 10, direction, 40, 40, RED)
}

#[test]
fn test_step_moves_one_cell() {
    let mut c = cell_at(20, 20, Direction::Up);
    c.step();
    assert_eq!((c.get_left(), c.get_top()), (20, 10));

    let mut c = cell_at(20, 20, Direction::Down);
    c.step();
    assert_eq!((c.get_left(), c.get_top()), (20, 30));

    let mut c = cell_at(20, 20, Direction::Left);
    c.step();
    assert_eq!((c.get_left(), c.get_top()), (10, 20));

    let mut c = cell_at(20, 20, Direction::Right);
    c.step();
    assert_eq!((c.get_left(), c.get_top()), (30, 20));
}

#[test]
fn test_step_stop_is_a_no_op() {
    let mut c = cell_at(20, 20, Direction::Stop);
    c.step();
    assert_eq!((c.get_left(), c.get_top()), (20, 20));
}

#[test]
fn test_step_wraps_at_each_edge() {
    // Stepping outward from the extreme coordinate lands on the
    // opposite edge, never out of bounds.
    let mut c = cell_at(20, 0, Direction::Up);
    c.step();
    assert_eq!((c.get_left(), c.get_top()), (20, 30));

    let mut c = cell_at(20, 30, Direction::Down);
    c.step();
    assert_eq!((c.get_left(), c.get_top()), (20, 0));

    let mut c = cell_at(0, 20, Direction::Left);
    c.step();
    assert_eq!((c.get_left(), c.get_top()), (30, 20));

    let mut c = cell_at(30, 20, Direction::Right);
    c.step();
    assert_eq!((c.get_left(), c.get_top()), (0, 20));
}

#[test]
fn test_edges_and_color() {
    let mut c = cell_at(10, 20, Direction::Stop);
    assert_eq!(c.get_left(), 10);
    assert_eq!(c.get_right(), 20);
    assert_eq!(c.get_top(), 20);
    assert_eq!(c.get_bottom(), 30);
    assert_eq!(c.get_color(), RED);
    c.set_color((0, 255, 0));
    assert_eq!(c.get_color(), (0, 255, 0));
    c.set_direction(Direction::Left);
    assert_eq!(c.get_direction(), Direction::Left);
}

#[test]
fn test_step_on_the_largest_board() {
    // A single cell filling the largest accepted board wraps onto
    // itself in every direction.
    let mut c = Cell::new(0, 0, MAX_DIM, Direction::Up, MAX_DIM, MAX_DIM, RED);
    c.step();
    assert_eq!((c.get_left(), c.get_top()), (0, 0));
    c.set_direction(Direction::Right);
    c.step();
    assert_eq!((c.get_left(), c.get_top()), (0, 0));
}

#[test]
fn test_overlap_is_position_equality() {
    let a = cell_at(10, 20, Direction::Up);
    let b = cell_at(10, 20, Direction::Down);
    let c = cell_at(20, 20, Direction::Up);
    assert!(a.overlap(&b));
    assert!(b.overlap(&a));
    assert!(!a.overlap(&c));
}
