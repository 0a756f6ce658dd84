use vstd::prelude::*;

use crate::cell::{Cell, Color, Direction, MAX_DIM};

verus! {

/// One directional input from the player, already decoded from whatever
/// key or button the caller reads.
#[derive(Clone, Copy, Debug, PartialEq, Eq, Structural)]
pub enum Input {
    Up,
    Down,
    Left,
    Right,
}

/// The direction a given input asks for.
pub open spec fn input_direction(input: Input) -> Direction {
    match input {
        Input::Up => Direction::Up,
        Input::Down => Direction::Down,
        Input::Left => Direction::Left,
        Input::Right => Direction::Right,
    }
}

/// Exact reversals: the only direction changes a snake head refuses.
pub open spec fn is_reversal(current: Direction, requested: Direction) -> bool {
    ||| (current == Direction::Up && requested == Direction::Down)
    ||| (current == Direction::Down && requested == Direction::Up)
    ||| (current == Direction::Left && requested == Direction::Right)
    ||| (current == Direction::Right && requested == Direction::Left)
}

/// Direction arbitration at the head: an exact reversal leaves the
/// current direction in force; any other request takes effect.
pub open spec fn arbitrate(current: Direction, requested: Direction) -> Direction {
    if is_reversal(current, requested) {
        current
    } else {
        requested
    }
}

/// Cell `i` after one whole-snake step: every cell moves by its own
/// current direction, and then every body cell takes over the direction
/// the cell ahead of it just moved with, so that it will retrace that
/// cell's path.  The direction relay itself is the path memory; no
/// position history is stored.
pub open spec fn stepped_cell(cs: Seq<Cell>, i: int) -> Cell {
    if i == 0 {
        cs[0].stepped()
    } else {
        Cell { direction: cs[i - 1].direction, ..cs[i].stepped() }
    }
}

/// The whole cell sequence after one snake step.
pub open spec fn stepped_cells(cs: Seq<Cell>) -> Seq<Cell> {
    Seq::new(cs.len(), |i: int| stepped_cell(cs, i))
}

/// The cell sequence after direction arbitration on the head.
pub open spec fn turned_cells(cs: Seq<Cell>, input: Option<Input>) -> Seq<Cell> {
    match input {
        None => cs,
        Some(inp) => cs.update(
            0,
            Cell { direction: arbitrate(cs[0].direction, input_direction(inp)), ..cs[0] },
        ),
    }
}

/// One whole tick of the snake: advance every cell, then arbitrate the
/// requested turn on the head.
pub open spec fn gone_cells(cs: Seq<Cell>, input: Option<Input>) -> Seq<Cell> {
    turned_cells(stepped_cells(cs), input)
}

/// Self-collision: the head shares its position with some body cell.
pub open spec fn tangled(cs: Seq<Cell>) -> bool {
    exists|i: int| 1 <= i < cs.len() && (#[trigger] cs[i]).overlaps(cs[0])
}

/// The cell sequence after growth: the old head is recolored to the
/// body color, and the new cell - inheriting the old head's direction
/// and color - is prepended as the new head.  No existing cell moves.
pub open spec fn grown_cells(cs: Seq<Cell>, new_head: Cell) -> Seq<Cell> {
    let body_color = if cs.len() >= 2 {
        cs[1].color
    } else {
        cs[0].color
    };
    cs.update(0, Cell { color: body_color, ..cs[0] }).insert(
        0,
        Cell { direction: cs[0].direction, color: cs[0].color, ..new_head },
    )
}

/// An ordered, non-empty body of cells; `cells[0]` is the head.
pub struct Snake {
    pub cells: Vec<Cell>,
}

impl Snake {
    /// Well-formedness: at least the head exists and every cell sits on
    /// the board grid.
    pub open spec fn wf(self) -> bool {
        &&& self.cells@.len() >= 1
        &&& forall|i: int| 0 <= i < self.cells@.len() ==> (#[trigger] self.cells@[i]).wf()
    }

    /// The initial body: a vertical column in the middle of the board,
    /// all cells moving up, with the head (the topmost cell, first in
    /// the sequence) in the head color and the rest in the body color.
    pub open spec fn initial_cell(
        screen_width: i64,
        screen_height: i64,
        initial_cell_count: i64,
        cell_size: i64,
        head_color: Color,
        snake_color: Color,
        i: int,
    ) -> Cell {
        Cell {
            left: (screen_width / 2) as i64,
            top: (screen_height / 2 - (initial_cell_count - 1 - i) * cell_size) as i64,
            size: cell_size,
            direction: Direction::Up,
            screen_width,
            screen_height,
            color: if i == 0 {
                head_color
            } else {
                snake_color
            },
        }
    }

    pub fn new(
        screen_width: i64,
        screen_height: i64,
        initial_cell_count: i64,
        cell_size: i64,
        head_color: Color,
        snake_color: Color,
    ) -> (r: Snake)
        requires
            1 <= cell_size,
            cell_size <= screen_width <= MAX_DIM,
            cell_size <= screen_height <= MAX_DIM,
            screen_width % cell_size == 0,
            screen_height % cell_size == 0,
            (screen_width / 2) % (cell_size as int) == 0,
            (screen_height / 2) % (cell_size as int) == 0,
            1 <= initial_cell_count,
            (initial_cell_count - 1) * cell_size <= screen_height / 2,
        ensures
            r.wf(),
            r.cells@.len() == initial_cell_count,
            forall|i: int|
                0 <= i < initial_cell_count ==> #[trigger] r.cells@[i] == Self::initial_cell(
                    screen_width,
                    screen_height,
                    initial_cell_count,
                    cell_size,
                    head_color,
                    snake_color,
                    i,
                ),
    {
        let mut cells: Vec<Cell> = Vec::new();
        let mut i: i64 = 0;
        while i < initial_cell_count
            invariant
                0 <= i <= initial_cell_count,
                1 <= cell_size,
                cell_size <= screen_width <= MAX_DIM,
                cell_size <= screen_height <= MAX_DIM,
                screen_width % cell_size == 0,
                screen_height % cell_size == 0,
                (screen_width / 2) % (cell_size as int) == 0,
                (screen_height / 2) % (cell_size as int) == 0,
                1 <= initial_cell_count,
                (initial_cell_count - 1) * cell_size <= screen_height / 2,
                cells@.len() == i,
                forall|j: int|
                    0 <= j < i ==> #[trigger] cells@[j] == Self::initial_cell(
                        screen_width,
                        screen_height,
                        initial_cell_count,
                        cell_size,
                        head_color,
                        snake_color,
                        j,
                    ),
            decreases initial_cell_count - i,
        {
            proof {
                lemma_initial_offsets(initial_cell_count as int, cell_size as int, i as int);
            }
            let left = screen_width / 2;
            let top = screen_height / 2 - (initial_cell_count - 1 - i) * cell_size;
            let color = if i == 0 {
                head_color
            } else {
                snake_color
            };
            let cell = Cell::new(
                left,
                top,
                cell_size,
                Direction::Up,
                screen_width,
                screen_height,
                color,
            );
            cells.push(cell);
            i = i + 1;
        }
        let snake = Snake { cells };
        proof {
            assert forall|k: int| 0 <= k < snake.cells@.len() implies (
            #[trigger] snake.cells@[k]).wf() by {
                lemma_initial_offsets(initial_cell_count as int, cell_size as int, k);
                crate::cell::lemma_aligned_add_sub(
                    screen_height as int / 2,
                    (initial_cell_count - 1 - k) * cell_size,
                    cell_size as int,
                );
            }
        }
        snake
    }

    /// Advance the whole body one step, tail first, relaying each
    /// cell's direction to the cell behind it.
    pub fn step(&mut self)
        requires
            old(self).wf(),
        ensures
            final(self).wf(),
            final(self).cells@ == stepped_cells(old(self).cells@),
    {
        let ghost orig = self.cells@;
        let n = self.cells.len();
        let mut i = n;
        while i > 0
            invariant
                0 <= i <= n,
                n == orig.len(),
                self.cells@.len() == n,
                forall|j: int| 0 <= j < orig.len() ==> (#[trigger] orig[j]).wf(),
                forall|j: int| 0 <= j < i ==> self.cells@[j] == orig[j],
                i < n ==> self.cells@[i as int] == orig[i as int].stepped(),
                forall|j: int| i < j < n ==> self.cells@[j] == #[trigger] stepped_cell(orig, j),
            decreases i,
        {
            i = i - 1;
            let mut c = self.cells[i];
            c.step();
            self.cells[i] = c;
            if i + 1 < n {
                let d = c.get_direction();
                let mut behind = self.cells[i + 1];
                behind.set_direction(d);
                self.cells[i + 1] = behind;
            }
        }
        proof {
            assert(self.cells@ =~= stepped_cells(orig));
            assert forall|j: int| 0 <= j < self.cells@.len() implies (
            #[trigger] self.cells@[j]).wf() by {
                crate::cell::lemma_step_wraps(orig[j]);
            }
        }
    }

    /// Ask the head to turn.  An exact reversal is refused and leaves
    /// the direction unchanged; anything else takes effect at once.
    pub fn turn(&mut self, new_direction: Direction)
        requires
            old(self).wf(),
        ensures
            final(self).wf(),
            final(self).cells@ == old(self).cells@.update(
                0,
                Cell {
                    direction: arbitrate(old(self).cells@[0].direction, new_direction),
                    ..old(self).cells@[0]
                },
            ),
    {
        let head_direction = self.cells[0].get_direction();
        let rejected = match (head_direction, new_direction) {
            (Direction::Down, Direction::Up) => true,
            (Direction::Up, Direction::Down) => true,
            (Direction::Left, Direction::Right) => true,
            (Direction::Right, Direction::Left) => true,
            _ => false,
        };
        if !rejected {
            let mut head = self.cells[0];
            head.set_direction(new_direction);
            self.cells[0] = head;
        }
        proof {
            assert(self.cells@ =~= old(self).cells@.update(
                0,
                Cell {
                    direction: arbitrate(old(self).cells@[0].direction, new_direction),
                    ..old(self).cells@[0]
                },
            ));
        }
    }

    pub fn get_cells(&self) -> (r: &Vec<Cell>)
        ensures
            r@ == self.cells@,
    {
        &self.cells
    }

    /// The terminal self-collision test: does the head share its
    /// position with any other cell?
    pub fn is_tangled(&self) -> (r: bool)
        requires
            self.wf(),
        ensures
            r == tangled(self.cells@),
    {
        let n = self.cells.len();
        let mut j: usize = 1;
        while j < n
            invariant
                1 <= j <= n,
                n == self.cells@.len(),
                forall|k: int| 1 <= k < j ==> !(#[trigger] self.cells@[k]).overlaps(self.cells@[0]),
            decreases n - j,
        {
            if self.cells[j].overlap(&self.cells[0]) {
                return true;
            }
            j = j + 1;
        }
        false
    }

    /// Growth: recolor the old head to the body color, hand the old
    /// head's direction and color to `new_head`, and prepend it.  The
    /// body becomes exactly one cell longer; nothing else moves.
    pub fn change_head(&mut self, new_head: Cell)
        requires
            old(self).wf(),
            new_head.wf(),
        ensures
            final(self).wf(),
            final(self).cells@ == grown_cells(old(self).cells@, new_head),
            final(self).cells@.len() == old(self).cells@.len() + 1,
    {
        let snake_color = if self.cells.len() >= 2 {
            self.cells[1].get_color()
        } else {
            self.cells[0].get_color()
        };
        let head_direction = self.cells[0].get_direction();
        let head_color = self.cells[0].get_color();

        let mut head = self.cells[0];
        head.set_color(snake_color);
        self.cells[0] = head;

        let mut cell = new_head;
        cell.set_direction(head_direction);
        cell.set_color(head_color);
        self.cells.insert(0, cell);
    }

    /// The side-effect-free look-ahead: would the head's next step land
    /// on `point_cell`?  The real snake is not moved.
    pub fn is_collecting_point(&self, point_cell: &Cell) -> (r: bool)
        requires
            self.wf(),
        ensures
            r == self.cells@[0].stepped().overlaps(*point_cell),
    {
        let mut new_head = self.cells[0];
        new_head.step();
        new_head.overlap(point_cell)
    }

    /// One whole tick: advance all cells, then - if there is an input -
    /// arbitrate the requested turn on the head.
    pub fn go(&mut self, input: Option<Input>)
        requires
            old(self).wf(),
        ensures
            final(self).wf(),
            final(self).cells@ == gone_cells(old(self).cells@, input),
    {
        self.step();
        match input {
            Some(inp) => {
                let dir = match inp {
                    Input::Up => Direction::Up,
                    Input::Down => Direction::Down,
                    Input::Left => Direction::Left,
                    Input::Right => Direction::Right,
                };
                self.turn(dir);
            }
            None => {}
        }
    }
}

/// Offset arithmetic for the initial column of cells: every cell's
/// offset below the head fits between zero and the half-board mark.
proof fn lemma_initial_offsets(count: int, size: int, i: int)
    requires
        1 <= size,
        1 <= count,
        0 <= i < count,
    ensures
        0 <= (count - 1 - i) * size <= (count - 1) * size,
        (count - 1 - i) * size % size == 0,
{
    vstd::arithmetic::mul::lemma_mul_inequality(count - 1 - i, count - 1, size);
    vstd::arithmetic::mul::lemma_mul_nonnegative(count - 1 - i, size);
    vstd::arithmetic::div_mod::lemma_mod_multiples_basic(count - 1 - i, size);
}

/// Reversal law: a moving head keeps its direction exactly when the
/// requested direction is its exact opposite, and takes the requested
/// direction in every other case (a repeated request included).
pub proof fn lemma_reversal_rejection(current: Direction, requested: Direction)
    ensures
        is_reversal(current, requested) ==> arbitrate(current, requested) == current,
        !is_reversal(current, requested) ==> arbitrate(current, requested) == requested,
{
}

/// Growth law: after growth the body is exactly one cell longer, every
/// previously existing cell keeps its position, size and board in the
/// same relative order, and only direction and color propagate from the
/// old head to the new one.
pub proof fn lemma_growth_monotonic(cs: Seq<Cell>, new_head: Cell)
    requires
        cs.len() >= 1,
    ensures
        grown_cells(cs, new_head).len() == cs.len() + 1,
        forall|i: int|
            0 <= i < cs.len() ==> {
                let after = #[trigger] grown_cells(cs, new_head)[i + 1];
                &&& after.left == cs[i].left
                &&& after.top == cs[i].top
                &&& after.size == cs[i].size
                &&& after.screen_width == cs[i].screen_width
                &&& after.screen_height == cs[i].screen_height
                &&& after.direction == cs[i].direction
            },
        forall|i: int| 1 <= i < cs.len() ==> #[trigger] grown_cells(cs, new_head)[i + 1] == cs[i],
        grown_cells(cs, new_head)[0].left == new_head.left,
        grown_cells(cs, new_head)[0].top == new_head.top,
        grown_cells(cs, new_head)[0].direction == cs[0].direction,
        grown_cells(cs, new_head)[0].color == cs[0].color,
{
}

} // verus!
