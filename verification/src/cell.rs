use vstd::prelude::*;

verus! {

/// Red, green and blue components of a color, one byte each.
pub type Color = (u8, u8, u8);

/// Largest board dimension the engine accepts.  Keeping every dimension
/// below this bound keeps all of the wrap arithmetic (at worst a
/// coordinate plus twice the cell size) far away from `i64` overflow.
pub const MAX_DIM: i64 = 0x2000_0000_0000_0000;

/// The movement state of a cell.  `Stop` is the explicit "no movement"
/// case, used for example by the stationary point (food) cell.
#[derive(Clone, Copy, Debug, PartialEq, Eq, Structural)]
pub enum Direction {
    Up,
    Down,
    Left,
    Right,
    Stop,
}

/// A single grid-aligned square: its position, edge length, movement
/// direction, color, and the board bounds it wraps around in.
#[derive(Clone, Copy, Debug)]
pub struct Cell {
    pub left: i64,
    pub top: i64,
    pub size: i64,
    pub direction: Direction,
    pub screen_width: i64,
    pub screen_height: i64,
    pub color: Color,
}

impl Cell {
    /// Well-formedness: the cell is a `size`-sized square aligned to the
    /// grid of such squares that tiles the board exactly.
    pub open spec fn wf(self) -> bool {
        &&& 1 <= self.size
        &&& self.size <= self.screen_width <= MAX_DIM
        &&& self.size <= self.screen_height <= MAX_DIM
        &&& self.screen_width % self.size == 0
        &&& self.screen_height % self.size == 0
        &&& 0 <= self.left < self.screen_width
        &&& 0 <= self.top < self.screen_height
        &&& self.left % self.size == 0
        &&& self.top % self.size == 0
    }

    /// Two cells overlap exactly when their positions coincide; with all
    /// cells grid-aligned and equally sized, position equality is the
    /// whole story.
    pub open spec fn overlaps(self, other: Cell) -> bool {
        self.left == other.left && self.top == other.top
    }

    /// The horizontal coordinate one step ahead, wrapping toroidally.
    pub open spec fn stepped_left(self) -> int {
        match self.direction {
            Direction::Left => if self.left - self.size < 0 {
                self.screen_width - self.size
            } else {
                self.left - self.size
            },
            Direction::Right => if self.left + 2 * self.size > self.screen_width {
                0
            } else {
                self.left + self.size
            },
            _ => self.left as int,
        }
    }

    /// The vertical coordinate one step ahead, wrapping toroidally.
    pub open spec fn stepped_top(self) -> int {
        match self.direction {
            Direction::Up => if self.top - self.size < 0 {
                self.screen_height - self.size
            } else {
                self.top - self.size
            },
            Direction::Down => if self.top + 2 * self.size > self.screen_height {
                0
            } else {
                self.top + self.size
            },
            _ => self.top as int,
        }
    }

    /// The cell one step ahead of this one: moved by one `size` unit in
    /// its direction (wrapping at the board edges), otherwise unchanged.
    pub open spec fn stepped(self) -> Cell {
        Cell { left: self.stepped_left() as i64, top: self.stepped_top() as i64, ..self }
    }

    pub fn new(
        left: i64,
        top: i64,
        size: i64,
        direction: Direction,
        screen_width: i64,
        screen_height: i64,
        color: Color,
    ) -> (r: Cell)
        ensures
            r == (Cell { left, top, size, direction, screen_width, screen_height, color }),
    {
        Cell { left, top, size, direction, screen_width, screen_height, color }
    }

    /// Move one `size` unit in the current direction; a move that would
    /// cross the board edge wraps to the opposite edge instead.  `Stop`
    /// is a no-op.
    pub fn step(&mut self)
        requires
            old(self).wf(),
        ensures
            *final(self) == old(self).stepped(),
            final(self).wf(),
    {
        proof {
            lemma_step_stays_aligned(*self);
        }
        match self.direction {
            Direction::Up => {
                let mut new_top = self.top - self.size;
                if new_top < 0 {
                    new_top = self.screen_height - self.size;
                }
                self.top = new_top;
            }
            Direction::Down => {
                let mut new_top = self.top + self.size;
                let new_bottom = new_top + self.size;
                if new_bottom > self.screen_height {
                    new_top = 0;
                }
                self.top = new_top;
            }
            Direction::Left => {
                let mut new_left = self.left - self.size;
                if new_left < 0 {
                    new_left = self.screen_width - self.size;
                }
                self.left = new_left;
            }
            Direction::Right => {
                let mut new_left = self.left + self.size;
                let new_right = new_left + self.size;
                if new_right > self.screen_width {
                    new_left = 0;
                }
                self.left = new_left;
            }
            Direction::Stop => {}
        }
    }

    pub fn set_direction(&mut self, direction: Direction)
        ensures
            *final(self) == (Cell { direction, ..*old(self) }),
    {
        self.direction = direction;
    }

    pub fn get_direction(&self) -> (r: Direction)
        ensures
            r == self.direction,
    {
        self.direction
    }

    pub fn get_top(&self) -> (r: i64)
        ensures
            r == self.top,
    {
        self.top
    }

    pub fn get_bottom(&self) -> (r: i64)
        requires
            self.wf(),
        ensures
            r == self.top + self.size,
    {
        self.top + self.size
    }

    pub fn get_left(&self) -> (r: i64)
        ensures
            r == self.left,
    {
        self.left
    }

    pub fn get_right(&self) -> (r: i64)
        requires
            self.wf(),
        ensures
            r == self.left + self.size,
    {
        self.left + self.size
    }

    pub fn get_color(&self) -> (r: Color)
        ensures
            r == self.color,
    {
        self.color
    }

    pub fn overlap(&self, other: &Cell) -> (r: bool)
        ensures
            r == self.overlaps(*other),
    {
        self.left == other.left && self.top == other.top
    }

    pub fn set_color(&mut self, new_color: Color)
        ensures
            *final(self) == (Cell { color: new_color, ..*old(self) }),
    {
        self.color = new_color;
    }
}

/// Sums and differences of multiples of `m` are multiples of `m`.
pub(crate) proof fn lemma_aligned_add_sub(a: int, b: int, m: int)
    requires
        m > 0,
        a % m == 0,
        b % m == 0,
    ensures
        (a + b) % m == 0,
        (a - b) % m == 0,
{
    vstd::arithmetic::div_mod::lemma_add_mod_noop(a, b, m);
    vstd::arithmetic::div_mod::lemma_sub_mod_noop(a, b, m);
    assert(0int % m == 0) by (nonlinear_arith)
        requires
            m > 0,
    ;
}

/// A step keeps a well-formed cell on the grid and inside the board.
proof fn lemma_step_stays_aligned(c: Cell)
    requires
        c.wf(),
    ensures
        0 <= c.stepped_left() < c.screen_width,
        0 <= c.stepped_top() < c.screen_height,
        c.stepped_left() % (c.size as int) == 0,
        c.stepped_top() % (c.size as int) == 0,
{
    lemma_aligned_add_sub(c.left as int, c.size as int, c.size as int);
    lemma_aligned_add_sub(c.top as int, c.size as int, c.size as int);
    lemma_aligned_add_sub(c.screen_width as int, c.size as int, c.size as int);
    lemma_aligned_add_sub(c.screen_height as int, c.size as int, c.size as int);
    lemma_aligned_add_sub(0, 0, c.size as int);
}

/// Wrap law: stepping off either edge of the board lands exactly on the
/// opposite edge, and a step never leaves the board or the grid.
pub proof fn lemma_step_wraps(c: Cell)
    requires
        c.wf(),
    ensures
        c.stepped().wf(),
        0 <= c.stepped().left < c.screen_width,
        0 <= c.stepped().top < c.screen_height,
        c.direction == Direction::Up && c.top == 0 ==> c.stepped().top == c.screen_height
            - c.size,
        c.direction == Direction::Down && c.top == c.screen_height - c.size ==> c.stepped().top
            == 0,
        c.direction == Direction::Left && c.left == 0 ==> c.stepped().left == c.screen_width
            - c.size,
        c.direction == Direction::Right && c.left == c.screen_width - c.size
            ==> c.stepped().left == 0,
{
    lemma_step_stays_aligned(c);
}

} // verus!
