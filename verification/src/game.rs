use vstd::prelude::*;

use rand::Rng;

use crate::cell::{Cell, Color, Direction, MAX_DIM};
use crate::snake::{gone_cells, grown_cells, tangled, Input, Snake};

verus! {

/// How often the point placement retries before giving up.
pub const MAX_PLACEMENT_ATTEMPTS: u64 = 10;

/// Largest score the engine accepts; keeps the quadratic pace inside
/// `u64`.
pub const MAX_POINTS: u64 = 0xFFFF_FFFF;

/// The game configuration, already reduced to plain values by whatever
/// collaborator reads it in.
#[derive(Clone, Copy, Debug)]
pub struct Config {
    pub head_color: Color,
    pub snake_color: Color,
    pub background_color: Color,
    pub screen_width: i64,
    pub screen_height: i64,
    pub cell_size: i64,
    pub initial_cell_count: i64,
}

impl Config {
    /// A configuration the game accepts: the board splits exactly into
    /// cells of the requested size, the half-board marks (where the
    /// initial snake is placed) are themselves grid-aligned, and the
    /// initial body fits between the middle of the board and its top
    /// edge.
    pub open spec fn valid(self) -> bool {
        &&& 1 <= self.cell_size
        &&& self.cell_size <= self.screen_width <= MAX_DIM
        &&& self.cell_size <= self.screen_height <= MAX_DIM
        &&& self.screen_width % self.cell_size == 0
        &&& self.screen_height % self.cell_size == 0
        &&& (self.screen_width / 2) % (self.cell_size as int) == 0
        &&& (self.screen_height / 2) % (self.cell_size as int) == 0
        &&& 1 <= self.initial_cell_count
        &&& (self.initial_cell_count - 1) * self.cell_size <= self.screen_height / 2
    }

    /// Decide `valid` executably.
    pub fn is_valid(&self) -> (r: bool)
        ensures
            r == self.valid(),
    {
        let r = 1 <= self.cell_size && self.cell_size <= self.screen_width
            && self.screen_width <= MAX_DIM && self.cell_size <= self.screen_height
            && self.screen_height <= MAX_DIM && self.screen_width % self.cell_size == 0
            && self.screen_height % self.cell_size == 0 && (self.screen_width / 2)
            % self.cell_size == 0 && (self.screen_height / 2) % self.cell_size == 0 && 1
            <= self.initial_cell_count && self.initial_cell_count - 1 <= (self.screen_height / 2)
            / self.cell_size;
        proof {
            if 1 <= self.cell_size && self.initial_cell_count >= 1 && self.screen_height >= 1 {
                assert((self.initial_cell_count - 1) * self.cell_size <= self.screen_height / 2
                    <==> self.initial_cell_count - 1 <= (self.screen_height / 2) / (
                self.cell_size as int)) by (nonlinear_arith)
                    requires
                        1 <= self.cell_size,
                        1 <= self.initial_cell_count,
                        0 <= self.screen_height / 2,
                ;
            }
        }
        r
    }
}

/// The two error kinds that originate in the core.
#[derive(Clone, Copy, Debug, PartialEq, Eq, Structural)]
pub enum GameError {
    /// The board cannot host a game of this shape: a dimension is not
    /// an exact multiple of the cell size (or out of range), or the
    /// initial snake does not fit on the grid.  Carries the offending
    /// configuration numbers.
    BadDimensions {
        screen_width: i64,
        screen_height: i64,
        cell_size: i64,
        initial_cell_count: i64,
    },
    /// Rejection sampling found no free spot for the point cell within
    /// its retry budget: the grid is too full to place food.
    GridFull,
}

/// The simulation's state machine: `Playing` until the snake tangles,
/// then terminally `GameOver`.
#[derive(Clone, Copy, Debug, PartialEq, Eq, Structural)]
pub enum GameState {
    Playing,
    GameOver,
}

/// All cells of a sequence share the given size and board bounds.
pub open spec fn uniform_geometry(
    cs: Seq<Cell>,
    cell_size: i64,
    screen_width: i64,
    screen_height: i64,
) -> bool {
    forall|i: int|
        0 <= i < cs.len() ==> {
            let c = #[trigger] cs[i];
            &&& c.size == cell_size
            &&& c.screen_width == screen_width
            &&& c.screen_height == screen_height
        }
}

/// The candidate position collides with nothing it must avoid: no
/// snake cell, and not the previous point cell when one is supplied.
pub open spec fn point_spot_free(
    candidate: Cell,
    snake_cells: Seq<Cell>,
    existing: Option<Cell>,
) -> bool {
    &&& forall|i: int|
        0 <= i < snake_cells.len() ==> !(#[trigger] snake_cells[i]).overlaps(candidate)
    &&& match existing {
        Some(p) => !p.overlaps(candidate),
        None => true,
    }
}

/// Relies on `rand::Rng::gen_range` on the thread-local generator of
/// the rand crate, sampling the half-open range `0..n`: whatever else
/// holds of the distribution, the result lies in that range.
#[verifier::external_body]
fn random_below(n: i64) -> (r: i64)
    requires
        1 <= n,
    ensures
        0 <= r < n,
{
    rand::thread_rng().gen_range(0..n)
}

/// One game: a snake, a point (food) cell, the score and the derived
/// pace, plus the fixed board geometry and colors.
pub struct Game {
    pub screen_width: i64,
    pub screen_height: i64,
    pub cell_size: i64,
    pub snake_color: Color,
    pub background_color: Color,
    pub snake: Snake,
    pub point_cell: Cell,
    pub points: u64,
    pub pace: u64,
    pub state: GameState,
}

impl Game {
    /// The aggregate invariant: the board geometry is exact, every
    /// snake cell and the point cell live on this board's grid, the
    /// score has room to grow, and the pace is exactly the square of
    /// the score.
    pub open spec fn wf(self) -> bool {
        &&& 1 <= self.cell_size
        &&& self.cell_size <= self.screen_width <= MAX_DIM
        &&& self.cell_size <= self.screen_height <= MAX_DIM
        &&& self.screen_width % self.cell_size == 0
        &&& self.screen_height % self.cell_size == 0
        &&& self.snake.wf()
        &&& uniform_geometry(
            self.snake.cells@,
            self.cell_size,
            self.screen_width,
            self.screen_height,
        )
        &&& self.point_cell.wf()
        &&& self.point_cell.size == self.cell_size
        &&& self.point_cell.screen_width == self.screen_width
        &&& self.point_cell.screen_height == self.screen_height
        &&& self.points <= MAX_POINTS
        &&& self.pace == self.points * self.points
    }

    /// Build a game from a configuration.  An invalid configuration is
    /// rejected with the offending numbers; a valid one yields a game
    /// in the `Playing` state with score and pace zero, the initial
    /// snake column in the middle of the board, and a point cell that
    /// overlaps no snake cell - unless even the first point cannot be
    /// placed, which surfaces as `GridFull`.
    pub fn new(config: &Config) -> (r: Result<Game, GameError>)
        ensures
            match r {
                Ok(g) => {
                    &&& config.valid()
                    &&& g.wf()
                    &&& g.screen_width == config.screen_width
                    &&& g.screen_height == config.screen_height
                    &&& g.cell_size == config.cell_size
                    &&& g.snake_color == config.snake_color
                    &&& g.background_color == config.background_color
                    &&& g.points == 0
                    &&& g.pace == 0
                    &&& g.state == GameState::Playing
                    &&& g.snake.cells@.len() == config.initial_cell_count
                    &&& forall|i: int|
                        0 <= i < config.initial_cell_count ==> #[trigger] g.snake.cells@[i]
                            == Snake::initial_cell(
                            config.screen_width,
                            config.screen_height,
                            config.initial_cell_count,
                            config.cell_size,
                            config.head_color,
                            config.snake_color,
                            i,
                        )
                    &&& g.point_cell.direction == Direction::Stop
                    &&& g.point_cell.color == config.snake_color
                    &&& point_spot_free(g.point_cell, g.snake.cells@, None)
                },
                Err(e) => if config.valid() {
                    e == GameError::GridFull
                } else {
                    e == (GameError::BadDimensions {
                        screen_width: config.screen_width,
                        screen_height: config.screen_height,
                        cell_size: config.cell_size,
                        initial_cell_count: config.initial_cell_count,
                    })
                },
            },
    {
        if !config.is_valid() {
            return Err(
                GameError::BadDimensions {
                    screen_width: config.screen_width,
                    screen_height: config.screen_height,
                    cell_size: config.cell_size,
                    initial_cell_count: config.initial_cell_count,
                },
            );
        }
        let snake = Snake::new(
            config.screen_width,
            config.screen_height,
            config.initial_cell_count,
            config.cell_size,
            config.head_color,
            config.snake_color,
        );
        let point_cell = match Self::make_random_cell(
            snake.get_cells(),
            config.screen_width,
            config.screen_height,
            config.cell_size,
            config.snake_color,
            None,
        ) {
            Ok(c) => c,
            Err(e) => {
                return Err(e);
            }
        };
        Ok(
            Game {
                screen_width: config.screen_width,
                screen_height: config.screen_height,
                cell_size: config.cell_size,
                snake_color: config.snake_color,
                background_color: config.background_color,
                snake,
                point_cell,
                points: 0,
                pace: 0,
                state: GameState::Playing,
            },
        )
    }

    /// Rejection sampling for the point cell: draw a uniformly random
    /// grid spot, scale it by the cell size, and accept the first
    /// candidate that collides with no snake cell and not with the
    /// previous point cell; after `MAX_PLACEMENT_ATTEMPTS` collisions
    /// in a row report the grid as full.
    pub fn make_random_cell(
        snake_cells: &Vec<Cell>,
        screen_width: i64,
        screen_height: i64,
        cell_size: i64,
        cell_color: Color,
        existing_point_cell: Option<&Cell>,
    ) -> (r: Result<Cell, GameError>)
        requires
            1 <= cell_size,
            cell_size <= screen_width <= MAX_DIM,
            cell_size <= screen_height <= MAX_DIM,
            screen_width % cell_size == 0,
            screen_height % cell_size == 0,
        ensures
            match r {
                Ok(c) => {
                    &&& c.wf()
                    &&& c.size == cell_size
                    &&& c.screen_width == screen_width
                    &&& c.screen_height == screen_height
                    &&& c.direction == Direction::Stop
                    &&& c.color == cell_color
                    &&& point_spot_free(c, snake_cells@, deref_opt(existing_point_cell))
                },
                Err(e) => e == GameError::GridFull,
            },
    {
        let cells_across = screen_width / cell_size;
        let cells_down = screen_height / cell_size;
        proof {
            assert(1 <= screen_width / cell_size && 1 <= screen_height / cell_size)
                by (nonlinear_arith)
                requires
                    1 <= cell_size,
                    cell_size <= screen_width,
                    cell_size <= screen_height,
            ;
        }
        let mut attempt: u64 = 0;
        while attempt < MAX_PLACEMENT_ATTEMPTS
            invariant
                1 <= cells_across,
                1 <= cells_down,
                1 <= cell_size,
                cell_size <= screen_width <= MAX_DIM,
                cell_size <= screen_height <= MAX_DIM,
                screen_width % cell_size == 0,
                screen_height % cell_size == 0,
                cells_across == screen_width / cell_size,
                cells_down == screen_height / cell_size,
            decreases MAX_PLACEMENT_ATTEMPTS - attempt,
        {
            let gx = random_below(cells_across);
            let gy = random_below(cells_down);
            proof {
                lemma_grid_coordinate(gx as int, cell_size as int, screen_width as int);
                lemma_grid_coordinate(gy as int, cell_size as int, screen_height as int);
            }
            let left = gx * cell_size;
            let top = gy * cell_size;
            let new_cell = Cell::new(
                left,
                top,
                cell_size,
                Direction::Stop,
                screen_width,
                screen_height,
                cell_color,
            );
            if Self::is_free_spot(&new_cell, snake_cells, existing_point_cell) {
                return Ok(new_cell);
            }
            attempt = attempt + 1;
        }
        Err(GameError::GridFull)
    }

    /// Decide `point_spot_free` executably.
    fn is_free_spot(
        candidate: &Cell,
        snake_cells: &Vec<Cell>,
        existing_point_cell: Option<&Cell>,
    ) -> (r: bool)
        ensures
            r == point_spot_free(*candidate, snake_cells@, deref_opt(existing_point_cell)),
    {
        match existing_point_cell {
            Some(p) => {
                if candidate.overlap(p) {
                    return false;
                }
            }
            None => {}
        }
        let n = snake_cells.len();
        let mut i: usize = 0;
        while i < n
            invariant
                0 <= i <= n,
                n == snake_cells@.len(),
                forall|k: int|
                    0 <= k < i ==> !(#[trigger] snake_cells@[k]).overlaps(*candidate),
            decreases n - i,
        {
            if snake_cells[i].overlap(candidate) {
                return false;
            }
            i = i + 1;
        }
        true
    }

    pub fn get_snake_cells(&self) -> (r: &Vec<Cell>)
        ensures
            r@ == self.snake.cells@,
    {
        self.snake.get_cells()
    }

    pub fn get_background_color(&self) -> (r: Color)
        ensures
            r == self.background_color,
    {
        self.background_color
    }

    pub fn get_point_cell(&self) -> (r: &Cell)
        ensures
            *r == self.point_cell,
    {
        &self.point_cell
    }

    /// The board resolution, as `(width, height)`.
    pub fn get_resolution(&self) -> (r: (i64, i64))
        ensures
            r == (self.screen_width, self.screen_height),
    {
        (self.screen_width, self.screen_height)
    }

    pub fn get_points(&self) -> (r: u64)
        ensures
            r == self.points,
    {
        self.points
    }

    pub fn get_pace(&self) -> (r: u64)
        ensures
            r == self.pace,
    {
        self.pace
    }

    pub fn is_running(&self) -> (r: bool)
        ensures
            r == (self.state == GameState::Playing),
    {
        match self.state {
            GameState::Playing => true,
            GameState::GameOver => false,
        }
    }

    /// Recompute the quadratic difficulty ramp from the score.
    pub fn increase_pace(&mut self)
        requires
            old(self).points <= MAX_POINTS,
        ensures
            final(self).pace == old(self).points * old(self).points,
            *final(self) == (Game { pace: final(self).pace, ..*old(self) }),
    {
        proof {
            let p = old(self).points;
            assert(p * p <= 0xFFFF_FFFFu64 * 0xFFFF_FFFFu64) by (nonlinear_arith)
                requires
                    p <= 0xFFFF_FFFFu64,
            ;
        }
        self.pace = self.points * self.points;
    }

    /// One tick of the game.  In `GameOver` nothing further happens.
    /// Otherwise the snake advances and turns; then, if the head's next
    /// step would land on the point cell, the point is collected:
    /// collection is judged against the post-move head, and the point
    /// cell itself becomes the new head in the same tick, so the score
    /// and the body length each grow by exactly one and the pace is
    /// recomputed; a fresh point is then placed off the snake and off
    /// the previous point.  Last, self-collision is checked: a tangled
    /// snake ends the game.  `Ok(true)` means the game is still
    /// running; `Ok(false)` that it is (or already was) over;
    /// `Err(GridFull)` that no fresh point could be placed, which also
    /// ends the game.
    pub fn go(&mut self, input: Option<Input>) -> (r: Result<bool, GameError>)
        requires
            old(self).wf(),
            old(self).points < MAX_POINTS,
        ensures
            final(self).wf(),
            final(self).screen_width == old(self).screen_width,
            final(self).screen_height == old(self).screen_height,
            final(self).cell_size == old(self).cell_size,
            final(self).snake_color == old(self).snake_color,
            final(self).background_color == old(self).background_color,
            old(self).state == GameState::GameOver ==> *final(self) == *old(self) && r == Ok::<
                bool,
                GameError,
            >(false),
            old(self).state == GameState::Playing ==> ({
                let moved = gone_cells(old(self).snake.cells@, input);
                let collecting = moved[0].stepped().overlaps(old(self).point_cell);
                &&& !collecting ==> {
                    &&& final(self).snake.cells@ == moved
                    &&& final(self).point_cell == old(self).point_cell
                    &&& final(self).points == old(self).points
                    &&& final(self).pace == old(self).pace
                    &&& r == Ok::<bool, GameError>(!tangled(moved))
                    &&& final(self).state == (if tangled(moved) {
                        GameState::GameOver
                    } else {
                        GameState::Playing
                    })
                }
                &&& collecting ==> {
                    let grown = grown_cells(moved, old(self).point_cell);
                    &&& final(self).snake.cells@ == grown
                    &&& final(self).points == old(self).points + 1
                    &&& final(self).pace == final(self).points * final(self).points
                    &&& match r {
                        Ok(running) => {
                            &&& point_spot_free(
                                final(self).point_cell,
                                grown,
                                Some(old(self).point_cell),
                            )
                            &&& final(self).point_cell.direction == Direction::Stop
                            &&& final(self).point_cell.color == old(self).snake_color
                            &&& running == !tangled(grown)
                            &&& final(self).state == (if tangled(grown) {
                                GameState::GameOver
                            } else {
                                GameState::Playing
                            })
                        },
                        Err(e) => {
                            &&& e == GameError::GridFull
                            &&& final(self).point_cell == old(self).point_cell
                            &&& final(self).state == GameState::GameOver
                        },
                    }
                }
            }),
    {
        match self.state {
            GameState::GameOver => {
                return Ok(false);
            }
            GameState::Playing => {}
        }
        self.snake.go(input);
        proof {
            lemma_gone_uniform(
                old(self).snake.cells@,
                input,
                self.cell_size,
                self.screen_width,
                self.screen_height,
            );
        }
        if self.snake.is_collecting_point(&self.point_cell) {
            let old_point = self.point_cell;
            self.snake.change_head(old_point);
            proof {
                lemma_grown_uniform(
                    gone_cells(old(self).snake.cells@, input),
                    old_point,
                    self.cell_size,
                    self.screen_width,
                    self.screen_height,
                );
            }
            self.points = self.points + 1;
            self.increase_pace();
            match Self::make_random_cell(
                self.snake.get_cells(),
                self.screen_width,
                self.screen_height,
                self.cell_size,
                self.snake_color,
                Some(&old_point),
            ) {
                Ok(c) => {
                    self.point_cell = c;
                }
                Err(e) => {
                    self.state = GameState::GameOver;
                    return Err(e);
                }
            }
        }
        if self.snake.is_tangled() {
            self.state = GameState::GameOver;
            return Ok(false);
        }
        Ok(true)
    }
}

/// The `Option<&Cell>` a caller passes, seen as an `Option<Cell>`.
pub open spec fn deref_opt(o: Option<&Cell>) -> Option<Cell> {
    match o {
        Some(p) => Some(*p),
        None => None,
    }
}

/// A grid index scaled by the cell size lands on an aligned coordinate
/// strictly inside the board.
proof fn lemma_grid_coordinate(g: int, size: int, limit: int)
    requires
        1 <= size,
        size <= limit,
        limit % size == 0,
        0 <= g < limit / size,
    ensures
        0 <= g * size <= limit - size,
        (g * size) % size == 0,
{
    vstd::arithmetic::div_mod::lemma_mod_multiples_basic(g, size);
    assert(g * size <= limit - size) by (nonlinear_arith)
        requires
            1 <= size,
            limit % size == 0,
            0 <= g < limit / size,
    ;
    vstd::arithmetic::mul::lemma_mul_nonnegative(g, size);
}

/// A whole snake tick keeps every cell on the same board geometry.
proof fn lemma_gone_uniform(
    cs: Seq<Cell>,
    input: Option<Input>,
    cell_size: i64,
    screen_width: i64,
    screen_height: i64,
)
    requires
        cs.len() >= 1,
        uniform_geometry(cs, cell_size, screen_width, screen_height),
    ensures
        uniform_geometry(gone_cells(cs, input), cell_size, screen_width, screen_height),
        gone_cells(cs, input).len() == cs.len(),
{
    let moved = gone_cells(cs, input);
    assert forall|i: int| 0 <= i < moved.len() implies {
        let c = #[trigger] moved[i];
        &&& c.size == cell_size
        &&& c.screen_width == screen_width
        &&& c.screen_height == screen_height
    } by {
        assert(cs[i].size == cell_size);
        if i >= 1 {
            assert(cs[i - 1].size == cell_size);
        }
    }
}

/// Growth keeps every cell on the same board geometry, provided the
/// new head is on it too.
proof fn lemma_grown_uniform(
    cs: Seq<Cell>,
    new_head: Cell,
    cell_size: i64,
    screen_width: i64,
    screen_height: i64,
)
    requires
        cs.len() >= 1,
        uniform_geometry(cs, cell_size, screen_width, screen_height),
        new_head.size == cell_size,
        new_head.screen_width == screen_width,
        new_head.screen_height == screen_height,
    ensures
        uniform_geometry(grown_cells(cs, new_head), cell_size, screen_width, screen_height),
        grown_cells(cs, new_head).len() == cs.len() + 1,
{
    let grown = grown_cells(cs, new_head);
    assert forall|i: int| 0 <= i < grown.len() implies {
        let c = #[trigger] grown[i];
        &&& c.size == cell_size
        &&& c.screen_width == screen_width
        &&& c.screen_height == screen_height
    } by {
        if i >= 1 {
            assert(cs[i - 1].size == cell_size);
        }
    }
}

/// Pace law: in every well-formed game the pace is exactly the square
/// of the score.
pub proof fn lemma_pace_is_square(g: Game)
    requires
        g.wf(),
    ensures
        g.pace == g.points * g.points,
{
}

} // verus!
