//! The mathematical model of a game: its state, and what a turn and a tick
//! make of it.
use vstd::prelude::*;
use crate::direction::Direction;
use crate::snake::Msg;

verus! {

/// A cell of the grid: column `x` first, then row `y`.
pub type Pos = (usize, usize);

/// The cell one step away from `from` in direction `d`, over the integers:
/// a step off the low edge gives a negative coordinate.
pub open spec fn step(from: Pos, d: Direction) -> (int, int) {
    match d {
        Direction::Up => (from.0 as int, from.1 - 1),
        Direction::Down => (from.0 as int, from.1 + 1),
        Direction::Right => (from.0 + 1, from.1 as int),
        Direction::Left => (from.0 - 1, from.1 as int),
    }
}

/// Whether the integer point `p` is a cell of a `width` by `height` grid.
pub open spec fn in_grid(p: (int, int), width: usize, height: usize) -> bool {
    0 <= p.0 < width && 0 <= p.1 < height
}

/// The cells of row `y` left of column `x_end` that `snake` does not cover,
/// from left to right.
pub open spec fn free_in_row(y: usize, x_end: int, snake: Seq<Pos>) -> Seq<Pos>
    decreases x_end,
{
    if x_end <= 0 {
        Seq::empty()
    } else {
        let before = free_in_row(y, x_end - 1, snake);
        let here = ((x_end - 1) as usize, y);
        if snake.contains(here) {
            before
        } else {
            before.push(here)
        }
    }
}

/// The cells of the rows above `y_end` that `snake` does not cover, row by
/// row from the top, each row from left to right.
pub open spec fn free_in_rows(width: usize, y_end: int, snake: Seq<Pos>) -> Seq<Pos>
    decreases y_end,
{
    if y_end <= 0 {
        Seq::empty()
    } else {
        free_in_rows(width, y_end - 1, snake) + free_in_row(
            (y_end - 1) as usize,
            width as int,
            snake,
        )
    }
}

/// All cells of the grid that `snake` does not cover, in row-major order.
pub open spec fn free_cells(width: usize, height: usize, snake: Seq<Pos>) -> Seq<Pos> {
    free_in_rows(width, height as int, snake)
}

/// The column of the food in a fresh game on a grid `width` wide: the third
/// column, or the last of a grid of two columns. On a grid of four columns
/// the snake starts in the third, so the food takes the second there.
pub open spec fn food_column(width: usize) -> usize {
    if width == 2 || width == 4 {
        1
    } else {
        2
    }
}

/// What a game holds at one moment.
pub struct State {
    pub width: usize,
    pub height: usize,
    /// Head first, tail last.
    pub snake: Seq<Pos>,
    /// The heading of the last step taken.
    pub direction: Direction,
    /// The heading of the next step.
    pub pending: Direction,
    pub food: Pos,
    pub finished: bool,
}

impl State {
    /// The invariant of a game: the snake is a non-empty chain of distinct
    /// cells of the grid, and the food lies on a cell of the grid that the
    /// snake does not cover. The one exception is a game that ended with the
    /// snake covering the whole grid: no cell is left for the food then.
    pub open spec fn wf(self) -> bool {
        &&& self.snake.len() >= 1
        &&& self.snake.no_duplicates()
        &&& forall|i: int|
            0 <= i < self.snake.len() ==> in_grid(
                (#[trigger] self.snake[i].0 as int, self.snake[i].1 as int),
                self.width,
                self.height,
            )
        &&& in_grid((self.food.0 as int, self.food.1 as int), self.width, self.height)
        &&& self.snake.contains(self.food) ==> self.finished && self.board_full()
    }

    /// Whether the snake covers every cell of the grid.
    pub open spec fn board_full(self) -> bool {
        free_cells(self.width, self.height, self.snake).len() == 0
    }

    /// The state after a request to head in direction `d`: a request on the
    /// axis of the current heading changes nothing, any other becomes the
    /// pending heading.
    pub open spec fn turn(self, d: Direction) -> State {
        if self.direction.shares_axis(d) {
            self
        } else {
            State { pending: d, ..self }
        }
    }

    /// The integer point that the head reaches with the next step.
    pub open spec fn target(self) -> (int, int)
        recommends
            self.snake.len() > 0,
    {
        step(self.snake[0], self.pending)
    }

    /// Whether the next step ends the game: the head would leave the grid, or
    /// run into a cell that the snake covers now (the tail's cell counts).
    pub open spec fn crashes(self) -> bool
        recommends
            self.snake.len() > 0,
    {
        let t = self.target();
        !in_grid(t, self.width, self.height) || self.snake.contains((t.0 as usize, t.1 as usize))
    }

    /// Whether the next step takes the head onto the food.
    pub open spec fn eats(self) -> bool
        recommends
            self.snake.len() > 0,
    {
        let t = self.target();
        !self.crashes() && (t.0 as usize, t.1 as usize) == self.food
    }

    /// The state after the food was eaten: the food moves to a free cell, or
    /// the game ends if the snake has left none. `draw` decides which cell:
    /// it is reduced modulo the number of free cells and indexes them in
    /// row-major order.
    pub open spec fn relocate(self, draw: usize) -> State {
        let free = free_cells(self.width, self.height, self.snake);
        if free.len() == 0 {
            State { finished: true, ..self }
        } else {
            State { food: free[draw as int % free.len() as int], ..self }
        }
    }

    /// The state after one tick. A finished game, or one without a snake,
    /// stays as it is. Otherwise the pending heading becomes the current one
    /// and the head takes one step: a crash ends the game and moves nothing;
    /// a step onto the food grows the snake by the new head and relocates the
    /// food by `draw`; any other step moves the head and drops the tail.
    pub open spec fn tick(self, draw: usize) -> State {
        if self.finished || self.snake.len() == 0 {
            self
        } else if self.crashes() {
            State { direction: self.pending, finished: true, ..self }
        } else {
            let t = self.target();
            let head = (t.0 as usize, t.1 as usize);
            if head == self.food {
                (State {
                    direction: self.pending,
                    snake: seq![head] + self.snake,
                    ..self
                }).relocate(draw)
            } else {
                State {
                    direction: self.pending,
                    snake: seq![head] + self.snake.drop_last(),
                    ..self
                }
            }
        }
    }

    /// The state after one event: a `Move` asks for a turn, an `UpdateTime`
    /// is a tick with `draw` as its draw.
    pub open spec fn handle(self, msg: Msg, draw: usize) -> State {
        match msg {
            Msg::Move(d) => self.turn(d),
            Msg::UpdateTime => self.tick(draw),
        }
    }

    /// The state after a whole run of events, each with its draw, handled
    /// from first to last.
    pub open spec fn replay(self, events: Seq<(Msg, usize)>) -> State
        decreases events.len(),
    {
        if events.len() == 0 {
            self
        } else {
            self.replay(events.drop_last()).handle(events.last().0, events.last().1)
        }
    }
}

/// Every cell that `free_in_row` lists lies in row `y`, left of `x_end`, and
/// off the snake.
pub proof fn lemma_free_in_row_sound(y: usize, x_end: int, snake: Seq<Pos>, i: int)
    requires
        0 <= i < free_in_row(y, x_end, snake).len(),
        x_end <= usize::MAX,
    ensures
        free_in_row(y, x_end, snake)[i].1 == y,
        free_in_row(y, x_end, snake)[i].0 < x_end,
        !snake.contains(free_in_row(y, x_end, snake)[i]),
    decreases x_end,
{
    if x_end > 0 {
        let before = free_in_row(y, x_end - 1, snake);
        if i < before.len() {
            lemma_free_in_row_sound(y, x_end - 1, snake, i);
        }
    }
}

/// Every cell of row `y` left of `x_end` that is off the snake is listed by
/// `free_in_row`.
pub proof fn lemma_free_in_row_complete(y: usize, x_end: int, snake: Seq<Pos>, p: Pos)
    requires
        p.1 == y,
        p.0 < x_end,
        !snake.contains(p),
    ensures
        free_in_row(y, x_end, snake).contains(p),
    decreases x_end,
{
    let before = free_in_row(y, x_end - 1, snake);
    if p.0 == x_end - 1 {
        assert(before.push(p)[before.len() as int] == p);
    } else {
        lemma_free_in_row_complete(y, x_end - 1, snake, p);
        let k = choose|k: int| 0 <= k < before.len() && before[k] == p;
        assert(free_in_row(y, x_end, snake)[k] == p);
    }
}

/// Every cell that `free_in_rows` lists lies in the grid's first `y_end` rows
/// and off the snake.
pub proof fn lemma_free_in_rows_sound(width: usize, y_end: int, snake: Seq<Pos>, i: int)
    requires
        0 <= i < free_in_rows(width, y_end, snake).len(),
        y_end <= usize::MAX,
    ensures
        free_in_rows(width, y_end, snake)[i].0 < width,
        free_in_rows(width, y_end, snake)[i].1 < y_end,
        !snake.contains(free_in_rows(width, y_end, snake)[i]),
    decreases y_end,
{
    if y_end > 0 {
        let above = free_in_rows(width, y_end - 1, snake);
        if i < above.len() {
            lemma_free_in_rows_sound(width, y_end - 1, snake, i);
        } else {
            lemma_free_in_row_sound((y_end - 1) as usize, width as int, snake, i - above.len());
        }
    }
}

/// Every cell of the grid's first `y_end` rows that is off the snake is
/// listed by `free_in_rows`.
pub proof fn lemma_free_in_rows_complete(width: usize, y_end: int, snake: Seq<Pos>, p: Pos)
    requires
        p.0 < width,
        p.1 < y_end,
        !snake.contains(p),
    ensures
        free_in_rows(width, y_end, snake).contains(p),
    decreases y_end,
{
    let above = free_in_rows(width, y_end - 1, snake);
    let row = free_in_row((y_end - 1) as usize, width as int, snake);
    if p.1 == y_end - 1 {
        lemma_free_in_row_complete((y_end - 1) as usize, width as int, snake, p);
        let k = choose|k: int| 0 <= k < row.len() && row[k] == p;
        assert((above + row)[above.len() + k] == p);
    } else {
        lemma_free_in_rows_complete(width, y_end - 1, snake, p);
        let k = choose|k: int| 0 <= k < above.len() && above[k] == p;
        assert((above + row)[k] == p);
    }
}

/// The free cells are exactly the cells of the grid that the snake does not
/// cover.
pub proof fn lemma_free_cells_exact(width: usize, height: usize, snake: Seq<Pos>, p: Pos)
    ensures
        free_cells(width, height, snake).contains(p) <==> (p.0 < width && p.1 < height
            && !snake.contains(p)),
{
    let free = free_cells(width, height, snake);
    if free.contains(p) {
        let k = choose|k: int| 0 <= k < free.len() && free[k] == p;
        lemma_free_in_rows_sound(width, height as int, snake, k);
    }
    if p.0 < width && p.1 < height && !snake.contains(p) {
        lemma_free_in_rows_complete(width, height as int, snake, p);
    }
}

} // verus!
