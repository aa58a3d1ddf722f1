//! The game itself: the state that a session owns, and the two events that
//! change it.
use std::collections::VecDeque;
use vstd::prelude::*;
use crate::direction::Direction;
use crate::model::{food_column, free_cells, free_in_row, free_in_rows, in_grid, Pos, State};
use crate::laws::lemma_tick_keeps_wf;

verus! {

/// What can happen to a running game.
#[derive(Debug, Clone, Copy)]
pub enum Msg {
    /// A key asked for a heading.
    Move(Direction),
    /// The timer fired.
    UpdateTime,
}

/// A game of snake on a grid of `width` by `height` cells.
#[derive(Debug)]
pub struct SnakeGame {
    pub width: usize,
    pub height: usize,
    /// The cells that the snake covers, head first.
    pub snake: VecDeque<Pos>,
    /// The heading of the last step taken.
    pub direction: Direction,
    /// The heading of the next step: the last turn that was accepted.
    pub next_direction: Direction,
    pub food: Pos,
    pub finished: bool,
}

impl View for SnakeGame {
    type V = State;

    open spec fn view(&self) -> State {
        State {
            width: self.width,
            height: self.height,
            snake: self.snake@,
            direction: self.direction,
            pending: self.next_direction,
            food: self.food,
            finished: self.finished,
        }
    }
}

impl SnakeGame {
    /// The game's invariant, see [`State::wf`].
    pub open spec fn wf(&self) -> bool {
        self@.wf()
    }

    /// A fresh game: the snake is one cell, two columns from the right edge
    /// in the middle row, heading left; the food lies in the same row, in the
    /// column that [`food_column`] names, which is never the snake's.
    ///
    /// A grid under two columns wide or without rows has no room for both.
    pub fn new(width: usize, height: usize) -> (game: SnakeGame)
        requires
            width >= 2,
            height >= 1,
        ensures
            game.wf(),
            !game@.snake.contains(game@.food),
            game@ == (State {
                width,
                height,
                snake: seq![((width - 2) as usize, height / 2)],
                direction: Direction::Left,
                pending: Direction::Left,
                food: (food_column(width), height / 2),
                finished: false,
            }),
    {
        let start: Pos = (width - 2, height / 2);
        let food_x: usize = if width == 2 || width == 4 { 1 } else { 2 };
        let mut snake: VecDeque<Pos> = VecDeque::new();
        snake.push_front(start);
        let game = SnakeGame {
            width,
            height,
            snake,
            direction: Direction::Left,
            next_direction: Direction::Left,
            food: (food_x, height / 2),
            finished: false,
        };
        proof {
            assert(game.snake@ =~= seq![start]);
            assert(!game.snake@.contains(game.food)) by {
                if game.snake@.contains(game.food) {
                    let k = choose|k: int| 0 <= k < game.snake@.len() && game.snake@[k] == game.food;
                    assert(game.snake@[k] == start);
                }
            }
        }
        game
    }

    /// Asks for a turn. A request on the axis of the current heading (the
    /// heading itself or its reverse) is ignored; any other becomes the
    /// pending heading, which the next tick takes. Nothing else changes.
    pub fn change_direction(&mut self, direction: Direction)
        ensures
            final(self)@ == old(self)@.turn(direction),
            old(self)@.direction.shares_axis(direction) ==> final(self)@ == old(self)@,
            !old(self)@.direction.shares_axis(direction) ==> final(self)@.pending == direction,
            old(self).wf() ==> final(self).wf(),
    {
        if !self.direction.same_axis(direction) {
            self.next_direction = direction;
        }
    }

    /// Whether `pos` is a cell of the grid: its column lies under the width
    /// and its row under the height.
    pub fn is_valid(&self, pos: Pos) -> (r: bool)
        ensures
            r == in_grid((pos.0 as int, pos.1 as int), self.width, self.height),
    {
        pos.0 < self.width && pos.1 < self.height
    }

    /// Whether the snake covers `pos`.
    pub fn is_touching_snake(&self, pos: &Pos) -> (r: bool)
        ensures
            r == self.snake@.contains(*pos),
    {
        let n: usize = self.snake.len();
        let mut i: usize = 0;
        while i < n
            invariant
                n == self.snake@.len(),
                i <= n,
                forall|k: int| 0 <= k < i ==> self.snake@[k] != *pos,
            decreases n - i,
        {
            let segment: Pos = self.snake[i];
            if segment.0 == pos.0 && segment.1 == pos.1 {
                return true;
            }
            i += 1;
        }
        false
    }

    /// The cells of the grid that the snake does not cover, row by row from
    /// the top, each row from left to right.
    pub fn free_positions(&self) -> (free: Vec<Pos>)
        ensures
            free@ == free_cells(self.width, self.height, self.snake@),
    {
        let mut free: Vec<Pos> = Vec::new();
        let mut y: usize = 0;
        while y < self.height
            invariant
                y <= self.height,
                free@ == free_in_rows(self.width, y as int, self.snake@),
            decreases self.height - y,
        {
            let ghost above = free@;
            let mut x: usize = 0;
            while x < self.width
                invariant
                    x <= self.width,
                    y < self.height,
                    free@ == above + free_in_row(y, x as int, self.snake@),
                decreases self.width - x,
            {
                let ghost row = free_in_row(y, x as int, self.snake@);
                if !self.is_touching_snake(&(x, y)) {
                    free.push((x, y));
                    assert(free@ =~= above + row.push((x, y)));
                }
                x += 1;
            }
            y += 1;
        }
        free
    }

    /// Moves the food after it was eaten: to the free cell that `draw` picks,
    /// or nowhere, ending the game, if the snake has left none.
    fn eat(&mut self, draw: usize)
        ensures
            final(self)@ == old(self)@.relocate(draw),
    {
        let free_position = self.free_positions();
        if free_position.len() == 0 {
            self.finished = true;
            return;
        }
        self.food = free_position[draw % free_position.len()];
    }

    /// One step of the game, see [`State::tick`]. `draw` is a number drawn by
    /// the caller, used only when the snake eats: reduced modulo the number
    /// of free cells, it indexes them in row-major order. A draw that is
    /// uniform below a multiple of that number picks each free cell equally
    /// often; one that is uniform over all of `usize` does so nearly.
    ///
    /// A finished game is left untouched. The invariant is kept, so after
    /// every tick the food lies off the snake unless the snake has covered
    /// the whole grid.
    pub fn tick(&mut self, draw: usize)
        ensures
            final(self)@ == old(self)@.tick(draw),
            old(self)@.finished ==> final(self)@ == old(self)@,
            old(self).wf() ==> final(self).wf(),
            old(self).wf() && !final(self)@.board_full() ==> !final(self)@.snake.contains(
                final(self)@.food,
            ),
    {
        if self.finished || self.snake.len() == 0 {
            return;
        }
        proof {
            if old(self).wf() {
                lemma_tick_keeps_wf(old(self)@, draw);
            }
        }
        self.direction = self.next_direction;
        let head: Pos = self.snake[0];
        let target: Option<Pos> = match self.direction {
            Direction::Up => if head.1 > 0 {
                Some((head.0, head.1 - 1))
            } else {
                None
            },
            Direction::Down => if head.1 < usize::MAX {
                Some((head.0, head.1 + 1))
            } else {
                None
            },
            Direction::Right => if head.0 < usize::MAX {
                Some((head.0 + 1, head.1))
            } else {
                None
            },
            Direction::Left => if head.0 > 0 {
                Some((head.0 - 1, head.1))
            } else {
                None
            },
        };
        match target {
            None => {
                self.finished = true;
            },
            Some(new_head) => {
                if !self.is_valid(new_head) || self.is_touching_snake(&new_head) {
                    self.finished = true;
                } else if new_head.0 == self.food.0 && new_head.1 == self.food.1 {
                    self.snake.push_front(new_head);
                    self.eat(draw);
                } else {
                    self.snake.pop_back();
                    self.snake.push_front(new_head);
                    assert(self.snake@ =~= seq![new_head] + old(self)@.snake.drop_last());
                }
            },
        }
    }

    /// Handles one event: a `Move` asks for a turn, an `UpdateTime` is a tick
    /// with `draw` as its draw.
    pub fn update(&mut self, msg: Msg, draw: usize)
        ensures
            final(self)@ == old(self)@.handle(msg, draw),
            old(self).wf() ==> final(self).wf(),
    {
        match msg {
            Msg::Move(d) => self.change_direction(d),
            Msg::UpdateTime => self.tick(draw),
        }
    }
}

} // verus!
