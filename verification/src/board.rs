//! What a renderer draws: one marker for each cell of the grid.
use vstd::prelude::*;
use crate::model::{Pos, State};
use crate::snake::SnakeGame;

verus! {

/// What a cell of the grid shows.
#[derive(Debug, Clone, Copy, PartialEq, Eq, Structural)]
pub enum Marker {
    Food,
    Head,
    Body,
    Empty,
}

/// The marker of cell `p`: the food's cell shows the food; of the others,
/// the cell of the snake's front shows its head, any other cell of the snake
/// its body, and the rest nothing.
pub open spec fn marker_at(s: State, p: Pos) -> Marker {
    if p == s.food {
        Marker::Food
    } else if s.snake.len() > 0 && s.snake[0] == p {
        Marker::Head
    } else if s.snake.contains(p) {
        Marker::Body
    } else {
        Marker::Empty
    }
}

/// The place of cell `(x, y)` in a row-major listing of a grid `width` wide.
pub open spec fn cell_index(width: usize, x: int, y: int) -> int {
    y * width + x
}

/// A cell of an earlier row comes before every cell of a later row.
pub proof fn lemma_rows_in_order(width: usize, x: int, y: int, later: int)
    requires
        0 <= x < width,
        0 <= y < later,
    ensures
        0 <= cell_index(width, x, y) < later * width,
{
    assert(0 <= y * width && (y + 1) * width <= later * width && (y + 1) * width == y * width
        + width) by (nonlinear_arith)
        requires
            0 <= y < later,
            0 <= width,
    ;
}

/// A grid of one row more holds one row's cells more.
pub proof fn lemma_row_added(width: usize, y: int)
    ensures
        (y + 1) * width == y * width + width,
        y * width == width * y,
{
    assert((y + 1) * width == y * width + width && y * width == width * y) by (nonlinear_arith);
}

impl Marker {
    /// The text that stands for the marker.
    pub open spec fn text(self) -> Seq<char> {
        match self {
            Marker::Food => "🍎"@,
            Marker::Head => "❇️"@,
            Marker::Body => "🟩"@,
            Marker::Empty => " "@,
        }
    }

    /// The text to draw in a cell with this marker.
    pub fn glyph(self) -> (r: &'static str)
        ensures
            r@ == self.text(),
    {
        match self {
            Marker::Food => "🍎",
            Marker::Head => "❇️",
            Marker::Body => "🟩",
            Marker::Empty => " ",
        }
    }
}

impl SnakeGame {
    /// The marker of one cell, see [`marker_at`].
    pub fn marker(&self, pos: Pos) -> (m: Marker)
        ensures
            m == marker_at(self@, pos),
    {
        if pos.0 == self.food.0 && pos.1 == self.food.1 {
            return Marker::Food;
        }
        if self.snake.len() > 0 {
            let head: Pos = self.snake[0];
            if head.0 == pos.0 && head.1 == pos.1 {
                return Marker::Head;
            }
        }
        if self.is_touching_snake(&pos) {
            Marker::Body
        } else {
            Marker::Empty
        }
    }

    /// The whole grid as markers in row-major order: the marker of cell
    /// `(x, y)` stands at index `y * width + x`.
    pub fn snapshot(&self) -> (cells: Vec<Marker>)
        ensures
            cells@.len() == self.width * self.height,
            forall|x: int, y: int|
                0 <= x < self.width && 0 <= y < self.height ==> cells@[#[trigger] cell_index(
                    self.width,
                    x,
                    y,
                )] == marker_at(self@, (x as usize, y as usize)),
    {
        let mut cells: Vec<Marker> = Vec::new();
        let mut y: usize = 0;
        assert(0 * self.width == 0);
        while y < self.height
            invariant
                y <= self.height,
                cells@.len() == y * self.width,
                forall|xx: int, yy: int|
                    0 <= xx < self.width && 0 <= yy < y ==> cells@[#[trigger] cell_index(
                        self.width,
                        xx,
                        yy,
                    )] == marker_at(self@, (xx as usize, yy as usize)),
            decreases self.height - y,
        {
            let mut x: usize = 0;
            while x < self.width
                invariant
                    x <= self.width,
                    y < self.height,
                    cells@.len() == y * self.width + x,
                    forall|xx: int, yy: int|
                        0 <= xx < self.width && 0 <= yy < y ==> cells@[#[trigger] cell_index(
                            self.width,
                            xx,
                            yy,
                        )] == marker_at(self@, (xx as usize, yy as usize)),
                    forall|xx: int|
                        0 <= xx < x ==> cells@[#[trigger] cell_index(self.width, xx, y as int)]
                            == marker_at(self@, (xx as usize, y)),
                decreases self.width - x,
            {
                let m = self.marker((x, y));
                let ghost before = cells@;
                cells.push(m);
                proof {
                    assert forall|xx: int, yy: int| 0 <= xx < self.width && 0 <= yy < y implies cells@[#[trigger] cell_index(
                        self.width,
                        xx,
                        yy,
                    )] == marker_at(self@, (xx as usize, yy as usize)) by {
                        lemma_rows_in_order(self.width, xx, yy, y as int);
                        assert(cells@[cell_index(self.width, xx, yy)] == before[cell_index(
                            self.width,
                            xx,
                            yy,
                        )]);
                    }
                }
                x += 1;
            }
            proof {
                lemma_row_added(self.width, y as int);
            }
            y += 1;
        }
        proof {
            lemma_row_added(self.width, self.height as int);
        }
        cells
    }
}

} // verus!
