//! What holds of every game, proved over the model.
use vstd::prelude::*;
use crate::direction::Direction;
use crate::board::{marker_at, Marker};
use crate::model::{free_cells, in_grid, lemma_free_cells_exact, Pos, State};
use crate::snake::Msg;

verus! {

/// A cell put in front of a chain of distinct cells that does not hold it
/// gives a chain of distinct cells, which holds that cell and the chain's.
pub proof fn lemma_prepend_distinct(head: Pos, rest: Seq<Pos>)
    requires
        rest.no_duplicates(),
        !rest.contains(head),
    ensures
        (seq![head] + rest).no_duplicates(),
        forall|p: Pos| (seq![head] + rest).contains(p) <==> (p == head || rest.contains(p)),
{
    let all = seq![head] + rest;
    assert forall|i: int, j: int| 0 <= i < all.len() && 0 <= j < all.len() && i != j implies all[i]
        != all[j] by {
        if i > 0 {
            assert(all[i] == rest[i - 1]);
            assert(rest.contains(rest[i - 1]));
        }
        if j > 0 {
            assert(all[j] == rest[j - 1]);
            assert(rest.contains(rest[j - 1]));
        }
    }
    assert forall|p: Pos| all.contains(p) <==> (p == head || rest.contains(p)) by {
        if all.contains(p) {
            let k = choose|k: int| 0 <= k < all.len() && all[k] == p;
            if k > 0 {
                assert(rest[k - 1] == p);
            }
        }
        if p == head {
            assert(all[0] == p);
        }
        if rest.contains(p) {
            let k = choose|k: int| 0 <= k < rest.len() && rest[k] == p;
            assert(all[k + 1] == p);
        }
    }
}

/// A chain of distinct cells without its last cell is a chain of distinct
/// cells, and holds only cells of the chain.
pub proof fn lemma_drop_last_distinct(chain: Seq<Pos>)
    requires
        chain.len() >= 1,
        chain.no_duplicates(),
    ensures
        chain.drop_last().no_duplicates(),
        forall|p: Pos| chain.drop_last().contains(p) ==> chain.contains(p),
{
    let rest = chain.drop_last();
    assert forall|i: int, j: int| 0 <= i < rest.len() && 0 <= j < rest.len() && i != j implies rest[i]
        != rest[j] by {
        assert(rest[i] == chain[i]);
        assert(rest[j] == chain[j]);
    }
    assert forall|p: Pos| rest.contains(p) implies chain.contains(p) by {
        let k = choose|k: int| 0 <= k < rest.len() && rest[k] == p;
        assert(chain[k] == p);
    }
}

/// A turn keeps the invariant, and changes nothing but the pending heading.
pub proof fn lemma_turn_keeps_wf(s: State, d: Direction)
    requires
        s.wf(),
    ensures
        s.turn(d).wf(),
        s.turn(d) == (State { pending: s.turn(d).pending, ..s }),
{
}

/// A request for the current heading or its reverse leaves the pending
/// heading as it was; any other request becomes the pending heading.
pub proof fn lemma_turn_rule(s: State, d: Direction)
    ensures
        (d == s.direction || d == s.direction.reverse()) ==> s.turn(d).pending == s.pending,
        !(d == s.direction || d == s.direction.reverse()) ==> s.turn(d).pending == d,
{
}

/// A finished game is final: a tick changes nothing of it.
pub proof fn lemma_finished_is_absorbing(s: State, draw: usize)
    requires
        s.finished,
    ensures
        s.tick(draw) == s,
{
}

/// A game never starts again: once finished, it stays finished.
pub proof fn lemma_tick_never_restarts(s: State, draw: usize)
    ensures
        s.finished ==> s.tick(draw).finished,
        s.tick(draw).width == s.width,
        s.tick(draw).height == s.height,
        s.tick(draw).pending == s.pending,
{
}

/// Relocating the food keeps the invariant when the head has just taken the
/// food's cell: the food goes to a cell of the grid off the snake, or the
/// game ends with the grid covered.
pub proof fn lemma_relocate_keeps_wf(s: State, draw: usize)
    requires
        s.snake.len() >= 1,
        s.snake.no_duplicates(),
        forall|i: int|
            0 <= i < s.snake.len() ==> in_grid(
                (#[trigger] s.snake[i].0 as int, s.snake[i].1 as int),
                s.width,
                s.height,
            ),
        in_grid((s.food.0 as int, s.food.1 as int), s.width, s.height),
    ensures
        s.relocate(draw).wf(),
        !s.board_full() ==> !s.snake.contains(s.relocate(draw).food),
        !s.finished ==> (s.board_full() <==> s.relocate(draw).finished),
{
    let free = free_cells(s.width, s.height, s.snake);
    if free.len() > 0 {
        let k = draw as int % free.len() as int;
        assert(0 <= k < free.len());
        assert(free.contains(free[k]));
        lemma_free_cells_exact(s.width, s.height, s.snake, free[k]);
    }
}

/// A tick keeps the invariant.
pub proof fn lemma_tick_keeps_wf(s: State, draw: usize)
    requires
        s.wf(),
    ensures
        s.tick(draw).wf(),
{
    if !s.finished && !s.crashes() {
        let t = s.target();
        let head = (t.0 as usize, t.1 as usize);
        assert(!s.snake.contains(s.food));
        if head == s.food {
            let grown = seq![head] + s.snake;
            lemma_prepend_distinct(head, s.snake);
            let g = State { direction: s.pending, snake: grown, ..s };
            assert forall|i: int| 0 <= i < grown.len() implies in_grid(
                (#[trigger] grown[i].0 as int, grown[i].1 as int),
                s.width,
                s.height,
            ) by {
                if i > 0 {
                    assert(grown[i] == s.snake[i - 1]);
                }
            }
            lemma_relocate_keeps_wf(g, draw);
        } else {
            let rest = s.snake.drop_last();
            lemma_drop_last_distinct(s.snake);
            lemma_prepend_distinct(head, rest);
            let moved = seq![head] + rest;
            assert forall|i: int| 0 <= i < moved.len() implies in_grid(
                (#[trigger] moved[i].0 as int, moved[i].1 as int),
                s.width,
                s.height,
            ) by {
                if i > 0 {
                    assert(moved[i] == s.snake[i - 1]);
                }
            }
        }
    }
}

/// After a tick the food lies on no cell of the snake, unless the game has
/// ended with the snake covering the whole grid.
pub proof fn lemma_food_off_snake(s: State, draw: usize)
    requires
        s.wf(),
    ensures
        !s.tick(draw).board_full() ==> !s.tick(draw).snake.contains(s.tick(draw).food),
        !s.tick(draw).finished ==> !s.tick(draw).snake.contains(s.tick(draw).food),
{
    lemma_tick_keeps_wf(s, draw);
}

/// A step that does not eat keeps the snake's length; a step onto the food
/// makes it one longer and, where a cell is left, puts the food on a cell of
/// the grid that the grown snake does not cover. A crash moves nothing.
pub proof fn lemma_growth(s: State, draw: usize)
    requires
        s.wf(),
        !s.finished,
    ensures
        s.crashes() ==> s.tick(draw).snake == s.snake && s.tick(draw).food == s.food
            && s.tick(draw).finished,
        !s.crashes() && !s.eats() ==> s.tick(draw).snake.len() == s.snake.len() && s.tick(
            draw,
        ).food == s.food && !s.tick(draw).finished,
        s.eats() ==> s.tick(draw).snake.len() == s.snake.len() + 1,
        s.eats() && !s.tick(draw).finished ==> s.tick(draw).food != s.food && !s.tick(
            draw,
        ).snake.contains(s.tick(draw).food) && in_grid(
            (s.tick(draw).food.0 as int, s.tick(draw).food.1 as int),
            s.width,
            s.height,
        ),
{
    lemma_tick_keeps_wf(s, draw);
    if s.eats() {
        let after = s.tick(draw);
        assert(after.snake[0] == s.food);
        if !after.finished {
            assert(!after.snake.contains(after.food));
        }
    }
}

/// Eating the food with the last free cell ends the game: the snake covers
/// the whole grid and the food stays where the head now is.
pub proof fn lemma_full_board_ends(s: State, draw: usize)
    requires
        s.wf(),
        !s.finished,
        s.eats(),
        free_cells(s.width, s.height, seq![s.food] + s.snake).len() == 0,
    ensures
        s.tick(draw).finished,
        s.tick(draw).snake == seq![s.food] + s.snake,
        s.tick(draw).food == s.food,
        s.tick(draw).wf(),
{
    lemma_tick_keeps_wf(s, draw);
}

/// Through a whole session the invariant holds: whatever events arrive, with
/// whatever draws, the snake stays a chain of distinct cells of the grid and
/// the food stays off it until the snake covers the grid. The grid keeps its
/// size.
pub proof fn lemma_session_keeps_wf(s: State, events: Seq<(Msg, usize)>)
    requires
        s.wf(),
    ensures
        s.replay(events).wf(),
        s.replay(events).width == s.width,
        s.replay(events).height == s.height,
        !s.replay(events).board_full() ==> !s.replay(events).snake.contains(
            s.replay(events).food,
        ),
    decreases events.len(),
{
    if events.len() > 0 {
        lemma_session_keeps_wf(s, events.drop_last());
        let before = s.replay(events.drop_last());
        match events.last().0 {
            Msg::Move(d) => {
                lemma_turn_keeps_wf(before, d);
            },
            Msg::UpdateTime => {
                lemma_tick_keeps_wf(before, events.last().1);
            },
        }
    }
}

/// A finished game stays as it is through every run of events, but for the
/// pending heading, which no tick will take any more.
pub proof fn lemma_finished_session(s: State, events: Seq<(Msg, usize)>)
    requires
        s.finished,
    ensures
        s.replay(events) == (State { pending: s.replay(events).pending, ..s }),
    decreases events.len(),
{
    if events.len() > 0 {
        lemma_finished_session(s, events.drop_last());
    }
}

/// What the markers of a game that is under way say: one cell alone shows
/// the food, and it is no cell of the snake; the snake's front shows the
/// head, each of its other cells the body, and every other cell is empty.
pub proof fn lemma_markers_tell_cells_apart(s: State, p: Pos)
    requires
        s.wf(),
        !s.finished,
    ensures
        marker_at(s, p) == Marker::Food <==> p == s.food,
        marker_at(s, p) == Marker::Head <==> p == s.snake[0],
        marker_at(s, p) == Marker::Body <==> s.snake.contains(p) && p != s.snake[0],
        marker_at(s, p) == Marker::Empty <==> !s.snake.contains(p) && p != s.food,
{
    assert(s.snake.contains(s.snake[0]));
}

} // verus!
