use snake_game::board::Marker;
use snake_game::direction::Direction;
use snake_game::model::Pos;
use snake_game::snake::{Msg, SnakeGame};
use std::collections::VecDeque;

fn game(
    width: usize,
    height: usize,
    snake: &[Pos],
    direction: Direction,
    food: Pos,
) -> SnakeGame {
    let mut body: VecDeque<Pos> = VecDeque::new();
    for p in snake {
        body.push_back(*p);
    }
    SnakeGame {
        width,
        height,
        snake: body,
        direction,
        next_direction: direction,
        food,
        finished: false,
    }
}

fn cells(g: &SnakeGame) -> Vec<Pos> {
    g.snake.iter().copied().collect()
}

#[test]
fn new_game_starts_near_the_right_edge() {
    let g = SnakeGame::new(15, 15);
    assert_eq!(g.width, 15);
    assert_eq!(g.height, 15);
    assert_eq!(cells(&g), vec![(13, 7)]);
    assert_eq!(g.food, (2, 7));
    assert_eq!(g.direction, Direction::Left);
    assert_eq!(g.next_direction, Direction::Left);
    assert!(!g.finished);
}

#[test]
fn new_game_on_the_narrowest_grid() {
    let g = SnakeGame::new(2, 1);
    assert_eq!(cells(&g), vec![(0, 0)]);
    assert_eq!(g.food, (1, 0));
    let g = SnakeGame::new(3, 4);
    assert_eq!(cells(&g), vec![(1, 2)]);
    assert_eq!(g.food, (2, 2));
}

#[test]
fn turn_on_the_same_axis_is_ignored() {
    let all = [Direction::Up, Direction::Right, Direction::Down, Direction::Left];
    for h in all {
        for d in all {
            let mut g = game(5, 5, &[(2, 2)], h, (0, 0));
            g.change_direction(d);
            let same_axis = d == h || d == h.opposite();
            if same_axis {
                assert_eq!(g.next_direction, h);
            } else {
                assert_eq!(g.next_direction, d);
            }
            assert_eq!(g.direction, h);
            assert_eq!(cells(&g), vec![(2, 2)]);
            assert_eq!(g.food, (0, 0));
            assert!(!g.finished);
        }
    }
}

#[test]
fn reverse_turn_is_ignored() {
    let mut g = SnakeGame::new(5, 5);
    assert_eq!(g.direction, Direction::Left);
    g.change_direction(Direction::Right);
    assert_eq!(g.next_direction, Direction::Left);
}

#[test]
fn turn_is_judged_against_the_current_heading() {
    let mut g = SnakeGame::new(5, 5);
    g.change_direction(Direction::Up);
    assert_eq!(g.next_direction, Direction::Up);
    // Still heading left until the next tick, so down is accepted and right is not.
    g.change_direction(Direction::Right);
    assert_eq!(g.next_direction, Direction::Up);
    g.change_direction(Direction::Down);
    assert_eq!(g.next_direction, Direction::Down);
}

#[test]
fn opposite_and_same_axis() {
    assert_eq!(Direction::Up.opposite(), Direction::Down);
    assert_eq!(Direction::Down.opposite(), Direction::Up);
    assert_eq!(Direction::Left.opposite(), Direction::Right);
    assert_eq!(Direction::Right.opposite(), Direction::Left);
    assert!(Direction::Up.same_axis(Direction::Down));
    assert!(Direction::Up.same_axis(Direction::Up));
    assert!(!Direction::Up.same_axis(Direction::Left));
    assert!(!Direction::Right.same_axis(Direction::Down));
}

#[test]
fn eating_grows_and_relocates_food() {
    let mut g = SnakeGame::new(5, 5);
    assert_eq!(cells(&g), vec![(3, 2)]);
    assert_eq!(g.food, (2, 2));
    g.tick(0);
    assert_eq!(cells(&g), vec![(2, 2), (3, 2)]);
    assert!(!g.finished);
    assert_ne!(g.food, (2, 2));
    assert_ne!(g.food, (3, 2));
    assert_eq!(g.food, (0, 0));
}

#[test]
fn draw_indexes_the_free_cells_in_row_major_order() {
    let expect: [(usize, Pos); 6] =
        [(0, (0, 0)), (4, (4, 0)), (5, (0, 1)), (12, (4, 2)), (22, (4, 4)), (23, (0, 0))];
    for (draw, food) in expect {
        let mut g = SnakeGame::new(5, 5);
        g.tick(draw);
        assert_eq!(g.food, food);
        assert!(!g.snake.contains(&g.food));
    }
    let mut g = SnakeGame::new(5, 5);
    g.tick(usize::MAX);
    assert_eq!(g.food, g_free_after_first_bite()[usize::MAX % 23]);
}

fn g_free_after_first_bite() -> Vec<Pos> {
    let g = game(5, 5, &[(2, 2), (3, 2)], Direction::Left, (2, 2));
    g.free_positions()
}

#[test]
fn free_positions_skip_the_snake() {
    let g = game(3, 2, &[(1, 0), (1, 1)], Direction::Up, (0, 0));
    assert_eq!(g.free_positions(), vec![(0, 0), (2, 0), (0, 1), (2, 1)]);
    let full = game(2, 1, &[(1, 0), (0, 0)], Direction::Right, (1, 0));
    assert_eq!(full.free_positions(), Vec::<Pos>::new());
}

#[test]
fn plain_move_keeps_length() {
    let mut g = game(5, 5, &[(2, 2), (3, 2), (3, 3)], Direction::Left, (0, 0));
    g.tick(9);
    assert_eq!(cells(&g), vec![(1, 2), (2, 2), (3, 2)]);
    assert_eq!(g.food, (0, 0));
    assert!(!g.finished);
    assert_eq!(g.direction, Direction::Left);
}

#[test]
fn each_heading_moves_one_cell() {
    let moves = [
        (Direction::Up, (2, 1)),
        (Direction::Down, (2, 3)),
        (Direction::Left, (1, 2)),
        (Direction::Right, (3, 2)),
    ];
    for (d, to) in moves {
        let mut g = game(5, 5, &[(2, 2)], d, (0, 0));
        g.tick(0);
        assert_eq!(cells(&g), vec![to]);
        assert!(!g.finished);
    }
}

#[test]
fn pending_heading_is_taken_on_tick() {
    let mut g = SnakeGame::new(5, 5);
    g.change_direction(Direction::Up);
    assert_eq!(g.direction, Direction::Left);
    g.tick(0);
    assert_eq!(g.direction, Direction::Up);
    assert_eq!(cells(&g), vec![(3, 1)]);
}

#[test]
fn leaving_the_grid_on_the_right_finishes() {
    let mut g = SnakeGame::new(5, 5);
    g.change_direction(Direction::Up);
    g.tick(0);
    g.change_direction(Direction::Right);
    g.tick(0);
    g.change_direction(Direction::Down);
    g.tick(0);
    g.change_direction(Direction::Right);
    assert_eq!(cells(&g), vec![(4, 2)]);
    assert!(!g.finished);
    g.tick(0);
    assert!(g.finished);
    assert_eq!(cells(&g), vec![(4, 2)]);
    assert_eq!(g.food, (2, 2));
}

#[test]
fn leaving_the_grid_on_any_side_finishes() {
    let cases = [
        (Direction::Up, (2, 0)),
        (Direction::Down, (2, 4)),
        (Direction::Left, (0, 2)),
        (Direction::Right, (4, 2)),
    ];
    for (d, at) in cases {
        let mut g = game(5, 5, &[at], d, (1, 1));
        g.tick(3);
        assert!(g.finished);
        assert_eq!(cells(&g), vec![at]);
        assert_eq!(g.food, (1, 1));
    }
}

#[test]
fn a_cell_is_valid_only_with_both_coordinates_inside() {
    let g = SnakeGame::new(5, 3);
    assert!(g.is_valid((4, 2)));
    assert!(g.is_valid((0, 0)));
    assert!(!g.is_valid((5, 2)));
    assert!(!g.is_valid((4, 3)));
    assert!(!g.is_valid((5, 3)));
    // A wide, low grid: a row below the last is outside though the column is fine.
    let mut g = game(5, 3, &[(1, 2)], Direction::Down, (0, 0));
    g.tick(0);
    assert!(g.finished);
    assert_eq!(cells(&g), vec![(1, 2)]);
}

#[test]
fn head_at_the_largest_coordinate_does_not_wrap() {
    let mut g = game(5, 5, &[(usize::MAX, 0)], Direction::Right, (1, 1));
    g.tick(0);
    assert!(g.finished);
    assert_eq!(cells(&g), vec![(usize::MAX, 0)]);
}

#[test]
fn running_into_the_body_finishes() {
    let body = [(1, 1), (1, 2), (2, 2), (2, 1), (2, 0)];
    let mut g = game(5, 5, &body, Direction::Right, (4, 4));
    g.tick(0);
    assert!(g.finished);
    assert_eq!(cells(&g), body.to_vec());
    assert!(g.is_touching_snake(&(2, 1)));
    assert!(!g.is_touching_snake(&(3, 1)));
}

#[test]
fn running_into_the_tail_cell_finishes() {
    let body = [(0, 0), (1, 0), (1, 1), (0, 1)];
    let mut g = game(3, 3, &body, Direction::Down, (2, 2));
    g.tick(0);
    assert!(g.finished);
    assert_eq!(cells(&g), body.to_vec());
}

#[test]
fn finished_game_ignores_ticks() {
    let mut g = game(5, 5, &[(0, 2), (1, 2)], Direction::Left, (3, 3));
    g.tick(0);
    assert!(g.finished);
    g.next_direction = Direction::Up;
    for draw in 0..4 {
        g.tick(draw);
        assert!(g.finished);
        assert_eq!(cells(&g), vec![(0, 2), (1, 2)]);
        assert_eq!(g.food, (3, 3));
        assert_eq!(g.direction, Direction::Left);
    }
}

#[test]
fn empty_snake_ignores_ticks() {
    let mut g = game(5, 5, &[], Direction::Left, (3, 3));
    g.next_direction = Direction::Up;
    g.tick(0);
    assert!(!g.finished);
    assert_eq!(cells(&g), Vec::<Pos>::new());
    assert_eq!(g.direction, Direction::Left);
    assert_eq!(g.food, (3, 3));
}

#[test]
fn eating_the_last_free_cell_finishes() {
    let mut g = game(2, 1, &[(0, 0)], Direction::Right, (1, 0));
    g.tick(5);
    assert!(g.finished);
    assert_eq!(cells(&g), vec![(1, 0), (0, 0)]);
    assert_eq!(g.food, (1, 0));
    let mut g = game(2, 2, &[(1, 0), (1, 1), (0, 1)], Direction::Left, (0, 0));
    g.tick(usize::MAX);
    assert!(g.finished);
    assert_eq!(cells(&g), vec![(0, 0), (1, 0), (1, 1), (0, 1)]);
}

#[test]
fn food_stays_off_the_snake_through_a_session() {
    let mut g = SnakeGame::new(6, 5);
    let turns = [
        Direction::Left,
        Direction::Up,
        Direction::Left,
        Direction::Down,
        Direction::Right,
        Direction::Down,
        Direction::Left,
        Direction::Up,
    ];
    let mut draw: usize = 7;
    for step in 0..200 {
        g.change_direction(turns[(step * 5 + draw) % turns.len()]);
        let before = g.snake.len();
        let food = g.food;
        g.tick(draw);
        draw = draw.wrapping_mul(31).wrapping_add(step + 11);
        if g.finished {
            break;
        }
        assert!(!g.snake.contains(&g.food));
        assert!(g.food.0 < g.width && g.food.1 < g.height);
        if g.snake[0] == food {
            assert_eq!(g.snake.len(), before + 1);
            assert_ne!(g.food, food);
        } else {
            assert_eq!(g.snake.len(), before);
            assert_eq!(g.food, food);
        }
        for (i, p) in g.snake.iter().enumerate() {
            assert!(p.0 < g.width && p.1 < g.height);
            assert!(!g.snake.iter().skip(i + 1).any(|q| q == p));
        }
    }
}

#[test]
fn update_dispatches_events() {
    let mut g = SnakeGame::new(5, 5);
    g.update(Msg::Move(Direction::Down), 0);
    assert_eq!(g.next_direction, Direction::Down);
    assert_eq!(cells(&g), vec![(3, 2)]);
    g.update(Msg::UpdateTime, 0);
    assert_eq!(cells(&g), vec![(3, 3)]);
    assert_eq!(g.direction, Direction::Down);
    g.update(Msg::Move(Direction::Up), 0);
    assert_eq!(g.next_direction, Direction::Down);
}

#[test]
fn snapshot_marks_every_cell() {
    let g = game(3, 2, &[(1, 0), (1, 1), (2, 1)], Direction::Up, (0, 1));
    let e = Marker::Empty;
    assert_eq!(
        g.snapshot(),
        vec![e, Marker::Head, e, Marker::Food, Marker::Body, Marker::Body]
    );
    assert_eq!(g.marker((1, 0)), Marker::Head);
    assert_eq!(g.marker((2, 1)), Marker::Body);
    assert_eq!(g.marker((0, 1)), Marker::Food);
    assert_eq!(g.marker((0, 0)), Marker::Empty);
}

#[test]
fn snapshot_has_one_food_marker() {
    let mut g = SnakeGame::new(5, 4);
    g.tick(0);
    g.tick(3);
    let shot = g.snapshot();
    assert_eq!(shot.len(), 20);
    assert_eq!(shot.iter().filter(|m| **m == Marker::Food).count(), 1);
    assert_eq!(shot.iter().filter(|m| **m == Marker::Head).count(), 1);
    assert_eq!(shot[g.food.1 * 5 + g.food.0], Marker::Food);
    assert_eq!(shot[g.snake[0].1 * 5 + g.snake[0].0], Marker::Head);
}

#[test]
fn snapshot_of_a_full_board_shows_food_on_the_head() {
    let mut g = game(2, 1, &[(0, 0)], Direction::Right, (1, 0));
    g.tick(0);
    assert_eq!(g.snapshot(), vec![Marker::Body, Marker::Food]);
}

#[test]
fn snapshot_of_an_empty_grid() {
    let g = game(0, 3, &[], Direction::Up, (0, 0));
    assert_eq!(g.snapshot(), Vec::<Marker>::new());
}

#[test]
fn glyphs() {
    assert_eq!(Marker::Food.glyph(), "🍎");
    assert_eq!(Marker::Head.glyph(), "❇️");
    assert_eq!(Marker::Body.glyph(), "🟩");
    assert_eq!(Marker::Empty.glyph(), " ");
}

#[test]
fn arrow_keys_name_headings() {
    assert_eq!(Direction::from_key("ArrowUp"), Some(Direction::Up));
    assert_eq!(Direction::from_key("ArrowRight"), Some(Direction::Right));
    assert_eq!(Direction::from_key("ArrowDown"), Some(Direction::Down));
    assert_eq!(Direction::from_key("ArrowLeft"), Some(Direction::Left));
    assert_eq!(Direction::from_key("Enter"), None);
    assert_eq!(Direction::from_key("arrowup"), None);
    assert_eq!(Direction::from_key(""), None);
    assert_eq!(Direction::from_key("w"), None);
}

#[test]
fn new_game_four_columns_wide_has_food_off_the_snake() {
    for height in 1..6 {
        let g = SnakeGame::new(4, height);
        assert_eq!(cells(&g), vec![(2, height / 2)]);
        assert_eq!(g.food, (1, height / 2));
        assert!(!g.snake.contains(&g.food));
        assert!(!g.finished);
    }
}

#[test]
fn new_game_has_food_off_the_snake_on_every_grid() {
    for width in 2..12 {
        for height in 1..6 {
            let g = SnakeGame::new(width, height);
            assert_eq!(g.snake.len(), 1);
            assert_eq!(g.snake[0], (width - 2, height / 2));
            let column = if width == 2 || width == 4 { 1 } else { 2 };
            assert_eq!(g.food, (column, height / 2));
            assert!(g.food != g.snake[0]);
            assert!(g.food.0 < width && g.food.1 < height);
            assert!(g.snake[0].0 < width && g.snake[0].1 < height);
        }
    }
}

#[test]
fn first_tick_on_four_columns_eats() {
    let mut g = SnakeGame::new(4, 4);
    g.tick(0);
    assert_eq!(cells(&g), vec![(1, 2), (2, 2)]);
    assert_eq!(g.food, (0, 0));
    assert!(!g.finished);
}
