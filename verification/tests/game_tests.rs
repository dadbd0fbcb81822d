//! Tests for the game state machine: apple placement, timers, border
//! and self collisions, game over and restart.

use snake_game::block::Block;
use snake_game::game::Game;
use snake_game::snake::{Direction, Snake};

fn body_of(game: &Game) -> Vec<Block> {
    game.snake.body.clone()
}

/// A game whose apple is parked away from the snake's path, so a test
/// can move the snake deterministically.
fn game_with_parked_apple(width: u32, height: u32) -> Game {
    let mut game = Game::new(width, height);
    game.apple_x = 10;
    game.apple_y = 10;
    game.apple_exists = true;
    game
}

#[test]
fn new_game_starts_fresh() {
    let game = Game::new(20, 20);
    assert!(!game.game_over);
    assert_eq!(game.waiting_time_ms, 0);
    assert_eq!(game.snake.direction(), Direction::Right);
    assert_eq!(game.snake.position(), (3, 3));
    assert_eq!(game.snake.body.len(), 3);
    assert!(game.apple_exists);
}

#[test]
fn initial_snake_lies_inside_border_ring() {
    for (width, height) in [(5u32, 5u32), (6, 9), (20, 20)] {
        let game = Game::new(width, height);
        for cell in &game.snake.body {
            assert!(1 <= cell.x && cell.x <= width - 2);
            assert!(1 <= cell.y && cell.y <= height - 2);
        }
    }
}

#[test]
fn apple_is_placed_on_a_free_interior_cell() {
    let mut game = Game::new(20, 20);
    for _ in 0..50 {
        game.add_apple();
        assert!(game.apple_exists);
        assert!(1 <= game.apple_x && game.apple_x <= 18);
        assert!(1 <= game.apple_y && game.apple_y <= 18);
        // on no body cell at all, the tail included
        for cell in &body_of(&game) {
            assert!(!(cell.x == game.apple_x && cell.y == game.apple_y));
        }
    }
}

#[test]
fn overlaps_border_flags_exactly_the_outer_ring() {
    let game = Game::new(20, 20);
    assert!(game.overlaps_border(0, 5));
    assert!(game.overlaps_border(19, 5));
    assert!(game.overlaps_border(5, 0));
    assert!(game.overlaps_border(5, 19));
    assert!(!game.overlaps_border(1, 1));
    assert!(!game.overlaps_border(18, 18));
}

#[test]
fn forced_tick_moves_snake_straight() {
    let mut game = game_with_parked_apple(20, 20);
    game.update(501);
    assert_eq!(
        body_of(&game),
        vec![
            Block { x: 4, y: 3 },
            Block { x: 3, y: 3 },
            Block { x: 2, y: 3 },
        ]
    );
    assert_eq!(game.snake.body.len(), 3);
    assert!(!game.game_over);
    assert_eq!(game.waiting_time_ms, 0);
    assert!(game.apple_exists);
    assert_eq!((game.apple_x, game.apple_y), (10, 10));
}

#[test]
fn waiting_time_accumulates_until_the_moving_period() {
    let mut game = game_with_parked_apple(20, 20);
    game.update(200);
    assert_eq!(game.waiting_time_ms, 200);
    assert_eq!(game.snake.position(), (3, 3));
    game.update(200);
    assert_eq!(game.waiting_time_ms, 400);
    assert_eq!(game.snake.position(), (3, 3));
    game.update(200);
    // 600 ms exceeds the 500 ms moving period: a move fires and the
    // accumulator resets
    assert_eq!(game.waiting_time_ms, 0);
    assert_eq!(game.snake.position(), (4, 3));
}

#[test]
fn exactly_the_moving_period_does_not_move_yet() {
    let mut game = game_with_parked_apple(20, 20);
    game.update(500);
    assert_eq!(game.waiting_time_ms, 500);
    assert_eq!(game.snake.position(), (3, 3));
    game.update(1);
    assert_eq!(game.snake.position(), (4, 3));
}

#[test]
fn eating_the_apple_grows_the_snake() {
    let mut game = Game::new(20, 20);
    game.apple_x = 4;
    game.apple_y = 3;
    game.apple_exists = true;
    game.update(501);
    assert_eq!(
        body_of(&game),
        vec![
            Block { x: 4, y: 3 },
            Block { x: 3, y: 3 },
            Block { x: 2, y: 3 },
            Block { x: 1, y: 3 },
        ]
    );
    assert_eq!(game.snake.body.len(), 4);
    assert!(!game.apple_exists);
    assert!(!game.game_over);
    // the next playing tick replaces the missing apple
    game.update(1);
    assert!(game.apple_exists);
}

#[test]
fn key_press_moves_snake_immediately() {
    let mut game = game_with_parked_apple(20, 20);
    game.key_pressed(Some(Direction::Up));
    assert_eq!(game.snake.direction(), Direction::Up);
    assert_eq!(game.snake.position(), (3, 2));
    assert_eq!(game.waiting_time_ms, 0);
}

#[test]
fn reversal_is_ignored() {
    let mut game = game_with_parked_apple(20, 20);
    game.update(100);
    game.key_pressed(Some(Direction::Left));
    assert_eq!(game.snake.direction(), Direction::Right);
    assert_eq!(game.snake.position(), (3, 3));
    assert_eq!(game.snake.body.len(), 3);
    // not even the waiting time changes
    assert_eq!(game.waiting_time_ms, 100);
    assert!(!game.game_over);
}

#[test]
fn non_arrow_keys_are_ignored() {
    let mut game = game_with_parked_apple(20, 20);
    game.update(100);
    game.key_pressed(None);
    assert_eq!(game.snake.position(), (3, 3));
    assert_eq!(game.waiting_time_ms, 100);
}

#[test]
fn border_collision_sets_game_over_and_freezes_snake() {
    let mut game = game_with_parked_apple(20, 20);
    game.key_pressed(Some(Direction::Up)); // head (3, 2)
    game.key_pressed(Some(Direction::Up)); // head (3, 1)
    assert!(!game.game_over);
    game.key_pressed(Some(Direction::Up)); // would reach (3, 0): border
    assert!(game.game_over);
    assert_eq!(game.snake.position(), (3, 1));
    assert_eq!(game.snake.body.len(), 3);
    // frozen until restart: keys and short ticks change nothing
    game.key_pressed(Some(Direction::Right));
    assert_eq!(game.snake.position(), (3, 1));
    game.update(100);
    assert!(game.game_over);
    assert_eq!(game.snake.position(), (3, 1));
    assert_eq!(game.waiting_time_ms, 100);
}

#[test]
fn self_collision_sets_game_over() {
    let mut game = Game::new(20, 20);
    game.apple_x = 10;
    game.apple_y = 10;
    game.apple_exists = true;
    // a five-cell hook: moving down from (2, 2) hits (2, 3), which is
    // not the tail
    game.snake = Snake {
        direction: Direction::Left,
        body: vec![
            Block { x: 2, y: 2 },
            Block { x: 3, y: 2 },
            Block { x: 3, y: 3 },
            Block { x: 2, y: 3 },
            Block { x: 1, y: 3 },
        ],
        tail: None,
    };
    game.update_snake(Some(Direction::Down));
    assert!(game.game_over);
    assert_eq!(game.snake.position(), (2, 2));
    assert_eq!(game.snake.body.len(), 5);
}

#[test]
fn moving_into_the_vacated_tail_cell_is_allowed() {
    let mut game = Game::new(20, 20);
    game.apple_x = 10;
    game.apple_y = 10;
    game.apple_exists = true;
    // a closed square: the cell below the head is the tail itself,
    // which moves away on the same tick
    game.snake = Snake {
        direction: Direction::Left,
        body: vec![
            Block { x: 2, y: 2 },
            Block { x: 3, y: 2 },
            Block { x: 3, y: 3 },
            Block { x: 2, y: 3 },
        ],
        tail: None,
    };
    game.update_snake(Some(Direction::Down));
    assert!(!game.game_over);
    assert_eq!(game.snake.position(), (2, 3));
    assert_eq!(
        body_of(&game),
        vec![
            Block { x: 2, y: 3 },
            Block { x: 2, y: 2 },
            Block { x: 3, y: 2 },
            Block { x: 3, y: 3 },
        ]
    );
}

#[test]
fn stepping_off_the_low_edges_is_a_border_collision() {
    let mut game = Game::new(20, 20);
    game.snake = Snake {
        direction: Direction::Left,
        body: vec![Block { x: 0, y: 3 }],
        tail: None,
    };
    // moving further left from column 0 leaves the board
    assert!(!game.check_if_snake_is_alive(None));
    assert!(!game.check_if_snake_is_alive(Some(Direction::Left)));
    // moving up from row 0 leaves the board
    game.snake.body[0] = Block { x: 3, y: 0 };
    assert!(!game.check_if_snake_is_alive(Some(Direction::Up)));
    // moving back onto the board is not fatal
    assert!(game.check_if_snake_is_alive(Some(Direction::Down)));
}

#[test]
fn alive_check_matches_walls_and_body() {
    let game = game_with_parked_apple(5, 5);
    // head (3, 3) on a 5-wide board: right and down hit the border
    assert!(!game.check_if_snake_is_alive(Some(Direction::Right)));
    assert!(!game.check_if_snake_is_alive(Some(Direction::Down)));
    assert!(game.check_if_snake_is_alive(Some(Direction::Up)));
    // left is the snake's own neck cell (2, 3)
    assert!(!game.check_if_snake_is_alive(Some(Direction::Left)));
}

#[test]
fn game_over_waits_for_the_restart_delay() {
    let mut game = game_with_parked_apple(20, 20);
    game.snake = Snake {
        direction: Direction::Up,
        body: vec![
            Block { x: 3, y: 1 },
            Block { x: 3, y: 2 },
            Block { x: 3, y: 3 },
        ],
        tail: None,
    };
    game.update_snake(None); // (3, 0) is the border: game over
    assert!(game.game_over);
    game.update(1000);
    // exactly the restart delay has not elapsed it yet
    assert!(game.game_over);
    assert_eq!(game.waiting_time_ms, 1000);
    game.update(1);
    assert!(!game.game_over);
}

/// The eight interior cells around (2, 2) on a 5x5 board, head to tail.
fn ring_body() -> Vec<Block> {
    vec![
        Block { x: 1, y: 1 },
        Block { x: 2, y: 1 },
        Block { x: 3, y: 1 },
        Block { x: 3, y: 2 },
        Block { x: 3, y: 3 },
        Block { x: 2, y: 3 },
        Block { x: 1, y: 3 },
        Block { x: 1, y: 2 },
    ]
}

#[test]
fn apple_lands_on_the_only_free_cell() {
    let mut game = Game::new(5, 5);
    // every interior cell but (2, 2) is covered by the body
    game.snake = Snake {
        direction: Direction::Right,
        body: ring_body(),
        tail: None,
    };
    game.add_apple();
    assert!(game.apple_exists);
    assert_eq!((game.apple_x, game.apple_y), (2, 2));
}

#[test]
fn apple_never_lands_on_the_tail_cell() {
    let mut game = Game::new(5, 5);
    let mut body = ring_body();
    body.push(Block { x: 2, y: 2 });
    // all nine interior cells are covered; the only cell free of the
    // pre-tail body, (2, 2), is the tail itself, and food must not lie
    // under the snake — so there is no place for an apple at all
    game.snake = Snake {
        direction: Direction::Right,
        body,
        tail: None,
    };
    game.apple_x = 7;
    game.apple_y = 8;
    game.add_apple();
    assert!(!game.apple_exists);
    // the stale apple coordinates are left alone
    assert_eq!((game.apple_x, game.apple_y), (7, 8));
}

#[test]
fn huge_tick_still_forces_a_single_move() {
    let mut game = game_with_parked_apple(20, 20);
    game.update(u64::MAX);
    assert_eq!(game.snake.position(), (4, 3));
    assert_eq!(game.waiting_time_ms, 0);
    assert!(!game.game_over);
}

#[test]
fn restart_matches_a_fresh_game_up_to_the_apple() {
    let mut game = game_with_parked_apple(20, 20);
    game.key_pressed(Some(Direction::Up));
    game.key_pressed(Some(Direction::Up));
    game.key_pressed(Some(Direction::Up)); // border: game over
    assert!(game.game_over);
    game.update(1001); // restart fires
    let fresh = Game::new(20, 20);
    assert_eq!(game.width, fresh.width);
    assert_eq!(game.height, fresh.height);
    assert_eq!(body_of(&game), body_of(&fresh));
    assert_eq!(game.snake.direction(), fresh.snake.direction());
    assert!(game.snake.tail.is_none());
    assert_eq!(game.game_over, fresh.game_over);
    assert_eq!(game.waiting_time_ms, fresh.waiting_time_ms);
    // the apple is random, but both lie on a free interior cell
    for g in [&game, &fresh] {
        assert!(g.apple_exists);
        assert!(1 <= g.apple_x && g.apple_x <= 18);
        assert!(1 <= g.apple_y && g.apple_y <= 18);
    }
}
