//! The per-tick game state machine: forced movement on a timer, eating,
//! death on border or self collision, apple placement by rejection
//! sampling, and restart after a delay.

use vstd::prelude::*;

use rand::RngExt;

use crate::block::Block;
use crate::snake::{hits_body, hits_body_except_tail, initial_body, step, Direction, Snake};

verus! {

/// Milliseconds of accumulated waiting time after which a straight move
/// is forced.
pub const MOVING_PERIOD_MS: u64 = 500;

/// Milliseconds after game over before the game restarts.
pub const RESTART_TIME_MS: u64 = 1000;

/// How many random draws apple placement makes before it falls back to
/// scanning the board for a free cell.
const APPLE_SAMPLE_ATTEMPTS: u32 = 100;

/// Relies on rand::RngExt::random_range over `0..bound` on the thread
/// rng: the draw lies in the half-open range. Nothing more can be said
/// of a random value.
#[verifier::external_body]
fn random_below(bound: u32) -> (r: u32)
    requires
        bound > 0,
    ensures
        r < bound,
{
    rand::rng().random_range(0..bound)
}

pub struct Game {
    pub width: u32,
    pub height: u32,
    pub snake: Snake,
    pub apple_exists: bool,
    pub apple_x: u32,
    pub apple_y: u32,
    pub game_over: bool,
    /// Milliseconds since the last accepted move, or since game over began.
    pub waiting_time_ms: u64,
}

/// Relation between the state just before and just after one attempted
/// move of the snake (the procedure shared by key-driven and
/// timer-driven moves): a fatal step ends the game and leaves the snake
/// in place; an accepted step advances the snake, which grows by one
/// exactly when it eats the apple.
pub open spec fn move_attempted(pre: Game, post: Game, direction: Option<Direction>) -> bool {
    &&& post.width == pre.width
    &&& post.height == pre.height
    &&& post.waiting_time_ms == 0
    &&& (!pre.alive_after(direction) ==> {
        &&& post.snake == pre.snake
        &&& post.game_over
        &&& post.apple_exists == pre.apple_exists
        &&& post.apple_x == pre.apple_x
        &&& post.apple_y == pre.apple_y
    })
    &&& (pre.alive_after(direction) ==> {
        &&& post.game_over == pre.game_over
        &&& post.snake.direction == pre.snake.effective_direction(direction)
        &&& post.snake.tail == Some(pre.snake.body@.last())
        &&& post.apple_x == pre.apple_x
        &&& post.apple_y == pre.apple_y
        &&& (pre.eats_apple(direction) ==> {
            &&& post.snake.body@ == seq![pre.snake.next_head_spec(direction)]
                + pre.snake.body@
            &&& post.snake.body@.len() == pre.snake.body@.len() + 1
            &&& !post.apple_exists
        })
        &&& (!pre.eats_apple(direction) ==> {
            &&& post.snake.body@ == seq![pre.snake.next_head_spec(direction)]
                + pre.snake.body@.drop_last()
            &&& post.snake.body@.len() == pre.snake.body@.len()
            &&& post.apple_exists == pre.apple_exists
        })
    })
}

/// How one call of apple placement changes the state: everything but
/// the apple is kept, and the apple sits on a free cell exactly when
/// the board has one.
pub open spec fn apple_refreshed(pre: Game, post: Game) -> bool {
    &&& post.width == pre.width
    &&& post.height == pre.height
    &&& post.snake == pre.snake
    &&& post.game_over == pre.game_over
    &&& post.waiting_time_ms == pre.waiting_time_ms
    &&& post.apple_exists == (exists|x: u32, y: u32| pre.free_cell(x, y))
    &&& (post.apple_exists ==> pre.free_cell(post.apple_x, post.apple_y))
    &&& (!post.apple_exists ==> post.apple_x == pre.apple_x && post.apple_y == pre.apple_y)
}

/// One tick taken while playing, with the waiting time already bumped
/// to `wt`: a missing apple is replaced first; then, if the moving
/// period has elapsed, a straight move is attempted.
pub open spec fn playing_tick(pre: Game, mid: Game, post: Game, wt: u64) -> bool {
    &&& (pre.apple_exists ==> mid == (Game { waiting_time_ms: wt, ..pre }))
    &&& (!pre.apple_exists ==> apple_refreshed((Game { waiting_time_ms: wt, ..pre }), mid))
    &&& (wt > MOVING_PERIOD_MS ==> move_attempted(mid, post, None))
    &&& (wt <= MOVING_PERIOD_MS ==> post == mid)
}

impl Game {
    /// A cell on the outermost ring of the board.
    pub open spec fn on_border(self, x: int, y: int) -> bool {
        x == 0 || x == self.width - 1 || y == 0 || y == self.height - 1
    }

    /// A cell strictly inside the border ring.
    pub open spec fn interior(self, x: int, y: int) -> bool {
        1 <= x <= self.width - 2 && 1 <= y <= self.height - 2
    }

    /// A cell where an apple may be placed: strictly inside the border
    /// ring and on no snake body cell at all, the tail included — food
    /// must never lie under the snake, so placement checks the whole
    /// body even though movement collisions exclude the tail.
    pub open spec fn free_cell(self, x: u32, y: u32) -> bool {
        self.interior(x as int, y as int)
            && !hits_body(self.snake.body@, x as int, y as int)
    }

    /// The state invariant: a big-enough board, a non-empty snake that
    /// lies strictly inside the border ring, and an apple (when present)
    /// on a free cell.
    pub open spec fn wf(self) -> bool {
        &&& self.width >= 5
        &&& self.height >= 5
        &&& self.snake.wf()
        &&& forall|i: int|
            0 <= i < self.snake.body@.len() ==> self.interior(
                (#[trigger] self.snake.body@[i]).x as int,
                self.snake.body@[i].y as int,
            )
        &&& self.apple_exists ==> self.free_cell(self.apple_x, self.apple_y)
    }

    /// Whether a move in this direction keeps the snake alive: the
    /// stepped head must stay on the board (a step past coordinate 0
    /// counts as hitting the border, never as a wrapped coordinate),
    /// off the border ring, and off the body (tail excluded).
    pub open spec fn alive_after(self, direction: Option<Direction>) -> bool {
        let d = self.snake.effective_direction(direction);
        let (nx, ny) = step(self.snake.head().x as int, self.snake.head().y as int, d);
        &&& 0 <= nx
        &&& 0 <= ny
        &&& !self.on_border(nx, ny)
        &&& !hits_body_except_tail(self.snake.body@, nx, ny)
    }

    /// Whether an accepted move in this direction lands the head on the
    /// apple.
    pub open spec fn eats_apple(self, direction: Option<Direction>) -> bool {
        &&& self.apple_exists
        &&& self.snake.next_head_spec(direction).x == self.apple_x
        &&& self.snake.next_head_spec(direction).y == self.apple_y
    }

    /// Whether the head currently sits on the apple.
    pub open spec fn head_on_apple(self) -> bool {
        &&& self.apple_exists
        &&& self.snake.head().x == self.apple_x
        &&& self.snake.head().y == self.apple_y
    }

    /// The waiting-time accumulator after a tick of `delta_time_ms`,
    /// saturating at the top of `u64`.
    pub open spec fn accumulated_wait(self, delta_time_ms: u64) -> u64 {
        if self.waiting_time_ms + delta_time_ms <= u64::MAX {
            (self.waiting_time_ms + delta_time_ms) as u64
        } else {
            u64::MAX
        }
    }

    /// A freshly constructed or freshly restarted game on the given
    /// board: everything is pinned except where the random apple landed.
    pub open spec fn is_fresh(self, width: u32, height: u32) -> bool {
        &&& self.width == width
        &&& self.height == height
        &&& self.snake.body@ == initial_body()
        &&& self.snake.direction == Direction::Right
        &&& self.snake.tail is None
        &&& !self.game_over
        &&& self.waiting_time_ms == 0
        &&& self.apple_exists
        &&& self.free_cell(self.apple_x, self.apple_y)
    }

    /// Constructs the initial state. The board must be at least 5 x 5:
    /// although any board with an interior cell (anything above 2 x 2)
    /// would be drawable, the snake always starts as the fixed three
    /// cells of `initial_body` with its head at (3, 3), and that body
    /// lies strictly inside the border ring — as the board rules demand
    /// of every snake cell — only from 5 x 5 up. Smaller boards would
    /// begin with the snake on or beyond the wall, a state every other
    /// operation here is entitled to rule out.
    pub fn new(width: u32, height: u32) -> (game: Game)
        requires
            width >= 5,
            height >= 5,
        ensures
            game.wf(),
            game.is_fresh(width, height),
    {
        let mut game = Game {
            width,
            height,
            snake: Snake::new(),
            apple_exists: false,
            apple_x: 0,
            apple_y: 0,
            game_over: false,
            waiting_time_ms: 0,
        };
        proof {
            lemma_initial_board_has_free_cell(game);
        }
        game.add_apple();
        game
    }

    pub fn overlaps_border(&self, x: u32, y: u32) -> (r: bool)
        requires
            self.width >= 1,
            self.height >= 1,
        ensures
            r == self.on_border(x as int, y as int),
    {
        x == 0 || x == self.width - 1 || y == 0 || y == self.height - 1
    }

    /// Whether the snake survives a move in this direction. A head on
    /// row or column 0 cannot step further up or left: that step leaves
    /// the board and is reported as fatal rather than computed on
    /// wrapped unsigned coordinates.
    pub fn check_if_snake_is_alive(&self, direction: Option<Direction>) -> (r: bool)
        requires
            self.snake.wf(),
            self.width >= 1,
            self.height >= 1,
            self.snake.head().x < self.width,
            self.snake.head().y < self.height,
        ensures
            r == self.alive_after(direction),
    {
        let (head_x, head_y) = self.snake.position();
        let moving_direction = match direction {
            Some(d) => d,
            None => self.snake.direction(),
        };
        let escapes_board = match moving_direction {
            Direction::Up => head_y == 0,
            Direction::Left => head_x == 0,
            Direction::Down => false,
            Direction::Right => false,
        };
        if escapes_board {
            return false;
        }

        let (next_x, next_y) = self.snake.next_head(direction);

        if self.snake.overlaps_tail(next_x, next_y) {
            return false;
        }

        !self.overlaps_border(next_x, next_y)
    }

    /// If the head has landed on the apple, consume it and grow the
    /// snake by restoring the just-popped tail cell.
    pub fn check_if_snake_has_eaten(&mut self)
        requires
            old(self).snake.wf(),
            old(self).head_on_apple() ==> old(self).snake.tail is Some,
        ensures
            (old(self).head_on_apple() ==> {
                &&& !final(self).apple_exists
                &&& final(self).snake.body@ == old(self).snake.body@.push(
                    old(self).snake.tail->Some_0,
                )
                &&& final(self).snake.direction == old(self).snake.direction
                &&& final(self).snake.tail == old(self).snake.tail
                &&& final(self).width == old(self).width
                &&& final(self).height == old(self).height
                &&& final(self).apple_x == old(self).apple_x
                &&& final(self).apple_y == old(self).apple_y
                &&& final(self).game_over == old(self).game_over
                &&& final(self).waiting_time_ms == old(self).waiting_time_ms
            }),
            (!old(self).head_on_apple() ==> *final(self) == *old(self)),
    {
        if self.apple_exists {
            let (head_x, head_y) = self.snake.position();
            if head_x == self.apple_x && head_y == self.apple_y {
                self.apple_exists = false;
                self.snake.restore_tail();
            }
        }
    }

    /// One attempted move: if the step is fatal the game ends and the
    /// snake stays put; otherwise the snake advances and may eat the
    /// apple. Either way the waiting time restarts.
    pub fn update_snake(&mut self, direction: Option<Direction>)
        requires
            old(self).wf(),
        ensures
            final(self).wf(),
            move_attempted(*old(self), *final(self), direction),
    {
        proof {
            assert(self.interior(
                self.snake.body@[0].x as int,
                self.snake.body@[0].y as int,
            ));
        }
        if self.check_if_snake_is_alive(direction) {
            self.snake.move_forward(direction);
            self.check_if_snake_has_eaten();
            proof {
                let pre = *old(self);
                let nh = pre.snake.next_head_spec(direction);
                if pre.eats_apple(direction) {
                    assert(self.snake.body@ =~= seq![nh] + pre.snake.body@);
                } else {
                    assert(self.snake.body@ == seq![nh] + pre.snake.body@.drop_last());
                }
                assert forall|i: int| 0 <= i < self.snake.body@.len() implies self.interior(
                    (#[trigger] self.snake.body@[i]).x as int,
                    self.snake.body@[i].y as int,
                ) by {
                    if i >= 1 {
                        assert(self.snake.body@[i] == pre.snake.body@[i - 1]);
                        assert(pre.interior(
                            pre.snake.body@[i - 1].x as int,
                            pre.snake.body@[i - 1].y as int,
                        ));
                    }
                }
                if self.apple_exists {
                    assert(!hits_body(
                        self.snake.body@,
                        self.apple_x as int,
                        self.apple_y as int,
                    )) by {
                        assert forall|i: int| 0 <= i < self.snake.body@.len() implies !((
                        #[trigger] self.snake.body@[i]).x as int == self.apple_x as int
                            && self.snake.body@[i].y as int == self.apple_y as int) by {
                            if i >= 1 {
                                assert(self.snake.body@[i] == pre.snake.body@[i - 1]);
                            }
                        }
                    }
                }
            }
        } else {
            self.game_over = true;
        }
        self.waiting_time_ms = 0;
    }

    /// A key press while playing: an arrow key that does not reverse the
    /// current heading triggers an immediate move in that direction;
    /// reversals, other keys, and any key after game over are ignored.
    pub fn key_pressed(&mut self, key: Option<Direction>)
        requires
            old(self).wf(),
        ensures
            final(self).wf(),
            (old(self).game_over ==> *final(self) == *old(self)),
            (!old(self).game_over ==> match key {
                None => *final(self) == *old(self),
                Some(d) => if d == old(self).snake.direction.opposite_spec() {
                    *final(self) == *old(self)
                } else {
                    move_attempted(*old(self), *final(self), key)
                },
            }),
    {
        if self.game_over {
            return;
        }
        match key {
            None => {},
            Some(d) => {
                if d == self.snake.direction().opposite() {
                    return;
                }
                self.update_snake(Some(d));
            },
        }
    }

    /// Place the apple on a free cell — strictly interior and on no
    /// body cell at all: first by a bounded number of uniform random
    /// draws, then, if none landed on a free cell, by scanning the
    /// interior of the board. The apple ends up placed exactly when the
    /// board has a free cell at all.
    pub fn add_apple(&mut self)
        requires
            old(self).width >= 1,
            old(self).height >= 1,
        ensures
            apple_refreshed(*old(self), *final(self)),
    {
        let mut attempts: u32 = 0;
        while attempts < APPLE_SAMPLE_ATTEMPTS
            invariant
                *self == *old(self),
                old(self).width >= 1,
                old(self).height >= 1,
            decreases APPLE_SAMPLE_ATTEMPTS - attempts,
        {
            let x = random_below(self.width);
            let y = random_below(self.height);
            if !self.overlaps_border(x, y) && !self.snake.overlaps_body(x, y) {
                self.apple_x = x;
                self.apple_y = y;
                self.apple_exists = true;
                proof {
                    assert(old(self).free_cell(x, y));
                }
                return;
            }
            attempts = attempts + 1;
        }

        // No lucky draw: scan the interior for the first free cell.
        let mut sx: u32 = 1;
        while sx + 1 < self.width
            invariant
                *self == *old(self),
                old(self).width >= 1,
                old(self).height >= 1,
                1 <= sx,
                old(self).width >= 2 ==> sx <= old(self).width - 1,
                old(self).width < 2 ==> sx == 1,
                forall|a: u32, b: u32|
                    #![trigger old(self).free_cell(a, b)]
                    a < sx ==> !old(self).free_cell(a, b),
            decreases old(self).width - sx,
        {
            let mut sy: u32 = 1;
            while sy + 1 < self.height
                invariant
                    *self == *old(self),
                    old(self).width >= 1,
                    old(self).height >= 1,
                    1 <= sx,
                    sx + 1 < old(self).width,
                    1 <= sy,
                    old(self).height >= 2 ==> sy <= old(self).height - 1,
                    old(self).height < 2 ==> sy == 1,
                    forall|a: u32, b: u32|
                        #![trigger old(self).free_cell(a, b)]
                        a < sx ==> !old(self).free_cell(a, b),
                    forall|b: u32|
                        #![trigger old(self).free_cell(sx, b)]
                        b < sy ==> !old(self).free_cell(sx, b),
                decreases old(self).height - sy,
            {
                if !self.overlaps_border(sx, sy) && !self.snake.overlaps_body(sx, sy) {
                    self.apple_x = sx;
                    self.apple_y = sy;
                    self.apple_exists = true;
                    proof {
                        assert(old(self).free_cell(sx, sy));
                    }
                    return;
                }
                sy = sy + 1;
            }
            proof {
                assert forall|b: u32| #[trigger] old(self).free_cell(sx, b) implies false by {
                    assert(b < sy);
                }
            }
            sx = sx + 1;
        }

        // The whole interior is occupied: no placement is possible.
        self.apple_exists = false;
        proof {
            assert forall|a: u32, b: u32| #[trigger] old(self).free_cell(a, b) implies false by {
                assert(a < sx);
            }
        }
    }

    /// Start the game over: a fresh snake, a fresh apple, and cleared
    /// game-over and waiting-time state. The board is kept, and must be
    /// big enough for the fixed initial body (see `new`).
    pub fn restart(&mut self)
        requires
            old(self).width >= 5,
            old(self).height >= 5,
        ensures
            final(self).wf(),
            final(self).is_fresh(old(self).width, old(self).height),
    {
        self.snake = Snake::new();
        proof {
            lemma_initial_board_has_free_cell(*self);
        }
        self.add_apple();
        self.game_over = false;
        self.waiting_time_ms = 0;
    }

    /// One tick of elapsed time. After game over, the game restarts once
    /// the restart delay has passed. While playing, a missing apple is
    /// replaced, and once the moving period has elapsed a straight move
    /// is forced.
    pub fn update(&mut self, delta_time_ms: u64)
        requires
            old(self).wf(),
        ensures
            final(self).wf(),
            ({
                let wt = old(self).accumulated_wait(delta_time_ms);
                &&& (old(self).game_over && wt > RESTART_TIME_MS ==> final(self).is_fresh(
                    old(self).width,
                    old(self).height,
                ))
                &&& (old(self).game_over && wt <= RESTART_TIME_MS ==> *final(self) == (Game {
                    waiting_time_ms: wt,
                    ..*old(self)
                }))
                &&& (!old(self).game_over ==> exists|mid: Game|
                    playing_tick(*old(self), mid, *final(self), wt))
            }),
    {
        let ghost wt = old(self).accumulated_wait(delta_time_ms);
        if delta_time_ms <= u64::MAX - self.waiting_time_ms {
            self.waiting_time_ms = self.waiting_time_ms + delta_time_ms;
        } else {
            self.waiting_time_ms = u64::MAX;
        }

        if self.game_over {
            if self.waiting_time_ms > RESTART_TIME_MS {
                self.restart();
            }
            return;
        }

        if !self.apple_exists {
            self.add_apple();
        }
        let ghost mid = *self;

        if self.waiting_time_ms > MOVING_PERIOD_MS {
            self.update_snake(None);
        }
        proof {
            assert(playing_tick(*old(self), mid, *self, wt));
        }
    }
}

/// On any board of width and height at least 5, the initial snake lies
/// entirely strictly inside the border ring.
pub proof fn lemma_initial_snake_inside_border(g: Game)
    requires
        g.width >= 5,
        g.height >= 5,
        g.snake.body@ == initial_body(),
    ensures
        forall|i: int|
            0 <= i < g.snake.body@.len() ==> g.interior(
                (#[trigger] g.snake.body@[i]).x as int,
                g.snake.body@[i].y as int,
            ),
{
    assert forall|i: int| 0 <= i < g.snake.body@.len() implies g.interior(
        (#[trigger] g.snake.body@[i]).x as int,
        g.snake.body@[i].y as int,
    ) by {
        assert(initial_body()[0] == (Block { x: 3, y: 3 }));
        assert(initial_body()[1] == (Block { x: 2, y: 3 }));
        assert(initial_body()[2] == (Block { x: 1, y: 3 }));
    }
}

/// A move whose stepped head leaves the board or lands on the border
/// ring is fatal: the game ends and the snake does not move.
pub proof fn lemma_border_collision_ends_game(pre: Game, post: Game, direction: Option<Direction>)
    requires
        move_attempted(pre, post, direction),
        ({
            let d = pre.snake.effective_direction(direction);
            let (nx, ny) = step(pre.snake.head().x as int, pre.snake.head().y as int, d);
            nx < 0 || ny < 0 || pre.on_border(nx, ny)
        }),
    ensures
        post.game_over,
        post.snake == pre.snake,
{
}

/// Restart idempotence: two fresh games on the same board agree on
/// everything except where the random apple landed.
pub proof fn lemma_fresh_games_agree(a: Game, b: Game, width: u32, height: u32)
    requires
        a.is_fresh(width, height),
        b.is_fresh(width, height),
    ensures
        a.width == b.width,
        a.height == b.height,
        a.snake.body@ == b.snake.body@,
        a.snake.direction == b.snake.direction,
        a.snake.tail == b.snake.tail,
        a.game_over == b.game_over,
        a.waiting_time_ms == b.waiting_time_ms,
{
}

/// Any board of width and height at least 5 has a free cell for the
/// initial snake, namely the interior corner cell (1, 1).
pub proof fn lemma_initial_board_has_free_cell(g: Game)
    requires
        g.width >= 5,
        g.height >= 5,
        g.snake.body@ == initial_body(),
    ensures
        g.free_cell(1, 1),
        exists|x: u32, y: u32| g.free_cell(x, y),
{
    assert(!hits_body(g.snake.body@, 1, 1)) by {
        assert forall|i: int| 0 <= i < g.snake.body@.len() implies !((
        #[trigger] g.snake.body@[i]).x as int == 1 && g.snake.body@[i].y as int == 1) by {
            assert(initial_body()[0] == (Block { x: 3, y: 3 }));
            assert(initial_body()[1] == (Block { x: 2, y: 3 }));
            assert(initial_body()[2] == (Block { x: 1, y: 3 }));
        }
    }
    assert(g.free_cell(1, 1));
}

} // verus!
