//! The round state and the per-frame step of the simulation.

use vstd::prelude::*;
use crate::blocks::{make_grid, grid, Block};
use crate::collision::{
    hit_count, hits_block, lemma_pass_partition, lemma_total_points_prefix, points_gained,
    surviving, total_points,
};
use crate::units::{
    sat, sat_step, BALL_SIZE, BALL_SPEED, BALL_START_X, BALL_START_Y, PADDLE_HEIGHT, PADDLE_SPEED,
    PADDLE_START, PADDLE_WIDTH, SCREEN_HEIGHT, SCREEN_WIDTH,
};

verus! {

/// The pressed keys sampled once per frame.
#[derive(Clone, Copy, PartialEq, Eq, Structural, Debug)]
pub struct Input {
    pub left: bool,
    pub right: bool,
    pub confirm: bool,
}

/// The mathematical model of a round, every quantity an unbounded integer.
#[verifier::ext_equal]
pub ghost struct GameView {
    pub paddle_pos: int,
    pub ball_x: int,
    pub ball_y: int,
    pub ball_vx: int,
    pub ball_vy: int,
    pub blocks: Seq<Block>,
    pub score: int,
    pub high_score: int,
    pub game_over: bool,
}

impl GameView {
    /// The round invariant: the ball moves at the fixed speed on each axis
    /// (only the sign of a velocity ever changes), and the score plus the
    /// reward still standing on the field fits the score counter.
    pub open spec fn wf(self) -> bool {
        &&& self.ball_vx == BALL_SPEED as int || self.ball_vx == -(BALL_SPEED as int)
        &&& self.ball_vy == BALL_SPEED as int || self.ball_vy == -(BALL_SPEED as int)
        &&& 0 <= self.score
        &&& self.score + total_points(self.blocks) <= u32::MAX as int
        &&& 0 <= self.high_score <= u32::MAX as int
    }
}

/// The state every round starts from, given the round that just ended:
/// paddle centred, ball at the screen centre moving down-right at the fixed
/// speed, the full grid standing, score cleared, the round running, and the
/// high score raised to the ended round's score if that beat it.
pub open spec fn reset_view(v: GameView) -> GameView {
    GameView {
        paddle_pos: PADDLE_START as int,
        ball_x: BALL_START_X as int,
        ball_y: BALL_START_Y as int,
        ball_vx: BALL_SPEED as int,
        ball_vy: BALL_SPEED as int,
        blocks: grid(),
        score: 0,
        high_score: if v.score > v.high_score {
            v.score
        } else {
            v.high_score
        },
        game_over: false,
    }
}

/// A fresh simulation: the start state with a zero high score.
pub open spec fn initial_view() -> GameView {
    GameView {
        paddle_pos: PADDLE_START as int,
        ball_x: BALL_START_X as int,
        ball_y: BALL_START_Y as int,
        ball_vx: BALL_SPEED as int,
        ball_vy: BALL_SPEED as int,
        blocks: grid(),
        score: 0,
        high_score: 0,
        game_over: false,
    }
}

/// The paddle after one frame: each guarded move in order, left first; the
/// second guard reads the position the first produced. The guards are the
/// only bound on the move, so a large step can overshoot past a boundary.
pub open spec fn paddle_after(pos: int, d: int, left: bool, right: bool) -> int {
    let step = PADDLE_SPEED as int * d;
    let p1 = if left && pos > 0 {
        sat(pos - step)
    } else {
        pos
    };
    if right && p1 < SCREEN_WIDTH - PADDLE_WIDTH {
        sat(p1 + step)
    } else {
        p1
    }
}

/// The round after one frame, as a function of the previous state, the
/// elapsed milliseconds and the pressed keys.
///
/// In a lost round nothing moves; pressing confirm starts the next round.
/// Otherwise the paddle moves, the ball integrates, walls and paddle flip
/// the velocity in that order, and the ball leaving the bottom ends the
/// round before any block is considered; else every overlapped block is
/// destroyed, its reward collected, and each hit flips the vertical
/// velocity once more.
pub open spec fn advance_view(v: GameView, dt: u32, inp: Input) -> GameView {
    if v.game_over {
        if inp.confirm {
            reset_view(v)
        } else {
            v
        }
    } else {
        let d = dt as int;
        let pad = paddle_after(v.paddle_pos, d, inp.left, inp.right);
        let bx = sat(v.ball_x + v.ball_vx * d);
        let by = sat(v.ball_y + v.ball_vy * d);
        let vx = if bx <= 0 || bx >= SCREEN_WIDTH - BALL_SIZE {
            -v.ball_vx
        } else {
            v.ball_vx
        };
        let vy_wall = if by <= 0 {
            -v.ball_vy
        } else {
            v.ball_vy
        };
        let vy_pad = if by >= SCREEN_HEIGHT - PADDLE_HEIGHT - BALL_SIZE && bx + BALL_SIZE >= pad
            && bx <= pad + PADDLE_WIDTH {
            -vy_wall
        } else {
            vy_wall
        };
        if by >= SCREEN_HEIGHT {
            GameView { paddle_pos: pad, ball_x: bx, ball_y: by, ball_vx: vx, ball_vy: vy_pad, game_over: true, ..v }
        } else {
            GameView {
                paddle_pos: pad,
                ball_x: bx,
                ball_y: by,
                ball_vx: vx,
                ball_vy: if hit_count(bx, by, v.blocks) % 2 == 1 {
                    -vy_pad
                } else {
                    vy_pad
                },
                blocks: surviving(bx, by, v.blocks),
                score: v.score + points_gained(bx, by, v.blocks),
                ..v
            }
        }
    }
}

/// The round state: one paddle, one ball, the surviving blocks, and the
/// scores. The aggregate owns all of it; rendering only copies values out.
pub struct GameState {
    pub paddle_pos: i64,
    pub ball_x: i64,
    pub ball_y: i64,
    pub ball_vx: i64,
    pub ball_vy: i64,
    pub blocks: Vec<Block>,
    pub score: u32,
    pub high_score: u32,
    pub game_over: bool,
}

impl View for GameState {
    type V = GameView;

    open spec fn view(&self) -> GameView {
        GameView {
            paddle_pos: self.paddle_pos as int,
            ball_x: self.ball_x as int,
            ball_y: self.ball_y as int,
            ball_vx: self.ball_vx as int,
            ball_vy: self.ball_vy as int,
            blocks: self.blocks@,
            score: self.score as int,
            high_score: self.high_score as int,
            game_over: self.game_over,
        }
    }
}

impl GameState {
    /// The round invariant, on the concrete state.
    pub open spec fn wf(&self) -> bool {
        self@.wf()
    }

    /// A fresh simulation at the start state, high score zero.
    pub fn new() -> (s: GameState)
        ensures
            s@ == initial_view(),
            s.wf(),
    {
        let s = GameState {
            paddle_pos: PADDLE_START,
            ball_x: BALL_START_X,
            ball_y: BALL_START_Y,
            ball_vx: BALL_SPEED,
            ball_vy: BALL_SPEED,
            blocks: make_grid(),
            score: 0,
            high_score: 0,
            game_over: false,
        };
        proof {
            lemma_grid_points_bounded();
            assert(s@ =~= initial_view());
        }
        s
    }

    /// Start the next round: raise the high score to this round's score if
    /// that beat it, clear the score, centre the paddle and ball, restore
    /// the ball's start velocity, and rebuild the full grid.
    pub fn reset(&mut self)
        ensures
            final(self)@ == reset_view(old(self)@),
            final(self).wf(),
    {
        self.paddle_pos = PADDLE_START;
        self.ball_x = BALL_START_X;
        self.ball_y = BALL_START_Y;
        self.ball_vx = BALL_SPEED;
        self.ball_vy = BALL_SPEED;
        if self.score > self.high_score {
            self.high_score = self.score;
        }
        self.score = 0;
        self.game_over = false;
        self.blocks = make_grid();
        proof {
            lemma_grid_points_bounded();
            assert(self@ =~= reset_view(old(self)@));
        }
    }

    /// One frame of the simulation.
    pub fn advance(&mut self, dt: u32, input: Input)
        requires
            old(self).wf(),
        ensures
            final(self)@ == advance_view(old(self)@, dt, input),
            final(self).wf(),
    {
        if self.game_over {
            if input.confirm {
                self.reset();
            }
            return;
        }
        // Paddle movement: each direction guarded by its own boundary test;
        // the guard is the only clamp, so one large step may overshoot.
        let step: i64 = PADDLE_SPEED * (dt as i64);
        if input.left && self.paddle_pos > 0 {
            self.paddle_pos = sat_step(self.paddle_pos, -step);
        }
        if input.right && self.paddle_pos < SCREEN_WIDTH - PADDLE_WIDTH {
            self.paddle_pos = sat_step(self.paddle_pos, step);
        }
        // Ball integration. The velocity components stay at the fixed
        // speed, so the displacement fits the coordinate type whatever the
        // time step.
        proof {
            assert(-300 * 4294967295 <= self.ball_vx as int * (dt as int) <= 300 * 4294967295
                && -300 * 4294967295 <= self.ball_vy as int * (dt as int) <= 300
                * 4294967295) by (nonlinear_arith)
                requires
                    -300 <= self.ball_vx as int <= 300,
                    -300 <= self.ball_vy as int <= 300,
                    0 <= dt as int <= 4294967295,
            ;
        }
        let dx: i64 = self.ball_vx * (dt as i64);
        let dy: i64 = self.ball_vy * (dt as i64);
        self.ball_x = sat_step(self.ball_x, dx);
        self.ball_y = sat_step(self.ball_y, dy);
        // Wall collisions: velocity flips only, no position correction.
        if self.ball_x <= 0 || self.ball_x >= SCREEN_WIDTH - BALL_SIZE {
            self.ball_vx = -self.ball_vx;
        }
        if self.ball_y <= 0 {
            self.ball_vy = -self.ball_vy;
        }
        // Paddle collision: the test does not distinguish the approach
        // direction, so it can re-trigger while the ball overlaps the band.
        if self.ball_y >= SCREEN_HEIGHT - PADDLE_HEIGHT - BALL_SIZE
            && (self.ball_x as i128) + (BALL_SIZE as i128) >= (self.paddle_pos as i128)
            && (self.ball_x as i128) <= (self.paddle_pos as i128) + (PADDLE_WIDTH as i128) {
            self.ball_vy = -self.ball_vy;
        }
        // The ball leaving past the paddle ends the round; nothing further
        // happens this frame.
        if self.ball_y >= SCREEN_HEIGHT {
            self.game_over = true;
            proof {
                assert(self@ =~= advance_view(old(self)@, dt, input));
            }
            return;
        }
        // Block collisions: one pass over the field; every overlapped block
        // is destroyed, its reward collected, and each hit flips the
        // vertical velocity once.
        let ghost mid = self@;
        let ghost field = self.blocks@;
        let mut kept: Vec<Block> = Vec::new();
        let mut i: usize = 0;
        let n: usize = self.blocks.len();
        while i < n
            invariant
                i <= n,
                n == field.len(),
                self.blocks@ == field,
                self.paddle_pos == mid.paddle_pos,
                self.ball_x == mid.ball_x,
                self.ball_y == mid.ball_y,
                self.ball_vx == mid.ball_vx,
                self.high_score == mid.high_score,
                self.game_over == mid.game_over,
                mid.ball_vy == BALL_SPEED as int || mid.ball_vy == -(BALL_SPEED as int),
                self.ball_vy as int == if hit_count(mid.ball_x, mid.ball_y, field.take(i as int))
                    % 2 == 1 {
                    -mid.ball_vy
                } else {
                    mid.ball_vy
                },
                kept@ == surviving(mid.ball_x, mid.ball_y, field.take(i as int)),
                self.score as int == mid.score + points_gained(
                    mid.ball_x,
                    mid.ball_y,
                    field.take(i as int),
                ),
                mid.score + total_points(field) <= u32::MAX as int,
                0 <= mid.score,
            decreases n - i,
        {
            let b = self.blocks[i];
            proof {
                assert(field.take(i + 1).drop_last() =~= field.take(i as int));
                assert(field.take(i + 1).last() == b);
                lemma_pass_partition(mid.ball_x, mid.ball_y, field.take(i as int));
                lemma_pass_partition(mid.ball_x, mid.ball_y, field.take(i + 1));
                lemma_total_points_prefix(field, i + 1);
            }
            if hits_block(self.ball_x, self.ball_y, &b) {
                self.score = self.score + b.points;
                self.ball_vy = -self.ball_vy;
            } else {
                kept.push(b);
            }
            i = i + 1;
        }
        self.blocks = kept;
        proof {
            assert(field.take(n as int) =~= field);
            lemma_pass_partition(mid.ball_x, mid.ball_y, field);
            assert(self@ =~= advance_view(old(self)@, dt, input));
        }
    }
}

/// Every block of the fixed grid rewards at most 20 points, so the reward
/// standing on a fresh field is far below the score counter's range.
pub proof fn lemma_grid_points_bounded()
    ensures
        total_points(grid()) <= grid().len() * 20,
        grid().len() == 60,
{
    lemma_total_points_bounded(grid());
}

/// A field whose blocks each reward at most 20 points carries at most
/// 20 points per block in total.
pub proof fn lemma_total_points_bounded(s: Seq<Block>)
    requires
        forall|k: int| 0 <= k < s.len() ==> s[k].points <= 20,
    ensures
        total_points(s) <= s.len() * 20,
    decreases s.len(),
{
    if s.len() > 0 {
        lemma_total_points_bounded(s.drop_last());
    }
}

} // verus!
