//! The stated laws of the simulation, each proved once and for all.

use vstd::prelude::*;
use crate::blocks::grid;
use crate::blocks::Block;
use crate::collision::{lemma_pass_partition, lemma_surviving_subset};
use crate::state::{advance_view, paddle_after, reset_view, GameView, Input};
use crate::units::{
    sat, BALL_SIZE, BALL_SPEED, BALL_START_X, BALL_START_Y, PADDLE_SPEED, PADDLE_START,
    PADDLE_WIDTH, SCREEN_HEIGHT, SCREEN_WIDTH,
};

verus! {

/// The rightmost position the paddle can properly occupy.
pub open spec fn paddle_limit() -> int {
    SCREEN_WIDTH - PADDLE_WIDTH
}

/// The time step is small enough that neither guarded paddle move of this
/// frame can overshoot its boundary from the given position: the guards
/// are the only clamp the paddle has.
pub open spec fn no_overshoot(pos: int, dt: u32, inp: Input) -> bool {
    let step = PADDLE_SPEED as int * dt as int;
    let p1 = if inp.left && pos > 0 {
        pos - step
    } else {
        pos
    };
    &&& (inp.left && pos > 0 ==> step <= pos)
    &&& (inp.right && p1 < paddle_limit() ==> p1 + step <= paddle_limit())
}

/// A paddle that starts a frame in bounds ends it in bounds, for any input,
/// whenever the time step cannot overshoot a boundary in one move.
pub proof fn lemma_paddle_stays_in_bounds(v: GameView, dt: u32, inp: Input)
    requires
        0 <= v.paddle_pos <= paddle_limit(),
        no_overshoot(v.paddle_pos, dt, inp),
    ensures
        0 <= advance_view(v, dt, inp).paddle_pos <= paddle_limit(),
{
    if !v.game_over {
        let step = PADDLE_SPEED as int * dt as int;
        let p1 = if inp.left && v.paddle_pos > 0 {
            v.paddle_pos - step
        } else {
            v.paddle_pos
        };
        assert(0 <= p1 <= paddle_limit());
        assert(0 <= paddle_after(v.paddle_pos, dt as int, inp.left, inp.right) <= paddle_limit());
    }
}

/// Within one round — no reset in between — one frame never lowers the
/// score: points are only ever added, when a block is destroyed.
pub proof fn lemma_score_monotone_step(v: GameView, dt: u32, inp: Input)
    requires
        !(v.game_over && inp.confirm),
    ensures
        advance_view(v, dt, inp).score >= v.score,
{
    lemma_pass_partition(
        sat(v.ball_x + v.ball_vx * dt as int),
        sat(v.ball_y + v.ball_vy * dt as int),
        v.blocks,
    );
}

/// The state after a whole sequence of frames, each with its own time step
/// and input.
pub open spec fn run_view(v: GameView, steps: Seq<(u32, Input)>) -> GameView
    decreases steps.len(),
{
    if steps.len() == 0 {
        v
    } else {
        advance_view(run_view(v, steps.drop_last()), steps.last().0, steps.last().1)
    }
}

/// The score is non-decreasing across any sequence of frames in which
/// confirm is never pressed — that is, within a single round, since only
/// confirm can trigger a reset.
pub proof fn lemma_score_monotone_run(v: GameView, steps: Seq<(u32, Input)>)
    requires
        forall|k: int| 0 <= k < steps.len() ==> !(#[trigger] steps[k]).1.confirm,
    ensures
        run_view(v, steps).score >= v.score,
    decreases steps.len(),
{
    if steps.len() > 0 {
        assert(forall|k: int|
            0 <= k < steps.drop_last().len() ==> (#[trigger] steps.drop_last()[k]) == steps[k]);
        lemma_score_monotone_run(v, steps.drop_last());
        lemma_score_monotone_step(run_view(v, steps.drop_last()), steps.last().0, steps.last().1);
    }
}

/// A reset restores the fixed layout and start state: the full grid, a
/// cleared score, a running round, and ball and paddle at their centred
/// start positions and start velocity.
pub proof fn lemma_reset_restores_layout(v: GameView)
    ensures
        reset_view(v).blocks == grid(),
        reset_view(v).blocks.len() == 60,
        reset_view(v).score == 0,
        !reset_view(v).game_over,
        reset_view(v).paddle_pos == PADDLE_START as int,
        reset_view(v).ball_x == BALL_START_X as int,
        reset_view(v).ball_y == BALL_START_Y as int,
        reset_view(v).ball_vx == BALL_SPEED as int,
        reset_view(v).ball_vy == BALL_SPEED as int,
{
}

/// After a reset the high score is exactly the larger of the high score
/// before and the score of the round that just ended.
pub proof fn lemma_reset_high_score(v: GameView)
    ensures
        reset_view(v).high_score == (if v.score > v.high_score {
            v.score
        } else {
            v.high_score
        }),
        reset_view(v).high_score >= v.high_score,
        reset_view(v).high_score >= v.score,
{
}

/// In a lost round, one frame with confirm pressed fully resets the state,
/// whatever other keys are held.
pub proof fn lemma_confirm_restarts(v: GameView, dt: u32, inp: Input)
    requires
        v.game_over,
        inp.confirm,
    ensures
        advance_view(v, dt, inp) == reset_view(v),
{
}

/// The ball reaching the bottom of the screen ends the round on the spot:
/// the frame sets the lost flag and never reaches the block pass, so the
/// field and the scores are untouched; and unless the ball happens to
/// overlap the paddle band, its velocity is untouched too.
pub proof fn lemma_ball_exit_ends_round(v: GameView, dt: u32, inp: Input)
    requires
        !v.game_over,
        sat(v.ball_y + v.ball_vy * dt as int) >= SCREEN_HEIGHT as int,
    ensures
        advance_view(v, dt, inp).game_over,
        advance_view(v, dt, inp).blocks == v.blocks,
        advance_view(v, dt, inp).score == v.score,
        advance_view(v, dt, inp).high_score == v.high_score,
        ({
            let pad = paddle_after(v.paddle_pos, dt as int, inp.left, inp.right);
            let bx = sat(v.ball_x + v.ball_vx * dt as int);
            !(bx + BALL_SIZE >= pad && bx <= pad + PADDLE_WIDTH)
        }) ==> advance_view(v, dt, inp).ball_vy == v.ball_vy,
{
}

/// Outside a reset, the field only ever shrinks: a destroyed block stays
/// destroyed until the grid is rebuilt.
pub proof fn lemma_blocks_only_shrink(v: GameView, dt: u32, inp: Input)
    requires
        !(v.game_over && inp.confirm),
    ensures
        advance_view(v, dt, inp).blocks.len() <= v.blocks.len(),
{
    lemma_pass_partition(
        sat(v.ball_x + v.ball_vx * dt as int),
        sat(v.ball_y + v.ball_vy * dt as int),
        v.blocks,
    );
}

/// A destroyed block stays destroyed: every block on the field after a
/// frame that did not reset already stood on it before the frame.
pub proof fn lemma_no_block_reappears(v: GameView, dt: u32, inp: Input)
    requires
        !(v.game_over && inp.confirm),
    ensures
        forall|b: Block|
            #[trigger] advance_view(v, dt, inp).blocks.contains(b) ==> v.blocks.contains(b),
{
    lemma_surviving_subset(
        sat(v.ball_x + v.ball_vx * dt as int),
        sat(v.ball_y + v.ball_vy * dt as int),
        v.blocks,
    );
}

} // verus!
