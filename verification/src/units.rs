//! Fixed dimensions of the game, and the coordinate arithmetic they live in.
//!
//! All positions and sizes are held in subunits: thousandths of a screen
//! unit. Velocities are held in screen units per second and time steps in
//! milliseconds, so integrating a velocity over a time step is an exact
//! integer multiplication yielding subunits.

use vstd::prelude::*;

verus! {

/// Subunits per screen unit.
pub const SCALE: i64 = 1000;

pub const SCREEN_WIDTH: i64 = 800 * SCALE;

pub const SCREEN_HEIGHT: i64 = 600 * SCALE;

pub const PADDLE_WIDTH: i64 = 100 * SCALE;

pub const PADDLE_HEIGHT: i64 = 20 * SCALE;

/// The ball is a square of this side.
pub const BALL_SIZE: i64 = 20 * SCALE;

/// Paddle speed, in screen units per second.
pub const PADDLE_SPEED: i64 = 600;

/// Initial ball speed on each axis, in screen units per second.
pub const BALL_SPEED: i64 = 300;

pub const BLOCK_WIDTH: i64 = 75 * SCALE;

pub const BLOCK_HEIGHT: i64 = 25 * SCALE;

/// Horizontal gap between blocks, and the vertical pitch added to a block's
/// height from row to row.
pub const BLOCK_SPACING: i64 = 5 * SCALE;

/// Vertical offset of the first block row.
pub const GRID_TOP: i64 = 50 * SCALE;

pub const ROWS: usize = 6;

pub const COLUMNS: usize = 10;

/// The paddle's horizontal start: centred on the screen.
pub const PADDLE_START: i64 = 350 * SCALE;

/// The ball's start: the centre of the screen.
pub const BALL_START_X: i64 = 400 * SCALE;

pub const BALL_START_Y: i64 = 300 * SCALE;

/// A sum clamped to the range of the coordinate type: coordinates saturate
/// at the representable extremes instead of wrapping.
pub open spec fn sat(x: int) -> int {
    if x > i64::MAX as int {
        i64::MAX as int
    } else if x < i64::MIN as int {
        i64::MIN as int
    } else {
        x
    }
}

/// Saturating addition on coordinates.
pub fn sat_step(a: i64, b: i64) -> (r: i64)
    ensures
        r as int == sat(a as int + b as int),
{
    if b >= 0 {
        if a > i64::MAX - b {
            i64::MAX
        } else {
            a + b
        }
    } else {
        if a < i64::MIN - b {
            i64::MIN
        } else {
            a + b
        }
    }
}

/// The column count is the layout rule applied to the fixed sizes: as many
/// block-plus-gap widths as fit across the screen.
pub proof fn lemma_columns_fill_screen()
    ensures
        COLUMNS as int == SCREEN_WIDTH as int / (BLOCK_WIDTH + BLOCK_SPACING),
{
    assert(800 * 1000 / (75 * 1000 + 5 * 1000) == 10int) by (nonlinear_arith);
}

/// The start positions are the centring formulas applied to the fixed sizes.
pub proof fn lemma_start_positions_centred()
    ensures
        PADDLE_START as int == (SCREEN_WIDTH - PADDLE_WIDTH) / 2,
        BALL_START_X as int == SCREEN_WIDTH as int / 2,
        BALL_START_Y as int == SCREEN_HEIGHT as int / 2,
{
}

} // verus!
