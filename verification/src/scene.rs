//! Translation of a round state into plain drawing data.
//!
//! The renderer around the library consumes rectangles and label data; it
//! draws them, measures text, and presents the frame. Everything computed
//! here — which rectangles, where, in which colour — is verified; nothing
//! here mutates the round.

use vstd::prelude::*;
use crate::blocks::{Block, Color};
use crate::state::{GameState, GameView};
use crate::units::{
    BALL_SIZE, BLOCK_HEIGHT, BLOCK_WIDTH, PADDLE_HEIGHT, PADDLE_WIDTH, SCALE, SCREEN_HEIGHT,
};

verus! {

/// Vertical position of the score label, in subunits.
pub const SCORE_LABEL_Y: i64 = 10 * SCALE;

/// Vertical position of the high-score label, in subunits.
pub const HIGH_SCORE_LABEL_Y: i64 = 30 * SCALE;

/// Stroke width of the (fully transparent) border drawn around each block.
pub const BLOCK_BORDER: i64 = 2 * SCALE;

/// A colour with an alpha channel, as the renderer takes it.
#[derive(Clone, Copy, PartialEq, Eq, Structural, Debug)]
pub struct Rgba {
    pub red: u8,
    pub green: u8,
    pub blue: u8,
    pub alpha: u8,
}

/// One rectangle to draw: position and size in subunits; filled, or
/// stroked with the given width.
#[derive(Clone, Copy, PartialEq, Eq, Structural, Debug)]
pub struct RectCmd {
    pub x: i64,
    pub y: i64,
    pub width: i64,
    pub height: i64,
    pub color: Rgba,
    pub filled: bool,
    pub stroke_width: i64,
}

/// The colour channels each row tag stands for.
pub open spec fn rgba_of(c: Color) -> Rgba {
    match c {
        Color::Red => Rgba { red: 255, green: 0, blue: 0, alpha: 255 },
        Color::Orange => Rgba { red: 255, green: 165, blue: 0, alpha: 255 },
        Color::Yellow => Rgba { red: 255, green: 255, blue: 0, alpha: 255 },
        Color::Green => Rgba { red: 0, green: 128, blue: 0, alpha: 255 },
        Color::Blue => Rgba { red: 0, green: 0, blue: 255, alpha: 255 },
        Color::Indigo => Rgba { red: 75, green: 0, blue: 130, alpha: 255 },
    }
}

/// Opaque white, for the paddle and the ball.
pub open spec fn white() -> Rgba {
    Rgba { red: 255, green: 255, blue: 255, alpha: 255 }
}

/// Fully transparent black: the deliberate no-visual-effect block border.
pub open spec fn transparent() -> Rgba {
    Rgba { red: 0, green: 0, blue: 0, alpha: 0 }
}

/// The channels of a row tag, as a value the renderer can take.
pub fn color_channels(c: Color) -> (r: Rgba)
    ensures
        r == rgba_of(c),
{
    match c {
        Color::Red => Rgba { red: 255, green: 0, blue: 0, alpha: 255 },
        Color::Orange => Rgba { red: 255, green: 165, blue: 0, alpha: 255 },
        Color::Yellow => Rgba { red: 255, green: 255, blue: 0, alpha: 255 },
        Color::Green => Rgba { red: 0, green: 128, blue: 0, alpha: 255 },
        Color::Blue => Rgba { red: 0, green: 0, blue: 255, alpha: 255 },
        Color::Indigo => Rgba { red: 75, green: 0, blue: 130, alpha: 255 },
    }
}

/// The paddle's rectangle: at its position, sitting on the bottom edge.
pub open spec fn paddle_rect(pos: int) -> RectCmd {
    RectCmd {
        x: pos as i64,
        y: (SCREEN_HEIGHT - PADDLE_HEIGHT) as i64,
        width: PADDLE_WIDTH,
        height: PADDLE_HEIGHT,
        color: white(),
        filled: true,
        stroke_width: 0,
    }
}

/// The ball's square at its position.
pub open spec fn ball_rect(x: int, y: int) -> RectCmd {
    RectCmd {
        x: x as i64,
        y: y as i64,
        width: BALL_SIZE,
        height: BALL_SIZE,
        color: white(),
        filled: true,
        stroke_width: 0,
    }
}

/// A block's filled body in its row colour.
pub open spec fn block_fill_rect(b: Block) -> RectCmd {
    RectCmd {
        x: b.x,
        y: b.y,
        width: BLOCK_WIDTH,
        height: BLOCK_HEIGHT,
        color: rgba_of(b.color),
        filled: true,
        stroke_width: 0,
    }
}

/// A block's transparent border, stroked over the same rectangle.
pub open spec fn block_border_rect(b: Block) -> RectCmd {
    RectCmd {
        x: b.x,
        y: b.y,
        width: BLOCK_WIDTH,
        height: BLOCK_HEIGHT,
        color: transparent(),
        filled: false,
        stroke_width: BLOCK_BORDER,
    }
}

/// The two rectangles of every surviving block, in field order: the filled
/// body, then the transparent border.
pub open spec fn block_rects(s: Seq<Block>) -> Seq<RectCmd>
    decreases s.len(),
{
    if s.len() == 0 {
        Seq::empty()
    } else {
        block_rects(s.drop_last()).push(block_fill_rect(s.last())).push(
            block_border_rect(s.last()),
        )
    }
}

/// Everything rectangular one frame draws: the paddle, the ball, then the
/// blocks in field order.
pub open spec fn scene_rects(v: GameView) -> Seq<RectCmd> {
    seq![paddle_rect(v.paddle_pos), ball_rect(v.ball_x, v.ball_y)] + block_rects(v.blocks)
}

impl GameState {
    /// The rectangles to draw for the current frame, in draw order.
    pub fn rects(&self) -> (v: Vec<RectCmd>)
        ensures
            v@ == scene_rects(self@),
    {
        let mut v: Vec<RectCmd> = Vec::new();
        v.push(
            RectCmd {
                x: self.paddle_pos,
                y: SCREEN_HEIGHT - PADDLE_HEIGHT,
                width: PADDLE_WIDTH,
                height: PADDLE_HEIGHT,
                color: Rgba { red: 255, green: 255, blue: 255, alpha: 255 },
                filled: true,
                stroke_width: 0,
            },
        );
        v.push(
            RectCmd {
                x: self.ball_x,
                y: self.ball_y,
                width: BALL_SIZE,
                height: BALL_SIZE,
                color: Rgba { red: 255, green: 255, blue: 255, alpha: 255 },
                filled: true,
                stroke_width: 0,
            },
        );
        let mut i: usize = 0;
        let n: usize = self.blocks.len();
        while i < n
            invariant
                i <= n,
                n == self.blocks@.len(),
                v@ == seq![
                    paddle_rect(self@.paddle_pos),
                    ball_rect(self@.ball_x, self@.ball_y),
                ] + block_rects(self.blocks@.take(i as int)),
            decreases n - i,
        {
            let b = self.blocks[i];
            let fill = color_channels(b.color);
            proof {
                assert(self.blocks@.take(i + 1).drop_last() =~= self.blocks@.take(i as int));
                assert(self.blocks@.take(i + 1).last() == b);
            }
            v.push(
                RectCmd {
                    x: b.x,
                    y: b.y,
                    width: BLOCK_WIDTH,
                    height: BLOCK_HEIGHT,
                    color: fill,
                    filled: true,
                    stroke_width: 0,
                },
            );
            v.push(
                RectCmd {
                    x: b.x,
                    y: b.y,
                    width: BLOCK_WIDTH,
                    height: BLOCK_HEIGHT,
                    color: Rgba { red: 0, green: 0, blue: 0, alpha: 0 },
                    filled: false,
                    stroke_width: BLOCK_BORDER,
                },
            );
            i = i + 1;
            proof {
                assert(v@ =~= seq![
                    paddle_rect(self@.paddle_pos),
                    ball_rect(self@.ball_x, self@.ball_y),
                ] + block_rects(self.blocks@.take(i as int)));
            }
        }
        proof {
            assert(self.blocks@.take(n as int) =~= self.blocks@);
            assert(v@ =~= scene_rects(self@));
        }
        v
    }
}

/// Where a label of the given extent starts so that it is centred over the
/// given span: labels are centred horizontally on the screen, and the
/// game-over label vertically as well.
pub fn centered(span: i64, extent: i64) -> (r: i64)
    requires
        0 <= extent <= span,
    ensures
        r as int == (span - extent) / 2,
{
    (((span - extent) as u64) / 2) as i64
}

} // verus!
