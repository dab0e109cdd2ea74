//! The destructible blocks and the fixed grid they are laid out in.

use vstd::prelude::*;
use crate::units::{BLOCK_HEIGHT, BLOCK_SPACING, BLOCK_WIDTH, COLUMNS, GRID_TOP, ROWS};
use vstd::arithmetic::div_mod::lemma_fundamental_div_mod_converse;

verus! {

/// The visual tag of a block; it identifies the row the block came from.
#[derive(Clone, Copy, PartialEq, Eq, Structural, Debug)]
pub enum Color {
    Red,
    Orange,
    Yellow,
    Green,
    Blue,
    Indigo,
}

/// A destructible target: its top-left corner in subunit coordinates, its
/// row colour, and the reward granted the frame the ball destroys it. All
/// blocks share the fixed width and height.
#[derive(Clone, Copy, PartialEq, Eq, Structural, Debug)]
pub struct Block {
    pub x: i64,
    pub y: i64,
    pub color: Color,
    pub points: u32,
}

/// The colour of grid row `row`, top row first.
pub open spec fn row_color(row: int) -> Color {
    if row == 0 {
        Color::Red
    } else if row == 1 {
        Color::Orange
    } else if row == 2 {
        Color::Yellow
    } else if row == 3 {
        Color::Green
    } else if row == 4 {
        Color::Blue
    } else {
        Color::Indigo
    }
}

/// The reward of a block in grid row `row`.
pub open spec fn row_points(row: int) -> u32 {
    if row == 0 {
        20u32
    } else if row == 1 {
        10u32
    } else if row == 2 {
        5u32
    } else if row == 3 {
        5u32
    } else if row == 4 {
        10u32
    } else {
        20u32
    }
}

/// The block of the fixed grid at cell (`row`, `col`): columns advance by a
/// block width plus the gap, rows by a block height plus the gap, below the
/// top margin.
pub open spec fn cell_block(row: int, col: int) -> Block {
    Block {
        x: (col * (BLOCK_WIDTH + BLOCK_SPACING)) as i64,
        y: (row * (BLOCK_HEIGHT + BLOCK_SPACING) + GRID_TOP) as i64,
        color: row_color(row),
        points: row_points(row),
    }
}

/// The full fixed grid, row-major: cell (r, c) stands at index
/// `r * COLUMNS + c`.
pub open spec fn grid() -> Seq<Block> {
    Seq::new((ROWS * COLUMNS) as nat, |k: int| cell_block(k / COLUMNS as int, k % COLUMNS as int))
}

/// The colour and reward shared by every block of one grid row.
pub fn row_style(row: usize) -> (s: (Color, u32))
    ensures
        s.0 == row_color(row as int),
        s.1 == row_points(row as int),
{
    if row == 0 {
        (Color::Red, 20)
    } else if row == 1 {
        (Color::Orange, 10)
    } else if row == 2 {
        (Color::Yellow, 5)
    } else if row == 3 {
        (Color::Green, 5)
    } else if row == 4 {
        (Color::Blue, 10)
    } else {
        (Color::Indigo, 20)
    }
}

/// Build the fixed grid, one block per (row, column) cell, row-major. The
/// same call serves construction and reset, so the grid is identical both
/// times.
pub fn make_grid() -> (v: Vec<Block>)
    ensures
        v@ == grid(),
{
    let mut v: Vec<Block> = Vec::new();
    let mut row: usize = 0;
    while row < ROWS
        invariant
            row <= ROWS,
            v@.len() == row * COLUMNS,
            forall|k: int| 0 <= k < v@.len() ==> v@[k] == grid()[k],
        decreases ROWS - row,
    {
        let mut col: usize = 0;
        while col < COLUMNS
            invariant
                row < ROWS,
                col <= COLUMNS,
                v@.len() == row * COLUMNS + col,
                forall|k: int| 0 <= k < v@.len() ==> v@[k] == grid()[k],
        decreases COLUMNS - col,
        {
            let x: i64 = (col as i64) * (BLOCK_WIDTH + BLOCK_SPACING);
            let y: i64 = (row as i64) * (BLOCK_HEIGHT + BLOCK_SPACING) + GRID_TOP;
            let (color, points) = row_style(row);
            proof {
                lemma_fundamental_div_mod_converse(
                    row * (COLUMNS as int) + col,
                    COLUMNS as int,
                    row as int,
                    col as int,
                );
            }
            v.push(Block { x, y, color, points });
            col = col + 1;
        }
        row = row + 1;
    }
    proof {
        assert(v@ =~= grid());
    }
    v
}

} // verus!
