//! Integer layout rules of the playfield: brick payouts, the generated brick
//! grid, and which structure each game mode builds.

use vstd::prelude::*;
use crate::constants::{BRICK_COLS, BRICK_ROWS, BRICK_VALUE_STEP};
use crate::types::GameMode;

verus! {

/// Score paid out by a brick in `row` (0 = top): top rows are worth the most.
pub open spec fn spec_brick_value(row: int) -> int {
    (BRICK_ROWS - row) * BRICK_VALUE_STEP
}

pub fn brick_value(row: usize) -> (r: u32)
    requires
        row <= BRICK_ROWS,
    ensures
        r == spec_brick_value(row as int),
{
    (BRICK_ROWS - row) as u32 * BRICK_VALUE_STEP
}

/// One cell of the generated brick grid.
#[derive(Debug, Clone, Copy, PartialEq, Eq, Structural)]
pub struct GridCell {
    pub row: usize,
    pub col: usize,
    pub value: u32,
}

/// Cell `i` of the generated grid: rows top to bottom, each row left to
/// right.
pub open spec fn spec_grid_cell(i: int) -> GridCell {
    GridCell {
        row: (i / BRICK_COLS as int) as usize,
        col: (i % BRICK_COLS as int) as usize,
        value: spec_brick_value(i / BRICK_COLS as int) as u32,
    }
}

/// The generated brick grid: `BRICK_ROWS` rows of `BRICK_COLS` plain
/// bricks, each paying its row's value.
pub fn brick_grid_cells() -> (r: Vec<GridCell>)
    ensures
        r@.len() == BRICK_ROWS * BRICK_COLS,
        forall|i: int| 0 <= i < r@.len() ==> #[trigger] r@[i] == spec_grid_cell(i),
{
    let mut cells: Vec<GridCell> = Vec::new();
    let mut row: usize = 0;
    while row < BRICK_ROWS
        invariant
            row <= BRICK_ROWS,
            cells@.len() == row * BRICK_COLS,
            forall|i: int| 0 <= i < cells@.len() ==> #[trigger] cells@[i] == spec_grid_cell(i),
        decreases BRICK_ROWS - row,
    {
        let value = brick_value(row);
        let mut col: usize = 0;
        while col < BRICK_COLS
            invariant
                row < BRICK_ROWS,
                col <= BRICK_COLS,
                value == spec_brick_value(row as int),
                cells@.len() == row * BRICK_COLS + col,
                forall|i: int| 0 <= i < cells@.len() ==> #[trigger] cells@[i] == spec_grid_cell(i),
            decreases BRICK_COLS - col,
        {
            proof {
                let i = (row * BRICK_COLS + col) as int;
                assert(i / 10 == row as int && i % 10 == col as int) by (nonlinear_arith)
                    requires
                        i == row * 10 + col,
                        0 <= col < 10,
                        0 <= row,
                ;
            }
            cells.push(GridCell { row, col, value });
            col = col + 1;
        }
        row = row + 1;
    }
    cells
}

/// Which structure a game mode's playfield has.
#[derive(Debug, Clone, Copy, PartialEq, Eq, Structural)]
pub struct PlayfieldLayout {
    /// Solid walls: the two sides, plus the top one in solo play.
    pub walls: usize,
    /// Solo keeps a solid top wall; co-op opens the top edge.
    pub top_wall: bool,
    /// A loss sensor beyond the top edge (co-op).
    pub top_sensor: bool,
    /// Player 2's paddle at the top edge (co-op).
    pub top_paddle: bool,
}

pub open spec fn spec_playfield_layout(mode: GameMode) -> PlayfieldLayout {
    match mode {
        GameMode::SinglePlayer => PlayfieldLayout {
            walls: 3,
            top_wall: true,
            top_sensor: false,
            top_paddle: false,
        },
        GameMode::TwoPlayerCoop => PlayfieldLayout {
            walls: 2,
            top_wall: false,
            top_sensor: true,
            top_paddle: true,
        },
    }
}

/// The structure `rebuild_playfield` builds: two side walls, a bottom loss
/// sensor and the bottom paddle always; solo adds the top wall, co-op
/// replaces it by a top loss sensor and player 2's paddle.
pub fn playfield_layout(mode: GameMode) -> (r: PlayfieldLayout)
    ensures
        r == spec_playfield_layout(mode),
{
    match mode {
        GameMode::SinglePlayer => PlayfieldLayout {
            walls: 3,
            top_wall: true,
            top_sensor: false,
            top_paddle: false,
        },
        GameMode::TwoPlayerCoop => PlayfieldLayout {
            walls: 2,
            top_wall: false,
            top_sensor: true,
            top_paddle: true,
        },
    }
}

/// Higher rows always pay strictly more than lower rows.
pub proof fn law_top_rows_pay_more(upper: int, lower: int)
    requires
        0 <= upper < lower <= BRICK_ROWS,
    ensures
        spec_brick_value(upper) > spec_brick_value(lower),
        spec_brick_value(lower) >= 0,
{
}

/// Each row pays one step more than the row below it, and the bottom row
/// of the grid pays exactly one step.
pub proof fn law_row_payout_steps(row: int)
    requires
        0 <= row < BRICK_ROWS,
    ensures
        spec_brick_value(row) == spec_brick_value(row + 1) + BRICK_VALUE_STEP,
        spec_brick_value(BRICK_ROWS - 1) == BRICK_VALUE_STEP,
{
}

/// The generated grid places exactly one brick in every cell: cell `i`
/// lies on the grid, in row-major order, and pays its own row's value; and
/// every (row, column) pair of the grid is the cell at `row * cols + col`.
pub proof fn law_grid_cells_cover_grid(i: int, row: int, col: int)
    requires
        0 <= i < BRICK_ROWS * BRICK_COLS,
        0 <= row < BRICK_ROWS,
        0 <= col < BRICK_COLS,
    ensures
        spec_grid_cell(i).row < BRICK_ROWS,
        spec_grid_cell(i).col < BRICK_COLS,
        spec_grid_cell(i).row * BRICK_COLS + spec_grid_cell(i).col == i,
        spec_grid_cell(i).value == spec_brick_value(spec_grid_cell(i).row as int),
        spec_grid_cell(row * BRICK_COLS + col).row == row,
        spec_grid_cell(row * BRICK_COLS + col).col == col,
{
    assert(i / 10 < 6 && i % 10 < 10 && (i / 10) * 10 + i % 10 == i && i / 10 >= 0 && i % 10 >= 0)
        by (nonlinear_arith)
        requires
            0 <= i < 60,
    ;
    let j = row * 10 + col;
    assert(j / 10 == row && j % 10 == col) by (nonlinear_arith)
        requires
            j == row * 10 + col,
            0 <= col < 10,
            0 <= row,
    ;
}

/// Solo play closes the top edge with a wall; co-op opens it and guards it
/// with player 2's paddle and a loss sensor. The two side walls stand in
/// both modes.
pub proof fn law_top_edge_is_wall_or_paddle(mode: GameMode)
    ensures
        spec_playfield_layout(mode).walls == 2 + if spec_playfield_layout(mode).top_wall {
            1int
        } else {
            0int
        },
        spec_playfield_layout(mode).top_paddle == (mode == GameMode::TwoPlayerCoop),
        spec_playfield_layout(mode).top_sensor == spec_playfield_layout(mode).top_paddle,
        spec_playfield_layout(mode).top_wall == !spec_playfield_layout(mode).top_paddle,
{
}

} // verus!
