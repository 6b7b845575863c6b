//! Integer tuning values of the game rules. Geometry, speeds and colors are
//! floating-point and live with the renderer and physics.

use vstd::prelude::*;

verus! {

/// Lives a match starts with.
pub const STARTING_LIVES: u32 = 3;

/// Bricks destroyed in one volley (without touching the paddle) to unlock
/// the combo achievement.
pub const COMBO_TARGET: u32 = 5;

/// Columns of the generated brick grid.
pub const BRICK_COLS: usize = 10;

/// Rows of the generated brick grid.
pub const BRICK_ROWS: usize = 6;

/// Points awarded per brick = (rows from the bottom of the grid) * this.
pub const BRICK_VALUE_STEP: u32 = 10;

/// Cap on simultaneous extra balls (multiball grants beyond it fizzle).
pub const MAX_EXTRA_BALLS: usize = 6;

/// Fewest hits an armored brick can take (one hit is a plain brick).
pub const MIN_ARMOR_HITS: u32 = 2;

/// Most hits an armored brick can take.
pub const MAX_ARMOR_HITS: u32 = 9;

} // verus!
