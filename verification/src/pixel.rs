//! Logical pixels of the 8x8 surface and the row/column drive polarity.

use vstd::prelude::*;

verus! {

/// Number of columns (and of column lines) of the matrix.
pub const GRID_WIDTH: u8 = 8;

/// Number of rows (and of row lines) of the matrix.
pub const GRID_HEIGHT: u8 = 8;

/// One logical pixel update: a coordinate and an on/off level.
///
/// Coordinates are signed because a scrolled text run legitimately produces
/// pixels to the left of the visible window; such pixels are dropped when
/// drawn, never rejected.
#[derive(Clone, Copy, PartialEq, Eq, Structural, Debug)]
pub struct Pixel {
    pub x: i32,
    pub y: i32,
    pub on: bool,
}

/// A pixel is visible when its coordinate lies inside [0,8) x [0,8).
pub open spec fn spec_in_bounds(x: int, y: int) -> bool {
    0 <= x < GRID_WIDTH && 0 <= y < GRID_HEIGHT
}

/// Whether the coordinate (x, y) lies on the visible 8x8 surface.
pub fn in_bounds(x: i32, y: i32) -> (r: bool)
    ensures
        r == spec_in_bounds(x as int, y as int),
{
    0 <= x && x < GRID_WIDTH as i32 && 0 <= y && y < GRID_HEIGHT as i32
}

/// Inactive resting level of a column line: high, so the sink side of the
/// grid carries no current.
pub const COL_REST_LEVEL: bool = true;

/// Inactive resting level of a row line: low, so the source side of the
/// grid carries no current.
pub const ROW_REST_LEVEL: bool = false;

/// Physical level a column line is driven to while the addressed LED is
/// energized for a pixel of the given logical level. Column lines sink
/// current, so they are driven opposite to the logical level.
pub open spec fn spec_col_drive(on: bool) -> bool {
    !on
}

/// Physical level a row line is driven to while the addressed LED is
/// energized. Row lines source current, so they follow the logical level.
pub open spec fn spec_row_drive(on: bool) -> bool {
    on
}

/// The energized-phase level for the column line addressed by a pixel.
pub fn col_drive(on: bool) -> (r: bool)
    ensures
        r == spec_col_drive(on),
{
    !on
}

/// The energized-phase level for the row line addressed by a pixel.
pub fn row_drive(on: bool) -> (r: bool)
    ensures
        r == spec_row_drive(on),
{
    on
}

} // verus!
