//! Geometry of the window: which cell a pixel falls in, and where a cell's
//! centre is.
use vstd::prelude::*;

verus! {

/// Window height in pixels.
pub const H: i32 = 640;

/// Window width in pixels.
pub const W: i32 = 640;

/// Cell height in pixels: a third of `H`, rounded down.
pub const CELL_H: i32 = 213;

/// Cell width in pixels: a third of `W`, rounded down.
pub const CELL_W: i32 = 213;

/// Column and row of the cell under pixel (`x`, `y`). The last pixel of a
/// 640-pixel side gives 3, which no move accepts.
pub fn get_cell_from_pixel(x: i32, y: i32) -> (r: (i32, i32))
    requires
        x >= 0,
        y >= 0,
    ensures
        r.0 == x / CELL_W,
        r.1 == y / CELL_H,
{
    (x / CELL_W, y / CELL_H)
}

/// Pixel at the centre of the cell in column `xc`, row `yc`.
pub fn get_center_from_cell(xc: i32, yc: i32) -> (r: (i32, i32))
    requires
        0 <= xc <= 2,
        0 <= yc <= 2,
    ensures
        r.0 == xc * CELL_W + CELL_W / 2,
        r.1 == yc * CELL_H + CELL_H / 2,
{
    (xc * CELL_W + CELL_W / 2, yc * CELL_H + CELL_H / 2)
}

} // verus!
