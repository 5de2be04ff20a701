//! The window and the grid laid over it.

use vstd::prelude::*;

verus! {

/// Width of the window, in pixels.
pub const WINDOW_WIDTH: usize = 800;

/// Height of the window, in pixels.
pub const WINDOW_HEIGHT: usize = 600;

/// Side of one grid cell, in pixels.
pub const CELL_LENGTH: usize = 10;

/// The largest column index a position can take: the window's width in cells.
/// Column `GRID_WIDTH` is the same place on screen as column 0.
pub const GRID_WIDTH: usize = 80;

/// The largest row index a position can take: the window's height in cells.
/// Row `GRID_HEIGHT` is the same place on screen as row 0.
pub const GRID_HEIGHT: usize = 60;

/// The cell length divides both window extents, and the grid extents are the
/// quotients.
pub proof fn lemma_grid_fits_window()
    ensures
        CELL_LENGTH > 0,
        GRID_WIDTH * CELL_LENGTH == WINDOW_WIDTH,
        GRID_HEIGHT * CELL_LENGTH == WINDOW_HEIGHT,
        WINDOW_WIDTH % CELL_LENGTH == 0,
        WINDOW_HEIGHT % CELL_LENGTH == 0,
{
}

} // verus!
