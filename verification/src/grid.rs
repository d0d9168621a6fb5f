//! Integer tile grid.
//!
//! A generation pass lays a grid of square tiles over the fractal plane. The
//! tile with offset `(0, 0)` is centred on the point of interest, and the tile
//! with offset `(i, j)` lies `i` tiles to the right of it and `j` tiles above.
//! Everything the cache decides is decided on these offsets.

use vstd::prelude::*;

verus! {

/// Position of a tile in the grid of one generation pass.
#[derive(Clone, Copy, Debug, PartialEq, Eq, Structural)]
pub struct GridOffset {
    pub i: i64,
    pub j: i64,
}

impl View for GridOffset {
    type V = (int, int);

    open spec fn view(&self) -> (int, int) {
        (self.i as int, self.j as int)
    }
}

/// Inclusive range of grid offsets: the tiles that touch a viewport.
///
/// The window is empty when `i_min > i_max` or `j_min > j_max`.
#[derive(Clone, Copy, Debug, PartialEq, Eq, Structural)]
pub struct GridWindow {
    pub i_min: i64,
    pub i_max: i64,
    pub j_min: i64,
    pub j_max: i64,
}

impl GridWindow {
    /// Whether the tile at `(i, j)` lies in the window.
    pub open spec fn covers(&self, i: int, j: int) -> bool {
        self.i_min <= i <= self.i_max && self.j_min <= j <= self.j_max
    }

    /// The window grown by `margin` tiles on every side, as far as `i64` reaches.
    pub open spec fn grown(&self, margin: int) -> GridWindow {
        GridWindow {
            i_min: clamp_i64(self.i_min - margin),
            i_max: clamp_i64(self.i_max + margin),
            j_min: clamp_i64(self.j_min - margin),
            j_max: clamp_i64(self.j_max + margin),
        }
    }

    pub fn new(i_min: i64, i_max: i64, j_min: i64, j_max: i64) -> (w: GridWindow)
        ensures
            w == (GridWindow { i_min, i_max, j_min, j_max }),
    {
        GridWindow { i_min, i_max, j_min, j_max }
    }

    /// Tests whether a tile offset lies in the window.
    pub fn contains(&self, at: GridOffset) -> (inside: bool)
        ensures
            inside == self.covers(at.i as int, at.j as int),
    {
        self.i_min <= at.i && at.i <= self.i_max && self.j_min <= at.j && at.j <= self.j_max
    }

    /// Grows the window by a border of one tile on every side, so that tiles
    /// just outside the viewport are prepared before they scroll into view.
    pub fn add_margin(&self) -> (w: GridWindow)
        ensures
            w == self.grown(1),
    {
        GridWindow {
            i_min: step_down(self.i_min),
            i_max: step_up(self.i_max),
            j_min: step_down(self.j_min),
            j_max: step_up(self.j_max),
        }
    }
}

fn step_down(x: i64) -> (y: i64)
    ensures
        y == clamp_i64(x - 1),
{
    if x > i64::MIN {
        x - 1
    } else {
        x
    }
}

fn step_up(x: i64) -> (y: i64)
    ensures
        y == clamp_i64(x + 1),
{
    if x < i64::MAX {
        x + 1
    } else {
        x
    }
}

/// `x` limited to the range of `i64`.
pub open spec fn clamp_i64(x: int) -> i64 {
    if x < i64::MIN {
        i64::MIN
    } else if x > i64::MAX {
        i64::MAX
    } else {
        x as i64
    }
}

} // verus!
