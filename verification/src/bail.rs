//! Bail-out: a worker looks at the latest viewport once, before it starts a
//! tile, and gives the tile back unrendered when it no longer matters.

use vstd::prelude::*;
use crate::grid::{GridOffset, GridWindow};
use crate::tile::Tile;

verus! {

/// Snapshot of the viewport, replaced as a whole on every draw and copied by
/// every worker that reads it.
///
/// `view` holds the tiles of the pass under way that touch the viewport.
/// `tiles_imperceptible` says whether one tile of that pass covers less of
/// the viewport than the fraction `BAIL_AREA_NUM / BAIL_AREA_DEN`.
#[derive(Clone, Copy, Debug, PartialEq, Eq, Structural)]
pub struct BailWindow {
    pub view: GridWindow,
    pub is_zoom_in: bool,
    pub tiles_imperceptible: bool,
}

/// A tile is imperceptible when its area is below seven thousandths of the
/// area of the viewport.
pub const BAIL_AREA_NUM: u64 = 7;

pub const BAIL_AREA_DEN: u64 = 1000;

impl BailWindow {
    /// Whether a tile at `at` is abandoned. While the view zooms in, a tile
    /// is abandoned when it is out of view. Otherwise it is abandoned when
    /// the tiles of its pass are too small to be seen.
    pub open spec fn bails(self, at: (int, int)) -> bool {
        if self.is_zoom_in {
            !self.view.covers(at.0, at.1)
        } else {
            self.tiles_imperceptible
        }
    }

    /// Tests whether a tile at `at` is abandoned.
    pub fn needs_to_bail(&self, at: GridOffset) -> (bail: bool)
        ensures
            bail == self.bails(at@),
    {
        if self.is_zoom_in {
            !self.view.contains(at)
        } else {
            self.tiles_imperceptible
        }
    }
}

impl Default for BailWindow {
    /// The window before the first draw: nothing is abandoned on its account
    /// while the view does not zoom in.
    fn default() -> (window: BailWindow)
        ensures
            window == (BailWindow {
                view: GridWindow { i_min: 0, i_max: 0, j_min: 0, j_max: 0 },
                is_zoom_in: false,
                tiles_imperceptible: false,
            }),
    {
        BailWindow {
            view: GridWindow { i_min: 0, i_max: 0, j_min: 0, j_max: 0 },
            is_zoom_in: false,
            tiles_imperceptible: false,
        }
    }
}

/// Tests whether a worker abandons `tile` in view of the latest window.
pub fn tile_needs_to_bail(tile: &Tile, bail_window: &BailWindow) -> (bail: bool)
    ensures
        bail == bail_window.bails(tile@.at),
{
    bail_window.needs_to_bail(tile.at)
}

/// While the view zooms in, a tile that is out of view is abandoned.
/// Otherwise a tile that is too small to be seen is abandoned.
pub proof fn lemma_bail_policy(bail_window: BailWindow, at: (int, int))
    ensures
        bail_window.is_zoom_in && !bail_window.view.covers(at.0, at.1) ==> bail_window.bails(at),
        !bail_window.is_zoom_in && bail_window.tiles_imperceptible ==> bail_window.bails(at),
{
}

} // verus!
