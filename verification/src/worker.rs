//! What a worker does with a tile: it looks at the bail window once, then
//! renders the tile or gives it back, and reports exactly one message.

use vstd::prelude::*;
use crate::bail::BailWindow;
use crate::tile::{Tile, TileView};

verus! {

/// Number of worker threads that render tiles.
pub const POOL_THREAD_COUNT: usize = 4;

/// The fast numeric path is taken while the zoom is above
/// `FAST_PATH_ABOVE_NUM / FAST_PATH_ABOVE_DEN`.
pub const FAST_PATH_ABOVE_NUM: u64 = 2;

pub const FAST_PATH_ABOVE_DEN: u64 = 100_000;

/// What a worker reports to the controller.
pub enum ToUI {
    TileDone { tile: Tile },
    TileBailed { tile: Tile },
}

/// A report of a worker as plain values.
pub enum ToUIView {
    TileDone { tile: TileView },
    TileBailed { tile: TileView },
}

impl View for ToUI {
    type V = ToUIView;

    open spec fn view(&self) -> ToUIView {
        match self {
            ToUI::TileDone { tile } => ToUIView::TileDone { tile: tile@ },
            ToUI::TileBailed { tile } => ToUIView::TileBailed { tile: tile@ },
        }
    }
}

/// The numeric path that renders a tile.
#[derive(Clone, Copy, Debug, PartialEq, Eq, Structural)]
pub enum RenderPath {
    /// Several pixels at a time in reduced precision.
    Vectorised,
    /// One pixel at a time in full precision.
    Scalar,
}

/// How a worker begins a task.
pub enum TaskStart {
    /// The tile is abandoned: the message goes out and no pixel is touched.
    Bail(ToUI),
    /// The tile is to be rendered along `path`.
    Render { tile: Tile, path: RenderPath },
}

/// The beginning of a task as plain values.
pub enum TaskStartView {
    Bail(ToUIView),
    Render { tile: TileView, path: RenderPath },
}

impl View for TaskStart {
    type V = TaskStartView;

    open spec fn view(&self) -> TaskStartView {
        match self {
            TaskStart::Bail(message) => TaskStartView::Bail(message@),
            TaskStart::Render { tile, path } => TaskStartView::Render { tile: tile@, path: *path },
        }
    }
}

/// How the task of a tile begins: an abandoned tile goes back as it is, and
/// any other tile is rendered, on the fast path if the zoom is coarse.
pub open spec fn task_start(tile: TileView, bail_window: BailWindow, zoom_is_coarse: bool) -> TaskStartView {
    if bail_window.bails(tile.at) {
        TaskStartView::Bail(ToUIView::TileBailed { tile })
    } else {
        TaskStartView::Render {
            tile,
            path: if zoom_is_coarse {
                RenderPath::Vectorised
            } else {
                RenderPath::Scalar
            },
        }
    }
}

/// Begins the task of rendering `tile`. The bail window is consulted here and
/// nowhere else. `zoom_is_coarse` says whether the zoom of the pass is above
/// the threshold of the fast path.
pub fn render_tile(tile: Tile, bail_window: &BailWindow, zoom_is_coarse: bool) -> (start: TaskStart)
    ensures
        start@ == task_start(tile@, *bail_window, zoom_is_coarse),
{
    if bail_window.needs_to_bail(tile.at) {
        TaskStart::Bail(ToUI::TileBailed { tile })
    } else if zoom_is_coarse {
        TaskStart::Render { tile, path: RenderPath::Vectorised }
    } else {
        TaskStart::Render { tile, path: RenderPath::Scalar }
    }
}

/// Ends the task of rendering `tile`: the tile goes back with its pixels.
pub fn tile_done(tile: Tile) -> (message: ToUI)
    ensures
        message@ == (ToUIView::TileDone { tile: tile@ }),
{
    ToUI::TileDone { tile }
}

} // verus!
