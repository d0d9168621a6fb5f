//! Tiles: a fixed block of pixel cells with a place in the grid.

use vstd::prelude::*;
use crate::grid::GridOffset;

verus! {

/// Width of a tile in pixels.
pub const TILE_SIZE_X: usize = 256;

/// Height of a tile in pixels.
pub const TILE_SIZE_Y: usize = 256;

/// Number of pixel cells of a tile.
pub const TILE_PIXELS: usize = TILE_SIZE_X * TILE_SIZE_Y;

/// What a tile is, as plain values.
pub struct TileView {
    pub id: nat,
    pub buffer: Seq<u32>,
    pub image: Seq<u32>,
    pub at: (int, int),
}

impl TileView {
    /// The tile holds its cells in the render buffer and shows nothing.
    pub open spec fn renderable(self) -> bool {
        self.buffer.len() == TILE_PIXELS && self.image.len() == 0
    }

    /// The tile shows its cells and has handed its render buffer over.
    pub open spec fn displayable(self) -> bool {
        self.image.len() == TILE_PIXELS && self.buffer.len() == 0
    }

    /// The tile after its render buffer and its shown image changed places.
    pub open spec fn swapped(self) -> TileView {
        TileView { id: self.id, buffer: self.image, image: self.buffer, at: self.at }
    }

    /// The tile moved to another place in the grid.
    pub open spec fn moved_to(self, at: (int, int)) -> TileView {
        TileView { id: self.id, buffer: self.buffer, image: self.image, at }
    }
}

/// A tile of the cache.
///
/// `id` names the slot of the tile and with it the texture that backs it.
/// `buffer` is the memory a worker renders into, `image` is what the texture
/// shows, and `at` is the place of the tile in the grid of the pass that
/// dispatched it. A tile is never copied: it is moved from pool to worker and
/// back.
pub struct Tile {
    pub id: usize,
    pub buffer: Vec<u32>,
    pub image: Vec<u32>,
    pub at: GridOffset,
}

impl View for Tile {
    type V = TileView;

    open spec fn view(&self) -> TileView {
        TileView { id: self.id as nat, buffer: self.buffer@, image: self.image@, at: self.at@ }
    }
}

/// The tiles of a pool as plain values, in the order of the pool.
pub open spec fn tiles_view(tiles: Seq<Tile>) -> Seq<TileView> {
    tiles.map_values(|t: Tile| t@)
}

impl Tile {
    /// A fresh tile for slot `id`: all cells zero, ready to be rendered into.
    pub fn new(id: usize) -> (tile: Tile)
        ensures
            tile@.id == id,
            tile@.renderable(),
            tile@.at == (0int, 0int),
            forall|k: int| 0 <= k < TILE_PIXELS ==> tile@.buffer[k] == 0,
    {
        let buffer: Vec<u32> = vec![0u32; TILE_PIXELS];
        Tile { id, buffer, image: Vec::new(), at: GridOffset { i: 0, j: 0 } }
    }

    /// Exchanges the render buffer with the image the texture shows.
    pub fn swap_image(self) -> (tile: Tile)
        ensures
            tile@ == self@.swapped(),
    {
        let Tile { id, buffer, image, at } = self;
        Tile { id, buffer: image, image: buffer, at }
    }

    /// Whether the tile can be handed to a worker.
    pub fn is_renderable(&self) -> (ok: bool)
        ensures
            ok == self@.renderable(),
    {
        self.buffer.len() == TILE_PIXELS && self.image.len() == 0
    }

    /// Whether the tile can be drawn.
    pub fn is_displayable(&self) -> (ok: bool)
        ensures
            ok == self@.displayable(),
    {
        self.image.len() == TILE_PIXELS && self.buffer.len() == 0
    }

    /// Stores the cell of pixel `(x, y)` in the render buffer, row by row.
    pub fn set_cell(&mut self, x: usize, y: usize, cell: u32)
        requires
            x < TILE_SIZE_X,
            y < TILE_SIZE_Y,
            old(self)@.buffer.len() == TILE_PIXELS,
        ensures
            final(self)@ == (TileView {
                buffer: old(self)@.buffer.update(y * TILE_SIZE_X + x, cell),
                ..old(self)@
            }),
    {
        self.buffer[y * TILE_SIZE_X + x] = cell;
    }
}

} // verus!
