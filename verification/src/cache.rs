//! The tile cache: three pools of tiles and the tiles that are out with
//! workers.
//!
//! `current` holds the layer that is drawn, `next` the layer that workers are
//! filling, and `empty` the tiles that wait for a task. A tile that a
//! generation pass hands out is in flight until it is reported back. The
//! number of tiles is fixed when the cache is made: every tile is in exactly
//! one pool or in flight, at all times.

use vstd::prelude::*;
use crate::grid::GridWindow;
use crate::spiral::{
    lemma_hits_distinct, lemma_hits_intersect, offsets_of, spiral_hits, spiral_walk, SPIRAL_STEP_CEILING,
};
use crate::tile::{tiles_view, Tile, TileView};

verus! {

/// Number of tiles of a cache.
pub const TILE_CACHE_SIZE: usize = 500;

/// Identifies a zoom value. The cache only tells zoom values apart.
#[derive(Clone, Copy, Debug, PartialEq, Eq, Structural)]
pub struct ZoomLevel(pub u64);

/// Where a tile is.
#[derive(Clone, Copy, Debug, PartialEq, Eq, Structural)]
pub enum Pool {
    Empty,
    InFlight,
    Next,
    Current,
}

/// The cache as plain values.
#[verifier::ext_equal]
pub struct CacheView {
    pub current: Seq<TileView>,
    pub next: Seq<TileView>,
    pub empty: Seq<TileView>,
    /// For every tile id, where the tile is.
    pub owner: Seq<Pool>,
    pub in_flight: nat,
    pub current_zoom: ZoomLevel,
    pub next_zoom: ZoomLevel,
    /// Grid window that the tiles of `current` were generated for.
    pub current_window: GridWindow,
    /// Grid window that the tiles of `next`, and those in flight, were
    /// generated for.
    pub next_window: GridWindow,
}

/// The tiles of a pool are exactly the tiles that `owner` places there, and
/// no two of them share an id.
pub open spec fn pool_tagged(tiles: Seq<TileView>, owner: Seq<Pool>, pool: Pool) -> bool {
    &&& forall|k: int|
        0 <= k < tiles.len() ==> (#[trigger] tiles[k]).id < owner.len() && owner[tiles[k].id as int] == pool
    &&& forall|a: int, b: int|
        0 <= a < b < tiles.len() ==> (#[trigger] tiles[a]).id != (#[trigger] tiles[b]).id
    &&& forall|id: int|
        0 <= id < owner.len() && #[trigger] owner[id] == pool ==> exists|k: int|
            0 <= k < tiles.len() && (#[trigger] tiles[k]).id == id
}

/// The ids of the tiles that are out with workers.
pub open spec fn in_flight_ids(owner: Seq<Pool>) -> Set<int> {
    Set::new(|id: int| 0 <= id < owner.len() && owner[id] == Pool::InFlight)
}

/// Every tile of the pool lies in the window.
pub open spec fn all_within(tiles: Seq<TileView>, window: GridWindow) -> bool {
    forall|k: int| 0 <= k < tiles.len() ==> window.covers((#[trigger] tiles[k]).at.0, tiles[k].at.1)
}

/// Every tile of the pool can be rendered into.
pub open spec fn all_renderable(tiles: Seq<TileView>) -> bool {
    forall|k: int| 0 <= k < tiles.len() ==> (#[trigger] tiles[k]).renderable()
}

/// Every tile of the pool can be drawn.
pub open spec fn all_displayable(tiles: Seq<TileView>) -> bool {
    forall|k: int| 0 <= k < tiles.len() ==> (#[trigger] tiles[k]).displayable()
}

impl CacheView {
    /// No tile is ever made or lost: the pools and the tiles in flight add
    /// up to the size of the cache.
    pub open spec fn conserved(self) -> bool {
        self.current.len() + self.next.len() + self.empty.len() + self.in_flight == TILE_CACHE_SIZE
    }

    /// The invariant of the cache.
    pub open spec fn wf(self) -> bool {
        &&& self.conserved()
        &&& self.owner.len() == TILE_CACHE_SIZE
        &&& pool_tagged(self.current, self.owner, Pool::Current)
        &&& pool_tagged(self.next, self.owner, Pool::Next)
        &&& pool_tagged(self.empty, self.owner, Pool::Empty)
        &&& in_flight_ids(self.owner).finite()
        &&& in_flight_ids(self.owner).len() == self.in_flight
        &&& all_displayable(self.current)
        &&& all_displayable(self.next)
        &&& all_renderable(self.empty)
        &&& all_within(self.current, self.current_window)
        &&& all_within(self.next, self.next_window)
    }

    /// Whether a generation pass drops the pending layer and keeps the
    /// current one: it does so when the view zooms in, a pending layer
    /// exists, and that layer is finer than the pass asks for. Otherwise the
    /// pending layer becomes the current one.
    pub open spec fn keeps_current(self, is_zoom_in: bool, next_is_finer: bool) -> bool {
        is_zoom_in && self.next.len() > 0 && next_is_finer
    }

    /// The cache after the layer decision of a generation pass.
    pub open spec fn flipped(self, is_zoom_in: bool, next_is_finer: bool) -> CacheView {
        if self.keeps_current(is_zoom_in, next_is_finer) {
            CacheView {
                next: Seq::empty(),
                empty: self.empty + recycled(self.next),
                owner: retagged(self.owner, Pool::Next, Pool::Empty),
                ..self
            }
        } else {
            CacheView {
                current: self.next,
                next: Seq::empty(),
                empty: self.empty + recycled(self.current),
                owner: retagged(retagged(self.owner, Pool::Current, Pool::Empty), Pool::Next, Pool::Current),
                current_zoom: self.next_zoom,
                current_window: self.next_window,
                ..self
            }
        }
    }

    /// The tasks that a pass hands out for the offsets `hits`: one tile from
    /// the end of the empty pool for each offset, in the order of the
    /// offsets, as long as tiles are left.
    pub open spec fn tasks_for(self, hits: Seq<(int, int)>) -> Seq<TileView> {
        Seq::new(
            if hits.len() <= self.empty.len() {
                hits.len()
            } else {
                self.empty.len()
            },
            |n: int| self.empty[self.empty.len() - 1 - n].moved_to(hits[n]),
        )
    }

    /// The cache after it took back `tile` rendered: the buffer of the tile
    /// has become the image that its texture shows, the tile is the last of
    /// the pending layer, and one tile less is in flight.
    pub open spec fn completed(self, tile: TileView) -> CacheView {
        CacheView {
            next: self.next.push(tile.swapped()),
            owner: self.owner.update(tile.id as int, Pool::Next),
            in_flight: (self.in_flight - 1) as nat,
            ..self
        }
    }

    /// The cache after it took back `tile` abandoned: the tile is the last
    /// of the empty pool, as it is, and one tile less is in flight.
    pub open spec fn bailed(self, tile: TileView) -> CacheView {
        CacheView {
            empty: self.empty.push(tile),
            owner: self.owner.update(tile.id as int, Pool::Empty),
            in_flight: (self.in_flight - 1) as nat,
            ..self
        }
    }

    /// The cache after it took back all of `tiles` rendered, one after the
    /// other.
    pub open spec fn completed_all(self, tiles: Seq<TileView>) -> CacheView
        decreases tiles.len(),
    {
        if tiles.len() == 0 {
            self
        } else {
            self.completed_all(tiles.drop_last()).completed(tiles.last())
        }
    }

    /// Whether a generation pass leads from this cache to `after` and hands
    /// out `tasks`. The layers flip, the viewport `view` is grown by a border
    /// of one tile, and the tiles inside it get a tile each from the end of
    /// the empty pool, nearest first, while tiles are left. Every tile
    /// handed out lies in the grown window, no two lie at the same place,
    /// and the cache awaits each of them.
    pub open spec fn generates(
        self,
        after: CacheView,
        tasks: Seq<TileView>,
        zoom: ZoomLevel,
        view: GridWindow,
        is_zoom_in: bool,
        next_is_finer: bool,
    ) -> bool {
        let flipped = self.flipped(is_zoom_in, next_is_finer);
        let window = view.grown(1);
        let hits = spiral_hits(|i: int, j: int| window.covers(i, j));
        &&& after.wf()
        &&& tasks == flipped.tasks_for(hits)
        &&& after.current == flipped.current
        &&& after.next == Seq::<TileView>::empty()
        &&& after.empty == flipped.empty.take(flipped.empty.len() - tasks.len())
        &&& after.in_flight == tasks.len()
        &&& after.current_zoom == flipped.current_zoom
        &&& after.current_window == flipped.current_window
        &&& after.next_zoom == zoom
        &&& after.next_window == window
        &&& forall|n: int| 0 <= n < tasks.len() ==> after.awaits(#[trigger] tasks[n])
        &&& forall|n: int| 0 <= n < tasks.len() ==> window.covers((#[trigger] tasks[n]).at.0, tasks[n].at.1)
        &&& forall|a: int, b: int|
            0 <= a < b < tasks.len() ==> (#[trigger] tasks[a]).at != (#[trigger] tasks[b]).at
        &&& forall|a: int, b: int|
            0 <= a < b < tasks.len() ==> (#[trigger] tasks[a]).id != (#[trigger] tasks[b]).id
    }

    /// Whether the tile is one that the cache has handed out and can take
    /// back into the pending layer.
    pub open spec fn awaits(self, tile: TileView) -> bool {
        &&& tile.id < self.owner.len()
        &&& self.owner[tile.id as int] == Pool::InFlight
        &&& tile.renderable()
    }
}

/// The tiles of a viewer, each in one of three pools or out with a worker.
pub struct TileCache {
    current: Vec<Tile>,
    next: Vec<Tile>,
    empty: Vec<Tile>,
    owner: Vec<Pool>,
    current_zoom: ZoomLevel,
    next_zoom: ZoomLevel,
    current_window: GridWindow,
    next_window: GridWindow,
    tiles_in_flight: usize,
}

impl View for TileCache {
    type V = CacheView;

    closed spec fn view(&self) -> CacheView {
        CacheView {
            current: tiles_view(self.current@),
            next: tiles_view(self.next@),
            empty: tiles_view(self.empty@),
            owner: self.owner@,
            in_flight: self.tiles_in_flight as nat,
            current_zoom: self.current_zoom,
            next_zoom: self.next_zoom,
            current_window: self.current_window,
            next_window: self.next_window,
        }
    }
}

/// Retagging one tile changes the set of tiles in flight by that tile alone.
proof fn lemma_retag(owner: Seq<Pool>, id: int, pool: Pool)
    requires
        0 <= id < owner.len(),
        in_flight_ids(owner).finite(),
    ensures
        in_flight_ids(owner.update(id, pool)).finite(),
        in_flight_ids(owner.update(id, pool)).len() == in_flight_ids(owner).len() + (if pool
            == Pool::InFlight {
            1int
        } else {
            0int
        }) - (if owner[id] == Pool::InFlight {
            1int
        } else {
            0int
        }),
{
    let before = in_flight_ids(owner);
    let after = in_flight_ids(owner.update(id, pool));
    if pool == Pool::InFlight {
        assert(after =~= before.insert(id));
    } else {
        assert(after =~= before.remove(id));
    }
}

/// A tile that comes into a pool from elsewhere extends the pool.
proof fn lemma_pool_push(tiles: Seq<TileView>, owner: Seq<Pool>, pool: Pool, tile: TileView)
    requires
        pool_tagged(tiles, owner, pool),
        tile.id < owner.len(),
        owner[tile.id as int] != pool,
    ensures
        pool_tagged(tiles.push(tile), owner.update(tile.id as int, pool), pool),
{
    let grown = tiles.push(tile);
    let tags = owner.update(tile.id as int, pool);
    assert forall|id: int| 0 <= id < tags.len() && #[trigger] tags[id] == pool implies exists|k: int|
        0 <= k < grown.len() && (#[trigger] grown[k]).id == id by {
        if id == tile.id {
            assert(grown[tiles.len() as int].id == id);
        } else {
            assert(owner[id] == pool);
            let k = choose|k: int| 0 <= k < tiles.len() && (#[trigger] tiles[k]).id == id;
            assert(grown[k].id == id);
        }
    }
    assert forall|k: int| 0 <= k < grown.len() implies (#[trigger] grown[k]).id < tags.len()
        && tags[grown[k].id as int] == pool by {
        if k < tiles.len() {
            assert(grown[k] == tiles[k]);
        }
    }
    assert forall|a: int, b: int| 0 <= a < b < grown.len() implies (#[trigger] grown[a]).id != (
    #[trigger] grown[b]).id by {
        assert(grown[a] == tiles[a]);
        if b < tiles.len() {
            assert(grown[b] == tiles[b]);
        }
    }
}

/// The last tile of a pool leaves it for elsewhere.
proof fn lemma_pool_pop(tiles: Seq<TileView>, owner: Seq<Pool>, pool: Pool, to: Pool)
    requires
        pool_tagged(tiles, owner, pool),
        tiles.len() > 0,
        to != pool,
    ensures
        pool_tagged(tiles.drop_last(), owner.update(tiles.last().id as int, to), pool),
{
    let rest = tiles.drop_last();
    let gone = tiles.last();
    let tags = owner.update(gone.id as int, to);
    assert forall|id: int| 0 <= id < tags.len() && #[trigger] tags[id] == pool implies exists|k: int|
        0 <= k < rest.len() && (#[trigger] rest[k]).id == id by {
        assert(owner[id] == pool);
        let k = choose|k: int| 0 <= k < tiles.len() && (#[trigger] tiles[k]).id == id;
        assert(rest[k].id == id);
    }
    assert forall|k: int| 0 <= k < rest.len() implies (#[trigger] rest[k]).id < tags.len()
        && tags[rest[k].id as int] == pool by {
        assert(rest[k] == tiles[k]);
        assert(tiles[k].id != tiles[tiles.len() - 1].id);
    }
    assert forall|a: int, b: int| 0 <= a < b < rest.len() implies (#[trigger] rest[a]).id != (
    #[trigger] rest[b]).id by {
        assert(rest[a] == tiles[a]);
        assert(rest[b] == tiles[b]);
    }
}

/// A pool does not notice when a tile outside it goes elsewhere.
proof fn lemma_pool_apart(tiles: Seq<TileView>, owner: Seq<Pool>, pool: Pool, id: int, to: Pool)
    requires
        pool_tagged(tiles, owner, pool),
        0 <= id < owner.len(),
        owner[id] != pool,
        to != pool,
    ensures
        pool_tagged(tiles, owner.update(id, to), pool),
{
    let tags = owner.update(id, to);
    assert forall|other: int|
        0 <= other < tags.len() && #[trigger] tags[other] == pool implies exists|k: int|
        0 <= k < tiles.len() && (#[trigger] tiles[k]).id == other by {
        assert(owner[other] == pool);
    }
}

/// What a pool leaves in the empty pool when it is discarded: its tiles from
/// the last to the first, each with its image back in its render buffer.
pub open spec fn recycled(tiles: Seq<TileView>) -> Seq<TileView> {
    Seq::new(tiles.len(), |k: int| tiles[tiles.len() - 1 - k].swapped())
}

/// The owner table after every tile of `from` went to `to`.
pub open spec fn retagged(owner: Seq<Pool>, from: Pool, to: Pool) -> Seq<Pool> {
    Seq::new(
        owner.len(),
        |id: int|
            if owner[id] == from {
                to
            } else {
                owner[id]
            },
    )
}

/// Moves every tile of `tiles` to the empty pool, last tile first, and takes
/// the image of each back into its render buffer.
fn recycle_pool(tiles: &mut Vec<Tile>, empty: &mut Vec<Tile>, owner: &mut Vec<Pool>, Ghost(pool): Ghost<Pool>)
    requires
        pool == Pool::Next || pool == Pool::Current,
        pool_tagged(tiles_view(old(tiles)@), old(owner)@, pool),
        pool_tagged(tiles_view(old(empty)@), old(owner)@, Pool::Empty),
        all_displayable(tiles_view(old(tiles)@)),
        all_renderable(tiles_view(old(empty)@)),
    ensures
        final(tiles)@.len() == 0,
        tiles_view(final(empty)@) == tiles_view(old(empty)@) + recycled(tiles_view(old(tiles)@)),
        final(owner)@ == retagged(old(owner)@, pool, Pool::Empty),
        pool_tagged(tiles_view(final(empty)@), final(owner)@, Pool::Empty),
        all_renderable(tiles_view(final(empty)@)),
{
    let ghost tiles0 = tiles_view(tiles@);
    let ghost empty0 = tiles_view(empty@);
    let ghost owner0 = owner@;
    proof {
        assert(tiles_view(empty@) =~= empty0 + recycled(tiles0.subrange(tiles0.len() as int, tiles0.len() as int)));
        assert(tiles_view(tiles@) =~= tiles0.take(tiles0.len() as int));
    }
    while tiles.len() > 0
        invariant
            pool == Pool::Next || pool == Pool::Current,
            tiles@.len() <= tiles0.len(),
            tiles_view(tiles@) == tiles0.take(tiles@.len() as int),
            tiles_view(empty@) == empty0 + recycled(tiles0.subrange(tiles@.len() as int, tiles0.len() as int)),
            owner@.len() == owner0.len(),
            forall|id: int| 0 <= id < owner0.len() && owner0[id] != pool ==> #[trigger] owner@[id] == owner0[id],
            forall|id: int|
                0 <= id < owner0.len() && owner0[id] == pool ==> #[trigger] owner@[id] == pool || owner@[id]
                    == Pool::Empty,
            pool_tagged(tiles_view(tiles@), owner@, pool),
            pool_tagged(tiles_view(empty@), owner@, Pool::Empty),
            all_displayable(tiles_view(tiles@)),
            all_renderable(tiles_view(empty@)),
        decreases tiles@.len(),
    {
        let ghost m = tiles@.len();
        let ghost pool_before = tiles_view(tiles@);
        let ghost empty_before = tiles_view(empty@);
        let ghost owner_before = owner@;
        let tile = tiles.pop().unwrap();
        let ghost gone = tile@;
        proof {
            assert(gone == pool_before.last());
            assert(tiles_view(tiles@) =~= pool_before.drop_last());
            assert(gone.displayable());
            lemma_pool_pop(pool_before, owner_before, pool, Pool::Empty);
            lemma_pool_push(empty_before, owner_before, Pool::Empty, gone.swapped());
        }
        owner[tile.id] = Pool::Empty;
        let tile = tile.swap_image();
        empty.push(tile);
        proof {
            assert(tiles_view(empty@) =~= empty_before.push(gone.swapped()));
            assert(tiles_view(tiles@) =~= tiles0.take(m - 1));
            assert(gone == tiles0[m - 1]);
            assert(recycled(tiles0.subrange(m - 1, tiles0.len() as int)) =~= recycled(
                tiles0.subrange(m as int, tiles0.len() as int),
            ).push(gone.swapped()));
        }
    }
    proof {
        assert(tiles0.subrange(0, tiles0.len() as int) =~= tiles0);
        assert forall|id: int| 0 <= id < owner0.len() implies #[trigger] owner@[id] == retagged(
            owner0,
            pool,
            Pool::Empty,
        )[id] by {
            if owner0[id] == pool && owner@[id] == pool {
                let k = choose|k: int| 0 <= k < tiles@.len() && (#[trigger] tiles_view(tiles@)[k]).id == id;
            }
        }
        assert(owner@ =~= retagged(owner0, pool, Pool::Empty));
    }
}

/// Makes the tiles of the pending layer, which `tiles` holds, the tiles of
/// the current layer in the owner table.
fn promote_tags(tiles: &Vec<Tile>, owner: &mut Vec<Pool>)
    requires
        pool_tagged(tiles_view(tiles@), old(owner)@, Pool::Next),
        forall|id: int| 0 <= id < old(owner)@.len() ==> #[trigger] old(owner)@[id] != Pool::Current,
    ensures
        final(owner)@ == retagged(old(owner)@, Pool::Next, Pool::Current),
        pool_tagged(tiles_view(tiles@), final(owner)@, Pool::Current),
{
    let ghost owner0 = owner@;
    let ghost layer = tiles_view(tiles@);
    let mut k: usize = 0;
    while k < tiles.len()
        invariant
            k <= tiles@.len(),
            layer == tiles_view(tiles@),
            pool_tagged(layer, owner0, Pool::Next),
            owner@.len() == owner0.len(),
            forall|id: int| 0 <= id < owner0.len() && owner0[id] != Pool::Next ==> #[trigger] owner@[id] == owner0[id],
            forall|id: int|
                0 <= id < owner0.len() && owner0[id] == Pool::Next ==> #[trigger] owner@[id] == Pool::Next
                    || owner@[id] == Pool::Current,
            forall|j: int| 0 <= j < k ==> owner@[(#[trigger] layer[j]).id as int] == Pool::Current,
            forall|j: int| k <= j < layer.len() ==> owner@[(#[trigger] layer[j]).id as int] == Pool::Next,
        decreases tiles@.len() - k,
    {
        let id = tiles[k].id;
        proof {
            assert(layer[k as int].id == id);
            assert forall|j: int| 0 <= j < layer.len() && j != k implies (#[trigger] layer[j]).id != id by {
                if j < k {
                    assert(layer[j].id != layer[k as int].id);
                } else {
                    assert(layer[k as int].id != layer[j].id);
                }
            }
        }
        owner[id] = Pool::Current;
        k = k + 1;
    }
    proof {
        assert forall|id: int| 0 <= id < owner0.len() implies #[trigger] owner@[id] == retagged(
            owner0,
            Pool::Next,
            Pool::Current,
        )[id] by {
            if owner0[id] == Pool::Next {
                let j = choose|j: int| 0 <= j < layer.len() && (#[trigger] layer[j]).id == id;
            }
        }
        assert(owner@ =~= retagged(owner0, Pool::Next, Pool::Current));
        assert forall|id: int| 0 <= id < owner@.len() && #[trigger] owner@[id] == Pool::Current implies exists|
            j: int,
        |
            0 <= j < layer.len() && (#[trigger] layer[j]).id == id by {
            assert(owner0[id] == Pool::Next);
        }
    }
}

impl TileCache {
    /// Returns the tiles of the pending layer to the empty pool.
    fn discard_next_layer(&mut self)
        requires
            old(self)@.wf(),
        ensures
            final(self)@.wf(),
            final(self)@ == (CacheView {
                next: Seq::empty(),
                empty: old(self)@.empty + recycled(old(self)@.next),
                owner: retagged(old(self)@.owner, Pool::Next, Pool::Empty),
                ..old(self)@
            }),
    {
        let ghost before = self@;
        recycle_pool(&mut self.next, &mut self.empty, &mut self.owner, Ghost(Pool::Next));
        proof {
            let after = self@;
            assert(after.next =~= Seq::<TileView>::empty());
            assert(in_flight_ids(after.owner) =~= in_flight_ids(before.owner));
            assert(pool_tagged(after.current, after.owner, Pool::Current)) by {
                assert forall|id: int|
                    0 <= id < after.owner.len() && #[trigger] after.owner[id] == Pool::Current implies exists|
                    k: int,
                |
                    0 <= k < after.current.len() && (#[trigger] after.current[k]).id == id by {
                    assert(before.owner[id] == Pool::Current);
                }
            }
        }
    }

    /// Returns the tiles of the current layer to the empty pool and makes
    /// the pending layer the current one.
    fn discard_current_layer(&mut self)
        requires
            old(self)@.wf(),
        ensures
            final(self)@.wf(),
            final(self)@ == (CacheView {
                current: old(self)@.next,
                next: Seq::empty(),
                empty: old(self)@.empty + recycled(old(self)@.current),
                owner: retagged(
                    retagged(old(self)@.owner, Pool::Current, Pool::Empty),
                    Pool::Next,
                    Pool::Current,
                ),
                current_zoom: old(self)@.next_zoom,
                current_window: old(self)@.next_window,
                ..old(self)@
            }),
    {
        let ghost before = self@;
        recycle_pool(&mut self.current, &mut self.empty, &mut self.owner, Ghost(Pool::Current));
        let ghost drained = self.owner@;
        let ghost refilled = tiles_view(self.empty@);
        proof {
            assert(pool_tagged(tiles_view(self.next@), drained, Pool::Next)) by {
                assert forall|id: int|
                    0 <= id < drained.len() && #[trigger] drained[id] == Pool::Next implies exists|k: int|
                    0 <= k < before.next.len() && (#[trigger] before.next[k]).id == id by {
                    assert(before.owner[id] == Pool::Next);
                }
            }
        }
        self.current_zoom = self.next_zoom;
        self.current_window = self.next_window;
        core::mem::swap(&mut self.current, &mut self.next);
        promote_tags(&self.current, &mut self.owner);
        proof {
            let after = self@;
            assert(after.next =~= Seq::<TileView>::empty());
            assert(after.current =~= before.next);
            assert(in_flight_ids(after.owner) =~= in_flight_ids(before.owner));
            assert(after.empty == refilled);
            assert(pool_tagged(refilled, drained, Pool::Empty));
            assert(pool_tagged(after.empty, after.owner, Pool::Empty)) by {
                assert forall|id: int|
                    0 <= id < after.owner.len() && #[trigger] after.owner[id] == Pool::Empty implies exists|
                    k: int,
                |
                    0 <= k < refilled.len() && (#[trigger] refilled[k]).id == id by {
                    assert(drained[id] == Pool::Empty);
                }
                assert forall|k: int| 0 <= k < refilled.len() implies (#[trigger] refilled[k]).id
                    < after.owner.len() && after.owner[refilled[k].id as int] == Pool::Empty by {
                    assert(drained[refilled[k].id as int] == Pool::Empty);
                }
            }
        }
    }

    /// Starts a generation pass.
    ///
    /// First the layers flip: the pending layer is dropped when the view
    /// zooms in and that layer is finer than the pass asks for, else it
    /// becomes the current layer. Then the viewport `view` is grown by a
    /// border of one tile and a spiral walk picks the tiles inside it,
    /// nearest first. Each takes a tile from the empty pool while tiles are
    /// left. The tiles handed out are in flight from now on.
    pub fn generate_tasks_and_flip_layers(
        &mut self,
        zoom: ZoomLevel,
        view: GridWindow,
        is_zoom_in: bool,
        next_is_finer: bool,
    ) -> (tasks: Vec<Tile>)
        requires
            old(self)@.wf(),
            old(self)@.in_flight == 0,
        ensures
            old(self)@.generates(
                final(self)@,
                tiles_view(tasks@),
                zoom,
                view,
                is_zoom_in,
                next_is_finer,
            ),
    {
        if is_zoom_in && self.next.len() > 0 && next_is_finer {
            self.discard_next_layer();
        } else {
            self.discard_current_layer();
        }
        let window = view.add_margin();
        self.next_zoom = zoom;
        self.next_window = window;
        let ghost flipped = self@;
        let ghost pool = flipped.empty;
        proof {
            assert(pool_tagged(pool, flipped.owner, Pool::Empty));
        }
        let ghost hit = |i: int, j: int| window.covers(i, j);
        let hits = spiral_walk(&window);
        let mut tasks: Vec<Tile> = Vec::new();
        let mut n: usize = 0;
        proof {
            assert(flipped.next =~= Seq::<TileView>::empty());
            assert(self@.empty =~= pool.take(pool.len() - 0));
        }
        while n < hits.len() && self.empty.len() > 0
            invariant
                self@.wf(),
                n == tasks@.len(),
                n <= hits@.len(),
                n <= pool.len(),
                offsets_of(hits@) == spiral_hits(hit),
                self@.empty == pool.take(pool.len() - n),
                self@.in_flight == n,
                self@ == (CacheView {
                    empty: self@.empty,
                    owner: self@.owner,
                    in_flight: self@.in_flight,
                    ..flipped
                }),
                forall|k: int| 0 <= k < n ==> (#[trigger] tasks@[k])@ == pool[pool.len() - 1 - k].moved_to(hits@[k]@),
                forall|k: int| 0 <= k < n ==> self@.awaits((#[trigger] tasks@[k])@),
                forall|k: int| 0 <= k < pool.len() ==> (#[trigger] pool[k]).renderable(),
                forall|a: int, b: int| 0 <= a < b < pool.len() ==> (#[trigger] pool[a]).id != (#[trigger] pool[b]).id,
            decreases hits@.len() - n,
        {
            let ghost before = self@;
            let ghost handed = tasks@;
            let mut tile = self.empty.pop().unwrap();
            let ghost gone = tile@;
            proof {
                assert(gone == before.empty.last());
                assert(gone == pool[pool.len() - 1 - n]);
                lemma_pool_pop(before.empty, before.owner, Pool::Empty, Pool::InFlight);
                lemma_pool_apart(before.current, before.owner, Pool::Current, gone.id as int, Pool::InFlight);
                lemma_pool_apart(before.next, before.owner, Pool::Next, gone.id as int, Pool::InFlight);
                lemma_retag(before.owner, gone.id as int, Pool::InFlight);
            }
            self.owner[tile.id] = Pool::InFlight;
            self.tiles_in_flight = self.tiles_in_flight + 1;
            tile.at = hits[n];
            tasks.push(tile);
            n = n + 1;
            proof {
                assert(self@.empty =~= before.empty.drop_last());
                assert(self@.empty =~= pool.take(pool.len() - n));
                assert(self@.current =~= before.current);
                assert(self@.next =~= before.next);
                assert forall|k: int| 0 <= k < n implies self@.awaits((#[trigger] tasks@[k])@) by {
                    if k < n - 1 {
                        assert(tasks@[k] == handed[k]);
                        assert(before.awaits(handed[k]@));
                    }
                }
                assert forall|k: int| 0 <= k < n implies (#[trigger] tasks@[k])@ == pool[pool.len() - 1
                    - k].moved_to(hits@[k]@) by {
                    if k < n - 1 {
                        assert(tasks@[k] == handed[k]);
                    }
                }
            }
        }
        proof {
            assert(offsets_of(hits@).len() == hits@.len());
            assert forall|k: int| 0 <= k < n implies hits@[k]@ == spiral_hits(hit)[k] by {
                assert(offsets_of(hits@)[k] == hits@[k]@);
            }
            assert(tiles_view(tasks@) =~= flipped.tasks_for(spiral_hits(hit)));
            lemma_hits_intersect(hit, SPIRAL_STEP_CEILING as nat);
            let handed = tiles_view(tasks@);
            assert forall|k: int| 0 <= k < handed.len() implies view.grown(1).covers(
                (#[trigger] handed[k]).at.0,
                handed[k].at.1,
            ) by {
                assert(handed[k].at == spiral_hits(hit)[k]);
                assert(hit(spiral_hits(hit)[k].0, spiral_hits(hit)[k].1));
            }
            assert forall|k: int| 0 <= k < handed.len() implies self@.awaits(#[trigger] handed[k]) by {
                assert(handed[k] == tasks@[k]@);
            }
            assert forall|a: int, b: int| 0 <= a < b < handed.len() implies (#[trigger] handed[a]).id != (
            #[trigger] handed[b]).id by {
                assert(handed[a].id == pool[pool.len() - 1 - a].id);
                assert(handed[b].id == pool[pool.len() - 1 - b].id);
            }
            lemma_hits_distinct(hit, SPIRAL_STEP_CEILING as nat);
            assert forall|a: int, b: int| 0 <= a < b < handed.len() implies (#[trigger] handed[a]).at != (
            #[trigger] handed[b]).at by {
                assert(handed[a].at == spiral_hits(hit)[a]);
                assert(handed[b].at == spiral_hits(hit)[b]);
            }
        }
        tasks
    }

    /// Number of tiles that can be drawn: those of the current layer and
    /// those of the pending layer.
    pub fn displayable_len(&self) -> (n: usize)
        requires
            self@.wf(),
        ensures
            n == self@.current.len() + self@.next.len(),
    {
        self.current.len() + self.next.len()
    }

    /// The `index`-th tile to draw: the current layer comes first, the
    /// pending layer is drawn over it.
    pub fn displayable(&self, index: usize) -> (tile: &Tile)
        requires
            self@.wf(),
            index < self@.current.len() + self@.next.len(),
        ensures
            tile@ == (self@.current + self@.next)[index as int],
            tile@.displayable(),
    {
        if index < self.current.len() {
            proof {
                assert(self@.current[index as int].displayable());
            }
            &self.current[index]
        } else {
            proof {
                assert(self@.next[index - self.current.len()].displayable());
            }
            &self.next[index - self.current.len()]
        }
    }

    /// Whether the current layer has no tile.
    pub fn current_is_empty(&self) -> (none: bool)
        ensures
            none == (self@.current.len() == 0),
    {
        self.current.len() == 0
    }

    /// Whether the pending layer has no tile.
    pub fn next_is_empty(&self) -> (none: bool)
        ensures
            none == (self@.next.len() == 0),
    {
        self.next.len() == 0
    }

    /// Number of tiles that wait for a task.
    pub fn empty_len(&self) -> (n: usize)
        ensures
            n == self@.empty.len(),
    {
        self.empty.len()
    }

    /// Number of tiles that are out with workers.
    pub fn in_flight(&self) -> (n: usize)
        ensures
            n == self@.in_flight,
    {
        self.tiles_in_flight
    }

    /// Zoom of the current layer.
    pub fn current_zoom(&self) -> (zoom: ZoomLevel)
        ensures
            zoom == self@.current_zoom,
    {
        self.current_zoom
    }

    /// Zoom that the last generation pass was asked for.
    pub fn next_zoom(&self) -> (zoom: ZoomLevel)
        ensures
            zoom == self@.next_zoom,
    {
        self.next_zoom
    }

    /// Grid window, border included, of the last generation pass.
    pub fn next_window(&self) -> (window: GridWindow)
        ensures
            window == self@.next_window,
    {
        self.next_window
    }

    /// Whether the pass that is under way has all its tiles back.
    pub fn generate_completed(&self) -> (done: bool)
        ensures
            done == (self@.in_flight == 0),
    {
        self.tiles_in_flight == 0
    }

    /// Whether `tile` is one that the cache has handed out and waits for.
    pub fn awaits(&self, tile: &Tile) -> (ok: bool)
        requires
            self@.wf(),
        ensures
            ok == self@.awaits(tile@),
    {
        tile.id < self.owner.len() && self.owner[tile.id] == Pool::InFlight && tile.is_renderable()
    }

    /// Takes back a tile that a worker has rendered: its buffer becomes the
    /// image of its texture, and the tile joins the pending layer.
    pub fn tile_completed(&mut self, tile: Tile)
        requires
            old(self)@.wf(),
            old(self)@.awaits(tile@),
            old(self)@.next_window.covers(tile@.at.0, tile@.at.1),
        ensures
            final(self)@.wf(),
            final(self)@ == old(self)@.completed(tile@),
    {
        let ghost before = self@;
        let ghost shown = tile@.swapped();
        proof {
            assert(in_flight_ids(before.owner).contains(tile@.id as int));
            lemma_retag(before.owner, tile@.id as int, Pool::Next);
            lemma_pool_push(before.next, before.owner, Pool::Next, shown);
            lemma_pool_apart(before.current, before.owner, Pool::Current, tile@.id as int, Pool::Next);
            lemma_pool_apart(before.empty, before.owner, Pool::Empty, tile@.id as int, Pool::Next);
        }
        self.tiles_in_flight = self.tiles_in_flight - 1;
        self.owner[tile.id] = Pool::Next;
        let tile = tile.swap_image();
        self.next.push(tile);
        proof {
            assert(self@.next =~= before.next.push(shown));
            assert(self@.current =~= before.current);
            assert(self@.empty =~= before.empty);
        }
    }

    /// Takes back a tile that a worker has abandoned: it returns to the empty
    /// pool as it is, and nothing of it is shown.
    pub fn tile_bailed(&mut self, tile: Tile)
        requires
            old(self)@.wf(),
            old(self)@.awaits(tile@),
        ensures
            final(self)@.wf(),
            final(self)@ == old(self)@.bailed(tile@),
    {
        let ghost before = self@;
        let ghost back = tile@;
        proof {
            assert(in_flight_ids(before.owner).contains(back.id as int));
            lemma_retag(before.owner, back.id as int, Pool::Empty);
            lemma_pool_push(before.empty, before.owner, Pool::Empty, back);
            lemma_pool_apart(before.current, before.owner, Pool::Current, back.id as int, Pool::Empty);
            lemma_pool_apart(before.next, before.owner, Pool::Next, back.id as int, Pool::Empty);
        }
        self.tiles_in_flight = self.tiles_in_flight - 1;
        self.owner[tile.id] = Pool::Empty;
        self.empty.push(tile);
        proof {
            assert(self@.empty =~= before.empty.push(back));
            assert(self@.current =~= before.current);
            assert(self@.next =~= before.next);
        }
    }

    /// A cache with all its tiles in the empty pool.
    pub fn new() -> (cache: TileCache)
        ensures
            cache@.wf(),
            cache@.current.len() == 0,
            cache@.next.len() == 0,
            cache@.empty.len() == TILE_CACHE_SIZE,
            cache@.in_flight == 0,
            forall|k: int| 0 <= k < TILE_CACHE_SIZE ==> (#[trigger] cache@.empty[k]).id == k,
            cache@.current_zoom == ZoomLevel(0),
            cache@.next_zoom == ZoomLevel(0),
    {
        let mut empty: Vec<Tile> = Vec::new();
        let mut owner: Vec<Pool> = Vec::new();
        let mut id: usize = 0;
        while id < TILE_CACHE_SIZE
            invariant
                id <= TILE_CACHE_SIZE,
                empty@.len() == id,
                owner@.len() == id,
                forall|k: int| 0 <= k < id ==> (#[trigger] empty@[k])@.id == k,
                forall|k: int| 0 <= k < id ==> (#[trigger] empty@[k])@.renderable(),
                forall|k: int| 0 <= k < id ==> #[trigger] owner@[k] == Pool::Empty,
            decreases TILE_CACHE_SIZE - id,
        {
            empty.push(Tile::new(id));
            owner.push(Pool::Empty);
            id = id + 1;
        }
        let window = GridWindow { i_min: 0, i_max: 0, j_min: 0, j_max: 0 };
        let cache = TileCache {
            current: Vec::new(),
            next: Vec::new(),
            empty,
            owner,
            current_zoom: ZoomLevel(0),
            next_zoom: ZoomLevel(0),
            current_window: window,
            next_window: window,
            tiles_in_flight: 0,
        };
        proof {
            let v = cache@;
            assert(in_flight_ids(v.owner) =~= Set::<int>::empty());
            assert forall|id: int|
                0 <= id < v.owner.len() && #[trigger] v.owner[id] == Pool::Empty implies exists|k: int|
                0 <= k < v.empty.len() && (#[trigger] v.empty[k]).id == id by {
                assert(v.empty[id].id == id);
            }
        }
        cache
    }
}

/// No tile is ever made or lost: in a cache that its own operations have
/// brought about, the three pools and the tiles in flight add up to the size
/// of the cache, and the number of tiles in flight is the number of tiles
/// that the owner table places with workers.
pub proof fn lemma_tiles_conserved(cache: CacheView)
    requires
        cache.wf(),
    ensures
        cache.current.len() + cache.next.len() + cache.empty.len() + cache.in_flight == TILE_CACHE_SIZE,
        cache.in_flight == in_flight_ids(cache.owner).len(),
{
}

/// A tile is in one place only: the tiles of the three pools have ids of
/// their own, and none of them is in flight.
pub proof fn lemma_tiles_not_shared(cache: CacheView, a: TileView, b: TileView)
    requires
        cache.wf(),
        (cache.current + cache.next + cache.empty).contains(a),
        (cache.current + cache.next + cache.empty).contains(b),
        a != b,
    ensures
        a.id != b.id,
        !in_flight_ids(cache.owner).contains(a.id as int),
{
    let all = cache.current + cache.next + cache.empty;
    let i = choose|i: int| 0 <= i < all.len() && all[i] == a;
    let j = choose|j: int| 0 <= j < all.len() && all[j] == b;
    let c = cache.current.len() as int;
    let n = cache.next.len() as int;
    if i < c {
        assert(all[i] == cache.current[i]);
    } else if i < c + n {
        assert(all[i] == cache.next[i - c]);
    } else {
        assert(all[i] == cache.empty[i - c - n]);
    }
    if j < c {
        assert(all[j] == cache.current[j]);
    } else if j < c + n {
        assert(all[j] == cache.next[j - c]);
    } else {
        assert(all[j] == cache.empty[j - c - n]);
    }
}

/// When every tile of a pass has come back rendered, the pending layer
/// holds exactly the tiles of the pass, in the order in which they came
/// back, each with its pixels shown. The current layer and the empty pool
/// are as the pass left them, and no tile is in flight.
pub proof fn lemma_pass_completed(
    before: CacheView,
    after: CacheView,
    tasks: Seq<TileView>,
    zoom: ZoomLevel,
    view: GridWindow,
    is_zoom_in: bool,
    next_is_finer: bool,
)
    requires
        before.generates(after, tasks, zoom, view, is_zoom_in, next_is_finer),
    ensures
        after.completed_all(tasks).wf(),
        after.completed_all(tasks).next == tasks.map_values(|t: TileView| t.swapped()),
        after.completed_all(tasks).current == after.current,
        after.completed_all(tasks).empty == after.empty,
        after.completed_all(tasks).in_flight == 0,
{
    lemma_completed_prefix(after, tasks, tasks.len());
    assert(tasks.take(tasks.len() as int) =~= tasks);
}

/// The cache on the way: the first `n` tiles of a pass are back rendered.
proof fn lemma_completed_prefix(after: CacheView, tasks: Seq<TileView>, n: nat)
    requires
        after.wf(),
        after.next.len() == 0,
        after.in_flight == tasks.len(),
        n <= tasks.len(),
        forall|k: int| 0 <= k < tasks.len() ==> after.awaits(#[trigger] tasks[k]),
        forall|k: int|
            0 <= k < tasks.len() ==> after.next_window.covers((#[trigger] tasks[k]).at.0, tasks[k].at.1),
        forall|a: int, b: int| 0 <= a < b < tasks.len() ==> (#[trigger] tasks[a]).id != (#[trigger] tasks[b]).id,
    ensures
        after.completed_all(tasks.take(n as int)).wf(),
        after.completed_all(tasks.take(n as int)).next == tasks.take(n as int).map_values(
            |t: TileView| t.swapped(),
        ),
        after.completed_all(tasks.take(n as int)).current == after.current,
        after.completed_all(tasks.take(n as int)).empty == after.empty,
        after.completed_all(tasks.take(n as int)).in_flight == tasks.len() - n,
        after.completed_all(tasks.take(n as int)).next_window == after.next_window,
        forall|k: int|
            n <= k < tasks.len() ==> after.completed_all(tasks.take(n as int)).awaits(#[trigger] tasks[k]),
    decreases n,
{
    let done = tasks.take(n as int);
    if n == 0 {
        assert(after.completed_all(done).next =~= done.map_values(|t: TileView| t.swapped()));
    } else {
        let m = (n - 1) as nat;
        let earlier = tasks.take(m as int);
        lemma_completed_prefix(after, tasks, m);
        assert(done.drop_last() =~= earlier);
        assert(done.last() == tasks[m as int]);
        let mid = after.completed_all(earlier);
        let tile = tasks[m as int];
        let now = mid.completed(tile);
        assert(now == after.completed_all(done));
        assert(mid.awaits(tile));
        assert(in_flight_ids(mid.owner).contains(tile.id as int));
        lemma_retag(mid.owner, tile.id as int, Pool::Next);
        lemma_pool_push(mid.next, mid.owner, Pool::Next, tile.swapped());
        lemma_pool_apart(mid.current, mid.owner, Pool::Current, tile.id as int, Pool::Next);
        lemma_pool_apart(mid.empty, mid.owner, Pool::Empty, tile.id as int, Pool::Next);
        assert(now.next =~= done.map_values(|t: TileView| t.swapped()));
        assert forall|k: int| n <= k < tasks.len() implies now.awaits(#[trigger] tasks[k]) by {
            assert(mid.awaits(tasks[k]));
            assert(tasks[m as int].id != tasks[k].id);
        }
    }
}

} // verus!
