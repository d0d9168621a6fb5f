use fractal_zoom::cache::{TileCache, ZoomLevel, TILE_CACHE_SIZE};
use fractal_zoom::grid::{GridOffset, GridWindow};
use fractal_zoom::tile::{Tile, TILE_PIXELS, TILE_SIZE_X};

fn total(cache: &TileCache) -> usize {
    cache.displayable_len() + cache.empty_len() + cache.in_flight()
}

/// The tiles that touch a viewport, for a grid whose tile `(0, 0)` is centred
/// on `center` and whose tiles are `zoom` wide.
fn grid_window(zoom: f64, center: (f64, f64), pos: (f64, f64), size: (f64, f64)) -> GridWindow {
    let lo = |w: f64, c: f64| ((w - c) / zoom - 0.5).ceil() as i64;
    let hi = |w: f64, c: f64| ((w - c) / zoom + 0.5).floor() as i64;
    GridWindow::new(
        lo(pos.0, center.0),
        hi(pos.0 + size.0, center.0),
        lo(pos.1, center.1),
        hi(pos.1 + size.1, center.1),
    )
}

#[test]
fn new_cache_has_all_tiles_empty() {
    let cache = TileCache::new();
    assert_eq!(cache.empty_len(), TILE_CACHE_SIZE);
    assert_eq!(cache.empty_len(), 500);
    assert_eq!(cache.displayable_len(), 0);
    assert_eq!(cache.in_flight(), 0);
    assert!(cache.generate_completed());
    assert!(cache.current_is_empty());
    assert!(cache.next_is_empty());
    assert_eq!(cache.next_zoom(), ZoomLevel(0));
    assert_eq!(cache.current_zoom(), ZoomLevel(0));
}

#[test]
fn end_to_end_first_pass() {
    let mut cache = TileCache::new();
    let view = grid_window(0.5, (-0.5, 0.0), (0.0, 0.0), (1.0, 1.0));
    assert_eq!(view, GridWindow::new(1, 3, 0, 2));
    let zoom = ZoomLevel(0.5f64.to_bits());
    let tasks = cache.generate_tasks_and_flip_layers(zoom, view, true, false);
    assert!(tasks.len() >= 1);
    assert_eq!(tasks.len(), 25);
    assert_eq!(cache.in_flight(), 25);
    assert!(!cache.generate_completed());
    assert_eq!(cache.next_zoom(), zoom);
    let expanded = view.add_margin();
    assert_eq!(cache.next_window(), expanded);
    for tile in tasks.iter() {
        assert!(expanded.contains(tile.at));
        assert!(cache.awaits(tile));
        assert_eq!(tile.buffer.len(), TILE_PIXELS);
    }
    assert_eq!(tasks[0].at, GridOffset { i: 0, j: 0 });
    assert_eq!(tasks[1].at, GridOffset { i: 1, j: 0 });
    assert_eq!(tasks[0].id, 499);
    assert_eq!(tasks[24].id, 475);
    let ids: Vec<usize> = tasks.iter().map(|t| t.id).collect();
    let places: Vec<GridOffset> = tasks.iter().map(|t| t.at).collect();
    for tile in tasks {
        cache.tile_completed(tile);
    }
    assert!(cache.generate_completed());
    assert!(cache.current_is_empty());
    assert_eq!(cache.displayable_len(), 25);
    for k in 0..25 {
        let tile = cache.displayable(k);
        assert_eq!(tile.id, ids[k]);
        assert_eq!(tile.at, places[k]);
        assert!(tile.is_displayable());
    }
    assert_eq!(total(&cache), TILE_CACHE_SIZE);
}

#[test]
fn tiles_are_conserved_through_passes_and_reports() {
    let mut cache = TileCache::new();
    let mut zoom = 1u64;
    for round in 0..6 {
        let view = GridWindow::new(-round, round + 1, -1, round);
        let tasks = cache.generate_tasks_and_flip_layers(ZoomLevel(zoom), view, round % 2 == 0, round % 3 == 0);
        assert_eq!(cache.in_flight(), tasks.len());
        assert_eq!(total(&cache), TILE_CACHE_SIZE);
        for (k, tile) in tasks.into_iter().enumerate() {
            if k % 4 == 1 {
                cache.tile_bailed(tile);
            } else {
                cache.tile_completed(tile);
            }
            assert_eq!(total(&cache), TILE_CACHE_SIZE);
        }
        assert!(cache.generate_completed());
        zoom += 1;
    }
}

#[test]
fn completed_tile_shows_its_pixels() {
    let mut cache = TileCache::new();
    let mut tasks = cache.generate_tasks_and_flip_layers(ZoomLevel(7), GridWindow::new(0, 0, 0, 0), true, false);
    assert_eq!(tasks.len(), 9);
    let mut tile = tasks.remove(0);
    tile.set_cell(3, 2, 0xdead_beef);
    let id = tile.id;
    cache.tile_completed(tile);
    let shown = cache.displayable(0);
    assert_eq!(shown.id, id);
    assert_eq!(shown.image.len(), TILE_PIXELS);
    assert_eq!(shown.image[2 * TILE_SIZE_X + 3], 0xdead_beef);
    assert_eq!(shown.buffer.len(), 0);
    for tile in tasks {
        cache.tile_bailed(tile);
    }
    assert_eq!(cache.displayable_len(), 1);
    assert_eq!(cache.empty_len(), TILE_CACHE_SIZE - 1);
}

#[test]
fn bailed_tile_lands_in_the_empty_pool() {
    let mut cache = TileCache::new();
    let mut tasks = cache.generate_tasks_and_flip_layers(ZoomLevel(7), GridWindow::new(0, 0, 0, 0), false, false);
    let before = cache.empty_len();
    let tile = tasks.pop().unwrap();
    cache.tile_bailed(tile);
    assert_eq!(cache.empty_len(), before + 1);
    assert_eq!(cache.displayable_len(), 0);
    assert_eq!(cache.in_flight(), tasks.len());
    for tile in tasks {
        cache.tile_bailed(tile);
    }
    assert_eq!(cache.empty_len(), TILE_CACHE_SIZE);
}

#[test]
fn second_pass_promotes_the_pending_layer() {
    let mut cache = TileCache::new();
    let tasks = cache.generate_tasks_and_flip_layers(ZoomLevel(10), GridWindow::new(0, 0, 0, 0), true, false);
    let first: Vec<usize> = tasks.iter().map(|t| t.id).collect();
    for tile in tasks {
        cache.tile_completed(tile);
    }
    let tasks = cache.generate_tasks_and_flip_layers(ZoomLevel(8), GridWindow::new(0, 1, 0, 0), true, false);
    assert_eq!(tasks.len(), 12);
    assert_eq!(cache.current_zoom(), ZoomLevel(10));
    assert_eq!(cache.next_zoom(), ZoomLevel(8));
    assert!(!cache.current_is_empty());
    assert!(cache.next_is_empty());
    assert_eq!(cache.displayable_len(), 9);
    for k in 0..9 {
        assert_eq!(cache.displayable(k).id, first[k]);
    }
    assert_eq!(total(&cache), TILE_CACHE_SIZE);
}

#[test]
fn finer_pending_layer_is_dropped_when_zooming_in() {
    let mut cache = TileCache::new();
    let tasks = cache.generate_tasks_and_flip_layers(ZoomLevel(10), GridWindow::new(0, 0, 0, 0), true, false);
    for tile in tasks {
        cache.tile_completed(tile);
    }
    let tasks = cache.generate_tasks_and_flip_layers(ZoomLevel(8), GridWindow::new(0, 0, 0, 0), true, false);
    let second: Vec<usize> = tasks.iter().map(|t| t.id).collect();
    for tile in tasks {
        cache.tile_completed(tile);
    }
    // Both layers are filled. A pass that finds the pending layer finer than
    // asked for keeps the current layer and drops the pending one.
    let current: Vec<usize> = (0..9).map(|k| cache.displayable(k).id).collect();
    let tasks = cache.generate_tasks_and_flip_layers(ZoomLevel(20), GridWindow::new(0, 0, 0, 0), true, true);
    assert_eq!(cache.current_zoom(), ZoomLevel(10));
    assert_eq!(cache.next_zoom(), ZoomLevel(20));
    assert_eq!(cache.displayable_len(), 9);
    for k in 0..9 {
        assert_eq!(cache.displayable(k).id, current[k]);
    }
    // The dropped tiles went to the end of the empty pool, last tile first,
    // so the new pass takes them in their old order.
    let third: Vec<usize> = tasks.iter().map(|t| t.id).collect();
    assert_eq!(third, second);
    for tile in tasks.iter() {
        assert_eq!(tile.buffer.len(), TILE_PIXELS);
        assert_eq!(tile.image.len(), 0);
    }
}

#[test]
fn pending_layer_is_kept_when_zooming_out() {
    let mut cache = TileCache::new();
    let tasks = cache.generate_tasks_and_flip_layers(ZoomLevel(10), GridWindow::new(0, 0, 0, 0), true, false);
    for tile in tasks {
        cache.tile_completed(tile);
    }
    let _ = cache.generate_tasks_and_flip_layers(ZoomLevel(20), GridWindow::new(0, 0, 0, 0), false, true);
    assert_eq!(cache.current_zoom(), ZoomLevel(10));
    assert_eq!(cache.displayable_len(), 9);
}

#[test]
fn exhausted_pool_truncates_the_pass() {
    let mut cache = TileCache::new();
    let tasks = cache.generate_tasks_and_flip_layers(ZoomLevel(1), GridWindow::new(-20, 20, -20, 20), true, false);
    assert_eq!(tasks.len(), TILE_CACHE_SIZE);
    assert_eq!(cache.empty_len(), 0);
    assert_eq!(cache.in_flight(), TILE_CACHE_SIZE);
    // Nearest first: the tiles that did get a task are those around the
    // origin.
    assert_eq!(tasks[0].at, GridOffset { i: 0, j: 0 });
    for tile in tasks.iter() {
        assert!(tile.at.i.abs() <= 12 && tile.at.j.abs() <= 12);
    }
    for tile in tasks {
        cache.tile_completed(tile);
    }
    // The pool heals as tiles are recycled: the next pass promotes the layer
    // and has nothing to hand out, the one after it has all tiles again.
    let tasks = cache.generate_tasks_and_flip_layers(ZoomLevel(2), GridWindow::new(0, 0, 0, 0), true, false);
    assert_eq!(tasks.len(), 0);
    assert!(cache.generate_completed());
    let tasks = cache.generate_tasks_and_flip_layers(ZoomLevel(3), GridWindow::new(0, 0, 0, 0), true, false);
    assert_eq!(tasks.len(), 9);
    assert_eq!(cache.empty_len(), TILE_CACHE_SIZE - 9);
}

#[test]
fn pass_over_a_far_window_hands_out_nothing() {
    let mut cache = TileCache::new();
    let tasks = cache.generate_tasks_and_flip_layers(ZoomLevel(1), GridWindow::new(50, 60, 50, 60), true, false);
    assert!(tasks.is_empty());
    assert!(cache.generate_completed());
    assert_eq!(cache.empty_len(), TILE_CACHE_SIZE);
}

#[test]
fn cache_does_not_await_foreign_tiles() {
    let mut cache = TileCache::new();
    let stranger = Tile::new(3);
    assert!(!cache.awaits(&stranger));
    let beyond = Tile::new(TILE_CACHE_SIZE);
    assert!(!cache.awaits(&beyond));
    let tasks = cache.generate_tasks_and_flip_layers(ZoomLevel(1), GridWindow::new(0, 0, 0, 0), true, false);
    assert!(cache.awaits(&tasks[0]));
    let shown = Tile::new(tasks[0].id).swap_image();
    assert!(!cache.awaits(&shown));
}

#[test]
fn fresh_tile_is_blank_and_renderable() {
    let tile = Tile::new(42);
    assert_eq!(tile.id, 42);
    assert_eq!(tile.buffer.len(), 256 * 256);
    assert!(tile.buffer.iter().all(|cell| *cell == 0));
    assert!(tile.image.is_empty());
    assert!(tile.is_renderable());
    assert!(!tile.is_displayable());
    let shown = tile.swap_image();
    assert!(shown.is_displayable());
    assert!(!shown.is_renderable());
    assert_eq!(shown.id, 42);
}
