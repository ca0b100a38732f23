//! Tests of the UI-side tile state.

use ridemap::geom::{Point, TileIndex};
use ridemap::tile_box::TileBox;
use ridemap::tile_state::{tile_priority, TileState};
use std::cmp::Ordering;

fn square_box(z: u32, x: u32, y: u32) -> TileBox {
    TileBox {
        z,
        min: Point { x, y },
        max: Point { x: x + 1, y: y + 1 },
    }
}

#[test]
fn tiles_to_draw_falls_back_to_ancestor() {
    // The viewport asks for the zoom 4 tile (4, 2, 3); the cache holds
    // only the zoom 2 tile (2, 0, 0), its ancestor. The ancestor is drawn.
    let mut state: TileState<u32> = TileState::new(false, 512, 15);
    let (inserted, evicted) = state.process_tile(TileIndex { z: 2, x: 0, y: 0 }, Some(7));
    assert!(inserted);
    assert_eq!(evicted, None);
    state.update(square_box(4, 2, 3), Ordering::Equal, Ordering::Equal, Ordering::Equal);
    let drawn = state.tiles_to_draw();
    assert_eq!(drawn.len(), 1);
    assert_eq!(drawn[0].0, TileIndex { z: 2, x: 0, y: 0 });
    assert_eq!(drawn[0].1.image, 7);
}

#[test]
fn tiles_to_draw_sorted_by_level() {
    let mut state: TileState<u32> = TileState::new(false, 512, 15);
    state.process_tile(TileIndex { z: 1, x: 0, y: 0 }, Some(1));
    state.process_tile(TileIndex { z: 2, x: 2, y: 0 }, Some(2));
    state.update(
        TileBox { z: 2, min: Point { x: 0, y: 0 }, max: Point { x: 3, y: 1 } },
        Ordering::Equal,
        Ordering::Equal,
        Ordering::Equal,
    );
    let drawn = state.tiles_to_draw();
    let indices: Vec<TileIndex> = drawn.iter().map(|d| d.0).collect();
    assert_eq!(
        indices,
        vec![TileIndex { z: 1, x: 0, y: 0 }, TileIndex { z: 2, x: 2, y: 0 }]
    );
}

#[test]
fn update_requests_missing_tiles() {
    let mut state: TileState<u32> = TileState::new(false, 512, 15);
    state.process_tile(TileIndex { z: 1, x: 0, y: 0 }, Some(1));
    let (request, speculative) = state.update(
        TileBox { z: 1, min: Point { x: 0, y: 0 }, max: Point { x: 2, y: 1 } },
        Ordering::Equal,
        Ordering::Equal,
        Ordering::Equal,
    );
    // Only the tile not yet cached is requested.
    assert_eq!(request, Some(vec![TileIndex { z: 1, x: 1, y: 0 }]));
    assert!(speculative.is_empty());
    // An unchanged viewport requests nothing.
    let (request, _) = state.update(
        TileBox { z: 1, min: Point { x: 0, y: 0 }, max: Point { x: 2, y: 1 } },
        Ordering::Equal,
        Ordering::Equal,
        Ordering::Equal,
    );
    assert_eq!(request, None);
}

#[test]
fn update_speculates_against_movement() {
    let mut state: TileState<u32> = TileState::new(true, 512, 15);
    state.update(
        TileBox { z: 2, min: Point { x: 1, y: 1 }, max: Point { x: 2, y: 2 } },
        Ordering::Equal,
        Ordering::Equal,
        Ordering::Equal,
    );
    // Dragging left exposes the right halo; dragging up the bottom halo.
    let (_, speculative) = state.update(
        TileBox { z: 2, min: Point { x: 1, y: 1 }, max: Point { x: 2, y: 2 } },
        Ordering::Less,
        Ordering::Less,
        Ordering::Greater,
    );
    assert_eq!(
        speculative,
        vec![TileIndex { z: 2, x: 2, y: 1 }, TileIndex { z: 2, x: 1, y: 2 }]
    );
}

#[test]
fn priority_buckets() {
    // Priorities for the viewport (2, 1, 1)..(2, 2, 2) with maximum level
    // 15: visible tiles come last in eviction order, then the root, then
    // ancestors by distance, then neighbors, then the rest.
    let b = square_box(2, 1, 1);
    let visible = tile_priority(&b, 15, &TileIndex { z: 2, x: 1, y: 1 });
    let root = tile_priority(&b, 15, &TileIndex { z: 0, x: 0, y: 0 });
    let parent = tile_priority(&b, 15, &TileIndex { z: 1, x: 0, y: 0 });
    let neighbor = tile_priority(&b, 15, &TileIndex { z: 2, x: 2, y: 1 });
    let other = tile_priority(&b, 15, &TileIndex { z: 2, x: 3, y: 3 });
    assert_eq!(visible, 17);
    assert_eq!(root, 16);
    assert_eq!(parent, 15);
    assert_eq!(neighbor, 1);
    assert_eq!(other, 0);
    assert!(visible > root && root > parent && parent > neighbor && neighbor > other);
}

#[test]
fn start_requests_whole_box() {
    let state: TileState<u32> = TileState::new(false, 512, 15);
    assert_eq!(state.start(), vec![TileIndex { z: 0, x: 0, y: 0 }]);
}

#[test]
fn process_tile_evicts_lowest_priority() {
    // Fill the cache to its capacity of 200: one visible tile first, then
    // 199 unrelated deep tiles. The next arrival evicts the least recently
    // used unrelated tile, never the visible one.
    let mut state: TileState<u32> = TileState::new(false, 512, 15);
    state.update(square_box(2, 1, 1), Ordering::Equal, Ordering::Equal, Ordering::Equal);
    let visible = TileIndex { z: 2, x: 1, y: 1 };
    assert_eq!(state.process_tile(visible, Some(0)), (true, None));
    for i in 0..199 {
        let (inserted, evicted) = state.process_tile(TileIndex { z: 9, x: i, y: 0 }, Some(i));
        assert!(inserted);
        assert_eq!(evicted, None);
    }
    let (inserted, evicted) = state.process_tile(TileIndex { z: 9, x: 400, y: 0 }, Some(400));
    assert!(inserted);
    assert_eq!(evicted, Some(TileIndex { z: 9, x: 0, y: 0 }));
    let drawn = state.tiles_to_draw();
    assert_eq!(drawn.len(), 1);
    assert_eq!(drawn[0].0, visible);
}
