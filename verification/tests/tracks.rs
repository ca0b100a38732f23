//! Tests of the track bookkeeping.

use ridemap::geom::Point;
use ridemap::schema::ActivityType;
use ridemap::tracks::{BBox, TrackState, ZoomedPolyline};

fn p32(x: i32, y: i32) -> Point<i32> {
    Point { x, y }
}

#[test]
fn bbox_grows_and_tests_visibility() {
    let mut b = BBox::new(p32(10, 20));
    b.update(p32(-5, 30));
    b.update(p32(15, 0));
    assert_eq!(b.min, p32(-5, 0));
    assert_eq!(b.max, p32(15, 30));
    // Fully inside a window whose origin sits at the box.
    assert!(b.visible(p32(0, 0), p32(100, 100)));
    // Shifted far left of the window.
    assert!(!b.visible(p32(-200, 0), p32(100, 100)));
    // Shifted past the right window edge.
    assert!(!b.visible(p32(120, 0), p32(100, 100)));
}

#[test]
fn zoomed_polyline_dedups_and_bounds() {
    // Two Mercator points 1/4 unit apart at zoom 8 give distinct pixels;
    // at zoom 2 both collapse to pixel 0 and are deduplicated.
    let fp = 0x1_0000_0000_i64;
    let points = vec![
        Point { x: 0, y: 0 },
        Point { x: fp / 4, y: fp / 4 },
    ];
    let fine = ZoomedPolyline::new(&points, 8);
    assert_eq!(fine.points, vec![p32(0, 0), p32(2, 2)]);
    assert_eq!(fine.bbox, Some(BBox { min: p32(0, 0), max: p32(2, 2) }));
    let coarse = ZoomedPolyline::new(&points, 2);
    assert_eq!(coarse.points, vec![p32(0, 0)]);
    assert_eq!(coarse.bbox, Some(BBox { min: p32(0, 0), max: p32(0, 0) }));
}

#[test]
fn track_state_counts_and_stats() {
    let fp = 0x1_0000_0000_i64;
    let mut state = TrackState::new();
    assert_eq!(state.polylines_count(), 0);
    state.process_activity(
        ActivityType::Ride,
        vec![Point { x: 0, y: 0 }, Point { x: fp / 2, y: fp / 2 }],
        600,
    );
    state.process_activity(
        ActivityType::Run,
        vec![Point { x: fp / 4, y: fp / 4 }],
        600,
    );
    assert_eq!(state.polylines_count(), 2);
    let stats = state.debug_statistics(p32(800, 600), p32(0, 0));
    assert_eq!(stats.total_points, 3);
    assert_eq!(stats.deduped_points, 3);
    assert_eq!(stats.visible_points, 3);
}

#[test]
fn track_state_visibility_filter() {
    let fp = 0x1_0000_0000_i64;
    let mut state = TrackState::new();
    // One track near the world origin, one far to the south-east.
    state.process_activity(
        ActivityType::Ride,
        vec![Point { x: 0, y: 0 }, Point { x: fp / 8, y: fp / 8 }],
        600,
    );
    state.process_activity(
        ActivityType::Ride,
        vec![Point { x: fp, y: fp }],
        600,
    );
    // A window over the origin sees only the first track.
    let visible = state.visible_polylines(p32(100, 100), p32(0, 0));
    assert_eq!(visible.len(), 1);
    assert_eq!(visible[0].points.len(), 2);
    // Its segments convert into window coordinates.
    let segments = visible[0].segments();
    assert_eq!(segments.len(), 1);
    assert_eq!(segments[0], (0, p32(0, 0), p32(75, 75)));
    assert_eq!(visible[0].first_point(), Some(p32(0, 0)));
    assert_eq!(visible[0].last_point(), Some(p32(75, 75)));
    assert_eq!(visible[0].segments_count(), 1);
    // After a zoom refresh everything rescales.
    let mut state2 = state;
    state2.refresh_zoom(1200);
    let visible2 = state2.visible_polylines(p32(100, 100), p32(0, 0));
    assert_eq!(visible2[0].last_point(), Some(p32(150, 150)));
}
