//! Tests of the camera.

use ridemap::camera::{Camera, FP_ONE, MAX_ZOOM};
use ridemap::geom::Point;
use ridemap::tile_box::TileBox;
use std::cmp::Ordering;

#[test]
fn camera_zoom_clamp() {
    // An 800 by 600 window starts at the minimum zoom 600. An extreme
    // zoom-out scroll of -1000 would scale the zoom by 2^(-100); the
    // candidate collapses to zero, the zoom is clamped back to the
    // minimum, and the z direction is neutralized.
    let mut camera = Camera::new(800, 600);
    assert_eq!(camera.zoom, 600);
    let candidate = (camera.zoom as f64 * (-1000.0_f64 / 10.0).exp2()) as u64;
    assert_eq!(candidate, 0);
    let mut refresh = false;
    let mut z_dir = Ordering::Less;
    camera.scroll(candidate, &mut refresh, &mut z_dir);
    assert_eq!(camera.zoom, 600);
    assert_eq!(z_dir, Ordering::Equal);
    assert!(refresh);
}

#[test]
fn camera_zoom_max_clamp() {
    let mut camera = Camera::new(800, 600);
    let mut refresh = false;
    let mut z_dir = Ordering::Greater;
    camera.scroll(u64::MAX, &mut refresh, &mut z_dir);
    assert_eq!(camera.zoom, MAX_ZOOM);
    assert_eq!(z_dir, Ordering::Greater);
}

#[test]
fn camera_resize_raises_zoom() {
    let mut camera = Camera::new(800, 600);
    let mut zoom_refresh = false;
    let mut offset_refresh = false;
    camera.resize(2000, 1000, &mut zoom_refresh, &mut offset_refresh);
    assert_eq!(camera.zoom, 1000);
    assert!(zoom_refresh);
    assert!(!offset_refresh);
}

#[test]
fn camera_drag_sets_directions() {
    let mut camera = Camera::new(800, 600);
    let mut offset_refresh = false;
    let mut x_dir = Ordering::Equal;
    let mut y_dir = Ordering::Equal;
    let before = camera.offset;
    camera.drag_relative(600, -600, &mut offset_refresh, &mut x_dir, &mut y_dir);
    assert_eq!(x_dir, Ordering::Greater);
    assert_eq!(y_dir, Ordering::Less);
    assert!(offset_refresh);
    // At zoom 600, a 600 pixel drag moves the offset one Mercator unit.
    assert_eq!(camera.offset.x, before.x + FP_ONE);
    assert_eq!(camera.offset.y, before.y - FP_ONE);
}

#[test]
fn camera_refresh_centers_world() {
    // The default camera looks at the world center fully zoomed out; the
    // viewport box at the minimum zoom is the root box.
    let mut camera = Camera::new(800, 600);
    let b = camera.refresh(512, 15);
    assert_eq!(
        b,
        TileBox { z: 0, min: Point { x: 0, y: 0 }, max: Point { x: 1, y: 1 } }
    );
    // The world (600 pixels wide at this zoom) is centered: its top-left
    // corner sits 100 pixels into the 800 pixel wide window.
    let io = camera.ioffset();
    assert_eq!(io.x, 100);
    assert_eq!(io.y, 0);
}

#[test]
fn camera_refresh_clamps_runaway_offset() {
    // A huge drag cannot take the world out of the window: the clamp
    // pulls the offset back so the world edge reaches at most the window
    // middle.
    let mut camera = Camera::new(800, 600);
    let mut offset_refresh = false;
    let mut x_dir = Ordering::Equal;
    let mut y_dir = Ordering::Equal;
    for _ in 0..100 {
        camera.drag_relative(1_000_000, 0, &mut offset_refresh, &mut x_dir, &mut y_dir);
    }
    camera.refresh(512, 15);
    // offset.x <= max(offset11, 0) with offset11 negative: clamped to 0.
    assert_eq!(camera.offset.x, 0);
}
