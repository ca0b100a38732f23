//! Small shared types of the UI-facing side of the library.

use vstd::prelude::*;
use crate::tracks::TrackStats;

verus! {

/// A loaded map tile.
pub struct Tile<Image> {
    /// Decoded image pixels of this tile, loaded for the current UI
    /// framework.
    pub image: Image,
}

/// Rendering statistics.
pub struct RenderStats {
    /// Number of map tiles drawn.
    pub drawn_tiles_count: usize,
    /// Statistics about GPS tracks.
    pub track_stats: TrackStats,
    /// Total number of segments, including invisible ones.
    pub segment_count: usize,
    /// Number of segments drawn.
    pub drawn_segment_count: usize,
}

/// Swallows the error of the given result; the caller goes on either way.
pub fn warn_on_error<E>(x: Result<(), E>, _msg: &str) {
    match x {
        Ok(()) => {},
        Err(_) => {},
    }
}

} // verus!
