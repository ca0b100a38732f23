//! Core data plane of a slippy-map GPS track viewer.
//!
//! The library covers the tile pyramid algebra, the Google polyline codec,
//! the priority-aware LRU tile cache, the tile request channel model, the
//! camera, and the track bookkeeping that the user interface draws from.

pub mod cache;
pub mod camera;
pub mod config;
pub mod fetcher;
pub mod geo;
pub mod geom;
pub mod lru;
pub mod num;
pub mod oauth;
pub mod polyline;
pub mod schema;
pub mod text;
pub mod tile_box;
pub mod tile_channel;
pub mod tile_state;
pub mod tracks;
pub mod util;
