//! Paths of the local on-disk cache.
//!
//! The cache is content-addressed: `{root}/activities/{id}.json` holds
//! activity records, `{root}/tiles/{provider}/{z}-{x}-{y}.png` raw tile
//! bytes. The reading and writing of those files is the caller's; this
//! module pins down the layout.

use vstd::prelude::*;
use crate::config::MapProvider;
use crate::geom::TileIndex;
use crate::text::{dec_str, append_u64};

verus! {

/// The path of an activity record, relative to the cache root.
pub open spec fn spec_activity_path(root: Seq<char>, id: u64) -> Seq<char> {
    root + "/activities/"@ + dec_str(id as nat) + ".json"@
}

/// The path of a cached tile, relative to the cache root.
pub open spec fn spec_tile_path(root: Seq<char>, folder: Seq<char>, index: TileIndex) -> Seq<char> {
    root + "/tiles/"@ + folder + "/"@ + dec_str(index.z as nat) + "-"@ + dec_str(index.x as nat)
        + "-"@ + dec_str(index.y as nat) + ".png"@
}

/// Handle to the on-disk cache layout.
pub struct Cache {
    /// Root directory.
    pub cache_root: String,
    /// Folder name for the current map provider.
    pub map_provider_folder: String,
}

impl Cache {
    /// Lays out the cache at the given root directory for the given map
    /// provider. Creating the directories is the caller's work.
    pub fn new(cache_directory: &str, map_provider: &MapProvider) -> (r: Self)
        ensures
            r.cache_root@ == cache_directory@,
            r.map_provider_folder@ == map_provider.cache_folder@,
    {
        Self {
            cache_root: cache_directory.to_owned(),
            map_provider_folder: map_provider.cache_folder.clone(),
        }
    }

    /// Computes the path associated to the given activity.
    pub fn activity_path(&self, id: u64) -> (r: String)
        ensures
            r@ == spec_activity_path(self.cache_root@, id),
    {
        let mut s = self.cache_root.clone();
        s.append("/activities/");
        append_u64(&mut s, id);
        s.append(".json");
        proof {
            reveal_strlit("/activities/");
            reveal_strlit(".json");
        }
        s
    }

    /// Computes the path associated to the given map tile.
    pub fn tile_path(&self, index: &TileIndex) -> (r: String)
        ensures
            r@ == spec_tile_path(self.cache_root@, self.map_provider_folder@, *index),
    {
        let mut s = self.cache_root.clone();
        s.append("/tiles/");
        s.append(self.map_provider_folder.as_str());
        s.append("/");
        append_u64(&mut s, index.z as u64);
        s.append("-");
        append_u64(&mut s, index.x as u64);
        s.append("-");
        append_u64(&mut s, index.y as u64);
        s.append(".png");
        proof {
            reveal_strlit("/tiles/");
            reveal_strlit("/");
            reveal_strlit("-");
            reveal_strlit(".png");
        }
        s
    }
}

} // verus!
