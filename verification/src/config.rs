//! Configuration values the library works with.

use vstd::prelude::*;

verus! {

/// Description of a web service providing tiles.
pub struct MapProvider {
    /// Address of the HTTPS tile server, including the domain name and
    /// any sub-directories.
    pub server: String,
    /// Local sub-folder (relative to the cache root) where tiles for
    /// this provider should be cached.
    pub cache_folder: String,
    /// File extension to append to each tile request, such as `.png`.
    pub extension: String,
    /// Referer HTTP header to attach to each tile request.
    pub referer: Option<String>,
    /// User-agent HTTP header to attach to each tile request.
    pub user_agent: Option<String>,
}

} // verus!
