//! Tests of the text rendering, cache paths and tile URLs.

use ridemap::cache::Cache;
use ridemap::config::MapProvider;
use ridemap::fetcher::tile_url;
use ridemap::geom::TileIndex;
use ridemap::text::u64_string;

fn provider() -> MapProvider {
    MapProvider {
        server: String::from("tiles.example.org/styles/basic"),
        cache_folder: String::from("basic"),
        extension: String::from(".png"),
        referer: None,
        user_agent: None,
    }
}

#[test]
fn decimal_rendering() {
    assert_eq!(u64_string(0), "0");
    assert_eq!(u64_string(7), "7");
    assert_eq!(u64_string(10), "10");
    assert_eq!(u64_string(305), "305");
    assert_eq!(u64_string(18_446_744_073_709_551_615), "18446744073709551615");
}

#[test]
fn cache_paths() {
    let cache = Cache::new("/var/cache/maps", &provider());
    assert_eq!(cache.activity_path(12345), "/var/cache/maps/activities/12345.json");
    assert_eq!(
        cache.tile_path(&TileIndex { z: 7, x: 68, y: 45 }),
        "/var/cache/maps/tiles/basic/7-68-45.png"
    );
}

#[test]
fn tile_urls() {
    let url = tile_url(&provider(), &TileIndex { z: 12, x: 2134, y: 1456 });
    assert_eq!(url, "https://tiles.example.org/styles/basic/12/2134/1456.png");
}
