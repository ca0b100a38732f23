//! Tests of the PNG decoding step of the fetcher pipeline.

use ridemap::fetcher::decode_tile;
use ridemap::geom::TileIndex;

#[test]
fn decode_tile_roundtrip() {
    // Encode a 2 by 1 image with one red and one green pixel, then run it
    // through the tile decoding step and check the raster comes back.
    let pixels: Vec<u8> = vec![255, 0, 0, 255, 0, 255, 0, 255];
    let img = image::RgbaImage::from_raw(2, 1, pixels.clone()).unwrap();
    let mut encoded: Vec<u8> = Vec::new();
    img.write_to(&mut std::io::Cursor::new(&mut encoded), image::ImageFormat::Png)
        .unwrap();

    let index = TileIndex { z: 3, x: 1, y: 2 };
    let tile = decode_tile(index, encoded.clone()).unwrap();
    assert_eq!(tile.index, index);
    assert_eq!(tile.png_image, encoded);
    assert_eq!(tile.width, 2);
    assert_eq!(tile.height, 1);
    assert_eq!(tile.rgba_image, pixels);
}

#[test]
fn decode_tile_rejects_garbage() {
    let index = TileIndex { z: 0, x: 0, y: 0 };
    assert!(decode_tile(index, vec![1, 2, 3, 4]).is_none());
    assert!(decode_tile(index, Vec::new()).is_none());
}
