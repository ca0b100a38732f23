//! Tests of the geographic file models.

use ridemap::geo::{geojson_tracks, file_track_type, Feature, GeoJson, Geometry, Gpx, GpxTrackPoint};
use ridemap::geom::Point;
use ridemap::schema::ActivityType;

fn p(lat: i64, lon: i64) -> Point<i64> {
    Point { x: lat, y: lon }
}

#[test]
fn geojson_flattens_nested_collections() {
    let geo = GeoJson::FeatureCollection(vec![
        Feature { geometry: Some(Geometry::LineString(vec![p(1, 2), p(3, 4)])) },
        Feature { geometry: None },
        Feature {
            geometry: Some(Geometry::GeometryCollection(vec![
                Geometry::Point,
                Geometry::MultiLineString(vec![vec![p(5, 6)], vec![p(7, 8), p(9, 10)]]),
                Geometry::GeometryCollection(vec![Geometry::LineString(vec![p(11, 12)])]),
            ])),
        },
        Feature { geometry: Some(Geometry::Polygon) },
    ]);
    let tracks = geojson_tracks(&geo);
    assert_eq!(
        tracks,
        vec![
            vec![p(1, 2), p(3, 4)],
            vec![p(5, 6)],
            vec![p(7, 8), p(9, 10)],
            vec![p(11, 12)],
        ]
    );
}

#[test]
fn geojson_bare_geometry() {
    let geo = GeoJson::Geometry(Geometry::LineString(vec![p(1, 1)]));
    assert_eq!(geojson_tracks(&geo), vec![vec![p(1, 1)]]);
    let none = GeoJson::Geometry(Geometry::MultiPoint);
    assert!(geojson_tracks(&none).is_empty());
}

#[test]
fn gpx_track_flattens_points() {
    let gpx = Gpx {
        trkpt: vec![
            GpxTrackPoint { lat: 4_730_000, lon: 852_000 },
            GpxTrackPoint { lat: 4_730_100, lon: 852_050 },
        ],
    };
    let track = gpx.track();
    assert_eq!(track, vec![p(4_730_000, 852_000), p(4_730_100, 852_050)]);
}

#[test]
fn file_tracks_are_rides() {
    assert_eq!(file_track_type(), ActivityType::Ride);
}
