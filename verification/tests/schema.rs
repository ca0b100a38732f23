//! Tests of the API records and the track decision.

use ridemap::schema::{ActivityType, DetailedActivity, PolylineMap, StravaConfig};

fn activity(polyline: Option<&str>, summary: Option<&str>) -> DetailedActivity {
    DetailedActivity {
        id: 1,
        name: String::from("morning ride"),
        moving_time: 100,
        elapsed_time: 120,
        activity_type: ActivityType::Ride,
        workout_type: None,
        description: None,
        map: PolylineMap {
            id: String::from("m1"),
            polyline: polyline.map(String::from),
            summary_polyline: summary.map(String::from),
        },
    }
}

#[test]
fn track_points_uses_detailed_polyline() {
    let a = activity(Some("_p~iF~ps|U"), Some("??"));
    let track = a.track_points().unwrap();
    assert_eq!(track.len(), 1);
    assert_eq!(track.points[0].x, 3_850_000);
}

#[test]
fn track_points_skips_summary_only() {
    // Only a summary polyline: the activity contributes nothing.
    let a = activity(None, Some("_p~iF~ps|U"));
    assert!(a.track_points().is_none());
}

#[test]
fn track_points_skips_empty_or_malformed() {
    assert!(activity(Some(""), None).track_points().is_none());
    assert!(activity(Some("_p~iF"), None).track_points().is_none());
}

#[test]
fn strava_config_validation() {
    let ok = StravaConfig {
        client_id: String::from("123456"),
        client_secret: String::from("0a1b2c3d4e5f"),
    };
    assert!(ok.validate());
    let bad_id = StravaConfig {
        client_id: String::from("12a456"),
        client_secret: String::from("0a1b2c"),
    };
    assert!(!bad_id.validate());
    let bad_secret = StravaConfig {
        client_id: String::from("123"),
        client_secret: String::from("0A1B2C"),
    };
    assert!(!bad_secret.validate());
}

#[test]
fn activity_type_from_name() {
    assert_eq!(ActivityType::from_name("Ride"), Some(ActivityType::Ride));
    assert_eq!(ActivityType::from_name("NordicSki"), Some(ActivityType::NordicSki));
    assert_eq!(ActivityType::from_name("Yoga"), Some(ActivityType::Yoga));
    assert_eq!(ActivityType::from_name("Jetpack"), None);
    assert_eq!(ActivityType::from_name(""), None);
    assert_eq!(ActivityType::from_name("ride"), None);
}
