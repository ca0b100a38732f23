//! Tests of the polyline decoder.

use ridemap::polyline::Polyline;

#[test]
fn polyline_canonical_example() {
    // The canonical worked example of the encoding: three points at
    // (38.5, -120.2), (40.7, -120.95), (43.252, -126.453).
    let p = Polyline::new("_p~iF~ps|U_ulLnnqC_mqNvxq`@").unwrap();
    assert_eq!(p.len(), 3);
    assert!(!p.is_empty());
    let abs = p.absolute_points();
    assert_eq!(abs[0].x, 3_850_000);
    assert_eq!(abs[0].y, -12_020_000);
    assert_eq!(abs[1].x, 4_070_000);
    assert_eq!(abs[1].y, -12_095_000);
    assert_eq!(abs[2].x, 4_325_200);
    assert_eq!(abs[2].y, -12_645_300);
}

#[test]
fn polyline_empty() {
    let p = Polyline::new("").unwrap();
    assert_eq!(p.len(), 0);
    assert!(p.is_empty());
    assert!(p.absolute_points().is_empty());
}

#[test]
fn polyline_single_pair() {
    // `_p~iF~ps|U` encodes the single point (38.5, -120.2).
    let p = Polyline::new("_p~iF~ps|U").unwrap();
    assert_eq!(p.len(), 1);
    assert_eq!(p.points[0].x, 3_850_000);
    assert_eq!(p.points[0].y, -12_020_000);
}

#[test]
fn polyline_lone_half_pair_fails() {
    // A latitude without its longitude is a malformed tail.
    assert!(Polyline::new("_p~iF").is_none());
}

#[test]
fn polyline_bad_digit_fails() {
    // A byte below 63 cannot be a base-64 digit of the stream.
    assert!(Polyline::new("_p~iF~ps|U\u{1}\u{1}").is_none());
}

#[test]
fn polyline_truncated_value_fails() {
    // A chunk with the continuation bit set and nothing after it.
    assert!(Polyline::new("_").is_none());
}

#[test]
fn polyline_zero_deltas() {
    // `??` is the pair (0, 0).
    let p = Polyline::new("??").unwrap();
    assert_eq!(p.len(), 1);
    assert_eq!(p.points[0].x, 0);
    assert_eq!(p.points[0].y, 0);
}
