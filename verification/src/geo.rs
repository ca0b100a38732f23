//! Track extraction from geographic files, modeled on plain values:
//! coordinates are held as latitude and longitude scaled by `1e5`, the
//! same fixed scale the polyline codec uses.

use vstd::prelude::*;
use crate::geom::Point;
use crate::schema::ActivityType;

verus! {

/// A geometry of a geographic file. Coordinates are (lat, lon) scaled by
/// `1e5`; only line strings contribute tracks.
pub enum Geometry {
    /// A connected series of positions.
    LineString(Vec<Point<i64>>),
    /// Several line strings.
    MultiLineString(Vec<Vec<Point<i64>>>),
    /// A single position; contributes no track.
    Point,
    /// Several positions; contributes no track.
    MultiPoint,
    /// An area; contributes no track.
    Polygon,
    /// Several areas; contributes no track.
    MultiPolygon,
    /// A nested collection of geometries, walked recursively.
    GeometryCollection(Vec<Geometry>),
}

/// A feature wraps an optional geometry.
pub struct Feature {
    /// The feature's geometry, if any.
    pub geometry: Option<Geometry>,
}

/// A whole geographic file.
pub enum GeoJson {
    /// A collection of features.
    FeatureCollection(Vec<Feature>),
    /// A single feature.
    Feature(Feature),
    /// A bare geometry.
    Geometry(Geometry),
}

/// The line strings of a geometry, in order, walking nested collections.
pub open spec fn spec_geometry_tracks(g: Geometry) -> Seq<Seq<Point<i64>>>
    decreases g,
{
    match g {
        Geometry::LineString(l) => seq![l@],
        Geometry::MultiLineString(ls) => Seq::new(ls@.len(), |i: int| ls@[i]@),
        Geometry::GeometryCollection(gs) => spec_geometry_list_tracks(gs@),
        _ => Seq::empty(),
    }
}

/// The line strings of a list of geometries, in order.
pub open spec fn spec_geometry_list_tracks(gs: Seq<Geometry>) -> Seq<Seq<Point<i64>>>
    decreases gs,
{
    if gs.len() == 0 {
        Seq::empty()
    } else {
        spec_geometry_tracks(gs[0]) + spec_geometry_list_tracks(gs.drop_first())
    }
}

/// The line strings of a whole file: every feature's geometry is walked
/// in order.
pub open spec fn spec_geojson_tracks(geo: GeoJson) -> Seq<Seq<Point<i64>>> {
    match geo {
        GeoJson::FeatureCollection(fs) => spec_feature_list_tracks(fs@),
        GeoJson::Feature(f) => spec_feature_tracks(f),
        GeoJson::Geometry(g) => spec_geometry_tracks(g),
    }
}

/// The line strings of one feature.
pub open spec fn spec_feature_tracks(f: Feature) -> Seq<Seq<Point<i64>>> {
    match f.geometry {
        Some(g) => spec_geometry_tracks(g),
        None => Seq::empty(),
    }
}

/// The line strings of a list of features, in order.
pub open spec fn spec_feature_list_tracks(fs: Seq<Feature>) -> Seq<Seq<Point<i64>>>
    decreases fs.len(),
{
    if fs.len() == 0 {
        Seq::empty()
    } else {
        spec_feature_tracks(fs[0]) + spec_feature_list_tracks(fs.drop_first())
    }
}

/// Collects the line strings of a geometry into `out`, walking nested
/// collections in order.
fn collect_geometry(g: &Geometry, out: &mut Vec<Vec<Point<i64>>>)
    ensures
        line_views(final(out)@) == line_views(old(out)@) + spec_geometry_tracks(*g),
    decreases *g,
{
    match g {
        Geometry::LineString(l) => {
            out.push(clone_line(l));
            proof {
                assert(line_views(out@)
                    =~~= line_views(old(out)@) + spec_geometry_tracks(*g));
            }
        },
        Geometry::MultiLineString(ls) => {
            let mut i: usize = 0;
            let n = ls.len();
            proof {
                assert(line_views(out@) =~= line_views(old(out)@)
                    + spec_geometry_tracks(Geometry::MultiLineString(*ls)).take(0));
            }
            while i < n
                invariant
                    n == ls@.len(),
                    i <= n,
                    line_views(out@) == line_views(old(out)@)
                        + spec_geometry_tracks(Geometry::MultiLineString(*ls)).take(i as int),
                decreases n - i,
            {
                let v = clone_line(&ls[i]);
                let ghost prevq = out@;
                out.push(v);
                proof {
                    let aa = line_views(old(out)@);
                    let tt = spec_geometry_tracks(Geometry::MultiLineString(*ls));
                    let whole = aa + tt.take(i + 1);
                    assert(line_views(prevq) == aa + tt.take(i as int));
                    assert(line_views(prevq).len() == prevq.len());
                    assert(tt.take(i as int).len() == i);
                    assert(prevq.len() == aa.len() + i);
                    assert forall|k: int| 0 <= k < line_views(out@).len()
                        implies #[trigger] line_views(out@)[k] == whole[k] by {
                        assert(line_views(out@)[k] == out@[k]@);
                        if k < prevq.len() {
                            assert(out@[k] == prevq[k]);
                            assert(line_views(prevq)[k] == prevq[k]@);
                            assert(line_views(prevq)[k] == (aa + tt.take(i as int))[k]);
                            if k < aa.len() {
                                assert((aa + tt.take(i as int))[k] == aa[k]);
                                assert(whole[k] == aa[k]);
                            } else {
                                assert((aa + tt.take(i as int))[k] == tt.take(i as int)[k - aa.len()]);
                                assert(tt.take(i as int)[k - aa.len()] == tt[k - aa.len()]);
                                assert(whole[k] == tt.take(i + 1)[k - aa.len()]);
                                assert(tt.take(i + 1)[k - aa.len()] == tt[k - aa.len()]);
                            }
                        } else {
                            assert(k == prevq.len());
                            assert(out@[k] == v);
                            assert(whole[k] == tt.take(i + 1)[k - aa.len()]);
                            assert(tt.take(i + 1)[i as int] == tt[i as int]);
                            assert(tt[i as int] == ls@[i as int]@);
                            assert(v@ == ls@[i as int]@);
                        }
                    }
                    assert(line_views(out@) =~= whole);
                }
                i = i + 1;
            }
            proof {
                assert(spec_geometry_tracks(Geometry::MultiLineString(*ls)).take(n as int)
                    =~~= spec_geometry_tracks(*g));
                assert(line_views(out@)
                    =~~= line_views(old(out)@) + spec_geometry_tracks(*g));
            }
        },
        Geometry::GeometryCollection(gs) => {
            let mut i: usize = 0;
            let n = gs.len();
            proof {
                assert(spec_geometry_list_tracks(gs@.take(0)) =~= Seq::<Seq<Point<i64>>>::empty());
                assert(line_views(out@) =~= line_views(old(out)@)
                    + spec_geometry_list_tracks(gs@.take(0)));
            }
            while i < n
                invariant
                    *g == Geometry::GeometryCollection(*gs),
                    n == gs@.len(),
                    i <= n,
                    line_views(out@) == line_views(old(out)@)
                        + spec_geometry_list_tracks(gs@.take(i as int)),
                decreases n - i,
            {
                proof {
                    assert(*g == Geometry::GeometryCollection(*gs));
                    assert(decreases_to!(*g => g->GeometryCollection_0));
                    assert(decreases_to!(g->GeometryCollection_0 => g->GeometryCollection_0@));
                    assert(decreases_to!(g->GeometryCollection_0@
                        => g->GeometryCollection_0@[i as int]));
                    assert(decreases_to!(*g => gs@[i as int]));
                }
                collect_geometry(&gs[i], out);
                proof {
                    lemma_list_tracks_take_step(gs@, i as int);
                }
                i = i + 1;
            }
            proof {
                assert(gs@.take(n as int) =~= gs@);
                assert(line_views(out@)
                    =~~= line_views(old(out)@) + spec_geometry_tracks(*g));
            }
        },
        _ => {
            proof {
                assert(line_views(out@)
                    =~~= line_views(old(out)@) + spec_geometry_tracks(*g));
            }
        },
    }
}

/// Copies a line of points.
fn clone_line(l: &Vec<Point<i64>>) -> (r: Vec<Point<i64>>)
    ensures
        r@ == l@,
{
    let mut out: Vec<Point<i64>> = Vec::new();
    let mut i: usize = 0;
    let n = l.len();
    while i < n
        invariant
            n == l@.len(),
            i <= n,
            out@ =~= l@.take(i as int),
        decreases n - i,
    {
        out.push(l[i]);
        proof { assert(out@ =~= l@.take(i + 1)); }
        i = i + 1;
    }
    proof { assert(out@ =~= l@); }
    out
}

/// The views of a list of track vectors, for comparison against the
/// spec-level tracks.
pub open spec fn line_views(s: Seq<Vec<Point<i64>>>) -> Seq<Seq<Point<i64>>> {
    Seq::new(s.len(), |i: int| s[i]@)
}

/// One more geometry's tracks extend the flattened prefix.
proof fn lemma_list_tracks_take_step(gs: Seq<Geometry>, i: int)
    requires
        0 <= i < gs.len(),
    ensures
        spec_geometry_list_tracks(gs.take(i + 1))
            == spec_geometry_list_tracks(gs.take(i)) + spec_geometry_tracks(gs[i]),
    decreases i,
{
    if i == 0 {
        assert(gs.take(1).drop_first() =~~= gs.take(0));
        assert(gs.take(1)[0] == gs[0]);
        assert(spec_geometry_list_tracks(gs.take(0)) =~~= Seq::empty());
        assert(spec_geometry_list_tracks(gs.take(1))
            =~~= spec_geometry_tracks(gs[0]) + Seq::empty());
        assert(Seq::empty() + spec_geometry_tracks(gs[0]) =~~= spec_geometry_tracks(gs[0]));
        assert(spec_geometry_tracks(gs[0]) + Seq::<Seq<Point<i64>>>::empty()
            =~~= spec_geometry_tracks(gs[0]));
    } else {
        lemma_list_tracks_take_step(gs.drop_first(), i - 1);
        assert(gs.take(i + 1).drop_first() =~~= gs.drop_first().take(i));
        assert(gs.take(i).drop_first() =~~= gs.drop_first().take(i - 1));
        assert(gs.drop_first()[i - 1] == gs[i]);
        assert(spec_geometry_list_tracks(gs.take(i + 1))
            == spec_geometry_tracks(gs[0])
                + spec_geometry_list_tracks(gs.drop_first().take(i)));
        assert(spec_geometry_list_tracks(gs.take(i))
            == spec_geometry_tracks(gs[0])
                + spec_geometry_list_tracks(gs.drop_first().take(i - 1)));
        assert(spec_geometry_tracks(gs[0])
            + (spec_geometry_list_tracks(gs.drop_first().take(i - 1))
                + spec_geometry_tracks(gs[i]))
            =~~= (spec_geometry_tracks(gs[0])
                + spec_geometry_list_tracks(gs.drop_first().take(i - 1)))
                + spec_geometry_tracks(gs[i]));
    }
}

/// The tracks of a whole geographic file, flattened in order: line
/// strings and the members of multi-line strings, with nested geometry
/// collections walked recursively; points and polygons are ignored.
pub fn geojson_tracks(geo: &GeoJson) -> (r: Vec<Vec<Point<i64>>>)
    ensures
        line_views(r@) == spec_geojson_tracks(*geo),
{
    let mut out: Vec<Vec<Point<i64>>> = Vec::new();
    match geo {
        GeoJson::FeatureCollection(fs) => {
            let mut i: usize = 0;
            let n = fs.len();
            proof {
                assert(spec_feature_list_tracks(fs@.take(0)) =~= Seq::<Seq<Point<i64>>>::empty());
                assert(line_views(out@) =~= spec_feature_list_tracks(fs@.take(0)));
            }
            while i < n
                invariant
                    n == fs@.len(),
                    i <= n,
                    line_views(out@) == spec_feature_list_tracks(fs@.take(i as int)),
                decreases n - i,
            {
                match &fs[i].geometry {
                    Some(g) => {
                        collect_geometry(g, &mut out);
                    },
                    None => {},
                }
                proof {
                    lemma_feature_take_step(fs@, i as int);
                }
                i = i + 1;
            }
            proof {
                assert(fs@.take(n as int) =~= fs@);
                assert(line_views(out@) =~~= spec_geojson_tracks(*geo));
            }
        },
        GeoJson::Feature(f) => {
            match &f.geometry {
                Some(g) => {
                    collect_geometry(g, &mut out);
                },
                None => {},
            }
            proof {
                assert(line_views(out@) =~~= spec_geojson_tracks(*geo));
            }
        },
        GeoJson::Geometry(g) => {
            collect_geometry(g, &mut out);
            proof {
                assert(line_views(out@) =~~= spec_geojson_tracks(*geo));
            }
        },
    }
    out
}

/// One more feature's tracks extend the flattened prefix.
proof fn lemma_feature_take_step(fs: Seq<Feature>, i: int)
    requires
        0 <= i < fs.len(),
    ensures
        spec_feature_list_tracks(fs.take(i + 1))
            == spec_feature_list_tracks(fs.take(i)) + spec_feature_tracks(fs[i]),
    decreases i,
{
    if i == 0 {
        assert(fs.take(1).drop_first() =~~= fs.take(0));
        assert(fs.take(1)[0] == fs[0]);
        assert(spec_feature_list_tracks(fs.take(0)) =~~= Seq::<Seq<Point<i64>>>::empty());
        assert(spec_feature_list_tracks(fs.take(1))
            =~~= spec_feature_tracks(fs[0]) + Seq::empty());
        assert(spec_feature_tracks(fs[0]) + Seq::<Seq<Point<i64>>>::empty()
            =~~= spec_feature_tracks(fs[0]));
        assert(Seq::<Seq<Point<i64>>>::empty() + spec_feature_tracks(fs[0])
            =~~= spec_feature_tracks(fs[0]));
    } else {
        lemma_feature_take_step(fs.drop_first(), i - 1);
        assert(fs.take(i + 1).drop_first() =~~= fs.drop_first().take(i));
        assert(fs.take(i).drop_first() =~~= fs.drop_first().take(i - 1));
        assert(fs.drop_first()[i - 1] == fs[i]);
        assert(spec_feature_tracks(fs[0])
            + (spec_feature_list_tracks(fs.drop_first().take(i - 1))
                + spec_feature_tracks(fs[i]))
            =~~= (spec_feature_tracks(fs[0])
                + spec_feature_list_tracks(fs.drop_first().take(i - 1)))
                + spec_feature_tracks(fs[i]));
    }
}

/// A track point of a GPX file: latitude and longitude scaled by `1e5`.
pub struct GpxTrackPoint {
    /// Latitude, scaled.
    pub lat: i64,
    /// Longitude, scaled.
    pub lon: i64,
}

/// The single track of a GPX file: one `trk/trkseg/trkpt*` structure.
pub struct Gpx {
    /// The track points, in order.
    pub trkpt: Vec<GpxTrackPoint>,
}

impl Gpx {
    /// Flattens the GPX track to a line of scaled (lat, lon) points.
    pub fn track(&self) -> (r: Vec<Point<i64>>)
        ensures
            r@.len() == self.trkpt@.len(),
            forall|i: int| 0 <= i < r@.len()
                ==> #[trigger] r@[i] == (Point {
                    x: self.trkpt@[i].lat,
                    y: self.trkpt@[i].lon,
                }),
    {
        let mut out: Vec<Point<i64>> = Vec::new();
        let mut i: usize = 0;
        let n = self.trkpt.len();
        while i < n
            invariant
                n == self.trkpt@.len(),
                i <= n,
                out@.len() == i,
                forall|j: int| 0 <= j < i
                    ==> #[trigger] out@[j] == (Point {
                        x: self.trkpt@[j].lat,
                        y: self.trkpt@[j].lon,
                    }),
            decreases n - i,
        {
            out.push(Point { x: self.trkpt[i].lat, y: self.trkpt[i].lon });
            i = i + 1;
        }
        out
    }
}

/// The activity type every file-sourced track is labeled with.
pub fn file_track_type() -> (r: ActivityType)
    ensures
        r == ActivityType::Ride,
{
    ActivityType::Ride
}

} // verus!
