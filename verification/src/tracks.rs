//! Track bookkeeping on the UI side: bounding boxes, zoomed polylines and
//! their visibility, and track statistics.

use vstd::prelude::*;
use crate::geom::Point;
use crate::num::floor_div_i64;
use crate::schema::ActivityType;

verus! {

/// A bounding box for a set of points, in world pixel coordinates.
#[derive(Clone, Copy, Debug, PartialEq, Eq, Structural)]
pub struct BBox {
    /// Componentwise minimum of the enclosed points.
    pub min: Point<i32>,
    /// Componentwise maximum of the enclosed points.
    pub max: Point<i32>,
}

impl BBox {
    /// Whether the box encloses the point.
    pub open spec fn encloses(self, p: Point<i32>) -> bool {
        self.min.x <= p.x <= self.max.x && self.min.y <= p.y <= self.max.y
    }

    /// Creates a new bounding box enclosing the given point.
    pub fn new(p: Point<i32>) -> (r: Self)
        ensures
            r.min == p,
            r.max == p,
            r.encloses(p),
    {
        Self { min: p, max: p }
    }

    /// Extends the bounding box to enclose the given point.
    pub fn update(&mut self, p: Point<i32>)
        ensures
            final(self).encloses(p),
            forall|q: Point<i32>| old(self).encloses(q) ==> final(self).encloses(q),
            final(self).min.x == if p.x < old(self).min.x { p.x as int } else { old(self).min.x as int },
            final(self).min.y == if p.y < old(self).min.y { p.y as int } else { old(self).min.y as int },
            final(self).max.x == if p.x > old(self).max.x { p.x as int } else { old(self).max.x as int },
            final(self).max.y == if p.y > old(self).max.y { p.y as int } else { old(self).max.y as int },
    {
        if p.x < self.min.x {
            self.min.x = p.x;
        }
        if p.y < self.min.y {
            self.min.y = p.y;
        }
        if p.x > self.max.x {
            self.max.x = p.x;
        }
        if p.y > self.max.y {
            self.max.y = p.y;
        }
    }

    /// Whether the box, shifted by `offset`, intersects the window
    /// rectangle from the origin to `wsize`.
    pub open spec fn visible_spec(self, offset: Point<i32>, wsize: Point<i32>) -> bool {
        &&& self.max.x + offset.x >= 0
        &&& self.max.y + offset.y >= 0
        &&& self.min.x + offset.x < wsize.x
        &&& self.min.y + offset.y < wsize.y
    }

    /// Checks whether the bounding box is visible based on the given pixel
    /// offset and window size.
    pub fn visible(&self, offset: Point<i32>, wsize: Point<i32>) -> (r: bool)
        requires
            -0x4000_0000 <= self.min.x <= 0x4000_0000,
            -0x4000_0000 <= self.min.y <= 0x4000_0000,
            -0x4000_0000 <= self.max.x <= 0x4000_0000,
            -0x4000_0000 <= self.max.y <= 0x4000_0000,
            -0x4000_0000 <= offset.x <= 0x4000_0000,
            -0x4000_0000 <= offset.y <= 0x4000_0000,
        ensures
            r == self.visible_spec(offset, wsize),
    {
        let minx = self.min.x as i64;
        let miny = self.min.y as i64;
        let maxx = self.max.x as i64;
        let maxy = self.max.y as i64;
        let ox = offset.x as i64;
        let oy = offset.y as i64;
        maxx + ox >= 0 && maxy + oy >= 0 && minx + ox < wsize.x as i64 && miny + oy < wsize.y as i64
    }
}


/// A point sequence with consecutive duplicates removed, keeping the
/// first of each run.
pub open spec fn spec_dedup(s: Seq<Point<i32>>) -> Seq<Point<i32>>
    decreases s.len(),
{
    if s.len() == 0 {
        Seq::empty()
    } else {
        let rest = spec_dedup(s.drop_last());
        if s.len() >= 2 && s.last() == s[s.len() - 2] {
            rest
        } else {
            rest.push(s.last())
        }
    }
}

/// The bounding box of a point sequence, grown point by point.
pub open spec fn spec_bbox(s: Seq<Point<i32>>) -> Option<BBox>
    decreases s.len(),
{
    if s.len() == 0 {
        None
    } else {
        match spec_bbox(s.drop_last()) {
            None => Some(BBox { min: s.last(), max: s.last() }),
            Some(b) => Some(BBox {
                min: Point {
                    x: if s.last().x < b.min.x { s.last().x } else { b.min.x },
                    y: if s.last().y < b.min.y { s.last().y } else { b.min.y },
                },
                max: Point {
                    x: if s.last().x > b.max.x { s.last().x } else { b.max.x },
                    y: if s.last().y > b.max.y { s.last().y } else { b.max.y },
                },
            }),
        }
    }
}

/// A point scaled from fixed-point Mercator to world pixels at the given
/// zoom.
pub open spec fn spec_scale(p: Point<i64>, zoom: u64) -> Point<i32> {
    Point {
        x: ((p.x * zoom) / 0x1_0000_0000) as i32,
        y: ((p.y * zoom) / 0x1_0000_0000) as i32,
    }
}

/// The pixel shape of a Mercator polyline at a zoom: every point scaled,
/// then consecutive duplicates dropped.
pub open spec fn spec_zoomed(s: Seq<Point<i64>>, zoom: u64) -> Seq<Point<i32>> {
    spec_dedup(Seq::new(s.len(), |i: int| spec_scale(s[i], zoom)))
}

/// Every coordinate of a bounding box is a coordinate of some point, so
/// bounded points give a bounded box.
proof fn lemma_bbox_in_range(s: Seq<Point<i32>>, bound: int)
    requires
        forall|i: int| 0 <= i < s.len()
            ==> -bound <= (#[trigger] s[i]).x <= bound && -bound <= s[i].y <= bound,
        spec_bbox(s) is Some,
    ensures
        -bound <= spec_bbox(s).unwrap().min.x <= bound,
        -bound <= spec_bbox(s).unwrap().min.y <= bound,
        -bound <= spec_bbox(s).unwrap().max.x <= bound,
        -bound <= spec_bbox(s).unwrap().max.y <= bound,
    decreases s.len(),
{
    if s.len() == 0 {
        assert(spec_bbox(s) is None);
    } else {
        assert(s.last() == s[s.len() - 1]);
        match spec_bbox(s.drop_last()) {
            None => {},
            Some(b) => {
                assert forall|i: int| 0 <= i < s.drop_last().len()
                    implies -bound <= (#[trigger] s.drop_last()[i]).x <= bound
                        && -bound <= s.drop_last()[i].y <= bound by {
                    assert(s.drop_last()[i] == s[i]);
                }
                lemma_bbox_in_range(s.drop_last(), bound);
            },
        }
    }
}

/// A polyline scaled to the current zoom level.
pub struct ZoomedPolyline {
    /// Geometric shape of this polyline, in world pixel coordinates,
    /// without consecutive duplicates.
    pub points: Vec<Point<i32>>,
    /// Bounding box of this polyline.
    pub bbox: Option<BBox>,
}

impl ZoomedPolyline {
    /// The points fit the pixel range, and the box is theirs.
    pub open spec fn wf(self) -> bool {
        &&& forall|i: int| 0 <= i < self.points@.len()
                ==> -0x800_0000 <= (#[trigger] self.points@[i]).x <= 0x800_0000
                    && -0x800_0000 <= self.points@[i].y <= 0x800_0000
        &&& self.bbox == spec_bbox(self.points@)
    }

    /// Derives a zoomed polyline from the given Mercator points and zoom.
    pub fn new(points: &Vec<Point<i64>>, zoom: u64) -> (r: Self)
        requires
            1 <= zoom <= 0x200_0000,
            forall|i: int| 0 <= i < points@.len()
                ==> -0x2_0000_0000 <= (#[trigger] points@[i]).x <= 0x2_0000_0000
                    && -0x2_0000_0000 <= points@[i].y <= 0x2_0000_0000,
        ensures
            r.points@ == spec_zoomed(points@, zoom),
            r.bbox == spec_bbox(r.points@),
            r.wf(),
    {
        let ghost scaled_spec = Seq::new(points@.len(), |i: int| spec_scale(points@[i], zoom));
        let mut scaled: Vec<Point<i32>> = Vec::new();
        let mut i: usize = 0;
        let n = points.len();
        while i < n
            invariant
                1 <= zoom <= 0x200_0000,
                forall|k: int| 0 <= k < points@.len()
                    ==> -0x2_0000_0000 <= (#[trigger] points@[k]).x <= 0x2_0000_0000
                        && -0x2_0000_0000 <= points@[k].y <= 0x2_0000_0000,
                n == points@.len(),
                i <= n,
                scaled_spec == Seq::new(points@.len(), |k: int| spec_scale(points@[k], zoom)),
                scaled@.len() == i,
                forall|k: int| 0 <= k < i ==> #[trigger] scaled@[k] == scaled_spec[k]
                    && -0x800_0000 <= scaled@[k].x <= 0x800_0000
                    && -0x800_0000 <= scaled@[k].y <= 0x800_0000,
            decreases n - i,
        {
            let p = points[i];
            let zi = zoom as i64;
            proof {
                assert(p == points@[i as int]);
                assert(-0x2_0000_0000 <= p.x <= 0x2_0000_0000);
                assert(-0x2_0000_0000 <= p.y <= 0x2_0000_0000);
                assert(-(0x400_0000_0000_0000) <= p.x * zi <= 0x400_0000_0000_0000)
                    by (nonlinear_arith)
                    requires
                        -0x2_0000_0000 <= p.x <= 0x2_0000_0000,
                        0 < zi <= 0x200_0000;
                assert(-(0x400_0000_0000_0000) <= p.y * zi <= 0x400_0000_0000_0000)
                    by (nonlinear_arith)
                    requires
                        -0x2_0000_0000 <= p.y <= 0x2_0000_0000,
                        0 < zi <= 0x200_0000;
            }
            let sx = floor_div_i64(p.x * zi, 0x1_0000_0000);
            let sy = floor_div_i64(p.y * zi, 0x1_0000_0000);
            proof {
                vstd::arithmetic::div_mod::lemma_div_is_ordered(
                    p.x * zi, 0x400_0000_0000_0000, 0x1_0000_0000);
                vstd::arithmetic::div_mod::lemma_div_is_ordered(
                    -(0x400_0000_0000_0000), p.x * zi, 0x1_0000_0000);
                vstd::arithmetic::div_mod::lemma_div_is_ordered(
                    p.y * zi, 0x400_0000_0000_0000, 0x1_0000_0000);
                vstd::arithmetic::div_mod::lemma_div_is_ordered(
                    -(0x400_0000_0000_0000), p.y * zi, 0x1_0000_0000);
                assert(p.x * zi == p.x * zoom && p.y * zi == p.y * zoom)
                    by (nonlinear_arith)
                    requires zi == zoom;
            }
            scaled.push(Point { x: sx as i32, y: sy as i32 });
            i = i + 1;
        }
        proof {
            assert(scaled@ =~= scaled_spec);
        }
        let deduped = dedup_points(&scaled);
        let bbox = bbox_of(&deduped);
        proof {
            lemma_dedup_in_range(scaled@, 0x800_0000);
        }
        ZoomedPolyline { points: deduped, bbox }
    }

    /// Checks whether the rectangle defined by the offset and window size
    /// intersects with this polyline's bounding box.
    pub fn visible(&self, offset: Point<i32>, wsize: Point<i32>) -> (r: bool)
        requires
            self.wf(),
            -0x4000_0000 <= offset.x <= 0x4000_0000,
            -0x4000_0000 <= offset.y <= 0x4000_0000,
        ensures
            r == match self.bbox {
                Some(b) => b.visible_spec(offset, wsize),
                None => false,
            },
    {
        match &self.bbox {
            Some(b) => {
                proof {
                    if self.points@.len() > 0 {
                        lemma_bbox_in_range(self.points@, 0x800_0000);
                    }
                }
                b.visible(offset, wsize)
            },
            None => false,
        }
    }
}

/// Removes consecutive duplicate points, keeping the first of each run.
fn dedup_points(points: &Vec<Point<i32>>) -> (r: Vec<Point<i32>>)
    ensures
        r@ == spec_dedup(points@),
{
    let mut out: Vec<Point<i32>> = Vec::new();
    let mut i: usize = 0;
    let n = points.len();
    while i < n
        invariant
            n == points@.len(),
            i <= n,
            out@ == spec_dedup(points@.take(i as int)),
        decreases n - i,
    {
        proof {
            assert(points@.take(i + 1).drop_last() =~= points@.take(i as int));
            assert(points@.take(i + 1).last() == points@[i as int]);
            if i > 0 {
                assert(points@.take(i + 1)[i - 1] == points@[i - 1]);
            }
        }
        let keep = if i == 0 {
            true
        } else {
            let prev = points[i - 1];
            let cur = points[i];
            !(prev.x == cur.x && prev.y == cur.y)
        };
        if keep {
            out.push(points[i]);
        }
        i = i + 1;
    }
    proof {
        assert(points@.take(n as int) =~= points@);
    }
    out
}

/// Folds the bounding box of the given points.
fn bbox_of(points: &Vec<Point<i32>>) -> (r: Option<BBox>)
    ensures
        r == spec_bbox(points@),
{
    let mut bbox: Option<BBox> = None;
    let mut i: usize = 0;
    let n = points.len();
    while i < n
        invariant
            n == points@.len(),
            i <= n,
            bbox == spec_bbox(points@.take(i as int)),
        decreases n - i,
    {
        proof {
            assert(points@.take(i + 1).drop_last() =~= points@.take(i as int));
            assert(points@.take(i + 1).last() == points@[i as int]);
        }
        let p = points[i];
        bbox = match bbox {
            None => Some(BBox::new(p)),
            Some(mut b) => {
                b.update(p);
                Some(b)
            },
        };
        i = i + 1;
    }
    proof {
        assert(points@.take(n as int) =~= points@);
    }
    bbox
}

/// Deduplication keeps only points that were already in the sequence.
proof fn lemma_dedup_in_range(s: Seq<Point<i32>>, bound: int)
    requires
        forall|i: int| 0 <= i < s.len()
            ==> -bound <= (#[trigger] s[i]).x <= bound && -bound <= s[i].y <= bound,
    ensures
        forall|i: int| 0 <= i < spec_dedup(s).len()
            ==> -bound <= (#[trigger] spec_dedup(s)[i]).x <= bound
                && -bound <= spec_dedup(s)[i].y <= bound,
    decreases s.len(),
{
    if s.len() > 0 {
        assert forall|i: int| 0 <= i < s.drop_last().len()
            implies -bound <= (#[trigger] s.drop_last()[i]).x <= bound
                && -bound <= s.drop_last()[i].y <= bound by {
            assert(s.drop_last()[i] == s[i]);
        }
        lemma_dedup_in_range(s.drop_last(), bound);
        assert(s.last() == s[s.len() - 1]);
        let rest = spec_dedup(s.drop_last());
        assert forall|i: int| 0 <= i < spec_dedup(s).len()
            implies -bound <= (#[trigger] spec_dedup(s)[i]).x <= bound
                && -bound <= spec_dedup(s)[i].y <= bound by {
            if i < rest.len() {
                assert(spec_dedup(s)[i] == rest[i]);
            } else {
                assert(spec_dedup(s)[i] == s.last());
            }
        }
    }
}

/// The window pixel position of a world pixel point, for a given window
/// offset.
pub open spec fn spec_convert(p: Point<i32>, ioffset: Point<i32>) -> Point<i32> {
    Point { x: (p.x + ioffset.x) as i32, y: (p.y + ioffset.y) as i32 }
}

/// Whether the segment between consecutive converted points can touch the
/// window: it is dropped only when both ends are on the same outside side.
pub open spec fn spec_segment_visible(p0: Point<i32>, p1: Point<i32>, iwsize: Point<i32>) -> bool {
    !((p0.x < 0 && p1.x < 0) || (p0.y < 0 && p1.y < 0)
        || (p0.x > iwsize.x && p1.x > iwsize.x) || (p0.y > iwsize.y && p1.y > iwsize.y))
}

/// The visible segments among the first `n`, each with its index and its
/// two converted endpoints.
pub open spec fn spec_segments(
    points: Seq<Point<i32>>,
    ioffset: Point<i32>,
    iwsize: Point<i32>,
    n: int,
) -> Seq<(usize, Point<i32>, Point<i32>)>
    recommends n + 1 <= points.len(),
    decreases n,
{
    if n <= 0 {
        Seq::empty()
    } else {
        let rest = spec_segments(points, ioffset, iwsize, n - 1);
        let p0 = spec_convert(points[n - 1], ioffset);
        let p1 = spec_convert(points[n], ioffset);
        if spec_segment_visible(p0, p1, iwsize) {
            rest.push(((n - 1) as usize, p0, p1))
        } else {
            rest
        }
    }
}

/// A polyline scaled to the current zoom level, with additional filtering
/// of invisible segments.
pub struct VisiblePolyline<'a> {
    /// Geometric shape of this polyline, in world pixel coordinates.
    pub points: &'a Vec<Point<i32>>,
    /// Window size.
    pub iwsize: Point<i32>,
    /// Camera offset.
    pub ioffset: Point<i32>,
}

impl<'a> VisiblePolyline<'a> {
    /// Points and offset are small enough that conversions cannot wrap.
    pub open spec fn wf(self) -> bool {
        &&& forall|i: int| 0 <= i < self.points@.len()
                ==> -0x800_0000 <= (#[trigger] self.points@[i]).x <= 0x800_0000
                    && -0x800_0000 <= self.points@[i].y <= 0x800_0000
        &&& -0x4000_0000 <= self.ioffset.x <= 0x4000_0000
        &&& -0x4000_0000 <= self.ioffset.y <= 0x4000_0000
    }

    /// Converts a point from world pixel coordinates to window pixel
    /// coordinates.
    fn convert(&self, point: &Point<i32>) -> (r: Point<i32>)
        requires
            self.wf(),
            -0x800_0000 <= point.x <= 0x800_0000,
            -0x800_0000 <= point.y <= 0x800_0000,
        ensures
            r == spec_convert(*point, self.ioffset),
    {
        Point { x: self.ioffset.x + point.x, y: self.ioffset.y + point.y }
    }

    /// Returns the first point of the polyline, if it is not empty.
    pub fn first_point(&self) -> (r: Option<Point<i32>>)
        requires
            self.wf(),
        ensures
            r == if self.points@.len() == 0 {
                Option::<Point<i32>>::None
            } else {
                Some(spec_convert(self.points@[0], self.ioffset))
            },
    {
        if self.points.len() == 0 {
            None
        } else {
            Some(self.convert(&self.points[0]))
        }
    }

    /// Returns the last point of the polyline, if it is not empty.
    pub fn last_point(&self) -> (r: Option<Point<i32>>)
        requires
            self.wf(),
        ensures
            r == if self.points@.len() == 0 {
                Option::<Point<i32>>::None
            } else {
                Some(spec_convert(self.points@[self.points@.len() - 1], self.ioffset))
            },
    {
        let n = self.points.len();
        if n == 0 {
            None
        } else {
            Some(self.convert(&self.points[n - 1]))
        }
    }

    /// Returns the number of segments in the polyline.
    pub fn segments_count(&self) -> (r: usize)
        ensures
            r == if self.points@.len() >= 2 {
                self.points@.len() - 1
            } else {
                0
            },
    {
        let points_count = self.points.len();
        if points_count >= 2 {
            points_count - 1
        } else {
            0
        }
    }

    /// Returns the visible segments of the polyline: the index of each
    /// segment whose endpoints do not both lie on the same outside side of
    /// the window, with its endpoints in window coordinates.
    pub fn segments(&self) -> (r: Vec<(usize, Point<i32>, Point<i32>)>)
        requires
            self.wf(),
        ensures
            r@ == spec_segments(
                self.points@,
                self.ioffset,
                self.iwsize,
                if self.points@.len() > 0 { self.points@.len() - 1 } else { 0 },
            ),
    {
        let mut out: Vec<(usize, Point<i32>, Point<i32>)> = Vec::new();
        let n = self.points.len();
        if n == 0 {
            return out;
        }
        let mut i: usize = 0;
        while i < n - 1
            invariant
                self.wf(),
                n == self.points@.len(),
                1 <= n,
                i <= n - 1,
                out@ == spec_segments(self.points@, self.ioffset, self.iwsize, i as int),
            decreases n - i,
        {
            let p0 = self.convert(&self.points[i]);
            let p1 = self.convert(&self.points[i + 1]);
            let drop = (p0.x < 0 && p1.x < 0) || (p0.y < 0 && p1.y < 0)
                || (p0.x > self.iwsize.x && p1.x > self.iwsize.x)
                || (p0.y > self.iwsize.y && p1.y > self.iwsize.y);
            if !drop {
                out.push((i, p0, p1));
            }
            i = i + 1;
        }
        out
    }
}

/// A polyline loaded on the UI side: its Mercator shape in fixed-point
/// coordinates, and its activity type.
pub struct TrackLine {
    /// The points, in fixed-point Mercator coordinates (`2^32` steps per
    /// unit).
    pub points: Vec<Point<i64>>,
    /// The activity type of the track.
    pub activity_type: ActivityType,
}

impl TrackLine {
    /// The points lie in (a tolerant neighborhood of) the Mercator unit
    /// square.
    pub open spec fn wf(self) -> bool {
        forall|i: int| 0 <= i < self.points@.len()
            ==> -0x2_0000_0000 <= (#[trigger] self.points@[i]).x <= 0x2_0000_0000
                && -0x2_0000_0000 <= self.points@[i].y <= 0x2_0000_0000
    }
}

/// State on the UI thread to manage GPS tracks.
pub struct TrackState {
    /// Polylines loaded on the UI thread.
    pub polylines: Vec<TrackLine>,
    /// Polylines scaled to the current zoom level, aligned with
    /// `polylines`.
    pub zoomed_polylines: Vec<ZoomedPolyline>,
    /// Whether to choose the color based on the activity type.
    pub color_by_type: bool,
}

impl TrackState {
    /// The zoomed list mirrors the loaded list, every line is in range,
    /// and every zoomed line is well-formed.
    pub open spec fn wf(self) -> bool {
        &&& self.zoomed_polylines@.len() == self.polylines@.len()
        &&& forall|i: int| 0 <= i < self.polylines@.len()
                ==> (#[trigger] self.polylines@[i]).wf()
        &&& forall|i: int| 0 <= i < self.zoomed_polylines@.len()
                ==> (#[trigger] self.zoomed_polylines@[i]).wf()
    }

    /// Creates a new empty state.
    pub fn new() -> (r: Self)
        ensures
            r.wf(),
            r.polylines@.len() == 0,
            r.zoomed_polylines@.len() == 0,
            !r.color_by_type,
    {
        Self { polylines: Vec::new(), zoomed_polylines: Vec::new(), color_by_type: false }
    }

    /// Returns the number of polylines loaded in this state.
    pub fn polylines_count(&self) -> (r: usize)
        ensures
            r == self.zoomed_polylines@.len(),
    {
        self.zoomed_polylines.len()
    }

    /// Toggles whether tracks should be displayed based on their own
    /// color or activity type.
    pub fn toggle_color_by_type(&mut self)
        ensures
            final(self).color_by_type == !old(self).color_by_type,
            final(self).polylines == old(self).polylines,
            final(self).zoomed_polylines == old(self).zoomed_polylines,
    {
        self.color_by_type = !self.color_by_type;
    }

    /// Re-generates the zoomed polylines for the given zoom.
    pub fn refresh_zoom(&mut self, zoom: u64)
        requires
            old(self).wf(),
            1 <= zoom <= 0x200_0000,
        ensures
            final(self).wf(),
            final(self).polylines == old(self).polylines,
            final(self).color_by_type == old(self).color_by_type,
            final(self).zoomed_polylines@.len() == old(self).polylines@.len(),
            forall|i: int| 0 <= i < final(self).zoomed_polylines@.len()
                ==> (#[trigger] final(self).zoomed_polylines@[i]).points@
                    == spec_zoomed(old(self).polylines@[i].points@, zoom)
                    && final(self).zoomed_polylines@[i].bbox
                        == spec_bbox(final(self).zoomed_polylines@[i].points@),
    {
        let mut zoomed: Vec<ZoomedPolyline> = Vec::new();
        let mut i: usize = 0;
        let n = self.polylines.len();
        while i < n
            invariant
                self == old(self),
                old(self).wf(),
                1 <= zoom <= 0x200_0000,
                n == self.polylines@.len(),
                i <= n,
                zoomed@.len() == i,
                forall|j: int| 0 <= j < i
                    ==> (#[trigger] zoomed@[j]).points@
                        == spec_zoomed(self.polylines@[j].points@, zoom)
                        && zoomed@[j].bbox == spec_bbox(zoomed@[j].points@)
                        && zoomed@[j].wf(),
            decreases n - i,
        {
            proof {
                assert(self.polylines@[i as int].wf());
            }
            let z = ZoomedPolyline::new(&self.polylines[i].points, zoom);
            zoomed.push(z);
            i = i + 1;
        }
        self.zoomed_polylines = zoomed;
    }

    /// Processes an activity sent by the background thread: the track is
    /// stored and its zoomed form added.
    pub fn process_activity(
        &mut self,
        activity_type: ActivityType,
        points: Vec<Point<i64>>,
        zoom: u64,
    )
        requires
            old(self).wf(),
            1 <= zoom <= 0x200_0000,
            forall|i: int| 0 <= i < points@.len()
                ==> -0x2_0000_0000 <= (#[trigger] points@[i]).x <= 0x2_0000_0000
                    && -0x2_0000_0000 <= points@[i].y <= 0x2_0000_0000,
        ensures
            final(self).wf(),
            final(self).color_by_type == old(self).color_by_type,
            final(self).polylines@.len() == old(self).polylines@.len() + 1,
            final(self).polylines@.last().points@ == points@,
            final(self).polylines@.last().activity_type == activity_type,
            forall|i: int| 0 <= i < old(self).polylines@.len()
                ==> #[trigger] final(self).polylines@[i] == old(self).polylines@[i],
            final(self).zoomed_polylines@.len() == old(self).zoomed_polylines@.len() + 1,
            final(self).zoomed_polylines@.last().points@ == spec_zoomed(points@, zoom),
            forall|i: int| 0 <= i < old(self).zoomed_polylines@.len()
                ==> #[trigger] final(self).zoomed_polylines@[i]
                    == old(self).zoomed_polylines@[i],
    {
        let z = ZoomedPolyline::new(&points, zoom);
        self.zoomed_polylines.push(z);
        self.polylines.push(TrackLine { points, activity_type });
    }

    /// Returns the visible polylines for the given camera view: those
    /// whose bounding box intersects the window.
    pub fn visible_polylines(&self, iwsize: Point<i32>, ioffset: Point<i32>) -> (r: Vec<
        VisiblePolyline<'_>,
    >)
        requires
            self.wf(),
            -0x4000_0000 <= ioffset.x <= 0x4000_0000,
            -0x4000_0000 <= ioffset.y <= 0x4000_0000,
        ensures
            forall|k: int| 0 <= k < r@.len()
                ==> (#[trigger] r@[k]).iwsize == iwsize && r@[k].ioffset == ioffset
                    && r@[k].wf()
                    && (exists|j: int| 0 <= j < self.zoomed_polylines@.len()
                        && r@[k].points@ == (#[trigger] self.zoomed_polylines@[j]).points@
                        && (self.zoomed_polylines@[j].bbox matches Some(b)
                            && b.visible_spec(ioffset, iwsize))),
            r@.len() == spec_visible_count(self.zoomed_polylines@, ioffset, iwsize,
                self.zoomed_polylines@.len() as int),
    {
        let mut out: Vec<VisiblePolyline<'_>> = Vec::new();
        let mut i: usize = 0;
        let n = self.zoomed_polylines.len();
        while i < n
            invariant
                self.wf(),
                -0x4000_0000 <= ioffset.x <= 0x4000_0000,
                -0x4000_0000 <= ioffset.y <= 0x4000_0000,
                n == self.zoomed_polylines@.len(),
                i <= n,
                out@.len() == spec_visible_count(self.zoomed_polylines@, ioffset, iwsize, i as int),
                forall|k: int| 0 <= k < out@.len()
                    ==> (#[trigger] out@[k]).iwsize == iwsize && out@[k].ioffset == ioffset
                        && out@[k].wf()
                        && (exists|j: int| 0 <= j < self.zoomed_polylines@.len()
                            && out@[k].points@ == (#[trigger] self.zoomed_polylines@[j]).points@
                            && (self.zoomed_polylines@[j].bbox matches Some(b)
                                && b.visible_spec(ioffset, iwsize))),
            decreases n - i,
        {
            proof {
                assert(self.zoomed_polylines@[i as int].wf());
            }
            if self.zoomed_polylines[i].visible(ioffset, iwsize) {
                out.push(VisiblePolyline {
                    points: &self.zoomed_polylines[i].points,
                    iwsize,
                    ioffset,
                });
            }
            i = i + 1;
        }
        out
    }

    /// Returns debugging statistics for the given camera view.
    pub fn debug_statistics(&self, iwsize: Point<i32>, ioffset: Point<i32>) -> (r: TrackStats)
        requires
            self.wf(),
            -0x4000_0000 <= ioffset.x <= 0x4000_0000,
            -0x4000_0000 <= ioffset.y <= 0x4000_0000,
            spec_total_points(self.polylines@, self.polylines@.len() as int) <= usize::MAX,
            spec_deduped_points(self.zoomed_polylines@, self.zoomed_polylines@.len() as int)
                <= usize::MAX,
        ensures
            r.total_points == spec_total_points(self.polylines@, self.polylines@.len() as int),
            r.deduped_points == spec_deduped_points(self.zoomed_polylines@,
                self.zoomed_polylines@.len() as int),
            r.visible_points == spec_visible_points(self.zoomed_polylines@, ioffset, iwsize,
                self.zoomed_polylines@.len() as int),
    {
        let mut total: usize = 0;
        let mut i: usize = 0;
        let n = self.polylines.len();
        while i < n
            invariant
                n == self.polylines@.len(),
                i <= n,
                spec_total_points(self.polylines@, n as int) <= usize::MAX,
                total == spec_total_points(self.polylines@, i as int),
            decreases n - i,
        {
            proof {
                lemma_total_points_mono(self.polylines@, i + 1, n as int);
            }
            total = total + self.polylines[i].points.len();
            i = i + 1;
        }
        let mut deduped: usize = 0;
        let mut visible: usize = 0;
        let mut j: usize = 0;
        let m = self.zoomed_polylines.len();
        while j < m
            invariant
                self.wf(),
                -0x4000_0000 <= ioffset.x <= 0x4000_0000,
                -0x4000_0000 <= ioffset.y <= 0x4000_0000,
                m == self.zoomed_polylines@.len(),
                j <= m,
                spec_deduped_points(self.zoomed_polylines@, m as int) <= usize::MAX,
                deduped == spec_deduped_points(self.zoomed_polylines@, j as int),
                visible == spec_visible_points(self.zoomed_polylines@, ioffset, iwsize, j as int),
                visible <= deduped,
            decreases m - j,
        {
            proof {
                lemma_deduped_points_mono(self.zoomed_polylines@, j + 1, m as int);
                lemma_visible_le_deduped(self.zoomed_polylines@, ioffset, iwsize, j + 1);
                assert(self.zoomed_polylines@[j as int].wf());
            }
            deduped = deduped + self.zoomed_polylines[j].points.len();
            if self.zoomed_polylines[j].visible(ioffset, iwsize) {
                visible = visible + self.zoomed_polylines[j].points.len();
            }
            j = j + 1;
        }
        TrackStats { total_points: total, deduped_points: deduped, visible_points: visible }
    }
}

/// How many of the first `n` zoomed polylines are visible.
pub open spec fn spec_visible_count(
    zs: Seq<ZoomedPolyline>,
    ioffset: Point<i32>,
    iwsize: Point<i32>,
    n: int,
) -> int
    decreases n,
{
    if n <= 0 {
        0
    } else {
        spec_visible_count(zs, ioffset, iwsize, n - 1)
            + if (zs[n - 1].bbox matches Some(b) && b.visible_spec(ioffset, iwsize)) {
                1int
            } else {
                0int
            }
    }
}

/// The points of the first `n` loaded polylines.
pub open spec fn spec_total_points(lines: Seq<TrackLine>, n: int) -> int
    decreases n,
{
    if n <= 0 {
        0
    } else {
        spec_total_points(lines, n - 1) + lines[n - 1].points@.len()
    }
}

/// The points of the first `n` zoomed polylines.
pub open spec fn spec_deduped_points(zs: Seq<ZoomedPolyline>, n: int) -> int
    decreases n,
{
    if n <= 0 {
        0
    } else {
        spec_deduped_points(zs, n - 1) + zs[n - 1].points@.len()
    }
}

/// The points of the visible ones among the first `n` zoomed polylines.
pub open spec fn spec_visible_points(
    zs: Seq<ZoomedPolyline>,
    ioffset: Point<i32>,
    iwsize: Point<i32>,
    n: int,
) -> int
    decreases n,
{
    if n <= 0 {
        0
    } else {
        spec_visible_points(zs, ioffset, iwsize, n - 1)
            + if (zs[n - 1].bbox matches Some(b) && b.visible_spec(ioffset, iwsize)) {
                zs[n - 1].points@.len() as int
            } else {
                0int
            }
    }
}

/// Point totals grow with the prefix.
proof fn lemma_total_points_mono(lines: Seq<TrackLine>, a: int, b: int)
    requires
        0 <= a <= b,
    ensures
        spec_total_points(lines, a) <= spec_total_points(lines, b),
    decreases b - a,
{
    if a < b {
        lemma_total_points_mono(lines, a, b - 1);
    }
}

/// Deduplicated point totals grow with the prefix.
proof fn lemma_deduped_points_mono(zs: Seq<ZoomedPolyline>, a: int, b: int)
    requires
        0 <= a <= b,
    ensures
        spec_deduped_points(zs, a) <= spec_deduped_points(zs, b),
    decreases b - a,
{
    if a < b {
        lemma_deduped_points_mono(zs, a, b - 1);
    }
}

/// No more points are visible than are loaded.
proof fn lemma_visible_le_deduped(
    zs: Seq<ZoomedPolyline>,
    ioffset: Point<i32>,
    iwsize: Point<i32>,
    n: int,
)
    requires
        0 <= n,
    ensures
        spec_visible_points(zs, ioffset, iwsize, n) <= spec_deduped_points(zs, n),
        0 <= spec_visible_points(zs, ioffset, iwsize, n),
        0 <= spec_deduped_points(zs, n),
    decreases n,
{
    if n > 0 {
        lemma_visible_le_deduped(zs, ioffset, iwsize, n - 1);
    }
}

/// Debugging statistics about the tracks currently displayed.
pub struct TrackStats {
    /// Total number of points loaded in all the polylines of the track
    /// state.
    pub total_points: usize,
    /// Number of unique points after zooming and de-duplication.
    pub deduped_points: usize,
    /// Number of points visible in the UI window after zooming and
    /// de-duplication.
    pub visible_points: usize,
}

} // verus!
