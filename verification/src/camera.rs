//! 2D camera representing where the UI window is looking at.
//!
//! Positions are held in fixed-point Mercator coordinates: one Mercator
//! unit (the whole world) is `2^32` fixed-point steps. The zoom is the
//! number of window pixels per Mercator unit.

use vstd::prelude::*;
use core::cmp::Ordering;
use vstd::arithmetic::div_mod::{lemma_fundamental_div_mod, lemma_div_is_ordered};
use crate::geom::Point;
use crate::tile_box::TileBox;
use crate::num::floor_div_i64;

verus! {

/// Maximum zoom level that is acceptable, in pixels per Mercator unit.
pub const MAX_ZOOM: u64 = 0x200_0000;

/// Fixed-point steps per Mercator unit.
pub const FP_ONE: i64 = 0x1_0000_0000;

/// Magnitude bound that the camera offset never leaves.
pub const OFFSET_LIMIT: i64 = 0x200_0000_0000_0000;

/// 2D camera representing where the UI window is looking at.
pub struct Camera {
    /// Window width, in pixels.
    pub width: u32,
    /// Window height, in pixels.
    pub height: u32,
    /// Minimal zoom that is acceptable, based on the window size.
    pub min_zoom: u32,
    /// Current zoom, measured in pixels per Mercator unit.
    pub zoom: u64,
    /// Offset of the top-left corner of the world w.r.t. the center of
    /// the window, in fixed-point Mercator coordinates.
    pub offset: Point<i64>,
}

impl Camera {
    /// Window dimensions are positive and within the maximum zoom, the
    /// zoom is clamped between the window-derived minimum and the global
    /// maximum, and the offset stays within its fixed-point range.
    pub open spec fn wf(self) -> bool {
        &&& 1 <= self.width <= MAX_ZOOM
        &&& 1 <= self.height <= MAX_ZOOM
        &&& self.min_zoom == if self.width < self.height { self.width } else { self.height }
        &&& self.min_zoom <= self.zoom <= MAX_ZOOM
        &&& -OFFSET_LIMIT <= self.offset.x <= OFFSET_LIMIT
        &&& -OFFSET_LIMIT <= self.offset.y <= OFFSET_LIMIT
    }

    /// Returns a default camera view, based on the given window size:
    /// fully zoomed out, looking at the center of the world.
    pub fn new(width: u32, height: u32) -> (r: Self)
        requires
            1 <= width <= MAX_ZOOM,
            1 <= height <= MAX_ZOOM,
        ensures
            r.wf(),
            r.width == width,
            r.height == height,
            r.zoom == r.min_zoom,
            r.offset.x == -FP_ONE / 2,
            r.offset.y == -FP_ONE / 2,
    {
        let min_zoom = if width < height { width } else { height };
        Self {
            width,
            height,
            min_zoom,
            zoom: min_zoom as u64,
            offset: Point { x: -(FP_ONE / 2), y: -(FP_ONE / 2) },
        }
    }

    /// Returns the window width, in pixels.
    pub fn width(&self) -> (r: u32)
        ensures
            r == self.width,
    {
        self.width
    }

    /// Returns the window height, in pixels.
    pub fn height(&self) -> (r: u32)
        ensures
            r == self.height,
    {
        self.height
    }

    /// Returns the zoom, in pixels per Mercator unit.
    pub fn zoom(&self) -> (r: u64)
        ensures
            r == self.zoom,
    {
        self.zoom
    }

    /// Adjusts the camera based on the given new window size, and
    /// indicates whether a further refresh is required.
    pub fn resize(
        &mut self,
        width: u32,
        height: u32,
        need_zoom_refresh: &mut bool,
        need_offset_refresh: &mut bool,
    )
        requires
            old(self).wf(),
            1 <= width <= MAX_ZOOM,
            1 <= height <= MAX_ZOOM,
        ensures
            final(self).wf(),
            final(self).width == width,
            final(self).height == height,
            final(self).offset == old(self).offset,
            old(self).zoom < final(self).min_zoom ==> final(self).zoom == final(self).min_zoom
                && *final(need_zoom_refresh) == true
                && *final(need_offset_refresh) == *old(need_offset_refresh),
            old(self).zoom >= final(self).min_zoom ==> final(self).zoom == old(self).zoom
                && *final(need_offset_refresh) == true
                && *final(need_zoom_refresh) == *old(need_zoom_refresh),
    {
        self.width = width;
        self.height = height;
        self.min_zoom = if width < height { width } else { height };
        if self.zoom < self.min_zoom as u64 {
            self.zoom = self.min_zoom as u64;
            *need_zoom_refresh = true;
        } else {
            *need_offset_refresh = true;
        }
    }

    /// Adjusts the zoom to the given candidate (the previous zoom already
    /// multiplied by the scroll factor), clamping it to the acceptable
    /// range. When the candidate falls below the minimum, the scroll
    /// direction is neutralized.
    pub fn scroll(&mut self, zoomed: u64, need_zoom_refresh: &mut bool, z_dir: &mut Ordering)
        requires
            old(self).wf(),
        ensures
            final(self).wf(),
            final(self).width == old(self).width,
            final(self).height == old(self).height,
            final(self).min_zoom == old(self).min_zoom,
            final(self).offset == old(self).offset,
            final(self).zoom == if zoomed < old(self).min_zoom {
                old(self).min_zoom as u64
            } else if zoomed > MAX_ZOOM {
                MAX_ZOOM as u64
            } else {
                zoomed
            },
            *final(z_dir) == if zoomed < old(self).min_zoom {
                Ordering::Equal
            } else {
                *old(z_dir)
            },
            *final(need_zoom_refresh) == true,
    {
        if zoomed < self.min_zoom as u64 {
            self.zoom = self.min_zoom as u64;
            *z_dir = Ordering::Equal;
        } else if zoomed > MAX_ZOOM {
            self.zoom = MAX_ZOOM;
        } else {
            self.zoom = zoomed;
        }
        *need_zoom_refresh = true;
    }

    /// Adjusts the offset based on the given mouse drag in pixels,
    /// indicating whether a further refresh is required, and in which
    /// direction along the X and Y axes this movement was.
    pub fn drag_relative(
        &mut self,
        dx: i64,
        dy: i64,
        need_offset_refresh: &mut bool,
        x_dir: &mut Ordering,
        y_dir: &mut Ordering,
    )
        requires
            old(self).wf(),
            -0x10_0000 <= dx <= 0x10_0000,
            -0x10_0000 <= dy <= 0x10_0000,
        ensures
            final(self).wf(),
            final(self).width == old(self).width,
            final(self).height == old(self).height,
            final(self).min_zoom == old(self).min_zoom,
            final(self).zoom == old(self).zoom,
            final(self).offset.x == clamp_offset(
                old(self).offset.x + (dx * FP_ONE) / (old(self).zoom as int),
            ),
            final(self).offset.y == clamp_offset(
                old(self).offset.y + (dy * FP_ONE) / (old(self).zoom as int),
            ),
            *final(x_dir) == sign_of(dx),
            *final(y_dir) == sign_of(dy),
            *final(need_offset_refresh) == true,
    {
        *x_dir = if dx > 0 {
            Ordering::Greater
        } else if dx < 0 {
            Ordering::Less
        } else {
            Ordering::Equal
        };
        *y_dir = if dy > 0 {
            Ordering::Greater
        } else if dy < 0 {
            Ordering::Less
        } else {
            Ordering::Equal
        };
        let sx = floor_div_i64(dx * FP_ONE, self.zoom as i64);
        let sy = floor_div_i64(dy * FP_ONE, self.zoom as i64);
        self.offset.x = clamp_offset_exec(self.offset.x + sx);
        self.offset.y = clamp_offset_exec(self.offset.y + sy);
        *need_offset_refresh = true;
    }

    /// The offset of the window top-left corner of the world at which the
    /// world's top-left corner would sit at the window's top-left: in
    /// fixed-point, `-(w << 32) / (2 zoom)` on each axis.
    pub open spec fn spec_offset00(self, extent: u32) -> int {
        (-(extent * FP_ONE)) / (2 * self.zoom as int)
    }

    /// The offset at which the world's bottom-right corner would sit at
    /// the window's bottom-right: `(w << 32) / (2 zoom) - 1` world units.
    pub open spec fn spec_offset11(self, extent: u32) -> int {
        (extent * FP_ONE) / (2 * self.zoom as int) - FP_ONE
    }

    /// The clamped offset along the X axis: the map border may come as far
    /// inward as the middle of the window.
    pub open spec fn spec_clamp_x(self, v: int) -> int {
        let lo = min_int(self.spec_offset00(self.width), -FP_ONE as int);
        let hi = max_int(self.spec_offset11(self.width), 0);
        min_int(max_int(v, lo), hi)
    }

    /// The clamped offset along the Y axis: the world's top and bottom are
    /// kept inside the window when zoomed out, outside when zoomed in.
    pub open spec fn spec_clamp_y(self, v: int) -> int {
        let a = self.spec_offset00(self.height);
        let b = self.spec_offset11(self.height);
        min_int(max_int(v, min_int(a, b)), max_int(a, b))
    }

    /// The position of the window center in world pixels, for the given
    /// clamped offset.
    pub open spec fn spec_center(offset: int, zoom: u64) -> int {
        (-offset * zoom) / (FP_ONE as int)
    }

    /// Adjusts the camera position based on the constraints (the world
    /// shouldn't drift wholly out of the window), and returns the visible
    /// tile box.
    pub fn refresh(&mut self, max_pixels_per_tile: u64, max_tile_level: u32) -> (r: TileBox)
        requires
            old(self).wf(),
            1 <= max_pixels_per_tile,
            max_tile_level <= 30,
            max_pixels_per_tile * vstd::arithmetic::power2::pow2(max_tile_level as nat)
                <= u64::MAX,
        ensures
            final(self).wf(),
            final(self).width == old(self).width,
            final(self).height == old(self).height,
            final(self).min_zoom == old(self).min_zoom,
            final(self).zoom == old(self).zoom,
            final(self).offset.x == old(self).spec_clamp_x(old(self).offset.x as int),
            final(self).offset.y == old(self).spec_clamp_y(old(self).offset.y as int),
            r == TileBox::spec_viewport(
                old(self).width,
                old(self).height,
                old(self).zoom,
                Point {
                    x: Self::spec_center(final(self).offset.x as int, old(self).zoom) as i64,
                    y: Self::spec_center(final(self).offset.y as int, old(self).zoom) as i64,
                },
                max_pixels_per_tile,
                max_tile_level,
            ),
            r.wf(),
            r.z <= max_tile_level,
    {
        let z2 = 2 * self.zoom as i64;
        let w_fp = (self.width as i64) * FP_ONE;
        let h_fp = (self.height as i64) * FP_ONE;
        let offset00_x = floor_div_i64(-w_fp, z2);
        let offset00_y = floor_div_i64(-h_fp, z2);
        let offset11_x = floor_div_i64(w_fp, z2) - FP_ONE;
        let offset11_y = floor_div_i64(h_fp, z2) - FP_ONE;

        // X axis: allow the map border to reach the middle of the window.
        let lo_x = if offset00_x < -FP_ONE { offset00_x } else { -FP_ONE };
        let hi_x = if offset11_x > 0 { offset11_x } else { 0 };
        if self.offset.x < lo_x {
            self.offset.x = lo_x;
        }
        if self.offset.x > hi_x {
            self.offset.x = hi_x;
        }
        // Y axis: clamp to the window.
        let lo_y = if offset00_y < offset11_y { offset00_y } else { offset11_y };
        let hi_y = if offset00_y > offset11_y { offset00_y } else { offset11_y };
        if self.offset.y < lo_y {
            self.offset.y = lo_y;
        }
        if self.offset.y > hi_y {
            self.offset.y = hi_y;
        }

        let cx = Self::center_px(self.offset.x, self.zoom);
        let cy = Self::center_px(self.offset.y, self.zoom);
        proof {
            Self::lemma_center_range(self.offset.x as int, self.zoom, old(self).width);
            Self::lemma_center_range(self.offset.y as int, self.zoom, old(self).height);
        }
        TileBox::new(
            self.width,
            self.height,
            self.zoom,
            Point { x: cx, y: cy },
            max_pixels_per_tile,
            max_tile_level,
        )
    }

    /// A clamped offset keeps the window center within the world pixel
    /// range that the viewport box accepts: the clamp bounds, multiplied
    /// back by the zoom, stay near the window size.
    proof fn lemma_center_range(offset: int, zoom: u64, extent: u32)
        requires
            1 <= zoom <= MAX_ZOOM,
            1 <= extent <= MAX_ZOOM,
            min_int((-(extent * FP_ONE)) / (2 * zoom as int), -FP_ONE as int) <= offset,
            offset <= max_int((extent * FP_ONE) / (2 * zoom as int) - FP_ONE, 0),
        ensures
            -0x8000_0000 <= Self::spec_center(offset, zoom) <= 0x8000_0000,
    {
        let z = zoom as int;
        let big = (extent * FP_ONE) as int;
        let q = big / (2 * z);
        // Floor division bounds: the negative quotient is at least -q - 1.
        assert((-big) / (2 * z) >= -q - 1 && 0 <= q) by {
            lemma_fundamental_div_mod(big, 2 * z);
            lemma_fundamental_div_mod(-big, 2 * z);
            assert((2 * z) * (big / (2 * z)) + big % (2 * z)
                + ((2 * z) * ((-big) / (2 * z)) + (-big) % (2 * z)) == 0);
            assert((2 * z) * (q + (-big) / (2 * z))
                == -(big % (2 * z)) - ((-big) % (2 * z))) by (nonlinear_arith)
                requires
                    (2 * z) * q + big % (2 * z) + ((2 * z) * ((-big) / (2 * z))
                        + (-big) % (2 * z)) == 0;
            assert((2 * z) * (q + (-big) / (2 * z)) > -(2 * (2 * z)));
            assert(q + (-big) / (2 * z) >= -1) by (nonlinear_arith)
                requires
                    (2 * z) * (q + (-big) / (2 * z)) > -(2 * (2 * z)),
                    2 * z >= 2;
            lemma_div_is_ordered(0, big, 2 * z);
        }
        // Multiplying a quotient back by its divisor recovers at most the
        // dividend.
        assert(q * z <= big / 2) by {
            lemma_fundamental_div_mod(big, 2 * z);
            assert(q * (2 * z) <= big) by (nonlinear_arith)
                requires big == (2 * z) * q + big % (2 * z), big % (2 * z) >= 0;
            assert(q * z * 2 == q * (2 * z)) by (nonlinear_arith);
            lemma_div_is_ordered(q * z * 2, big, 2);
            assert(q * z * 2 / 2 == q * z);
        }
        assert(big <= 0x200_0000_0000_0000_0000);
        let m = -offset;
        assert(m <= q + 1 + FP_ONE);
        assert(m >= -q);
        assert(-offset * zoom <= (q + 1 + FP_ONE) * z) by (nonlinear_arith)
            requires -offset <= q + 1 + FP_ONE, z >= 1, -offset * zoom == (-offset) * z;
        assert((q + 1 + FP_ONE) * z == q * z + z + FP_ONE * z) by (nonlinear_arith);
        assert(FP_ONE * z <= 0x2_0000_0000_0000_0000) by (nonlinear_arith)
            requires z <= 0x200_0000;
        assert(-offset * zoom >= (-q) * z) by (nonlinear_arith)
            requires -offset >= -q, z >= 1, -offset * zoom == (-offset) * z;
        assert((-q) * z == -(q * z)) by (nonlinear_arith);
        // So the scaled center stays within a handful of world widths.
        assert(-offset * zoom <= 0x4_0000_0000_0000_0000);
        assert(-offset * zoom >= -0x4_0000_0000_0000_0000);
        assert(Self::spec_center(offset, zoom) <= 0x8000_0000) by {
            lemma_div_is_ordered(-offset * zoom, 0x4_0000_0000_0000_0000, FP_ONE as int);
        }
        assert(Self::spec_center(offset, zoom) >= -0x8000_0000) by {
            lemma_div_is_ordered(-0x4_0000_0000_0000_0000, -offset * zoom, FP_ONE as int);
        }
    }

    /// Computes the window center position in world pixels from a clamped
    /// fixed-point offset.
    fn center_px(offset: i64, zoom: u64) -> (r: i64)
        requires
            1 <= zoom <= MAX_ZOOM,
            -OFFSET_LIMIT <= offset <= OFFSET_LIMIT,
        ensures
            r == Self::spec_center(offset as int, zoom),
            -0x8_0000_0000_0000 <= r <= 0x8_0000_0000_0000,
    {
        proof {
            assert(-(0x40000_0000_0000_0000_0000)
                <= -(offset as int) * (zoom as int)
                <= 0x40000_0000_0000_0000_0000) by (nonlinear_arith)
                requires -OFFSET_LIMIT <= offset <= OFFSET_LIMIT, 0 < zoom <= MAX_ZOOM;
        }
        let p: i128 = -(offset as i128) * (zoom as i128);
        let m: u128 = FP_ONE as u128;
        if p >= 0 {
            let q = (p as u128) / m;
            proof {
                lemma_div_is_ordered(0, p as int, FP_ONE as int);
                lemma_div_is_ordered(p as int, 0x40000_0000_0000_0000_0000,
                    FP_ONE as int);
            }
            q as i64
        } else {
            let mag = (-p) as u128;
            let q = mag / m;
            let rem = mag % m;
            proof {
                lemma_fundamental_div_mod(mag as int, m as int);
                let qq = mag as int / m as int;
                let rr = mag as int % m as int;
                if rr != 0 {
                    vstd::arithmetic::div_mod::lemma_fundamental_div_mod_converse(
                        -(mag as int), m as int, -qq - 1, m as int - rr);
                } else {
                    assert(-(mag as int) == (-qq) * (m as int) + 0) by (nonlinear_arith)
                        requires mag as int == (m as int) * qq + rr, rr == 0;
                    vstd::arithmetic::div_mod::lemma_fundamental_div_mod_converse(
                        -(mag as int), m as int, -qq, 0);
                }
            }
            proof {
                lemma_div_is_ordered(0, mag as int, FP_ONE as int);
                lemma_div_is_ordered(mag as int, 0x40000_0000_0000_0000_0000,
                    FP_ONE as int);
            }
            if rem != 0 {
                -(q as i64) - 1
            } else {
                -(q as i64)
            }
        }
    }

    /// Returns the window size.
    pub fn iwsize(&self) -> (r: Point<i32>)
        requires
            self.wf(),
        ensures
            r.x == self.width,
            r.y == self.height,
    {
        Point { x: self.width as i32, y: self.height as i32 }
    }

    /// Returns the offset of the top-left corner of the world w.r.t. the
    /// top-left corner of the window, measured in pixels.
    pub fn ioffset(&self) -> (r: Point<i64>)
        requires
            self.wf(),
        ensures
            r.x == (self.offset.x * self.zoom) / (FP_ONE as int) + self.width / 2,
            r.y == (self.offset.y * self.zoom) / (FP_ONE as int) + self.height / 2,
    {
        let px = Self::scaled_px(self.offset.x, self.zoom);
        let py = Self::scaled_px(self.offset.y, self.zoom);
        Point { x: px + (self.width / 2) as i64, y: py + (self.height / 2) as i64 }
    }

    /// Computes `offset * zoom / 2^32` rounded towards negative infinity.
    fn scaled_px(offset: i64, zoom: u64) -> (r: i64)
        requires
            1 <= zoom <= MAX_ZOOM,
            -OFFSET_LIMIT <= offset <= OFFSET_LIMIT,
        ensures
            r == (offset * zoom) / (FP_ONE as int),
            -0x8_0000_0000_0000 <= r <= 0x8_0000_0000_0000,
    {
        let r = Self::center_px(-offset, zoom);
        proof {
            assert(-(-offset as int) * (zoom as int) == (offset as int) * (zoom as int))
                by (nonlinear_arith);
        }
        r
    }
}

/// The smaller of two integers.
pub open spec fn min_int(a: int, b: int) -> int {
    if a < b { a } else { b }
}

/// The larger of two integers.
pub open spec fn max_int(a: int, b: int) -> int {
    if a > b { a } else { b }
}

/// The sign of a pixel delta, as an ordering against zero.
pub open spec fn sign_of(d: i64) -> Ordering {
    if d > 0 {
        Ordering::Greater
    } else if d < 0 {
        Ordering::Less
    } else {
        Ordering::Equal
    }
}

/// The camera offset saturated to its fixed-point range.
pub open spec fn clamp_offset(v: int) -> int {
    if v < -OFFSET_LIMIT {
        -OFFSET_LIMIT as int
    } else if v > OFFSET_LIMIT {
        OFFSET_LIMIT as int
    } else {
        v
    }
}

/// Saturates a fixed-point offset to the camera's range.
fn clamp_offset_exec(v: i64) -> (r: i64)
    ensures
        r == clamp_offset(v as int),
{
    if v < -OFFSET_LIMIT {
        -OFFSET_LIMIT
    } else if v > OFFSET_LIMIT {
        OFFSET_LIMIT
    } else {
        v
    }
}

} // verus!
