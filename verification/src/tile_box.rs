//! A rectangular set of tiles at a given zoom level, and its algebra:
//! containment, ancestry, neighborhood, halos and the viewport box.

use vstd::prelude::*;
use vstd::arithmetic::power2::{
    pow2, lemma_pow2_unfold, lemma_pow2_adds, lemma_pow2_pos, lemma_pow2_strictly_increases,
    lemma2_to64,
};
use vstd::arithmetic::div_mod::{
    lemma_div_is_ordered, lemma_fundamental_div_mod, lemma_fundamental_div_mod_converse,
    lemma_div_denominator, lemma_small_div_converse, lemma_basic_div_specific_divisor,
    lemma_hoist_over_denominator,
};
use vstd::arithmetic::mul::lemma_mul_inequality;
use vstd::bits::{lemma_u32_shr_is_div, lemma_u64_shl_is_mul, lemma_u64_pow2_no_overflow};
use crate::geom::{Point, TileIndex};

verus! {

/// A contiguous rectangle of tiles at a single zoom level.
#[derive(Clone, Copy, Debug, PartialEq, Eq, Structural)]
pub struct TileBox {
    /// Zoom level.
    pub z: u32,
    /// Inclusive minimum of the box.
    pub min: Point<u32>,
    /// Exclusive maximum of the box.
    pub max: Point<u32>,
}

impl TileBox {
    /// A box is valid when min and max are properly ordered and the whole
    /// rectangle lies within the `2^z` by `2^z` grid of its zoom level.
    pub open spec fn wf(self) -> bool {
        &&& self.z <= 31
        &&& self.min.x < self.max.x
        &&& self.min.y < self.max.y
        &&& self.max.x <= pow2(self.z as nat)
        &&& self.max.y <= pow2(self.z as nat)
    }

    /// Number of tiles in the box.
    pub open spec fn spec_len(self) -> nat
        recommends self.wf(),
    {
        ((self.max.x - self.min.x) * (self.max.y - self.min.y)) as nat
    }

    /// Whether `index` is one of the box's tiles.
    pub open spec fn contains_spec(self, index: TileIndex) -> bool {
        &&& self.z == index.z
        &&& self.min.x <= index.x < self.max.x
        &&& self.min.y <= index.y < self.max.y
    }

    /// Whether `index` is at the box's level and inside the box grown by a
    /// one-tile halo in every direction.
    pub open spec fn is_neighbor_spec(self, index: TileIndex) -> bool {
        &&& self.z == index.z
        &&& self.min.x <= index.x + 1
        &&& index.x < self.max.x + 1
        &&& self.min.y <= index.y + 1
        &&& index.y < self.max.y + 1
    }

    /// The box one level coarser that still covers this box: min is
    /// floor-halved, max is ceiling-halved.
    pub open spec fn spec_parent(self) -> TileBox
        recommends self.wf(), self.z > 0,
    {
        TileBox {
            z: (self.z - 1) as u32,
            min: Point { x: self.min.x / 2, y: self.min.y / 2 },
            max: Point { x: ((self.max.x + 1) / 2) as u32, y: ((self.max.y + 1) / 2) as u32 },
        }
    }

    /// The covering box `n` levels coarser: min floor-shifted, max
    /// ceiling-shifted.
    pub open spec fn spec_ancestor(self, n: u32) -> TileBox
        recommends self.wf(), n <= self.z,
    {
        TileBox {
            z: (self.z - n) as u32,
            min: Point {
                x: (self.min.x as nat / pow2(n as nat)) as u32,
                y: (self.min.y as nat / pow2(n as nat)) as u32,
            },
            max: Point {
                x: ((self.max.x - 1) as nat / pow2(n as nat) + 1) as u32,
                y: ((self.max.y - 1) as nat / pow2(n as nat) + 1) as u32,
            },
        }
    }

    /// `Some(shift)` when `index` sits `shift` levels above the box and the
    /// box's covering ancestor at that level contains it.
    pub open spec fn is_ancestor_spec(self, index: TileIndex) -> Option<u32> {
        if index.z < self.z && self.spec_ancestor((self.z - index.z) as u32).contains_spec(index) {
            Some((self.z - index.z) as u32)
        } else {
            None
        }
    }

    /// At a zoom level no deeper than 31, the grid size fits a `u32`.
    proof fn lemma_grid_fits_u32(self)
        requires
            self.z <= 31,
        ensures
            pow2(self.z as nat) <= 0x8000_0000,
    {
        lemma2_to64();
        if self.z < 31 {
            lemma_pow2_strictly_increases(self.z as nat, 31);
        }
    }

    /// The root tile box, containing the whole world at the lowest zoom
    /// level.
    pub fn root() -> (r: Self)
        ensures
            r == (TileBox { z: 0u32, min: Point { x: 0u32, y: 0u32 }, max: Point { x: 1u32, y: 1u32 } }),
            r.wf(),
    {
        proof { lemma_pow2_pos(0); }
        TileBox {
            z: 0,
            min: Point { x: 0, y: 0 },
            max: Point { x: 1, y: 1 },
        }
    }

    /// Checks that this tile box is valid, i.e. the min and max points are
    /// properly ordered, and within bounds of the zoom level.
    pub fn is_valid(&self) -> (r: bool)
        ensures
            r == self.wf(),
    {
        if self.z > 31 {
            return false;
        }
        let limit: u64 = 1u64 << (self.z as u64);
        proof {
            lemma_u64_pow2_no_overflow(self.z as nat);
            lemma_u64_shl_is_mul(1u64, self.z as u64);
        }
        self.min.x < self.max.x && self.min.y < self.max.y
            && (self.max.x as u64) <= limit && (self.max.y as u64) <= limit
    }

    /// Counts the number of tiles within the box.
    pub fn len(&self) -> (r: usize)
        requires
            self.wf(),
            self.spec_len() <= usize::MAX,
        ensures
            r == self.spec_len(),
    {
        (self.max.x - self.min.x) as usize * (self.max.y - self.min.y) as usize
    }

    /// Checks whether the given tile is contained in this tile box.
    pub fn contains(&self, index: &TileIndex) -> (r: bool)
        ensures
            r == self.contains_spec(*index),
    {
        self.z == index.z
            && self.min.x <= index.x
            && index.x < self.max.x
            && self.min.y <= index.y
            && index.y < self.max.y
    }

    /// Checks whether the given tile is contained in or is an immediate
    /// neighbor of this tile box.
    pub fn is_neighbor(&self, index: &TileIndex) -> (r: bool)
        ensures
            r == self.is_neighbor_spec(*index),
    {
        self.z == index.z
            && (self.min.x == 0 || self.min.x - 1 <= index.x)
            && index.x <= self.max.x
            && (self.min.y == 0 || self.min.y - 1 <= index.y)
            && index.y <= self.max.y
    }

    /// Returns the smallest tile box at the lower zoom level that fully
    /// contains this box, or [`None`] if this box is at the lowest zoom
    /// level.
    pub fn parent(&self) -> (r: Option<Self>)
        requires
            self.wf(),
        ensures
            self.z == 0 ==> r is None,
            self.z > 0 ==> r == Some(self.spec_parent()) && self.spec_parent().wf(),
    {
        if self.z == 0 {
            None
        } else {
            proof {
                lemma_pow2_unfold(self.z as nat);
                self.lemma_grid_fits_u32();
            }
            Some(TileBox {
                z: self.z - 1,
                min: Point { x: self.min.x / 2, y: self.min.y / 2 },
                max: Point { x: (self.max.x + 1) / 2, y: (self.max.y + 1) / 2 },
            })
        }
    }

    /// Returns the ancestor of this tile box `n` zoom levels up, or [`None`]
    /// if the box is at a zoom level lower than `n`.
    pub fn ancestor(&self, n: u32) -> (r: Option<Self>)
        requires
            self.wf(),
        ensures
            self.z < n ==> r is None,
            n <= self.z ==> r == Some(self.spec_ancestor(n)) && self.spec_ancestor(n).wf(),
    {
        if self.z < n {
            None
        } else {
            proof {
                lemma_u32_shr_is_div(self.min.x, n);
                lemma_u32_shr_is_div(self.min.y, n);
                lemma_u32_shr_is_div((self.max.x - 1) as u32, n);
                lemma_u32_shr_is_div((self.max.y - 1) as u32, n);
                lemma_pow2_pos(n as nat);
                self.lemma_ancestor_wf(n);
            }
            Some(TileBox {
                z: self.z - n,
                min: Point { x: self.min.x >> n, y: self.min.y >> n },
                max: Point {
                    x: ((self.max.x - 1) >> n) + 1,
                    y: ((self.max.y - 1) >> n) + 1,
                },
            })
        }
    }

    /// The covering ancestor of a valid box is itself valid.
    proof fn lemma_ancestor_wf(self, n: u32)
        requires
            self.wf(),
            n <= self.z,
        ensures
            self.spec_ancestor(n).wf(),
            self.spec_ancestor(n).max.x <= pow2((self.z - n) as nat),
            self.spec_ancestor(n).max.y <= pow2((self.z - n) as nat),
    {
        let p = pow2(n as nat);
        let q = pow2((self.z - n) as nat);
        lemma_pow2_pos(n as nat);
        lemma_pow2_pos((self.z - n) as nat);
        lemma_pow2_adds((self.z - n) as nat, n as nat);
        // max - 1 <= 2^z - 1 = (2^(z-n) - 1) * 2^n + (2^n - 1), so the
        // quotient by 2^n is at most 2^(z-n) - 1.
        assert(((q - 1) * p + (p - 1)) / (p as int) == q - 1) by {
            lemma_fundamental_div_mod_converse(
                (q - 1) * (p as int) + (p - 1), p as int, q - 1, p - 1);
        }
        assert((q - 1) * (p as int) + (p - 1) == q * p - 1) by (nonlinear_arith)
            requires p >= 1, q >= 1;
        assert((self.max.x - 1) as int / (p as int) <= q - 1) by {
            lemma_div_is_ordered((self.max.x - 1) as int, (q * p - 1) as int, p as int);
        }
        assert((self.max.y - 1) as int / (p as int) <= q - 1) by {
            lemma_div_is_ordered((self.max.y - 1) as int, (q * p - 1) as int, p as int);
        }
        assert(self.min.x as int / (p as int) <= (self.max.x - 1) as int / (p as int)) by {
            lemma_div_is_ordered(self.min.x as int, (self.max.x - 1) as int, p as int);
        }
        assert(self.min.y as int / (p as int) <= (self.max.y - 1) as int / (p as int)) by {
            lemma_div_is_ordered(self.min.y as int, (self.max.y - 1) as int, p as int);
        }
    }

    /// All the tiles of the box, column-major: x runs outermost, y
    /// innermost, both ascending.
    pub open spec fn spec_tile_indices(self) -> Seq<TileIndex>
        recommends self.wf(),
    {
        let h = (self.max.y - self.min.y) as nat;
        Seq::new(
            self.spec_len(),
            |i: int| TileIndex {
                z: self.z,
                x: (self.min.x + i / h as int) as u32,
                y: (self.min.y + i % h as int) as u32,
            },
        )
    }

    /// Returns all the tiles contained in this box, at the current zoom
    /// level.
    pub fn tile_indices(&self) -> (r: Vec<TileIndex>)
        requires
            self.wf(),
            self.spec_len() <= usize::MAX,
        ensures
            r@ == self.spec_tile_indices(),
    {
        let mut result: Vec<TileIndex> = Vec::with_capacity(self.len());
        let mut x = self.min.x;
        while x < self.max.x
            invariant
                self.wf(),
                self.spec_len() <= usize::MAX,
                self.min.x <= x <= self.max.x,
                result@.len() == (x - self.min.x) * (self.max.y - self.min.y),
                forall|j: int| 0 <= j < result@.len()
                    ==> result@[j] == self.spec_tile_indices()[j],
            decreases self.max.x - x,
        {
            let mut y = self.min.y;
            while y < self.max.y
                invariant
                    self.wf(),
                    self.spec_len() <= usize::MAX,
                    self.min.x <= x < self.max.x,
                    self.min.y <= y <= self.max.y,
                    result@.len() == (x - self.min.x) * (self.max.y - self.min.y) + (y - self.min.y),
                    forall|j: int| 0 <= j < result@.len()
                        ==> result@[j] == self.spec_tile_indices()[j],
                decreases self.max.y - y,
            {
                proof {
                    let h = (self.max.y - self.min.y) as int;
                    let j = (x - self.min.x) * h + (y - self.min.y);
                    assert((x - self.min.x) * h + h <= self.spec_len()) by (nonlinear_arith)
                        requires
                            h == self.max.y - self.min.y,
                            self.min.x <= x < self.max.x,
                            self.spec_len() == (self.max.x - self.min.x) * h;
                    lemma_fundamental_div_mod_converse(j, h, x - self.min.x, y - self.min.y);
                }
                result.push(TileIndex { z: self.z, x, y });
                y = y + 1;
            }
            proof {
                let h = (self.max.y - self.min.y) as int;
                assert((x - self.min.x) * h + h == (x + 1 - self.min.x) * h) by (nonlinear_arith);
            }
            x = x + 1;
        }
        proof {
            assert(result@ =~= self.spec_tile_indices());
        }
        result
    }

    /// The column of tiles immediately left of the box, top to bottom;
    /// empty when the box touches the left world edge.
    pub open spec fn spec_left(self) -> Seq<TileIndex>
        recommends self.wf(),
    {
        if self.min.x > 0 {
            Seq::new(
                (self.max.y - self.min.y) as nat,
                |i: int| TileIndex {
                    z: self.z,
                    x: (self.min.x - 1) as u32,
                    y: (self.min.y + i) as u32,
                },
            )
        } else {
            Seq::empty()
        }
    }

    /// The column of tiles immediately right of the box, top to bottom;
    /// empty when the box touches the right world edge.
    pub open spec fn spec_right(self) -> Seq<TileIndex>
        recommends self.wf(),
    {
        if self.max.x < pow2(self.z as nat) {
            Seq::new(
                (self.max.y - self.min.y) as nat,
                |i: int| TileIndex { z: self.z, x: self.max.x, y: (self.min.y + i) as u32 },
            )
        } else {
            Seq::empty()
        }
    }

    /// The row of tiles immediately above the box, left to right; empty
    /// when the box touches the top world edge.
    pub open spec fn spec_top(self) -> Seq<TileIndex>
        recommends self.wf(),
    {
        if self.min.y > 0 {
            Seq::new(
                (self.max.x - self.min.x) as nat,
                |i: int| TileIndex {
                    z: self.z,
                    x: (self.min.x + i) as u32,
                    y: (self.min.y - 1) as u32,
                },
            )
        } else {
            Seq::empty()
        }
    }

    /// The row of tiles immediately below the box, left to right; empty
    /// when the box touches the bottom world edge.
    pub open spec fn spec_bottom(self) -> Seq<TileIndex>
        recommends self.wf(),
    {
        if self.max.y < pow2(self.z as nat) {
            Seq::new(
                (self.max.x - self.min.x) as nat,
                |i: int| TileIndex { z: self.z, x: (self.min.x + i) as u32, y: self.max.y },
            )
        } else {
            Seq::empty()
        }
    }

    /// Returns all the tiles immediately left of this box, or an empty set
    /// if this box is at the left edge.
    pub fn left(&self) -> (r: Vec<TileIndex>)
        requires
            self.wf(),
        ensures
            r@ == self.spec_left(),
    {
        let mut result: Vec<TileIndex> = Vec::new();
        if self.min.x > 0 {
            let x = self.min.x - 1;
            let mut y = self.min.y;
            while y < self.max.y
                invariant
                    self.wf(),
                    x == self.min.x - 1,
                    self.min.y <= y <= self.max.y,
                    result@.len() == y - self.min.y,
                    forall|j: int| 0 <= j < result@.len() ==> result@[j] == self.spec_left()[j],
                decreases self.max.y - y,
            {
                result.push(TileIndex { z: self.z, x, y });
                y = y + 1;
            }
        }
        proof { assert(result@ =~= self.spec_left()); }
        result
    }

    /// Returns all the tiles immediately right of this box, or an empty set
    /// if this box is at the right edge.
    pub fn right(&self) -> (r: Vec<TileIndex>)
        requires
            self.wf(),
        ensures
            r@ == self.spec_right(),
    {
        let mut result: Vec<TileIndex> = Vec::new();
        proof {
            lemma_u32_shr_is_div(self.max.x, self.z);
            lemma_pow2_pos(self.z as nat);
            lemma_small_div_converse(self.max.x as int, pow2(self.z as nat) as int);
            lemma_basic_div_specific_divisor(pow2(self.z as nat) as int);
            assert(self.max.x >> self.z == self.max.x as nat / pow2(self.z as nat));
        }
        if self.max.x >> self.z == 0 {
            proof {
                assert(self.max.x as nat / pow2(self.z as nat) == 0);
                assert(self.max.x as int / pow2(self.z as nat) as int == 0);
                assert(self.max.x < pow2(self.z as nat));
            }
            let x = self.max.x;
            let mut y = self.min.y;
            while y < self.max.y
                invariant
                    self.wf(),
                    x == self.max.x,
                    self.max.x < pow2(self.z as nat),
                    self.min.y <= y <= self.max.y,
                    result@.len() == y - self.min.y,
                    forall|j: int| 0 <= j < result@.len() ==> result@[j] == self.spec_right()[j],
                decreases self.max.y - y,
            {
                result.push(TileIndex { z: self.z, x, y });
                y = y + 1;
            }
        }
        proof { assert(result@ =~= self.spec_right()); }
        result
    }

    /// Returns all the tiles immediately above this box, or an empty set if
    /// this box is at the top edge.
    pub fn top(&self) -> (r: Vec<TileIndex>)
        requires
            self.wf(),
        ensures
            r@ == self.spec_top(),
    {
        let mut result: Vec<TileIndex> = Vec::new();
        if self.min.y > 0 {
            let y = self.min.y - 1;
            let mut x = self.min.x;
            while x < self.max.x
                invariant
                    self.wf(),
                    y == self.min.y - 1,
                    self.min.x <= x <= self.max.x,
                    result@.len() == x - self.min.x,
                    forall|j: int| 0 <= j < result@.len() ==> result@[j] == self.spec_top()[j],
                decreases self.max.x - x,
            {
                result.push(TileIndex { z: self.z, x, y });
                x = x + 1;
            }
        }
        proof { assert(result@ =~= self.spec_top()); }
        result
    }

    /// Returns all the tiles immediately below this box, or an empty set if
    /// this box is at the bottom edge.
    pub fn bottom(&self) -> (r: Vec<TileIndex>)
        requires
            self.wf(),
        ensures
            r@ == self.spec_bottom(),
    {
        let mut result: Vec<TileIndex> = Vec::new();
        proof {
            lemma_u32_shr_is_div(self.max.y, self.z);
            lemma_pow2_pos(self.z as nat);
            lemma_small_div_converse(self.max.y as int, pow2(self.z as nat) as int);
            lemma_basic_div_specific_divisor(pow2(self.z as nat) as int);
            assert(self.max.y >> self.z == self.max.y as nat / pow2(self.z as nat));
        }
        if self.max.y >> self.z == 0 {
            proof {
                assert(self.max.y as nat / pow2(self.z as nat) == 0);
                assert(self.max.y as int / pow2(self.z as nat) as int == 0);
                assert(self.max.y < pow2(self.z as nat));
            }
            let y = self.max.y;
            let mut x = self.min.x;
            while x < self.max.x
                invariant
                    self.wf(),
                    y == self.max.y,
                    self.max.y < pow2(self.z as nat),
                    self.min.x <= x <= self.max.x,
                    result@.len() == x - self.min.x,
                    forall|j: int| 0 <= j < result@.len() ==> result@[j] == self.spec_bottom()[j],
                decreases self.max.x - x,
            {
                result.push(TileIndex { z: self.z, x, y });
                x = x + 1;
            }
        }
        proof { assert(result@ =~= self.spec_bottom()); }
        result
    }

    /// Checks whether the given tile is contained in an ancestor of this
    /// tile box.
    pub fn is_ancestor(&self, index: &TileIndex) -> (r: Option<u32>)
        requires
            self.wf(),
        ensures
            r == self.is_ancestor_spec(*index),
    {
        if index.z < self.z {
            let shift = self.z - index.z;
            let ancestor = self.ancestor(shift);
            match ancestor {
                Some(a) => {
                    if a.contains(index) {
                        return Some(shift);
                    }
                }
                None => {}
            }
        }
        None
    }

    /// The zoom level used for a viewport: the largest level not above
    /// `max_level` at which a tile still spans at most `mppt` pixels
    /// (`mppt * 2^level <= zoom`), or level 0 when even that is too deep.
    pub open spec fn spec_ideal_level(zoom: nat, mppt: nat, max_level: nat) -> nat
        decreases max_level,
    {
        if max_level == 0 {
            0
        } else if mppt * pow2(max_level) <= zoom {
            max_level
        } else {
            Self::spec_ideal_level(zoom, mppt, (max_level - 1) as nat)
        }
    }

    /// The visible tile box for a window of `width` by `height` pixels whose
    /// center sits at `ioffset` in world pixels: window corners are taken to
    /// tile coordinates at the ideal level, floored, and clipped to the
    /// grid; a clipped-empty box falls back to the root box.
    pub open spec fn spec_viewport(
        width: u32,
        height: u32,
        zoom: u64,
        ioffset: Point<i64>,
        mppt: u64,
        max_level: u32,
    ) -> TileBox {
        let l = Self::spec_ideal_level(zoom as nat, mppt as nat, max_level as nat);
        let n = pow2(l) as int;
        let xmin0 = (ioffset.x - width / 2) * n / (zoom as int);
        let ymin0 = (ioffset.y - height / 2) * n / (zoom as int);
        let xmax0 = (ioffset.x + width / 2) * n / (zoom as int) + 1;
        let ymax0 = (ioffset.y + height / 2) * n / (zoom as int) + 1;
        let xmin = if xmin0 > 0 { xmin0 } else { 0 };
        let ymin = if ymin0 > 0 { ymin0 } else { 0 };
        let xmax = if xmax0 < n { xmax0 } else { n };
        let ymax = if ymax0 < n { ymax0 } else { n };
        if xmin < xmax && ymin < ymax {
            TileBox {
                z: l as u32,
                min: Point { x: xmin as u32, y: ymin as u32 },
                max: Point { x: xmax as u32, y: ymax as u32 },
            }
        } else {
            TileBox { z: 0, min: Point { x: 0, y: 0 }, max: Point { x: 1, y: 1 } }
        }
    }

    /// Picks the ideal zoom level for a viewport.
    fn ideal_level(zoom: u64, mppt: u64, max_level: u32) -> (r: u32)
        requires
            1 <= mppt,
            max_level <= 30,
            mppt * pow2(max_level as nat) <= u64::MAX,
        ensures
            r == Self::spec_ideal_level(zoom as nat, mppt as nat, max_level as nat),
            r <= max_level,
    {
        let mut l = max_level;
        while l > 0
            invariant
                1 <= mppt,
                max_level <= 30,
                mppt * pow2(max_level as nat) <= u64::MAX,
                l <= max_level,
                Self::spec_ideal_level(zoom as nat, mppt as nat, max_level as nat)
                    == Self::spec_ideal_level(zoom as nat, mppt as nat, l as nat),
            decreases l,
        {
            proof {
                lemma_u64_pow2_no_overflow(l as nat);
                if l < max_level {
                    lemma_pow2_strictly_increases(l as nat, max_level as nat);
                }
                assert(pow2(l as nat) <= pow2(max_level as nat));
                assert(mppt * pow2(l as nat) <= mppt * pow2(max_level as nat))
                    by (nonlinear_arith)
                    requires pow2(l as nat) <= pow2(max_level as nat), mppt >= 1;
                lemma_u64_shl_is_mul(mppt, l as u64);
            }
            let p = mppt << (l as u64);
            if p <= zoom {
                return l;
            }
            l = l - 1;
        }
        0
    }

    /// Returns the smallest tile box containing the given UI window. The
    /// box's zoom level is chosen such that each tile is displayed with at
    /// most `max_pixels_per_tile` pixels per tile based on the UI's zoom,
    /// clamped to the `max_tile_level` supported by the tile provider.
    ///
    /// `ioffset` is the position of the window center, in world pixels.
    pub fn new(
        width: u32,
        height: u32,
        zoom: u64,
        ioffset: Point<i64>,
        max_pixels_per_tile: u64,
        max_tile_level: u32,
    ) -> (r: TileBox)
        requires
            1 <= zoom <= 0x200_0000,
            1 <= max_pixels_per_tile,
            max_tile_level <= 30,
            max_pixels_per_tile * pow2(max_tile_level as nat) <= u64::MAX,
            width <= 0x200_0000,
            height <= 0x200_0000,
            -0x8000_0000 <= ioffset.x <= 0x8000_0000,
            -0x8000_0000 <= ioffset.y <= 0x8000_0000,
        ensures
            r == Self::spec_viewport(
                width, height, zoom, ioffset, max_pixels_per_tile, max_tile_level),
            r.wf(),
            r.z <= max_tile_level,
    {
        let l = Self::ideal_level(zoom, max_pixels_per_tile, max_tile_level);
        let n64 = crate::num::pow2_u64(l);
        proof {
            lemma_pow2_pos(l as nat);
            if l < 30 {
                lemma_pow2_strictly_increases(l as nat, 30);
            }
            lemma2_to64();
            assert(n64 <= 0x4000_0000);
            let xlo = ioffset.x - width / 2;
            let xhi = ioffset.x + width / 2;
            let ylo = ioffset.y - height / 2;
            let yhi = ioffset.y + height / 2;
            assert(
                -0x4000_0000_0000_0000 <= xlo * (n64 as int) <= 0x4000_0000_0000_0000
                && -0x4000_0000_0000_0000 <= xhi * (n64 as int) <= 0x4000_0000_0000_0000
                && -0x4000_0000_0000_0000 <= ylo * (n64 as int) <= 0x4000_0000_0000_0000
                && -0x4000_0000_0000_0000 <= yhi * (n64 as int) <= 0x4000_0000_0000_0000
            ) by (nonlinear_arith)
                requires
                    -0x1_0000_0000 <= xlo <= 0x1_0000_0000,
                    -0x1_0000_0000 <= xhi <= 0x1_0000_0000,
                    -0x1_0000_0000 <= ylo <= 0x1_0000_0000,
                    -0x1_0000_0000 <= yhi <= 0x1_0000_0000,
                    0 < n64 <= 0x4000_0000;
        }
        let n = n64 as i64;
        let hw = (width / 2) as i64;
        let hh = (height / 2) as i64;
        let xmin0 = crate::num::floor_div_i64((ioffset.x - hw) * n, zoom as i64);
        let ymin0 = crate::num::floor_div_i64((ioffset.y - hh) * n, zoom as i64);
        let xmax0 = crate::num::floor_div_i64((ioffset.x + hw) * n, zoom as i64) + 1;
        let ymax0 = crate::num::floor_div_i64((ioffset.y + hh) * n, zoom as i64) + 1;
        let xmin = if xmin0 > 0 { xmin0 } else { 0 };
        let ymin = if ymin0 > 0 { ymin0 } else { 0 };
        let xmax = if xmax0 < n { xmax0 } else { n };
        let ymax = if ymax0 < n { ymax0 } else { n };
        if xmin < xmax && ymin < ymax {
            TileBox {
                z: l,
                min: Point { x: xmin as u32, y: ymin as u32 },
                max: Point { x: xmax as u32, y: ymax as u32 },
            }
        } else {
            TileBox::root()
        }
    }

    /// The box obtained by taking the parent `n` times.
    pub open spec fn iter_parent(self, n: nat) -> TileBox
        recommends self.wf(), n <= self.z,
        decreases n,
    {
        if n == 0 {
            self
        } else {
            self.iter_parent((n - 1) as nat).spec_parent()
        }
    }

    /// Law: the listing of a valid box has exactly `spec_len` entries, every
    /// entry is contained in the box, and every contained index is listed.
    pub proof fn lemma_tile_indices_exact(self)
        requires
            self.wf(),
        ensures
            self.spec_tile_indices().len() == self.spec_len(),
            forall|i: int| 0 <= i < self.spec_tile_indices().len()
                ==> self.contains_spec(#[trigger] self.spec_tile_indices()[i]),
            forall|idx: TileIndex| self.contains_spec(idx)
                ==> self.spec_tile_indices().contains(idx),
    {
        let w = (self.max.x - self.min.x) as int;
        let h = (self.max.y - self.min.y) as int;
        assert forall|i: int| 0 <= i < self.spec_tile_indices().len()
            implies self.contains_spec(self.spec_tile_indices()[i]) by {
            assert(i / h <= (w * h - 1) / h) by {
                lemma_div_is_ordered(i, w * h - 1, h);
            }
            assert(w * h - 1 == (w - 1) * h + (h - 1)) by (nonlinear_arith);
            assert((w * h - 1) / h == w - 1) by {
                lemma_fundamental_div_mod_converse(w * h - 1, h, w - 1, h - 1);
            }
            assert(0 <= i / h && 0 <= i % h < h) by {
                lemma_fundamental_div_mod(i, h);
            }
        }
        assert forall|idx: TileIndex| self.contains_spec(idx)
            implies self.spec_tile_indices().contains(idx) by {
            let i = (idx.x - self.min.x) * h + (idx.y - self.min.y);
            assert(0 <= (idx.x - self.min.x) * h + (idx.y - self.min.y) < w * h)
                by (nonlinear_arith)
                requires
                    0 <= idx.x - self.min.x < w,
                    0 <= idx.y - self.min.y < h;
            lemma_fundamental_div_mod_converse(i, h, idx.x - self.min.x, idx.y - self.min.y);
            assert(self.spec_tile_indices()[i] == idx);
        }
    }

    /// Law: taking the ancestor zero levels up leaves the box unchanged.
    pub proof fn lemma_ancestor_zero(self)
        requires
            self.wf(),
        ensures
            self.spec_ancestor(0) == self,
    {
        lemma2_to64();
        assert(self.min.x as int / 1 == self.min.x);
        assert(self.min.y as int / 1 == self.min.y);
        assert((self.max.x - 1) as int / 1 == self.max.x - 1);
        assert((self.max.y - 1) as int / 1 == self.max.y - 1);
    }

    /// Law: for `n` up to the box's level, the ancestor is valid and holds
    /// no more tiles than the box itself.
    pub proof fn lemma_ancestor_wf_len(self, n: u32)
        requires
            self.wf(),
            n <= self.z,
        ensures
            self.spec_ancestor(n).wf(),
            self.spec_ancestor(n).spec_len() <= self.spec_len(),
    {
        self.lemma_ancestor_wf(n);
        let p = pow2(n as nat) as int;
        lemma_pow2_pos(n as nat);
        let a = self.spec_ancestor(n);
        // Division is contractive: a/p - b/p <= a - b for p >= 1.
        assert((self.max.x - 1) as int / p <= self.min.x as int / p + (self.max.x - 1 - self.min.x))
            by {
            let delta = self.max.x - 1 - self.min.x;
            assert(delta <= delta * p) by (nonlinear_arith) requires p >= 1, delta >= 0;
            lemma_div_is_ordered((self.max.x - 1) as int, self.min.x + delta * p, p);
            lemma_hoist_over_denominator(self.min.x as int, delta, p as nat);
        }
        assert((self.max.y - 1) as int / p <= self.min.y as int / p + (self.max.y - 1 - self.min.y))
            by {
            let delta = self.max.y - 1 - self.min.y;
            assert(delta <= delta * p) by (nonlinear_arith) requires p >= 1, delta >= 0;
            lemma_div_is_ordered((self.max.y - 1) as int, self.min.y + delta * p, p);
            lemma_hoist_over_denominator(self.min.y as int, delta, p as nat);
        }
        lemma_mul_inequality(
            a.max.x - a.min.x,
            self.max.x - self.min.x,
            a.max.y - a.min.y,
        );
        lemma_mul_inequality(
            a.max.y - a.min.y,
            self.max.y - self.min.y,
            self.max.x - self.min.x,
        );
    }

    /// The parent of the `n`-level ancestor is the `n + 1`-level ancestor.
    proof fn lemma_ancestor_parent_step(self, n: u32)
        requires
            self.wf(),
            n < self.z,
        ensures
            self.spec_ancestor(n).spec_parent() == self.spec_ancestor((n + 1) as u32),
    {
        self.lemma_ancestor_wf(n);
        let p = pow2(n as nat) as int;
        lemma_pow2_pos(n as nat);
        lemma_pow2_unfold((n + 1) as nat);
        assert(pow2((n + 1) as nat) == 2 * pow2(n as nat));
        assert(self.min.x as int / p / 2 == self.min.x as int / (p * 2)) by {
            lemma_div_denominator(self.min.x as int, p, 2);
        }
        assert(self.min.y as int / p / 2 == self.min.y as int / (p * 2)) by {
            lemma_div_denominator(self.min.y as int, p, 2);
        }
        // Ceiling composes: ((a/p + 1) + 1)/2 == a/(2p) + 1.
        assert(((self.max.x - 1) as int / p + 2) / 2 == (self.max.x - 1) as int / (p * 2) + 1) by {
            lemma_hoist_over_denominator((self.max.x - 1) as int / p, 1, 2);
            lemma_div_denominator((self.max.x - 1) as int, p, 2);
        }
        assert(((self.max.y - 1) as int / p + 2) / 2 == (self.max.y - 1) as int / (p * 2) + 1) by {
            lemma_hoist_over_denominator((self.max.y - 1) as int / p, 1, 2);
            lemma_div_denominator((self.max.y - 1) as int, p, 2);
        }
        assert(p * 2 == 2 * p);
    }

    /// The parent is the ancestor one level up.
    pub proof fn lemma_parent_is_ancestor_one(self)
        requires
            self.wf(),
            self.z > 0,
        ensures
            self.spec_parent() == self.spec_ancestor(1),
    {
        self.lemma_ancestor_zero();
        self.lemma_ancestor_parent_step(0);
    }

    /// Law: applying `parent` `n` times equals taking the ancestor `n`
    /// levels up.
    pub proof fn lemma_iter_parent_is_ancestor(self, n: u32)
        requires
            self.wf(),
            n <= self.z,
        ensures
            self.iter_parent(n as nat) == self.spec_ancestor(n),
        decreases n,
    {
        if n == 0 {
            self.lemma_ancestor_zero();
        } else {
            self.lemma_iter_parent_is_ancestor((n - 1) as u32);
            self.lemma_ancestor_parent_step((n - 1) as u32);
        }
    }

    /// Law: an index listed by the box is never reported as sitting in an
    /// ancestor level.
    pub proof fn lemma_contained_not_ancestor(self, index: TileIndex)
        requires
            self.wf(),
            self.contains_spec(index),
        ensures
            self.is_ancestor_spec(index) is None,
    {
    }

    /// Law: every strict ancestor of an index listed by the box is reported
    /// as an ancestor of the box.
    pub proof fn lemma_strict_ancestor_is_some(self, index: TileIndex, k: u32)
        requires
            self.wf(),
            self.contains_spec(index),
            1 <= k <= index.z,
        ensures
            self.is_ancestor_spec(index.iter_tile_parent(k as nat)) is Some,
            self.is_ancestor_spec(index.iter_tile_parent(k as nat)) == Some(k),
    {
        let p = index.iter_tile_parent(k as nat);
        TileIndex::lemma_iter_tile_parent_coords(index, k as nat);
        let d = pow2(k as nat) as int;
        lemma_pow2_pos(k as nat);
        let a = self.spec_ancestor(k);
        assert(self.min.x as int / d <= index.x as int / d) by {
            lemma_div_is_ordered(self.min.x as int, index.x as int, d);
        }
        assert(index.x as int / d <= (self.max.x - 1) as int / d) by {
            lemma_div_is_ordered(index.x as int, (self.max.x - 1) as int, d);
        }
        assert(self.min.y as int / d <= index.y as int / d) by {
            lemma_div_is_ordered(self.min.y as int, index.y as int, d);
        }
        assert(index.y as int / d <= (self.max.y - 1) as int / d) by {
            lemma_div_is_ordered(index.y as int, (self.max.y - 1) as int, d);
        }
        assert(a.contains_spec(p));
    }
}

} // verus!
