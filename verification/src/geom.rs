//! Plain geometric value types shared across the crate.

use vstd::prelude::*;
use vstd::arithmetic::power2::{pow2, lemma_pow2_pos, lemma_pow2_unfold, lemma2_to64};
use vstd::arithmetic::div_mod::lemma_div_denominator;

verus! {

/// A point, parametric in the numeric type.
#[derive(Clone, Copy, Debug, PartialEq, Eq, Structural)]
#[verifier::ext_equal]
pub struct Point<T> {
    /// X coordinate.
    pub x: T,
    /// Y coordinate.
    pub y: T,
}

/// Index of a tile in the Mercator tile pyramid.
///
/// At zoom level `z` the unit square is cut into `2^z` by `2^z` tiles;
/// `x` counts from West to East and `y` from North to South.
#[derive(Clone, Copy, Debug, Hash, PartialEq, Eq, PartialOrd, Ord, Structural)]
pub struct TileIndex {
    /// Zoom level.
    pub z: u32,
    /// Index from West to East.
    pub x: u32,
    /// Index from North to South.
    pub y: u32,
}

impl TileIndex {
    /// Whether the index lies within the bounds of its zoom level.
    pub open spec fn wf(self) -> bool {
        self.z <= 31 && self.x < (1u64 << self.z as u64) && self.y < (1u64 << self.z as u64)
    }

    /// The parent index, one zoom level coarser.
    pub open spec fn spec_parent(self) -> TileIndex
        recommends self.z > 0,
    {
        TileIndex { z: (self.z - 1) as u32, x: self.x / 2, y: self.y / 2 }
    }

    /// Lexicographic order on (z, x, y), the total order used when sorting
    /// tiles for drawing.
    pub open spec fn spec_lt(self, other: TileIndex) -> bool {
        ||| self.z < other.z
        ||| (self.z == other.z && self.x < other.x)
        ||| (self.z == other.z && self.x == other.x && self.y < other.y)
    }

    /// The index obtained by taking the parent `k` times.
    pub open spec fn iter_tile_parent(self, k: nat) -> TileIndex
        recommends k <= self.z,
        decreases k,
    {
        if k == 0 {
            self
        } else {
            self.iter_tile_parent((k - 1) as nat).spec_parent()
        }
    }

    /// The `k`-th iterated parent divides both coordinates by `2^k` and
    /// sits `k` levels up.
    pub proof fn lemma_iter_tile_parent_coords(self, k: nat)
        requires
            k <= self.z,
        ensures
            self.iter_tile_parent(k).z == self.z - k,
            self.iter_tile_parent(k).x == self.x as int / pow2(k) as int,
            self.iter_tile_parent(k).y == self.y as int / pow2(k) as int,
        decreases k,
    {
        lemma_pow2_pos(k);
        if k == 0 {
            assert(pow2(0) == 1) by { lemma2_to64(); }
        } else {
            self.lemma_iter_tile_parent_coords((k - 1) as nat);
            lemma_pow2_pos((k - 1) as nat);
            lemma_pow2_unfold(k);
            lemma_div_denominator(self.x as int, pow2((k - 1) as nat) as int, 2);
            lemma_div_denominator(self.y as int, pow2((k - 1) as nat) as int, 2);
        }
    }

    /// Returns the parent tile (one zoom level less), or `None` if this is
    /// the root tile.
    pub fn parent(&self) -> (r: Option<TileIndex>)
        ensures
            self.z == 0 ==> r is None,
            self.z > 0 ==> r == Some(self.spec_parent()),
    {
        if self.z == 0 {
            None
        } else {
            Some(TileIndex { z: self.z - 1, x: self.x / 2, y: self.y / 2 })
        }
    }

    /// Compares two indices in the lexicographic (z, x, y) order.
    pub fn lt(&self, other: &TileIndex) -> (r: bool)
        ensures
            r == self.spec_lt(*other),
    {
        self.z < other.z
            || (self.z == other.z && self.x < other.x)
            || (self.z == other.z && self.x == other.x && self.y < other.y)
    }
}

} // verus!
