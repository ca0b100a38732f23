//! State on the UI thread that manages map tiles: which tiles to request,
//! which to speculate on, how arriving tiles enter the LRU cache, and
//! which cached tiles to draw for the current viewport.

use vstd::prelude::*;
use core::cmp::Ordering;
use crate::geom::{Point, TileIndex};
use crate::tile_box::TileBox;
use crate::lru::{Lru, Entry};
use crate::util::Tile;

verus! {

/// Capacity of the in-memory LRU cache of tiles.
pub const LRU_CAPACITY: usize = 200;

/// The retention priority of a cached tile for the given viewport box:
/// visible tiles are kept the longest, then the root tile, then ancestors
/// of the viewport (nearer levels first), then neighbors; all other tiles
/// go first.
pub open spec fn spec_tile_priority(tile_box: TileBox, max_tile_level: u32, idx: TileIndex) -> int
    recommends tile_box.wf(), tile_box.z <= max_tile_level,
{
    if tile_box.contains_spec(idx) {
        max_tile_level + 2
    } else if idx.z == 0 {
        max_tile_level + 1
    } else if tile_box.is_ancestor_spec(idx) is Some {
        max_tile_level + 1 - tile_box.is_ancestor_spec(idx).unwrap()
    } else if tile_box.is_neighbor_spec(idx) {
        1
    } else {
        0
    }
}

/// Computes the retention priority of a tile for the given viewport box.
pub fn tile_priority(tile_box: &TileBox, max_tile_level: u32, idx: &TileIndex) -> (r: usize)
    requires
        tile_box.wf(),
        tile_box.z <= max_tile_level,
        max_tile_level <= 30,
    ensures
        r == spec_tile_priority(*tile_box, max_tile_level, *idx),
{
    if tile_box.contains(idx) {
        max_tile_level as usize + 2
    } else if idx.z == 0 {
        max_tile_level as usize + 1
    } else {
        match tile_box.is_ancestor(idx) {
            Some(level) => (max_tile_level + 1 - level) as usize,
            None => {
                if tile_box.is_neighbor(idx) {
                    1
                } else {
                    0
                }
            },
        }
    }
}

/// The tiles of `tiles` that the cache does not hold yet, in order.
pub open spec fn spec_new_tiles<Image>(
    tiles: Seq<TileIndex>,
    cache: Lru<Tile<Image>>,
) -> Seq<TileIndex>
    decreases tiles.len(),
{
    if tiles.len() == 0 {
        Seq::empty()
    } else {
        let rest = spec_new_tiles(tiles.drop_last(), cache);
        if cache.contains_spec(tiles.last()) {
            rest
        } else {
            rest.push(tiles.last())
        }
    }
}

/// The nearest ancestor-or-self of `idx` that the cache holds.
pub open spec fn spec_resolve<Image>(cache: Lru<Tile<Image>>, idx: TileIndex) -> Option<TileIndex>
    decreases idx.z,
{
    if cache.contains_spec(idx) {
        Some(idx)
    } else if idx.z == 0 {
        None
    } else {
        spec_resolve(cache, idx.spec_parent())
    }
}

/// A resolved tile is held by the cache.
pub proof fn lemma_resolve_contained<Image>(cache: Lru<Tile<Image>>, idx: TileIndex)
    requires
        spec_resolve(cache, idx) is Some,
    ensures
        cache.contains_spec(spec_resolve(cache, idx).unwrap()),
    decreases idx.z,
{
    if !cache.contains_spec(idx) && idx.z > 0 {
        lemma_resolve_contained(cache, idx.spec_parent());
    }
}

/// Whether `d` is the resolved draw tile of some tile of the viewport
/// box: an in-box tile whose nearest cached ancestor-or-self is `d`.
pub open spec fn spec_drawable<Image>(
    cache: Lru<Tile<Image>>,
    tile_box: TileBox,
    d: TileIndex,
) -> bool {
    exists|t: TileIndex| tile_box.contains_spec(t) && spec_resolve(cache, t) == Some(d)
}

/// The tiles to speculatively request for the given movement directions:
/// the halo row or column opposite each drag direction, and the parent
/// box's tiles when the user zooms out.
pub open spec fn spec_speculate(
    tile_box: TileBox,
    x_dir: Ordering,
    y_dir: Ordering,
    z_dir: Ordering,
) -> Seq<TileIndex>
    recommends tile_box.wf(),
{
    (match x_dir {
        Ordering::Less => tile_box.spec_right(),
        Ordering::Greater => tile_box.spec_left(),
        Ordering::Equal => Seq::empty(),
    }) + (match y_dir {
        Ordering::Less => tile_box.spec_bottom(),
        Ordering::Greater => tile_box.spec_top(),
        Ordering::Equal => Seq::empty(),
    }) + (match z_dir {
        Ordering::Less => if tile_box.z > 0 {
            tile_box.spec_parent().spec_tile_indices()
        } else {
            Seq::empty()
        },
        _ => Seq::empty(),
    })
}

/// State on the UI thread to manage map tiles.
pub struct TileState<Image> {
    /// LRU cache of tiles loaded in memory and ready to use on the UI
    /// thread.
    pub tiles: Lru<Tile<Image>>,
    /// Box of tiles currently visible in the UI window.
    pub tile_box: TileBox,
    /// Whether to speculatively load tiles based on the mouse movements.
    pub speculative_tile_load: bool,
    /// Maximum number of pixels that a tile is allowed to be zoomed to.
    pub max_pixels_per_tile: u64,
    /// Maximum zoom level to load tiles at.
    pub max_tile_level: u32,
}

impl<Image> TileState<Image> {
    /// The state is valid when the cache is and the viewport box fits the
    /// maximum tile level.
    pub open spec fn wf(self) -> bool {
        &&& self.tiles.wf()
        &&& self.tile_box.wf()
        &&& self.tile_box.z <= self.max_tile_level
        &&& self.max_tile_level <= 30
    }

    /// Creates a new tile state based on the given parameters.
    ///
    /// This does not trigger any request, see [`Self::start`].
    pub fn new(speculative_tile_load: bool, max_pixels_per_tile: u64, max_tile_level: u32) -> (r:
        Self)
        requires
            max_tile_level <= 30,
        ensures
            r.wf(),
            r.tiles.entries@.len() == 0,
            r.tiles.capacity == LRU_CAPACITY,
            r.tile_box == (TileBox {
                z: 0u32,
                min: Point { x: 0u32, y: 0u32 },
                max: Point { x: 1u32, y: 1u32 },
            }),
            r.speculative_tile_load == speculative_tile_load,
            r.max_pixels_per_tile == max_pixels_per_tile,
            r.max_tile_level == max_tile_level,
    {
        Self {
            tiles: Lru::with_capacity(LRU_CAPACITY),
            tile_box: TileBox::root(),
            speculative_tile_load,
            max_pixels_per_tile,
            max_tile_level,
        }
    }

    /// Filters out tiles from the input list that are already contained in
    /// the LRU cache.
    pub fn filter_new_tiles(&self, tiles: &Vec<TileIndex>) -> (r: Vec<TileIndex>)
        ensures
            r@ == spec_new_tiles(tiles@, self.tiles),
    {
        let mut result: Vec<TileIndex> = Vec::new();
        let mut i: usize = 0;
        let n = tiles.len();
        while i < n
            invariant
                n == tiles@.len(),
                i <= n,
                result@ == spec_new_tiles(tiles@.take(i as int), self.tiles),
            decreases n - i,
        {
            proof {
                assert(tiles@.take(i + 1).drop_last() =~= tiles@.take(i as int));
                assert(tiles@.take(i + 1).last() == tiles@[i as int]);
            }
            if !self.tiles.contains_key(&tiles[i]) {
                result.push(tiles[i]);
            }
            i = i + 1;
        }
        proof {
            assert(tiles@.take(n as int) =~= tiles@);
        }
        result
    }

    /// Returns the list of tiles in the current window box that are not
    /// yet contained in the LRU cache.
    pub fn get_request_tiles(&self) -> (r: Vec<TileIndex>)
        requires
            self.wf(),
            self.tile_box.spec_len() <= usize::MAX,
        ensures
            r@ == spec_new_tiles(self.tile_box.spec_tile_indices(), self.tiles),
    {
        let indices = self.tile_box.tile_indices();
        self.filter_new_tiles(&indices)
    }

    /// Starts requesting tiles: the initial visible request list.
    pub fn start(&self) -> (r: Vec<TileIndex>)
        requires
            self.wf(),
            self.tile_box.spec_len() <= usize::MAX,
        ensures
            r@ == spec_new_tiles(self.tile_box.spec_tile_indices(), self.tiles),
    {
        self.get_request_tiles()
    }

    /// Returns the list of tiles speculated based on the given mouse
    /// direction, filtering out those already in the LRU cache.
    pub fn get_speculate_tiles(&self, x_dir: Ordering, y_dir: Ordering, z_dir: Ordering) -> (r:
        Vec<TileIndex>)
        requires
            self.wf(),
            self.tile_box.spec_len() <= 0x1000_0000,
        ensures
            r@ == spec_new_tiles(
                spec_speculate(self.tile_box, x_dir, y_dir, z_dir),
                self.tiles,
            ),
    {
        let mut all_tiles: Vec<TileIndex> = Vec::new();
        match x_dir {
            Ordering::Less => {
                let mut v = self.tile_box.right();
                all_tiles.append(&mut v);
            },
            Ordering::Greater => {
                let mut v = self.tile_box.left();
                all_tiles.append(&mut v);
            },
            Ordering::Equal => {},
        }
        match y_dir {
            Ordering::Less => {
                let mut v = self.tile_box.bottom();
                all_tiles.append(&mut v);
            },
            Ordering::Greater => {
                let mut v = self.tile_box.top();
                all_tiles.append(&mut v);
            },
            Ordering::Equal => {},
        }
        match z_dir {
            Ordering::Less => {
                match self.tile_box.parent() {
                    Some(p) => {
                        proof {
                            self.tile_box.lemma_parent_is_ancestor_one();
                            self.tile_box.lemma_ancestor_wf_len(1);
                        }
                        let mut v = p.tile_indices();
                        all_tiles.append(&mut v);
                    },
                    None => {},
                }
            },
            _ => {},
        }
        proof {
            assert(all_tiles@ =~= spec_speculate(self.tile_box, x_dir, y_dir, z_dir));
        }
        self.filter_new_tiles(&all_tiles)
    }

    /// Updates the state for a new viewport box and the latest movement
    /// directions: when the box changed, the missing visible tiles are
    /// requested; speculative tiles are added when enabled.
    pub fn update(&mut self, new_tile_box: TileBox, x_dir: Ordering, y_dir: Ordering, z_dir:
        Ordering) -> (r: (Option<Vec<TileIndex>>, Vec<TileIndex>))
        requires
            old(self).wf(),
            new_tile_box.wf(),
            new_tile_box.z <= old(self).max_tile_level,
            new_tile_box.spec_len() <= 0x1000_0000,
        ensures
            final(self).wf(),
            final(self).tile_box == new_tile_box,
            final(self).tiles == old(self).tiles,
            final(self).speculative_tile_load == old(self).speculative_tile_load,
            final(self).max_pixels_per_tile == old(self).max_pixels_per_tile,
            final(self).max_tile_level == old(self).max_tile_level,
            match r.0 {
                Some(ts) => old(self).tile_box != new_tile_box
                    && ts@ == spec_new_tiles(new_tile_box.spec_tile_indices(), old(self).tiles),
                None => old(self).tile_box == new_tile_box,
            },
            r.1@ == if old(self).speculative_tile_load {
                spec_new_tiles(
                    spec_speculate(new_tile_box, x_dir, y_dir, z_dir),
                    old(self).tiles,
                )
            } else {
                Seq::<TileIndex>::empty()
            },
    {
        let changed = self.tile_box != new_tile_box;
        self.tile_box = new_tile_box;
        let tiles = if changed {
            Some(self.get_request_tiles())
        } else {
            None
        };
        let speculative = if self.speculative_tile_load {
            self.get_speculate_tiles(x_dir, y_dir, z_dir)
        } else {
            Vec::new()
        };
        (tiles, speculative)
    }

    /// Processes a tile sent by the background thread: the decoded image,
    /// when there is one, enters the LRU cache under the viewport
    /// priorities. Returns whether the tile was inserted, and the evicted
    /// tile, if any; the caller forwards the eviction to the fetcher.
    pub fn process_tile(&mut self, index: TileIndex, image: Option<Image>) -> (r: (
        bool,
        Option<TileIndex>,
    ))
        requires
            old(self).wf(),
            old(self).tiles.generation < u64::MAX,
        ensures
            final(self).wf(),
            final(self).tile_box == old(self).tile_box,
            final(self).max_tile_level == old(self).max_tile_level,
            old(self).tiles.contains_spec(index)
                ==> r == (false, Option::<TileIndex>::None)
                    && final(self).tiles == old(self).tiles,
            !old(self).tiles.contains_spec(index) && image is None
                ==> r == (false, Option::<TileIndex>::None)
                    && final(self).tiles == old(self).tiles,
            !old(self).tiles.contains_spec(index) && image is Some ==> {
                &&& r.0 == true
                &&& final(self).tiles.contains_spec(index)
                &&& final(self).tiles.value_of(index).image == image.unwrap()
                &&& match r.1 {
                    None => old(self).tiles.entries@.len() != old(self).tiles.capacity
                        || old(self).tiles.entries@.len() == 0,
                    Some(e) => {
                        &&& old(self).tiles.entries@.len() == old(self).tiles.capacity
                        &&& Self::priority_eviction(
                            old(self).tiles,
                            old(self).tile_box,
                            old(self).max_tile_level,
                            e,
                        )
                    },
                }
            },
    {
        let tb = self.tile_box;
        let ml = self.max_tile_level;
        let ghost pre = self.tiles;
        let prio = (|idx: &TileIndex| -> (p: usize)
            ensures p == spec_tile_priority(tb, ml, *idx)
            { tile_priority(&tb, ml, idx) });
        let mkval = (move || -> (t: Option<Tile<Image>>)
            ensures
                t matches Some(tile) ==> image matches Some(im) && tile.image == im,
                t is None <==> image is None,
            {
                match image {
                    Some(im) => Some(Tile { image: im }),
                    None => None,
                }
            });
        let ghost gprio = prio;
        let ghost gmk = mkval;
        let (inserted, evicted) = self.tiles.or_insert_with(index, prio, mkval);
        proof {
            if !pre.contains_spec(index) {
                let dr = choose|dr: Option<Tile<Image>>|
                    gmk.ensures((), dr)
                        && Lru::insert_step(pre, self.tiles, index, dr, (inserted, evicted), gprio);
                if image is Some && evicted is Some {
                    Self::lemma_observed_eviction(pre, tb, ml, evicted.unwrap(), gprio);
                }
            }
        }
        (inserted, evicted)
    }

    /// The evicted tile minimized the viewport priority among the cached
    /// tiles, with ties going to the least recently used.
    pub open spec fn priority_eviction(
        pre: Lru<Tile<Image>>,
        tile_box: TileBox,
        max_tile_level: u32,
        e: TileIndex,
    ) -> bool {
        exists|ei: int|
            0 <= ei < pre.entries@.len()
            && e == pre.entries@[ei].key
            && (forall|i: int| 0 <= i < pre.entries@.len() && i != ei
                    ==> spec_tile_priority(tile_box, max_tile_level, pre.entries@[ei].key)
                        < spec_tile_priority(tile_box, max_tile_level, #[trigger] pre.entries@[i].key)
                        || (spec_tile_priority(tile_box, max_tile_level, pre.entries@[ei].key)
                            == spec_tile_priority(tile_box, max_tile_level, pre.entries@[i].key)
                            && pre.entries@[ei].generation < pre.entries@[i].generation))
    }

    /// An eviction whose observed priorities all equal the viewport
    /// priority is a viewport-priority eviction.
    proof fn lemma_observed_eviction<FP: Fn(&TileIndex) -> usize>(
        pre: Lru<Tile<Image>>,
        tile_box: TileBox,
        max_tile_level: u32,
        e: TileIndex,
        f: FP,
    )
        requires
            forall|idx: &TileIndex, p: usize| #[trigger] f.ensures((idx,), p)
                ==> p == spec_tile_priority(tile_box, max_tile_level, *idx),
            exists|tail: Seq<Entry<Tile<Image>>>| pre.evicted_to(e, tail, f),
        ensures
            Self::priority_eviction(pre, tile_box, max_tile_level, e),
    {
        let tail = choose|tail: Seq<Entry<Tile<Image>>>| pre.evicted_to(e, tail, f);
        let (ei, pr) = choose|ei: int, pr: Seq<usize>|
            pre.is_eviction_choice(pr, ei)
            && e == pre.entries@[ei].key
            && tail == pre.entries@.remove(ei)
            && (forall|i: int| 0 <= i < pr.len()
                    ==> f.ensures((&pre.entries@[i].key,), #[trigger] pr[i]));
        assert forall|i: int| 0 <= i < pre.entries@.len()
            implies pr[i] == spec_tile_priority(tile_box, max_tile_level, pre.entries@[i].key) by {
            assert(f.ensures((&pre.entries@[i].key,), pr[i]));
        }
        assert(0 <= ei < pre.entries@.len() && e == pre.entries@[ei].key);
        assert forall|i: int| 0 <= i < pre.entries@.len() && i != ei
            implies spec_tile_priority(tile_box, max_tile_level, pre.entries@[ei].key)
                < spec_tile_priority(tile_box, max_tile_level, #[trigger] pre.entries@[i].key)
                || (spec_tile_priority(tile_box, max_tile_level, pre.entries@[ei].key)
                    == spec_tile_priority(tile_box, max_tile_level, pre.entries@[i].key)
                    && pre.entries@[ei].generation < pre.entries@[i].generation) by {
            assert(pr[ei] < pr[i]
                || (pr[ei] == pr[i]
                    && pre.entries@[ei].generation < pre.entries@[i].generation));
        }
    }

    /// Returns the current set of tiles to draw, based on the camera
    /// position and available tiles.
    ///
    /// If a tile is not available at the current zoom level, its nearest
    /// cached ancestor is returned instead. The returned tiles are sorted
    /// from small to large zoom level, without duplicates, so that finer
    /// tiles appear on top when rendered in order.
    #[verifier::rlimit(60)]
    pub fn tiles_to_draw(&self) -> (r: Vec<(TileIndex, &Tile<Image>)>)
        requires
            self.wf(),
            self.tile_box.spec_len() <= usize::MAX,
        ensures
            forall|i: int| 0 <= i < r@.len()
                ==> self.tiles.contains_spec((#[trigger] r@[i]).0)
                    && r@[i].1 == self.tiles.value_of(r@[i].0),
            forall|i: int, j: int| 0 <= i < j < r@.len()
                ==> (#[trigger] r@[i]).0.spec_lt((#[trigger] r@[j]).0),
            forall|t: TileIndex| self.tile_box.contains_spec(t)
                && #[trigger] spec_resolve(self.tiles, t) is Some
                ==> exists|i: int| 0 <= i < r@.len()
                    && (#[trigger] r@[i]).0 == spec_resolve(self.tiles, t).unwrap(),
            forall|i: int| 0 <= i < r@.len()
                ==> spec_drawable(self.tiles, self.tile_box, (#[trigger] r@[i]).0),
    {
        let indices = self.tile_box.tile_indices();
        let mut drawn: Vec<TileIndex> = Vec::new();
        let mut i: usize = 0;
        let n = indices.len();
        while i < n
            invariant
                self.wf(),
                n == indices@.len(),
                indices@ == self.tile_box.spec_tile_indices(),
                self.tile_box.spec_len() <= usize::MAX,
                i <= n,
                forall|a: int, b: int| 0 <= a < b < drawn@.len()
                    ==> (#[trigger] drawn@[a]).spec_lt(#[trigger] drawn@[b]),
                forall|x: TileIndex| #[trigger] drawn@.contains(x)
                    ==> exists|j: int| 0 <= j < i
                        && spec_resolve(self.tiles, indices@[j]) == Some(x),
                forall|j: int| 0 <= j < i && #[trigger] spec_resolve(self.tiles, indices@[j]) is Some
                    ==> drawn@.contains(spec_resolve(self.tiles, indices@[j]).unwrap()),
            decreases n - i,
        {
            match self.resolve(&indices[i]) {
                Some(d) => {
                    insert_sorted(&mut drawn, d);
                },
                None => {},
            }
            i = i + 1;
        }
        proof {
            assert forall|x: TileIndex| #[trigger] drawn@.contains(x)
                implies self.tiles.contains_spec(x) by {
                let j = choose|j: int| 0 <= j < n
                    && spec_resolve(self.tiles, indices@[j]) == Some(x);
                lemma_resolve_contained(self.tiles, indices@[j]);
            }
        }
        let mut result: Vec<(TileIndex, &Tile<Image>)> = Vec::new();
        let mut j: usize = 0;
        let m = drawn.len();
        while j < m
            invariant
                self.wf(),
                m == drawn@.len(),
                j <= m,
                result@.len() == j,
                forall|x: TileIndex| #[trigger] drawn@.contains(x)
                    ==> self.tiles.contains_spec(x),
                forall|a: int, b: int| 0 <= a < b < drawn@.len()
                    ==> (#[trigger] drawn@[a]).spec_lt(#[trigger] drawn@[b]),
                forall|a: int| 0 <= a < j
                    ==> (#[trigger] result@[a]).0 == drawn@[a]
                        && self.tiles.contains_spec(result@[a].0)
                        && result@[a].1 == self.tiles.value_of(result@[a].0),
            decreases m - j,
        {
            proof {
                assert(drawn@.contains(drawn@[j as int]));
            }
            match self.tiles.peek(&drawn[j]) {
                Some(v) => {
                    result.push((drawn[j], v));
                },
                None => {
                    proof { assert(false); }
                },
            }
            j = j + 1;
        }
        proof {
            assert forall|x: TileIndex| #[trigger] drawn@.contains(x)
                implies exists|a: int| 0 <= a < result@.len() && (#[trigger] result@[a]).0 == x by {
                let a = choose|a: int| 0 <= a < drawn@.len() && drawn@[a] == x;
                assert(result@[a].0 == x);
            }
            self.tile_box.lemma_tile_indices_exact();
            assert forall|t: TileIndex| self.tile_box.contains_spec(t)
                && #[trigger] spec_resolve(self.tiles, t) is Some
                implies exists|i: int| 0 <= i < result@.len()
                    && (#[trigger] result@[i]).0 == spec_resolve(self.tiles, t).unwrap() by {
                assert(self.tile_box.spec_tile_indices().contains(t));
                let j = choose|j: int| 0 <= j < indices@.len() && indices@[j] == t;
                assert(spec_resolve(self.tiles, indices@[j]) is Some);
                assert(drawn@.contains(spec_resolve(self.tiles, t).unwrap()));
                let a = choose|a: int| 0 <= a < drawn@.len()
                    && drawn@[a] == spec_resolve(self.tiles, t).unwrap();
                assert(result@[a].0 == spec_resolve(self.tiles, t).unwrap());
            }
            assert forall|i: int| 0 <= i < result@.len()
                implies spec_drawable(self.tiles, self.tile_box, (#[trigger] result@[i]).0) by {
                assert(result@[i].0 == drawn@[i]);
                assert(drawn@.contains(drawn@[i]));
                let j = choose|j: int| 0 <= j < n
                    && spec_resolve(self.tiles, indices@[j]) == Some(drawn@[i]);
                assert(self.tile_box.contains_spec(indices@[j]));
            }
        }
        result
    }

    /// Walks from a tile up through its parents to the nearest one held by
    /// the cache.
    fn resolve(&self, idx: &TileIndex) -> (r: Option<TileIndex>)
        requires
            self.tiles.wf(),
        ensures
            r == spec_resolve(self.tiles, *idx),
            r matches Some(d) ==> self.tiles.contains_spec(d),
    {
        let mut cur = *idx;
        loop
            invariant
                self.tiles.wf(),
                spec_resolve(self.tiles, cur) == spec_resolve(self.tiles, *idx),
            decreases cur.z,
        {
            if self.tiles.contains_key(&cur) {
                proof { lemma_resolve_contained(self.tiles, cur); }
                return Some(cur);
            }
            match cur.parent() {
                Some(p) => {
                    cur = p;
                },
                None => {
                    return None;
                },
            }
        }
    }
}

/// Inserts a tile index into a strictly sorted list, keeping it sorted
/// and without duplicates.
fn insert_sorted(out: &mut Vec<TileIndex>, d: TileIndex)
    requires
        forall|a: int, b: int| 0 <= a < b < old(out)@.len()
            ==> (#[trigger] old(out)@[a]).spec_lt(#[trigger] old(out)@[b]),
    ensures
        forall|a: int, b: int| 0 <= a < b < final(out)@.len()
            ==> (#[trigger] final(out)@[a]).spec_lt(#[trigger] final(out)@[b]),
        forall|x: TileIndex| #[trigger] final(out)@.contains(x)
            <==> old(out)@.contains(x) || x == d,
{
    let n = out.len();
    let mut pos: usize = 0;
    while pos < n && out[pos].lt(&d)
        invariant
            n == out@.len(),
            out@ == old(out)@,
            pos <= n,
            forall|a: int| 0 <= a < pos ==> (#[trigger] out@[a]).spec_lt(d),
        decreases n - pos,
    {
        pos = pos + 1;
    }
    if pos < out.len() {
        let existing = out[pos];
        if existing.z == d.z && existing.x == d.x && existing.y == d.y {
            proof {
                assert(out@.contains(d));
            }
            return;
        }
    }
    let ghost preq = out@;
    out.insert(pos, d);
    proof {
        assert(out@ == preq.insert(pos as int, d));
        lemma_tile_order_total(d, preq);
        assert forall|a: int, b: int| 0 <= a < b < out@.len()
            implies (#[trigger] out@[a]).spec_lt(#[trigger] out@[b]) by {
            if a < pos && b == pos {
                assert(out@[a] == preq[a] && out@[b] == d);
            } else if a < pos && b > pos {
                assert(out@[a] == preq[a] && out@[b] == preq[b - 1]);
            } else if a == pos && b > pos {
                assert(out@[a] == d && out@[b] == preq[b - 1]);
                assert(!preq[pos as int].spec_lt(d) && preq[pos as int] != d);
                assert(d.spec_lt(preq[pos as int]));
                if b - 1 > pos {
                    assert(preq[pos as int].spec_lt(preq[b - 1]));
                }
            } else if a > pos {
                assert(out@[a] == preq[a - 1] && out@[b] == preq[b - 1]);
            } else {
                assert(out@[a] == preq[a] && out@[b] == preq[b]);
            }
        }
        assert forall|x: TileIndex| #[trigger] out@.contains(x)
            implies preq.contains(x) || x == d by {
            let a = choose|a: int| 0 <= a < out@.len() && out@[a] == x;
            if a < pos {
                assert(preq[a] == x);
            } else if a > pos {
                assert(preq[a - 1] == x);
            }
        }
        assert forall|x: TileIndex| preq.contains(x) || x == d
            implies #[trigger] out@.contains(x) by {
            if preq.contains(x) {
                let a = choose|a: int| 0 <= a < preq.len() && preq[a] == x;
                if a < pos {
                    assert(out@[a] == x);
                } else {
                    assert(out@[a + 1] == x);
                }
            } else {
                assert(out@[pos as int] == d);
            }
        }
    }
}

/// The lexicographic tile order is total: where `d` neither precedes nor
/// equals an entry, the entry precedes `d`.
proof fn lemma_tile_order_total(d: TileIndex, s: Seq<TileIndex>)
    ensures
        forall|a: int| 0 <= a < s.len() && !(#[trigger] s[a]).spec_lt(d) && s[a] != d
            ==> d.spec_lt(s[a]),
{
}

} // verus!
