//! Least recently used key-value store with priority-aware eviction.
//!
//! A bounded map from tile indices to values. Every entry carries a
//! generation number, refreshed on each access; eviction removes the entry
//! with the lowest priority, breaking ties towards the least recently used
//! (smallest generation). Higher priorities are retained longer.

use vstd::prelude::*;
use crate::geom::TileIndex;

verus! {

/// One stored entry: a key, its recency generation, and the value.
pub struct Entry<V> {
    /// Key of the entry.
    pub key: TileIndex,
    /// Generation at which the entry was last inserted or accessed.
    pub generation: u64,
    /// Stored value.
    pub value: V,
}

/// Key-value store of bounded capacity, evicting least recently used
/// items of the lowest priority.
pub struct Lru<V> {
    /// Stored entries; keys and generations are unique.
    pub entries: Vec<Entry<V>>,
    /// Maximum capacity of the store.
    pub capacity: usize,
    /// Generation of the most recently touched entry.
    pub generation: u64,
}

impl<V> Lru<V> {
    /// Keys are unique, generations are unique and no larger than the
    /// store's counter, and the capacity is respected.
    pub open spec fn wf(self) -> bool {
        &&& forall|i: int, j: int|
            0 <= i < j < self.entries@.len()
                ==> #[trigger] self.entries@[i].key != #[trigger] self.entries@[j].key
        &&& forall|i: int, j: int|
            0 <= i < j < self.entries@.len()
                ==> #[trigger] self.entries@[i].generation != #[trigger] self.entries@[j].generation
        &&& forall|i: int| 0 <= i < self.entries@.len()
                ==> #[trigger] self.entries@[i].generation <= self.generation
        &&& (self.capacity > 0 ==> self.entries@.len() <= self.capacity)
    }

    /// Whether the store holds the given key.
    pub open spec fn contains_spec(self, k: TileIndex) -> bool {
        exists|i: int| 0 <= i < self.entries@.len() && #[trigger] self.entries@[i].key == k
    }

    /// Index of the entry holding `k`.
    pub open spec fn idx_of(self, k: TileIndex) -> int
        recommends self.contains_spec(k),
    {
        choose|i: int| 0 <= i < self.entries@.len() && #[trigger] self.entries@[i].key == k
    }

    /// The generation of the entry holding `k`.
    pub open spec fn gen_of(self, k: TileIndex) -> u64
        recommends self.contains_spec(k),
    {
        self.entries@[self.idx_of(k)].generation
    }

    /// The value stored under `k`.
    pub open spec fn value_of(self, k: TileIndex) -> V
        recommends self.contains_spec(k),
    {
        self.entries@[self.idx_of(k)].value
    }

    /// Whether position `ei` is the entry that eviction removes under the
    /// priorities `pr` (aligned with the entries): no other entry has a
    /// lower priority, and none of equal priority is less recently used.
    pub open spec fn is_eviction_choice(self, pr: Seq<usize>, ei: int) -> bool {
        &&& 0 <= ei < self.entries@.len()
        &&& pr.len() == self.entries@.len()
        &&& forall|i: int| 0 <= i < self.entries@.len() && i != ei
                ==> pr[ei] < #[trigger] pr[i]
                    || (pr[ei] == pr[i]
                        && self.entries@[ei].generation < self.entries@[i].generation)
    }

    /// Eviction removed the entry for `e` and left `tail`: some position
    /// was an eviction choice under priorities that the priority function
    /// reported for each key.
    pub open spec fn evicted_to<FP: Fn(&TileIndex) -> usize>(
        self,
        e: TileIndex,
        tail: Seq<Entry<V>>,
        priority: FP,
    ) -> bool {
        exists|ei: int, pr: Seq<usize>|
            self.is_eviction_choice(pr, ei)
            && e == self.entries@[ei].key
            && tail == self.entries@.remove(ei)
            && (forall|i: int| 0 <= i < pr.len()
                    ==> priority.ensures((&self.entries@[i].key,), #[trigger] pr[i]))
    }

    /// What `or_insert_with` does for a missing key once the value closure
    /// has produced `dr`: nothing on `None`; on `Some`, the value is stored
    /// under a fresh generation, evicting the lowest-priority entry exactly
    /// when the store was full.
    pub open spec fn insert_step<FP: Fn(&TileIndex) -> usize>(
        pre: Lru<V>,
        post: Lru<V>,
        k: TileIndex,
        dr: Option<V>,
        r: (bool, Option<TileIndex>),
        priority: FP,
    ) -> bool {
        match dr {
            None => r == (false, Option::<TileIndex>::None) && post == pre,
            Some(v) => {
                let fresh = Entry { key: k, generation: (pre.generation + 1) as u64, value: v };
                &&& r.0 == true
                &&& post.contains_spec(k)
                &&& post.value_of(k) == v
                &&& post.gen_of(k) == pre.generation + 1
                &&& post.generation == pre.generation + 1
                &&& match r.1 {
                    None => {
                        &&& pre.entries@.len() != pre.capacity || pre.entries@.len() == 0
                        &&& post.entries@ == pre.entries@.push(fresh)
                    },
                    Some(e) => {
                        &&& pre.entries@.len() == pre.capacity
                        &&& exists|tail: Seq<Entry<V>>|
                            pre.evicted_to(e, tail, priority)
                                && post.entries@ == tail.push(fresh)
                    },
                }
            },
        }
    }

    /// Creates a store with the given capacity.
    pub fn with_capacity(capacity: usize) -> (r: Self)
        ensures
            r.wf(),
            r.entries@.len() == 0,
            r.capacity == capacity,
            r.generation == 0,
    {
        Self { entries: Vec::with_capacity(capacity), capacity, generation: 0 }
    }

    /// Finds the position of the entry holding `k`.
    fn find(&self, k: &TileIndex) -> (r: Option<usize>)
        ensures
            match r {
                Some(i) => i < self.entries@.len() && self.entries@[i as int].key == *k,
                None => !self.contains_spec(*k),
            },
    {
        let mut i: usize = 0;
        let n = self.entries.len();
        while i < n
            invariant
                n == self.entries@.len(),
                i <= n,
                forall|j: int| 0 <= j < i ==> #[trigger] self.entries@[j].key != *k,
            decreases n - i,
        {
            if self.entries[i].key == *k {
                return Some(i);
            }
            i = i + 1;
        }
        None
    }

    /// Checks whether the store contains the given key.
    pub fn contains_key(&self, k: &TileIndex) -> (r: bool)
        ensures
            r == self.contains_spec(*k),
    {
        self.find(k).is_some()
    }

    /// Obtains the value for the given key without touching its recency.
    pub fn peek(&self, k: &TileIndex) -> (r: Option<&V>)
        requires
            self.wf(),
        ensures
            match r {
                Some(v) => self.contains_spec(*k) && *v == self.value_of(*k),
                None => !self.contains_spec(*k),
            },
    {
        match self.find(k) {
            None => None,
            Some(i) => {
                proof {
                    assert(self.contains_spec(*k));
                    assert(self.entries@[self.idx_of(*k)].key == *k);
                    assert(self.idx_of(*k) == i);
                }
                Some(&self.entries[i].value)
            },
        }
    }

    /// Obtains the value for the given key, making its entry the most
    /// recently used.
    pub fn get(&mut self, k: &TileIndex) -> (r: Option<&V>)
        requires
            old(self).wf(),
            old(self).generation < u64::MAX,
        ensures
            final(self).wf(),
            final(self).capacity == old(self).capacity,
            !old(self).contains_spec(*k) ==> r is None && *final(self) == *old(self),
            old(self).contains_spec(*k) ==> {
                &&& (r matches Some(v) && *v == old(self).value_of(*k))
                &&& final(self).generation == old(self).generation + 1
                &&& final(self).entries@.len() == old(self).entries@.len()
                &&& forall|i: int| 0 <= i < final(self).entries@.len()
                        ==> #[trigger] final(self).entries@[i].key == old(self).entries@[i].key
                            && final(self).entries@[i].value == old(self).entries@[i].value
                &&& forall|i: int| 0 <= i < final(self).entries@.len()
                        ==> #[trigger] final(self).entries@[i].generation
                            == if old(self).entries@[i].key == *k {
                                old(self).generation + 1
                            } else {
                                old(self).entries@[i].generation as int
                            }
                // The touched entry is now strictly the most recent.
                &&& forall|i: int| 0 <= i < final(self).entries@.len()
                        && old(self).entries@[i].key != *k
                        ==> #[trigger] final(self).entries@[i].generation
                            < final(self).gen_of(*k)
            },
    {
        match self.find(k) {
            None => None,
            Some(i) => {
                let g = self.next_generation();
                self.entries[i].generation = g;
                proof {
                    assert(self.entries@[i as int].key == *k);
                    assert(self.contains_spec(*k));
                    assert(self.entries@[self.idx_of(*k)].key == *k);
                    assert(self.idx_of(*k) == i);
                    assert(old(self).entries@[old(self).idx_of(*k)].key == *k);
                    assert(old(self).idx_of(*k) == i);
                }
                Some(&self.entries[i].value)
            },
        }
    }

    /// Evicts an entry from the store: the lowest priority goes first, and
    /// among entries of equal priority the least recently used one.
    pub fn evict<FP: Fn(&TileIndex) -> usize>(&mut self, priority: FP) -> (r: Option<TileIndex>)
        requires
            old(self).wf(),
            forall|key: TileIndex| old(self).contains_spec(key)
                ==> #[trigger] priority.requires((&key,)),
        ensures
            final(self).wf(),
            final(self).capacity == old(self).capacity,
            final(self).generation == old(self).generation,
            match r {
                None => old(self).entries@.len() == 0 && *final(self) == *old(self),
                Some(e) => old(self).evicted_to(e, final(self).entries@, priority),
            },
    {
        let n = self.entries.len();
        if n == 0 {
            return None;
        }
        // Observe every entry's priority once.
        let mut prios: Vec<usize> = Vec::new();
        let mut i: usize = 0;
        while i < n
            invariant
                self == old(self),
                old(self).wf(),
                n == self.entries@.len(),
                forall|key: TileIndex| old(self).contains_spec(key)
                    ==> #[trigger] priority.requires((&key,)),
                i <= n,
                prios@.len() == i,
                forall|j: int| 0 <= j < i
                    ==> priority.ensures((&self.entries@[j].key,), #[trigger] prios@[j]),
            decreases n - i,
        {
            proof {
                assert(self.contains_spec(self.entries@[i as int].key));
            }
            let p = priority(&self.entries[i].key);
            prios.push(p);
            i = i + 1;
        }
        // Pick the entry minimizing (priority, generation).
        let mut best: usize = 0;
        let mut j: usize = 1;
        while j < n
            invariant
                self == old(self),
                old(self).wf(),
                n == self.entries@.len(),
                prios@.len() == n,
                best < j <= n,
                forall|t: int| 0 <= t < j && t != best
                    ==> prios@[best as int] < #[trigger] prios@[t]
                        || (prios@[best as int] == prios@[t]
                            && self.entries@[best as int].generation
                                < self.entries@[t].generation),
            decreases n - j,
        {
            let better = if prios[j] < prios[best] {
                true
            } else if prios[j] == prios[best] {
                self.entries[j].generation < self.entries[best].generation
            } else {
                false
            };
            if better {
                best = j;
            }
            j = j + 1;
        }
        let entry = self.entries.remove(best);
        proof {
            let ghost pr = prios@;
            let ghost ei = best as int;
            assert(old(self).is_eviction_choice(pr, ei));
        }
        Some(entry.key)
    }

    /// Increments and returns the next generation number.
    pub fn next_generation(&mut self) -> (r: u64)
        requires
            old(self).generation < u64::MAX,
        ensures
            r == old(self).generation + 1,
            final(self).generation == r,
            final(self).entries == old(self).entries,
            final(self).capacity == old(self).capacity,
    {
        self.generation = self.generation + 1;
        self.generation
    }

    /// Inserts the given value in the store, if the store does not already
    /// contain this key.
    ///
    /// Returns whether an entry was inserted, and the evicted key, if any.
    /// The value comes from `default`; when it yields no value, nothing is
    /// inserted and nothing is evicted. Eviction happens only when the
    /// store is full, and picks the entry with the lowest priority, ties
    /// broken towards the least recently used.
    pub fn or_insert_with<FP: Fn(&TileIndex) -> usize, FD: FnOnce() -> Option<V>>(
        &mut self,
        k: TileIndex,
        priority: FP,
        default: FD,
    ) -> (r: (bool, Option<TileIndex>))
        requires
            old(self).wf(),
            old(self).generation < u64::MAX,
            forall|key: TileIndex| old(self).contains_spec(key)
                ==> #[trigger] priority.requires((&key,)),
            default.requires(()),
        ensures
            final(self).wf(),
            final(self).capacity == old(self).capacity,
            old(self).contains_spec(k) ==> r == (false, Option::<TileIndex>::None)
                && *final(self) == *old(self),
            !old(self).contains_spec(k) ==> (exists|dr: Option<V>|
                #[trigger] default.ensures((), dr)
                    && Self::insert_step(*old(self), *final(self), k, dr, r, priority)),
    {
        if self.contains_key(&k) {
            return (false, None);
        }
        match default() {
            None => {
                proof {
                    assert(default.ensures((), Option::<V>::None));
                    assert(Self::insert_step(
                        *old(self),
                        *self,
                        k,
                        Option::<V>::None,
                        (false, Option::<TileIndex>::None),
                        priority,
                    ));
                }
                (false, None)
            },
            Some(value) => {
                let ghost dval = value;
                let evicted = if self.entries.len() == self.capacity {
                    self.evict(priority)
                } else {
                    None
                };
                let ghost mid = self.entries@;
                let g = self.next_generation();
                self.entries.push(Entry { key: k, generation: g, value });
                proof {
                    let pushed = self.entries@;
                    assert(pushed[pushed.len() - 1].key == k);
                    assert(self.contains_spec(k));
                    assert(self.idx_of(k) == pushed.len() - 1);
                    assert(default.ensures((), Some(dval)));
                    if evicted is Some {
                        assert(old(self).evicted_to(evicted.unwrap(), mid, priority));
                    }
                    assert(Self::insert_step(*old(self), *self, k, Some(dval), (true, evicted), priority));
                }
                (true, evicted)
            },
        }
    }
}

/// Law: right after an entry was touched it is strictly the most recent,
/// and an eviction can still choose it only when every other entry has a
/// strictly higher priority.
pub proof fn lemma_recency_protects<V>(s: Lru<V>, pr: Seq<usize>, ki: int)
    requires
        s.wf(),
        0 <= ki < s.entries@.len(),
        forall|i: int| 0 <= i < s.entries@.len() && i != ki
            ==> #[trigger] s.entries@[i].generation < s.entries@[ki].generation,
        s.is_eviction_choice(pr, ki),
    ensures
        forall|i: int| 0 <= i < s.entries@.len() && i != ki ==> #[trigger] pr[i] > pr[ki],
{
}

} // verus!
