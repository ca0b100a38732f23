//! Tests of the priority-aware LRU store.

use ridemap::geom::TileIndex;
use ridemap::lru::Lru;

fn key(n: u32) -> TileIndex {
    TileIndex { z: 5, x: n, y: 0 }
}

#[test]
fn lru_insert_and_get() {
    let mut lru: Lru<u32> = Lru::with_capacity(4);
    assert!(!lru.contains_key(&key(1)));
    let (inserted, evicted) = lru.or_insert_with(key(1), |_| 1, || Some(11));
    assert!(inserted);
    assert_eq!(evicted, None);
    assert!(lru.contains_key(&key(1)));
    assert_eq!(lru.get(&key(1)), Some(&11));
    assert_eq!(lru.get(&key(2)), None);
}

#[test]
fn lru_insert_existing_does_nothing() {
    let mut lru: Lru<u32> = Lru::with_capacity(4);
    lru.or_insert_with(key(1), |_| 1, || Some(11));
    let (inserted, evicted) = lru.or_insert_with(key(1), |_| 1, || Some(99));
    assert!(!inserted);
    assert_eq!(evicted, None);
    assert_eq!(lru.get(&key(1)), Some(&11));
}

#[test]
fn lru_value_absent_does_not_evict() {
    let mut lru: Lru<u32> = Lru::with_capacity(1);
    lru.or_insert_with(key(1), |_| 1, || Some(11));
    let (inserted, evicted) = lru.or_insert_with(key(2), |_| 1, || None);
    assert!(!inserted);
    assert_eq!(evicted, None);
    assert!(lru.contains_key(&key(1)));
    assert!(!lru.contains_key(&key(2)));
}

#[test]
fn lru_eviction_with_priority() {
    // Capacity 3. Insert A, B, C with equal priority; touch A; insert D
    // with priorities A=2, B=1, C=1, D=1. The lowest priority goes first,
    // and among B and C the least recently used one: B.
    let a = key(1);
    let b = key(2);
    let c = key(3);
    let d = key(4);
    let mut lru: Lru<char> = Lru::with_capacity(3);
    lru.or_insert_with(a, |_| 1, || Some('a'));
    lru.or_insert_with(b, |_| 1, || Some('b'));
    lru.or_insert_with(c, |_| 1, || Some('c'));
    assert_eq!(lru.get(&a), Some(&'a'));
    let prio = move |k: &TileIndex| if *k == a { 2 } else { 1 };
    let (inserted, evicted) = lru.or_insert_with(d, prio, || Some('d'));
    assert!(inserted);
    assert_eq!(evicted, Some(b));
    assert!(lru.contains_key(&a));
    assert!(!lru.contains_key(&b));
    assert!(lru.contains_key(&c));
    assert!(lru.contains_key(&d));
}

#[test]
fn lru_recency_breaks_ties() {
    // With equal priorities throughout, the least recently touched entry
    // leaves.
    let mut lru: Lru<u32> = Lru::with_capacity(2);
    lru.or_insert_with(key(1), |_| 1, || Some(1));
    lru.or_insert_with(key(2), |_| 1, || Some(2));
    lru.get(&key(1));
    let (_, evicted) = lru.or_insert_with(key(3), |_| 1, || Some(3));
    assert_eq!(evicted, Some(key(2)));
}
