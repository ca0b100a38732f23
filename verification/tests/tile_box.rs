//! Tests of the tile box algebra.

use ridemap::geom::{Point, TileIndex};
use ridemap::tile_box::TileBox;

#[test]
fn tile_box_root() {
    let root = TileBox::root();
    assert!(root.is_valid());
    assert_eq!(root.len(), 1);
    assert_eq!(root.parent(), None);
}

#[test]
fn tile_box_len_one() {
    let z = 4;
    let max = 1 << z;
    for x in 0..max {
        for y in 0..max {
            let tile_box = TileBox {
                z,
                min: Point { x, y },
                max: Point { x: x + 1, y: y + 1 },
            };

            assert!(tile_box.is_valid());
            assert_eq!(tile_box.len(), 1);
        }
    }
}

#[test]
fn tile_box_len() {
    let z = 4;
    let max = 1 << z;
    for maxx in 1..=max {
        for minx in 0..maxx {
            for maxy in 1..=max {
                for miny in 0..maxy {
                    let tile_box = TileBox {
                        z,
                        min: Point { x: minx, y: miny },
                        max: Point { x: maxx, y: maxy },
                    };

                    assert_eq!(tile_box.len(), tile_box.tile_indices().len());
                }
            }
        }
    }
}

#[test]
fn tile_box_ancestors() {
    let z = 4;
    let max = 1 << z;
    for maxx in 1..=max {
        for minx in 0..maxx {
            for maxy in 1..=max {
                for miny in 0..maxy {
                    let tile_box = TileBox {
                        z,
                        min: Point { x: minx, y: miny },
                        max: Point { x: maxx, y: maxy },
                    };

                    let mut p = Some(tile_box);
                    for n in 0..=z {
                        assert_eq!(p, tile_box.ancestor(n));
                        let pp = p.unwrap();
                        assert!(pp.is_valid());
                        assert!(pp.len() <= tile_box.len());
                        p = pp.parent();
                    }
                }
            }
        }
    }
}

#[test]
fn tile_box_contains() {
    let z = 4;
    let max = 1 << z;
    for maxx in 1..=max {
        for minx in 0..maxx {
            for maxy in 1..=max {
                for miny in 0..maxy {
                    let tile_box = TileBox {
                        z,
                        min: Point { x: minx, y: miny },
                        max: Point { x: maxx, y: maxy },
                    };

                    assert!(!tile_box.contains(&TileIndex { z: 0, x: 0, y: 0 }));
                    for x in minx..maxx {
                        for y in miny..maxy {
                            assert!(tile_box.contains(&TileIndex { z, x, y }));
                        }
                    }
                }
            }
        }
    }
}

#[test]
fn tile_box_contains_itself() {
    let z = 4;
    let max = 1 << z;
    for maxx in 1..=max {
        for minx in 0..maxx {
            for maxy in 1..=max {
                for miny in 0..maxy {
                    let tile_box = TileBox {
                        z,
                        min: Point { x: minx, y: miny },
                        max: Point { x: maxx, y: maxy },
                    };

                    for index in tile_box.tile_indices() {
                        assert!(tile_box.contains(&index));
                    }
                }
            }
        }
    }
}

#[test]
fn tile_box_parent_is_parents() {
    let z = 4;
    let max = 1 << z;
    for maxx in 1..=max {
        for minx in 0..maxx {
            for maxy in 1..=max {
                for miny in 0..maxy {
                    let tile_box = TileBox {
                        z,
                        min: Point { x: minx, y: miny },
                        max: Point { x: maxx, y: maxy },
                    };

                    let mut parents_of_list: Vec<TileIndex> = tile_box
                        .tile_indices()
                        .iter()
                        .map(|index| index.parent().unwrap())
                        .collect();
                    let mut list_of_parent: Vec<TileIndex> =
                        tile_box.parent().unwrap().tile_indices();
                    parents_of_list.sort();
                    parents_of_list.dedup();
                    list_of_parent.sort();
                    assert_eq!(parents_of_list, list_of_parent);
                }
            }
        }
    }
}

#[test]
fn tile_box_contains_its_parents() {
    let z = 4;
    let max = 1 << z;
    for maxx in 1..=max {
        for minx in 0..maxx {
            for maxy in 1..=max {
                for miny in 0..maxy {
                    let tile_box = TileBox {
                        z,
                        min: Point { x: minx, y: miny },
                        max: Point { x: maxx, y: maxy },
                    };

                    for mut index in tile_box.tile_indices() {
                        assert!(tile_box.is_ancestor(&index).is_none());
                        while let Some(p) = index.parent() {
                            assert!(tile_box.is_ancestor(&p).is_some());
                            index = p;
                        }
                    }
                }
            }
        }
    }
}

#[test]
fn tile_box_contains_only_its_parents() {
    let z = 4;
    let max = 1 << z;
    for x in 0..max {
        for y in 0..max {
            let tile_box = TileBox {
                z,
                min: Point { x, y },
                max: Point { x: x + 1, y: y + 1 },
            };

            let mut index = TileIndex { z, x, y };
            while let Some(p) = index.parent() {
                assert!(tile_box.is_ancestor(&p).is_some());
                if p.x + 1 < max {
                    assert!(tile_box
                        .is_ancestor(&TileIndex {
                            z: p.z,
                            x: p.x + 1,
                            y: p.y,
                        })
                        .is_none());
                }
                if p.y + 1 < max {
                    assert!(tile_box
                        .is_ancestor(&TileIndex {
                            z: p.z,
                            x: p.x,
                            y: p.y + 1,
                        })
                        .is_none());
                }
                if p.x > 0 {
                    assert!(tile_box
                        .is_ancestor(&TileIndex {
                            z: p.z,
                            x: p.x - 1,
                            y: p.y,
                        })
                        .is_none());
                }
                if p.y > 0 {
                    assert!(tile_box
                        .is_ancestor(&TileIndex {
                            z: p.z,
                            x: p.x,
                            y: p.y - 1,
                        })
                        .is_none());
                }
                index = p;
            }
        }
    }
}

#[test]
fn tile_box_from_viewport() {
    // A 1000 by 800 window at zoom 1024 with its center at world pixel
    // (500, 400): the ideal level is 1 and the box covers the whole
    // visible part of the grid.
    let b = TileBox::new(1000, 800, 1024, Point { x: 500, y: 400 }, 512, 15);
    assert_eq!(
        b,
        TileBox {
            z: 1,
            min: Point { x: 0, y: 0 },
            max: Point { x: 2, y: 2 },
        }
    );
}

#[test]
fn tile_box_halos() {
    let b = TileBox {
        z: 2,
        min: Point { x: 1, y: 1 },
        max: Point { x: 3, y: 3 },
    };
    assert_eq!(
        b.left(),
        vec![TileIndex { z: 2, x: 0, y: 1 }, TileIndex { z: 2, x: 0, y: 2 }]
    );
    assert_eq!(
        b.right(),
        vec![TileIndex { z: 2, x: 3, y: 1 }, TileIndex { z: 2, x: 3, y: 2 }]
    );
    assert_eq!(
        b.top(),
        vec![TileIndex { z: 2, x: 1, y: 0 }, TileIndex { z: 2, x: 2, y: 0 }]
    );
    assert_eq!(
        b.bottom(),
        vec![TileIndex { z: 2, x: 1, y: 3 }, TileIndex { z: 2, x: 2, y: 3 }]
    );
    // A box touching the world edge has no halo on that side.
    let edge = TileBox {
        z: 1,
        min: Point { x: 0, y: 0 },
        max: Point { x: 2, y: 2 },
    };
    assert!(edge.left().is_empty());
    assert!(edge.right().is_empty());
    assert!(edge.top().is_empty());
    assert!(edge.bottom().is_empty());
}
