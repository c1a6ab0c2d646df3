use elevation_service::cache::{GetOrLoad, HgtCache, TileSetCache};
use elevation_service::hgt::{HGT, SRTM3_LEN};
use elevation_service::types::CellKey;
use std::sync::Arc;

fn tile(cell: CellKey) -> Arc<HGT> {
    Arc::new(HGT::new(vec![0u8; SRTM3_LEN], cell).unwrap())
}

#[test]
fn test_cache_miss_then_hit() {
    let mut cache = HgtCache::new(8);
    let cell = CellKey { lat: 45, lng: 9 };
    assert!(matches!(cache.get_or_begin_load(cell), GetOrLoad::Load));
    assert!(cache.pending_contains(cell));
    assert!(!cache.contains(cell));
    let stored = tile(cell);
    cache.publish(cell, Arc::clone(&stored));
    assert_eq!(cache.len(), 1);
    assert!(cache.contains(cell));
    assert!(!cache.pending_contains(cell));
    match cache.get_or_begin_load(cell) {
        GetOrLoad::Hit(t) => {
            assert!(Arc::ptr_eq(&t, &stored));
            assert_eq!(t.sw(), cell);
        },
        _ => panic!("expected a hit after publish"),
    }
}

#[test]
fn test_cache_single_flight() {
    // 100 requests for one cell while nothing is cached: exactly the first
    // is told to load; the 99 others wait for it.
    let mut cache = HgtCache::new(8);
    let cell = CellKey { lat: 45, lng: 9 };
    let mut loads = 0;
    let mut waits = 0;
    for _ in 0..100 {
        match cache.get_or_begin_load(cell) {
            GetOrLoad::Load => loads += 1,
            GetOrLoad::Wait => waits += 1,
            GetOrLoad::Hit(_) => panic!("nothing was published yet"),
        }
    }
    assert_eq!(loads, 1);
    assert_eq!(waits, 99);

    // Once the one load publishes, every further request is a hit.
    cache.publish(cell, tile(cell));
    assert!(matches!(cache.get_or_begin_load(cell), GetOrLoad::Hit(_)));
}

#[test]
fn test_cache_hit_idempotent() {
    let mut cache = HgtCache::new(8);
    let cell = CellKey { lat: 51, lng: 13 };
    assert!(matches!(cache.get_or_begin_load(cell), GetOrLoad::Load));
    cache.publish(cell, tile(cell));
    let first = match cache.get_or_begin_load(cell) {
        GetOrLoad::Hit(t) => t,
        _ => panic!("expected a hit"),
    };
    let second = match cache.get_or_begin_load(cell) {
        GetOrLoad::Hit(t) => t,
        _ => panic!("expected a hit"),
    };
    assert!(Arc::ptr_eq(&first, &second));
}

#[test]
fn test_cache_lru_eviction() {
    let mut cache = HgtCache::new(2);
    let a = CellKey { lat: 1, lng: 1 };
    let b = CellKey { lat: 2, lng: 2 };
    let c = CellKey { lat: 3, lng: 3 };

    assert!(matches!(cache.get_or_begin_load(a), GetOrLoad::Load));
    cache.publish(a, tile(a));
    assert!(matches!(cache.get_or_begin_load(b), GetOrLoad::Load));
    cache.publish(b, tile(b));
    assert_eq!(cache.len(), 2);

    // Reading `a` promotes it, so `b` is now the least recently used.
    assert!(matches!(cache.get_or_begin_load(a), GetOrLoad::Hit(_)));

    assert!(matches!(cache.get_or_begin_load(c), GetOrLoad::Load));
    cache.publish(c, tile(c));

    // The size never exceeds the capacity, and the evicted cell is `b`.
    assert_eq!(cache.len(), 2);
    assert_eq!(cache.capacity(), 2);
    assert!(matches!(cache.get_or_begin_load(a), GetOrLoad::Hit(_)));
    assert!(matches!(cache.get_or_begin_load(c), GetOrLoad::Hit(_)));
    assert!(matches!(cache.get_or_begin_load(b), GetOrLoad::Load));
}

#[test]
fn test_cache_failed_load_not_cached() {
    let mut cache = HgtCache::new(8);
    let cell = CellKey { lat: 7, lng: 7 };
    assert!(matches!(cache.get_or_begin_load(cell), GetOrLoad::Load));
    cache.fail_load(cell);
    assert_eq!(cache.len(), 0);
    // The failure was not cached: the next request starts a fresh load.
    assert!(matches!(cache.get_or_begin_load(cell), GetOrLoad::Load));
}

#[test]
fn test_cache_zero_capacity_stores_nothing() {
    let mut cache = HgtCache::new(0);
    let cell = CellKey { lat: 0, lng: 0 };
    assert!(matches!(cache.get_or_begin_load(cell), GetOrLoad::Load));
    cache.publish(cell, tile(cell));
    assert_eq!(cache.len(), 0);
    assert!(matches!(cache.get_or_begin_load(cell), GetOrLoad::Load));
}

#[test]
fn test_tile_set_cache_roundtrip() {
    let mut cache = TileSetCache::new();
    let key = (45, 9);
    assert!(cache.get(&key).is_none());
    cache.insert(key, vec![1, 2, 3]);
    assert_eq!(cache.get(&key), Some(vec![1, 2, 3]));
    assert!(cache.get(&(45, 10)).is_none());
    cache.insert(key, vec![4]);
    assert_eq!(cache.get(&key), Some(vec![4]));
}
