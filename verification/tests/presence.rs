//! Presence cache: last-write-wins merge, TTL eviction, self-exclusion.

use collab_core::awareness::{Awareness, AwarenessCache, CACHE_TTL_MS};

fn id(b: u8) -> [u8; 32] {
    [b; 32]
}

fn record(peer: u8, name: &str, timestamp_ms: u64) -> Awareness {
    Awareness { endpoint_id: id(peer), name: String::from(name), timestamp_ms, cursors: None }
}

fn entry_for(cache: &AwarenessCache, peer: u8) -> Option<(String, u64, u64)> {
    cache
        .entries()
        .iter()
        .find(|e| e.record.endpoint_id == id(peer))
        .map(|e| (e.record.name.clone(), e.record.timestamp_ms, e.received_at_ms))
}

#[test]
fn lww_keeps_higher_timestamp_in_either_order() {
    let own = id(0);

    let mut cache = AwarenessCache::new();
    cache.update(&own, record(1, "early", 5), 100);
    cache.update(&own, record(1, "late", 7), 200);
    let (name, ts, _) = entry_for(&cache, 1).expect("entry present");
    assert_eq!((name.as_str(), ts), ("late", 7));

    let mut cache = AwarenessCache::new();
    cache.update(&own, record(1, "late", 7), 100);
    cache.update(&own, record(1, "early", 5), 200);
    let (name, ts, _) = entry_for(&cache, 1).expect("entry present");
    assert_eq!((name.as_str(), ts), ("late", 7));
}

#[test]
fn lww_tie_keeps_existing_record() {
    let own = id(0);
    let mut cache = AwarenessCache::new();
    cache.update(&own, record(1, "first", 7), 100);
    cache.update(&own, record(1, "second", 7), 200);
    let (name, ts, received) = entry_for(&cache, 1).expect("entry present");
    assert_eq!((name.as_str(), ts, received), ("first", 7, 100));
}

#[test]
fn stale_update_leaves_entry_unchanged() {
    let own = id(0);
    let mut cache = AwarenessCache::new();
    cache.update(&own, record(1, "current", 9), 100);
    cache.update(&own, record(1, "stale", 3), 500);
    let (name, ts, received) = entry_for(&cache, 1).expect("entry present");
    assert_eq!((name.as_str(), ts, received), ("current", 9, 100));
}

#[test]
fn eviction_removes_entries_at_ttl_and_keeps_fresh_ones() {
    let own = id(0);
    let mut cache = AwarenessCache::new();
    cache.update(&own, record(1, "old", 10), 1000);
    cache.update(&own, record(2, "fresh", 11), 2000);

    // not yet expired: one millisecond inside the TTL
    cache.evict_expired(1000 + CACHE_TTL_MS - 1);
    assert!(entry_for(&cache, 1).is_some());
    assert!(entry_for(&cache, 2).is_some());

    // exactly at the TTL the older entry goes, the fresher one stays
    cache.evict_expired(1000 + CACHE_TTL_MS);
    assert!(entry_for(&cache, 1).is_none());
    assert!(entry_for(&cache, 2).is_some());

    cache.evict_expired(2000 + CACHE_TTL_MS);
    assert!(entry_for(&cache, 2).is_none());
    assert!(cache.entries().is_empty());
}

#[test]
fn own_identity_never_stored() {
    let own = id(3);
    let mut cache = AwarenessCache::new();
    for ts in 1..20u64 {
        cache.update(&own, record(3, "self", ts), ts);
    }
    assert!(cache.entries().is_empty());
    cache.update(&own, record(4, "other", 1), 1);
    assert_eq!(cache.entries().len(), 1);
    for ts in 1..20u64 {
        cache.update(&own, record(3, "self", 1000 + ts), ts);
    }
    assert!(entry_for(&cache, 3).is_none());
    assert!(entry_for(&cache, 4).is_some());
}

#[test]
fn entries_hold_one_slot_per_peer() {
    let own = id(0);
    let mut cache = AwarenessCache::new();
    for ts in 1..10u64 {
        cache.update(&own, record(1, "a", ts), ts);
        cache.update(&own, record(2, "b", ts), ts);
    }
    assert_eq!(cache.entries().len(), 2);
}

#[test]
fn receipt_time_refresh_resets_eviction_clock() {
    let own = id(0);
    let mut cache = AwarenessCache::new();
    cache.update(&own, record(1, "p", 10), 1000);
    // refreshed with a newer timestamp later: receipt time moves forward
    cache.update(&own, record(1, "p", 11), 4000);
    cache.evict_expired(1000 + CACHE_TTL_MS);
    assert!(entry_for(&cache, 1).is_some());
    cache.evict_expired(4000 + CACHE_TTL_MS);
    assert!(entry_for(&cache, 1).is_none());
}
