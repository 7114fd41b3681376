use named::cache::{cache_key, DnsCache, MAX_INITIAL_CAPACITY};
use named::entry::{shortest_ttl, CacheEntry, CachedRecord, DEFAULT_TTL};
use named::metrics::{memory_usage_mib, CacheMetrics};

fn rec(ttl: u32, data: &[u8]) -> CachedRecord {
    CachedRecord { ttl, data: data.to_vec() }
}

fn ttls_and_data(records: &[CachedRecord]) -> Vec<(u32, Vec<u8>)> {
    records.iter().map(|r| (r.ttl, r.data.clone())).collect()
}

#[test]
fn shortest_ttl_is_the_minimum_or_sixty() {
    assert_eq!(shortest_ttl(&vec![]), DEFAULT_TTL);
    assert_eq!(DEFAULT_TTL, 60);
    assert_eq!(shortest_ttl(&vec![rec(300, b"a"), rec(30, b"b"), rec(120, b"c")]), 30);
    assert_eq!(shortest_ttl(&vec![rec(7, b"")]), 7);
}

#[test]
fn new_entry_is_fresh_and_used_once() {
    let e = CacheEntry::new_at(vec![rec(10, b"x")], 1000);
    assert_eq!(e.saved_at, 1000);
    assert_eq!(e.last_access, 1000);
    assert_eq!(e.access_count, 1);
    assert_eq!(e.shortest_ttl, 10);
    assert!(!e.is_expired_at(1000));
    assert!(!e.is_expired_at(1010));
    assert!(e.is_expired_at(1011));
}

#[test]
fn entry_saved_in_the_future_counts_as_expired() {
    let e = CacheEntry::new_at(vec![rec(10, b"x")], 1000);
    assert!(e.is_expired_at(999));
}

#[test]
fn access_counts_and_wraps() {
    let mut e = CacheEntry::new_at(vec![], 5);
    e.access_at(9);
    assert_eq!(e.access_count, 2);
    assert_eq!(e.last_access, 9);
    assert_eq!(e.saved_at, 5);
    e.access_count = u64::MAX;
    e.access_at(10);
    assert_eq!(e.access_count, 0);
}

#[test]
fn clock_versions_run() {
    let mut e = CacheEntry::new(vec![rec(3600, b"x")]);
    assert_eq!(e.access_count, 1);
    assert!(e.saved_at > 1_600_000_000);
    e.access();
    assert_eq!(e.access_count, 2);
    assert!(!e.is_expired());
}

#[test]
fn cache_key_joins_name_and_type() {
    assert_eq!(cache_key("example.com.", "A"), "example.com./A");
}

#[test]
fn stored_answer_is_served_until_its_ttl_runs_out() {
    let mut cache = DnsCache::new(16);
    let mut m = CacheMetrics::new();
    let key = cache_key("example.com.", "A");
    assert!(cache.lookup_at(&mut m, &key, 100).is_none());
    assert_eq!((m.hits, m.misses), (0, 1));
    let answer = vec![rec(30, &[1, 2, 3]), rec(20, &[4])];
    let served = cache.complete_at(key.clone(), Some(answer.clone()), 100);
    assert_eq!(ttls_and_data(&served), ttls_and_data(&answer));
    assert_eq!(cache.len(), 1);
    let hit = cache.lookup_at(&mut m, &key, 120).expect("fresh entry");
    assert_eq!(ttls_and_data(&hit), ttls_and_data(&answer));
    assert_eq!((m.hits, m.misses), (1, 1));
    assert!(cache.lookup_at(&mut m, &key, 121).is_none());
    assert_eq!((m.hits, m.misses), (1, 2));
}

#[test]
fn hits_do_not_extend_life() {
    let mut cache = DnsCache::new(4);
    let mut m = CacheMetrics::new();
    cache.complete_at("k".to_string(), Some(vec![rec(10, b"v")]), 0);
    for t in 1..=10 {
        assert!(cache.lookup_at(&mut m, "k", t).is_some());
    }
    assert!(cache.lookup_at(&mut m, "k", 11).is_none());
}

#[test]
fn failed_resolution_serves_expired_entry_or_nothing() {
    let mut cache = DnsCache::new(4);
    let mut m = CacheMetrics::new();
    cache.complete_at("k".to_string(), Some(vec![rec(5, b"old")]), 0);
    assert!(cache.lookup_at(&mut m, "k", 50).is_none());
    let stale = cache.complete_at("k".to_string(), None, 50);
    assert_eq!(ttls_and_data(&stale), vec![(5, b"old".to_vec())]);
    let nothing = cache.complete_at("other".to_string(), None, 50);
    assert!(nothing.is_empty());
    assert_eq!(cache.len(), 1);
}

#[test]
fn new_answer_replaces_old_entry() {
    let mut cache = DnsCache::new(4);
    let mut m = CacheMetrics::new();
    cache.complete_at("k".to_string(), Some(vec![rec(5, b"old")]), 0);
    cache.complete_at("k".to_string(), Some(vec![rec(50, b"new")]), 40);
    let hit = cache.lookup_at(&mut m, "k", 60).expect("replaced entry");
    assert_eq!(ttls_and_data(&hit), vec![(50, b"new".to_vec())]);
    assert_eq!(cache.len(), 1);
}

#[test]
fn empty_answer_lives_sixty_seconds() {
    let mut cache = DnsCache::new(4);
    let mut m = CacheMetrics::new();
    cache.complete_at("nx".to_string(), Some(vec![]), 0);
    assert!(cache.lookup_at(&mut m, "nx", 60).is_some());
    assert!(cache.lookup_at(&mut m, "nx", 61).is_none());
}

#[test]
fn cleanup_drops_exactly_the_expired_entries() {
    let mut cache = DnsCache::new(4);
    let mut m = CacheMetrics::new();
    cache.complete_at("a".to_string(), Some(vec![rec(10, b"a")]), 0);
    cache.complete_at("b".to_string(), Some(vec![rec(100, b"b")]), 0);
    cache.complete_at("c".to_string(), Some(vec![rec(1, b"c")]), 0);
    assert_eq!(cache.cleanup_at(50), 2);
    assert_eq!(cache.len(), 1);
    assert!(cache.lookup_at(&mut m, "b", 50).is_some());
    assert_eq!(cache.cleanup_at(50), 0);
    assert!(cache.capacity() >= 1);
}

#[test]
fn cache_is_made_with_room_for_its_initial_capacity() {
    let cache = DnsCache::new(10_000);
    assert_eq!(cache.len(), 0);
    assert!(cache.capacity() >= 10_000);
    assert_eq!(MAX_INITIAL_CAPACITY, usize::MAX / 1024);
}

#[test]
fn clock_versions_of_the_cache_run() {
    let mut cache = DnsCache::new(4);
    let mut m = CacheMetrics::new();
    assert!(cache.lookup(&mut m, "k").is_none());
    cache.complete("k".to_string(), Some(vec![rec(3600, b"v")]));
    assert!(cache.lookup(&mut m, "k").is_some());
    assert_eq!(cache.cleanup(), 0);
}

#[test]
fn metrics_count_and_reset() {
    let mut m = CacheMetrics::new();
    m.record_hit();
    m.record_hit();
    m.record_miss();
    m.record_response_time(12);
    m.record_response_time(30);
    assert_eq!((m.hits, m.misses, m.total_response_time, m.response_count), (2, 1, 42, 2));
    m.total_response_time = u64::MAX;
    m.record_response_time(2);
    assert_eq!(m.total_response_time, 1);
    m.hits = u64::MAX;
    m.record_hit();
    assert_eq!(m.hits, 0);
    m.reset();
    assert_eq!((m.hits, m.misses, m.total_response_time, m.response_count), (0, 0, 0, 0));
}

#[test]
fn hits_add_up_and_reset_starts_a_new_period() {
    let mut m = CacheMetrics::new();
    for _ in 0..1000 {
        m.record_hit();
    }
    m.record_miss();
    m.record_response_time(5);
    assert_eq!((m.hits, m.misses, m.total_response_time, m.response_count), (1000, 1, 5, 1));
    m.reset();
    m.record_hit();
    m.record_response_time(7);
    assert_eq!((m.hits, m.misses, m.total_response_time, m.response_count), (1, 0, 7, 1));
}

#[test]
fn memory_usage_in_mebibytes() {
    assert_eq!(memory_usage_mib(10_000, 80), 0);
    assert_eq!(memory_usage_mib(1 << 20, 3), 3);
    assert_eq!(memory_usage_mib(3 << 20, 1), 3);
}
