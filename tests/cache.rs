use ip_api::cache::{CacheLookup, DnsCache};

const SEC: u64 = 1000;

#[test]
fn cache_scenario_ttl_300() {
    let mut cache = DnsCache::new(300 * SEC);
    cache.insert_at("8.8.8.8".to_string(), Some("dns.google".to_string()), 0);
    assert_eq!(
        cache.get_at("8.8.8.8", 299 * SEC),
        CacheLookup::Present(Some("dns.google".to_string()))
    );
    assert_eq!(cache.get_at("8.8.8.8", 301 * SEC), CacheLookup::Absent);
}

#[test]
fn cache_entry_expires_exactly_at_ttl() {
    let mut cache = DnsCache::new(10);
    cache.insert_at("1.1.1.1".to_string(), Some("one.one.one.one".to_string()), 5);
    assert_eq!(
        cache.get_at("1.1.1.1", 14),
        CacheLookup::Present(Some("one.one.one.one".to_string()))
    );
    assert_eq!(cache.get_at("1.1.1.1", 15), CacheLookup::Absent);
    // Lazy expiry leaves the entry in place until a sweep.
    assert_eq!(cache.size(), 1);
}

#[test]
fn cache_unknown_key_is_absent() {
    let cache = DnsCache::new(300 * SEC);
    assert_eq!(cache.get_at("10.0.0.1", 0), CacheLookup::Absent);
    assert_eq!(cache.size(), 0);
}

#[test]
fn cache_keeps_failed_lookups() {
    let mut cache = DnsCache::new(60 * SEC);
    cache.insert_at("192.0.2.1".to_string(), None, 0);
    assert_eq!(cache.get_at("192.0.2.1", 59 * SEC), CacheLookup::Present(None));
    assert_eq!(cache.get_at("192.0.2.1", 60 * SEC), CacheLookup::Absent);
}

#[test]
fn cache_overwrite_replaces_value_and_expiry() {
    let mut cache = DnsCache::new(100);
    cache.insert_at("9.9.9.9".to_string(), Some("old.example".to_string()), 0);
    cache.insert_at("9.9.9.9".to_string(), Some("new.example".to_string()), 50);
    assert_eq!(cache.size(), 1);
    assert_eq!(
        cache.get_at("9.9.9.9", 120),
        CacheLookup::Present(Some("new.example".to_string()))
    );
    assert_eq!(cache.get_at("9.9.9.9", 150), CacheLookup::Absent);
}

#[test]
fn cache_cleanup_keeps_only_live_entries() {
    let mut cache = DnsCache::new(100);
    cache.insert_at("a".to_string(), Some("a.example".to_string()), 0);
    cache.insert_at("b".to_string(), None, 50);
    cache.insert_at("c".to_string(), Some("c.example".to_string()), 80);
    assert_eq!(cache.size(), 3);
    // At 150, "a" (expires 100) and "b" (expires 150) are gone; "c" (180) stays.
    cache.cleanup_at(150);
    assert_eq!(cache.size(), 1);
    assert_eq!(cache.get_at("a", 0), CacheLookup::Absent);
    assert_eq!(
        cache.get_at("c", 150),
        CacheLookup::Present(Some("c.example".to_string()))
    );
    cache.cleanup_at(150);
    assert_eq!(cache.size(), 1);
    cache.cleanup_at(180);
    assert_eq!(cache.size(), 0);
}

#[test]
fn cache_expiry_saturates_at_clock_limit() {
    let mut cache = DnsCache::new(u64::MAX);
    cache.insert_at("k".to_string(), None, 10);
    assert_eq!(cache.get_at("k", u64::MAX - 1), CacheLookup::Present(None));
}

#[test]
fn cache_with_live_clock() {
    let mut cache = DnsCache::new(300 * SEC);
    cache.insert("8.8.4.4".to_string(), Some("dns.google".to_string()));
    assert_eq!(
        cache.get("8.8.4.4"),
        CacheLookup::Present(Some("dns.google".to_string()))
    );
    cache.cleanup();
    assert_eq!(cache.size(), 1);
}
