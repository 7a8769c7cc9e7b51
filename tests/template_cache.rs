use loco_mcp::template_cache::{CacheConfig, CacheStats, CachedTemplate};

#[test]
fn cached_template_counts_uses() {
    let mut t = CachedTemplate::new("<h1>{{ title }}</h1>".to_string());
    assert_eq!(t.usage_count, 0);
    assert_eq!(t.compiled_at, t.last_used);
    t.mark_used();
    t.mark_used();
    assert_eq!(t.usage_count, 2);
    assert!(t.last_used >= t.compiled_at);
    assert_eq!(t.content, "<h1>{{ title }}</h1>");
}

#[test]
fn cache_defaults() {
    let c = CacheConfig::default();
    assert_eq!(c.max_entries, 1000);
    assert_eq!(c.max_template_size, 100000);
    assert_eq!(c.ttl_seconds, 3600);
    assert_eq!(c.cleanup_interval_seconds, 300);
    let s = CacheStats::new();
    assert_eq!(s.total_entries, 0);
    assert_eq!(s.cache_hits + s.cache_misses, 0);
    assert_eq!(CacheStats::default().lru_removed_count, 0);
}
