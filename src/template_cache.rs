//! Records kept by the template cache: entries, limits and counters.
use vstd::prelude::*;

verus! {

#[verifier::external_type_specification]
#[verifier::external_body]
pub struct ExSystemTime(std::time::SystemTime);

/// Relies on `SystemTime::now`: the current time of the system clock, about
/// which nothing is promised.
#[verifier::external_body]
fn system_now() -> std::time::SystemTime {
    std::time::SystemTime::now()
}

/// A cached template with when it was made, when it was last used, and how
/// often.
#[derive(Debug)]
pub struct CachedTemplate {
    pub content: String,
    pub compiled_at: std::time::SystemTime,
    pub usage_count: u64,
    pub last_used: std::time::SystemTime,
}

impl CachedTemplate {
    /// A fresh entry, made and last used now, not yet counted as used.
    pub fn new(content: String) -> (r: Self)
        ensures
            r.content == content,
            r.usage_count == 0,
            r.compiled_at == r.last_used,
    {
        let now = system_now();
        CachedTemplate { content, compiled_at: now, usage_count: 0, last_used: now }
    }

    /// Counts one more use, made now.
    pub fn mark_used(&mut self)
        requires
            old(self).usage_count < u64::MAX,
        ensures
            final(self).usage_count == old(self).usage_count + 1,
            final(self).content == old(self).content,
            final(self).compiled_at == old(self).compiled_at,
    {
        self.usage_count = self.usage_count + 1;
        self.last_used = system_now();
    }
}

/// Limits of the template cache.
#[derive(Debug, Clone, Copy)]
pub struct CacheConfig {
    pub max_entries: usize,
    pub max_template_size: usize,
    pub ttl_seconds: u64,
    pub cleanup_interval_seconds: u64,
}

impl Default for CacheConfig {
    /// A thousand entries of up to 100 KB each, kept for an hour, swept
    /// every five minutes.
    fn default() -> (r: CacheConfig)
        ensures
            r.max_entries == 1000,
            r.max_template_size == 100000,
            r.ttl_seconds == 3600,
            r.cleanup_interval_seconds == 300,
    {
        CacheConfig {
            max_entries: 1000,
            max_template_size: 100000,
            ttl_seconds: 3600,
            cleanup_interval_seconds: 300,
        }
    }
}

/// Counters of the template cache.
#[derive(Debug, Clone, Copy)]
pub struct CacheStats {
    pub total_entries: usize,
    pub total_size_bytes: usize,
    pub cache_hits: u64,
    pub cache_misses: u64,
    pub cleanup_count: u64,
    pub lru_cleanup_count: u64,
    pub lru_removed_count: u64,
}

impl CacheStats {
    /// All counters at zero.
    pub fn new() -> (r: Self)
        ensures
            r.total_entries == 0,
            r.total_size_bytes == 0,
            r.cache_hits == 0,
            r.cache_misses == 0,
            r.cleanup_count == 0,
            r.lru_cleanup_count == 0,
            r.lru_removed_count == 0,
    {
        CacheStats {
            total_entries: 0,
            total_size_bytes: 0,
            cache_hits: 0,
            cache_misses: 0,
            cleanup_count: 0,
            lru_cleanup_count: 0,
            lru_removed_count: 0,
        }
    }
}

impl Default for CacheStats {
    fn default() -> (r: CacheStats)
        ensures
            r.total_entries == 0,
            r.cache_hits == 0,
            r.cache_misses == 0,
    {
        CacheStats::new()
    }
}

} // verus!
