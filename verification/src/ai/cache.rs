//! How many prompt tokens the provider served from its prefix cache.
use crate::ai::types::Usage;
use vstd::prelude::*;

verus! {

/// Cache statistics over all requests so far.
#[derive(Debug, Clone, Copy, PartialEq, Eq, Structural)]
pub struct CacheStats {
    /// Tokens that the provider's cache served.
    pub hit_tokens: u64,
    /// Tokens that the provider had to process.
    pub miss_tokens: u64,
    /// The number of requests.
    pub requests: u64,
}

impl Default for CacheStats {
    fn default() -> (r: Self)
        ensures
            r == (CacheStats { hit_tokens: 0, miss_tokens: 0, requests: 0 }),
    {
        CacheStats { hit_tokens: 0, miss_tokens: 0, requests: 0 }
    }
}

impl CacheStats {
    /// Whether one more request still fits the counters.
    pub open spec fn has_room(self, usage: Usage) -> bool {
        self.hit_tokens + usage.cache_read_tokens <= u64::MAX && self.miss_tokens
            + usage.cache_creation_tokens <= u64::MAX && self.requests < u64::MAX
    }

    /// Whether one more request still fits the counters.
    pub fn can_record(&self, usage: &Usage) -> (r: bool)
        ensures
            r == self.has_room(*usage),
    {
        usage.cache_read_tokens <= u64::MAX - self.hit_tokens && usage.cache_creation_tokens
            <= u64::MAX - self.miss_tokens && self.requests < u64::MAX
    }

    /// The statistics with one more request.
    pub open spec fn recorded(self, usage: Usage) -> CacheStats {
        CacheStats {
            hit_tokens: (self.hit_tokens + usage.cache_read_tokens) as u64,
            miss_tokens: (self.miss_tokens + usage.cache_creation_tokens) as u64,
            requests: (self.requests + 1) as u64,
        }
    }

    /// Counts one request.
    pub fn record(&mut self, usage: &Usage)
        requires
            old(self).has_room(*usage),
        ensures
            *final(self) == old(self).recorded(*usage),
    {
        self.hit_tokens = self.hit_tokens + usage.cache_read_tokens;
        self.miss_tokens = self.miss_tokens + usage.cache_creation_tokens;
        self.requests = self.requests + 1;
    }

    /// The share of cached prompt tokens as a fraction, hits over all, or `None`
    /// where no token was counted.
    pub fn hit_fraction(&self) -> (r: Option<(u64, u64)>)
        requires
            self.hit_tokens + self.miss_tokens <= u64::MAX,
        ensures
            r == (if self.hit_tokens + self.miss_tokens > 0 {
                Some((self.hit_tokens, (self.hit_tokens + self.miss_tokens) as u64))
            } else {
                None
            }),
    {
        let total: u64 = self.hit_tokens + self.miss_tokens;
        if total > 0 {
            Some((self.hit_tokens, total))
        } else {
            None
        }
    }
}

/// Both sides of the count only grow.
pub proof fn law_counts_never_fall(stats: CacheStats, usage: Usage)
    requires
        stats.has_room(usage),
    ensures
        stats.recorded(usage).hit_tokens >= stats.hit_tokens,
        stats.recorded(usage).miss_tokens >= stats.miss_tokens,
        stats.recorded(usage).requests == stats.requests + 1,
{
}

} // verus!
