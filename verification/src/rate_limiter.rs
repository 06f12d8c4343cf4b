//! A rate limiter whose buckets live in a cache shared by all server
//! processes. The caller reads the stored bucket and writes the new one
//! back; this module computes the key, the new bucket and the decision.
//!
//! The read and the write are two steps: callers on one key that race may
//! both decide on the count from before either consumed, so under load more
//! tokens can be granted than the bucket held.

use vstd::prelude::*;
use vstd::string::StringExecFns;
use crate::clock::unix_seconds;
use crate::token_bucket::TokenBucket;

verus! {

/// Tokens that a bucket holds when none is stored for its key.
pub const DEFAULT_CAPACITY: u32 = 10;

/// Tokens per second that such a bucket refills with.
pub const DEFAULT_REFILL_RATE: u32 = 1;

/// Seconds that a stored bucket outlives its last use.
pub const IDLE_TTL_SECS: u64 = 3600;

/// The configuration of the limiter.
#[derive(Clone, Copy, Debug, PartialEq, Eq, Structural)]
pub struct DistributedRateLimiter {
    pub default_capacity: u32,
    pub default_refill_rate: u32,
    pub idle_ttl_secs: u64,
}

/// The outcome of an acquisition: whether the tokens were granted, and the
/// bucket to store under the key, to expire after `ttl_secs` idle seconds.
#[derive(Clone, Copy, Debug, PartialEq, Eq, Structural)]
pub struct Acquisition {
    pub granted: bool,
    pub bucket: TokenBucket,
    pub ttl_secs: u64,
}

/// The cache key of the bucket of `key`.
pub open spec fn bucket_key_of(key: Seq<char>) -> Seq<char> {
    "rate_limit:"@ + key
}

impl DistributedRateLimiter {
    /// The bucket that an acquisition at `now` starts from: the stored one,
    /// or a full bucket of the default size when none is stored.
    pub open spec fn starting_bucket(self, stored: Option<TokenBucket>, now: u64) -> TokenBucket {
        match stored {
            Some(bucket) => bucket,
            None => TokenBucket::full(self.default_capacity, self.default_refill_rate, now),
        }
    }

    /// The outcome of acquiring `tokens` at `now`.
    pub open spec fn acquired(self, stored: Option<TokenBucket>, now: u64, tokens: u32)
        -> Acquisition {
        Acquisition {
            granted: self.starting_bucket(stored, now).refilled(now).can_take(tokens),
            bucket: self.starting_bucket(stored, now).refilled(now).taken(tokens),
            ttl_secs: self.idle_ttl_secs,
        }
    }

    /// Nanoseconds until a token can be had at `now`: none when no bucket
    /// is stored, as an absent bucket is a full one.
    pub open spec fn wait_nanos_of(stored: Option<TokenBucket>, now: u64) -> nat {
        match stored {
            Some(bucket) => bucket.wait_nanos_at(now),
            None => 0,
        }
    }

    /// A limiter with the default capacity, rate and idle time.
    pub fn new() -> (limiter: DistributedRateLimiter)
        ensures
            limiter.default_capacity == DEFAULT_CAPACITY,
            limiter.default_refill_rate == DEFAULT_REFILL_RATE,
            limiter.idle_ttl_secs == IDLE_TTL_SECS,
    {
        DistributedRateLimiter {
            default_capacity: DEFAULT_CAPACITY,
            default_refill_rate: DEFAULT_REFILL_RATE,
            idle_ttl_secs: IDLE_TTL_SECS,
        }
    }

    /// The cache key under which the bucket of `key` is stored.
    pub fn bucket_key(&self, key: &str) -> (cache_key: String)
        ensures
            cache_key@ == bucket_key_of(key@),
    {
        String::from_str("rate_limit:").concat(key)
    }

    /// Acquires `tokens` at `now` from the bucket read from the cache, if
    /// one was there. The bucket of the outcome is to be written back
    /// whether or not the tokens were granted.
    pub fn try_acquire_at(&self, stored: Option<TokenBucket>, now: u64, tokens: u32) -> (outcome:
        Acquisition)
        ensures
            outcome == self.acquired(stored, now, tokens),
            outcome.granted ==> outcome.bucket.tokens + tokens == self.starting_bucket(
                stored,
                now,
            ).refilled(now).tokens,
            self.starting_bucket(stored, now).wf() ==> outcome.bucket.wf(),
    {
        let mut bucket: TokenBucket = match stored {
            Some(bucket) => bucket,
            None => TokenBucket::full_at(self.default_capacity, self.default_refill_rate, now),
        };
        let granted = bucket.try_consume_at(now, tokens);
        Acquisition { granted, bucket, ttl_secs: self.idle_ttl_secs }
    }

    /// Acquires `tokens` at the clock's present reading.
    pub fn try_acquire(&self, stored: Option<TokenBucket>, tokens: u32) -> (outcome: Acquisition)
        ensures
            exists|now: u64| outcome == #[trigger] self.acquired(stored, now, tokens),
            outcome.ttl_secs == self.idle_ttl_secs,
    {
        let now: u64 = unix_seconds();
        self.try_acquire_at(stored, now, tokens)
    }

    /// Nanoseconds until a token can be had at `now` from the bucket read
    /// from the cache. Nothing is to be written back.
    pub fn get_wait_time_at(&self, stored: Option<TokenBucket>, now: u64) -> (nanos: u64)
        requires
            stored is Some ==> stored->Some_0.refill_rate > 0,
        ensures
            nanos as nat == Self::wait_nanos_of(stored, now),
            nanos <= 1_000_000_000,
    {
        match stored {
            Some(bucket) => bucket.wait_nanos(now),
            None => 0,
        }
    }

    /// Nanoseconds until a token can be had at the clock's present reading.
    pub fn get_wait_time(&self, stored: Option<TokenBucket>) -> (nanos: u64)
        requires
            stored is Some ==> stored->Some_0.refill_rate > 0,
        ensures
            exists|now: u64| nanos as nat == #[trigger] Self::wait_nanos_of(stored, now),
            stored is None ==> nanos == 0,
            nanos <= 1_000_000_000,
    {
        let now: u64 = unix_seconds();
        self.get_wait_time_at(stored, now)
    }
}

/// Whether a caller that was counted `count` times in the present window,
/// or not at all, stays below `limit`. The caller then counts the call and
/// renews the window; else the call is refused.
pub fn check_rate_limit(count: Option<u32>, limit: u32) -> (allowed: bool)
    ensures
        allowed == (match count {
            Some(n) => n < limit,
            None => 0 < limit,
        }),
{
    match count {
        Some(n) => n < limit,
        None => 0 < limit,
    }
}

/// A limiter of the default configuration, once its bucket was drained at
/// some second, refuses a token in that second and asks for a wait of one
/// second; ten seconds later it grants ten tokens again.
pub proof fn lemma_default_limiter_recovers(drained_at: u64)
    requires
        drained_at + 10 <= u64::MAX,
    ensures
        ({
            let limiter = DistributedRateLimiter {
                default_capacity: DEFAULT_CAPACITY,
                default_refill_rate: DEFAULT_REFILL_RATE,
                idle_ttl_secs: IDLE_TTL_SECS,
            };
            let drained = limiter.acquired(None, drained_at, 10);
            &&& drained.granted
            &&& drained.bucket.tokens == 0
            &&& !limiter.acquired(Some(drained.bucket), drained_at, 1).granted
            &&& DistributedRateLimiter::wait_nanos_of(Some(drained.bucket), drained_at)
                == 1_000_000_000
            &&& limiter.acquired(Some(drained.bucket), (drained_at + 10) as u64, 10).granted
        }),
{
    let full = TokenBucket::full(DEFAULT_CAPACITY, DEFAULT_REFILL_RATE, drained_at);
    assert(full.accrued(drained_at) == 0) by (nonlinear_arith)
        requires
            full.accrued(drained_at) == 0 * (full.refill_rate as nat),
    ;
    let drained = full.refilled(drained_at).taken(10);
    assert(drained.tokens == 0);
    assert(drained.last_refill == drained_at);
    assert(drained.accrued(drained_at) == 0) by (nonlinear_arith)
        requires
            drained.accrued(drained_at) == 0 * (drained.refill_rate as nat),
    ;
    assert(drained.accrued((drained_at + 10) as u64) == 10) by (nonlinear_arith)
        requires
            drained.accrued((drained_at + 10) as u64) == 10 * (drained.refill_rate as nat),
            drained.refill_rate == 1,
    ;
}

} // verus!
