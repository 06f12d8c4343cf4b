//! Synchronisation and resilience rules of a swap aggregator: token-bucket
//! throttling, retry with exponential backoff, staleness of cached reference
//! data, upsert reconciliation and the quote cache.

pub mod clock;
pub mod currencies;
pub mod error;
pub mod keyed;
pub mod providers;
pub mod queries;
pub mod quotes;
pub mod rate_limiter;
pub mod retry;
pub mod staleness;
pub mod swap;
pub mod sync;
pub mod text;
pub mod token_bucket;
