use swap_sync::clock::unix_seconds;
use swap_sync::rate_limiter::{Acquisition, DistributedRateLimiter};
use swap_sync::token_bucket::TokenBucket;

fn bucket(tokens: u32, last_refill: u64, capacity: u32, refill_rate: u32) -> TokenBucket {
    TokenBucket { tokens, last_refill, capacity, refill_rate }
}

#[test]
fn new_bucket_is_full() {
    let before = unix_seconds();
    let b = TokenBucket::new(10, 1);
    let after = unix_seconds();
    assert_eq!(b.tokens, 10);
    assert_eq!(b.capacity, 10);
    assert_eq!(b.refill_rate, 1);
    assert!(before <= b.last_refill && b.last_refill <= after);
}

#[test]
fn clock_reads_a_plausible_second() {
    // Later than the first of January 2020.
    assert!(unix_seconds() > 1_577_836_800);
}

#[test]
fn full_at_sets_every_field() {
    assert_eq!(TokenBucket::full_at(7, 3, 42), bucket(7, 42, 7, 3));
}

#[test]
fn consume_takes_exactly_what_is_asked() {
    let mut b = TokenBucket::full_at(10, 1, 100);
    assert!(b.try_consume_at(100, 3));
    assert_eq!(b, bucket(7, 100, 10, 1));
    assert!(b.try_consume_at(100, 7));
    assert_eq!(b.tokens, 0);
}

#[test]
fn consume_of_too_much_changes_nothing() {
    let mut b = bucket(2, 100, 10, 1);
    assert!(!b.try_consume_at(100, 3));
    assert_eq!(b, bucket(2, 100, 10, 1));
}

#[test]
fn consume_of_nothing_is_granted_on_an_empty_bucket() {
    let mut b = bucket(0, 100, 10, 1);
    assert!(b.try_consume_at(100, 0));
    assert_eq!(b.tokens, 0);
}

#[test]
fn refill_adds_rate_times_seconds() {
    let mut b = bucket(1, 100, 10, 2);
    b.refill_at(103);
    assert_eq!(b, bucket(7, 103, 10, 2));
}

#[test]
fn refill_is_clamped_to_the_capacity() {
    let mut b = bucket(5, 100, 10, 2);
    b.refill_at(200);
    assert_eq!(b, bucket(10, 200, 10, 2));
}

#[test]
fn refill_within_the_same_second_leaves_the_refill_time() {
    let mut b = bucket(3, 100, 10, 1);
    b.refill_at(100);
    assert_eq!(b, bucket(3, 100, 10, 1));
}

#[test]
fn refill_with_the_clock_gone_backwards_adds_nothing() {
    let mut b = bucket(3, 100, 10, 1);
    b.refill_at(40);
    assert_eq!(b, bucket(3, 100, 10, 1));
}

#[test]
fn refill_with_a_rate_of_zero_leaves_the_bucket() {
    let mut b = bucket(3, 100, 10, 0);
    b.refill_at(500);
    assert_eq!(b, bucket(3, 100, 10, 0));
}

#[test]
fn refill_over_a_huge_span_does_not_overflow() {
    let mut b = bucket(1, 0, u32::MAX, u32::MAX);
    b.refill_at(u64::MAX);
    assert_eq!(b, bucket(u32::MAX, u64::MAX, u32::MAX, u32::MAX));
}

#[test]
fn tokens_stay_within_bounds_over_a_run_of_operations() {
    let mut b = TokenBucket::full_at(5, 2, 0);
    let mut now: u64 = 0;
    for step in 0..200u64 {
        now += step % 3;
        let asked = (step % 7) as u32;
        let had = {
            let mut probe = b;
            probe.refill_at(now);
            probe.tokens
        };
        let granted = b.try_consume_at(now, asked);
        assert!(b.tokens <= b.capacity);
        assert_eq!(granted, had >= asked);
        assert_eq!(b.tokens, if granted { had - asked } else { had });
        assert_eq!(b.capacity, 5);
        assert_eq!(b.refill_rate, 2);
    }
}

#[test]
fn clocked_consume_and_refill_keep_the_bounds() {
    let mut b = TokenBucket::new(4, 1);
    assert!(b.try_consume(4));
    assert!(b.tokens <= 4);
    b.refill();
    assert!(b.tokens <= 4);
    assert!(!b.try_consume(5));
}

#[test]
fn wait_is_zero_while_tokens_are_left() {
    assert_eq!(bucket(1, 100, 10, 1).wait_nanos(100), 0);
    assert_eq!(bucket(0, 100, 10, 1).wait_nanos(101), 0);
}

#[test]
fn wait_is_the_time_of_one_token() {
    assert_eq!(bucket(0, 100, 10, 1).wait_nanos(100), 1_000_000_000);
    assert_eq!(bucket(0, 100, 10, 4).wait_nanos(100), 250_000_000);
    assert_eq!(bucket(0, 100, 10, 3).wait_nanos(100), 333_333_333);
}

#[test]
fn limiter_defaults() {
    let limiter = DistributedRateLimiter::new();
    assert_eq!(limiter.default_capacity, 10);
    assert_eq!(limiter.default_refill_rate, 1);
    assert_eq!(limiter.idle_ttl_secs, 3600);
}

#[test]
fn limiter_key_has_the_prefix() {
    let limiter = DistributedRateLimiter::new();
    assert_eq!(limiter.bucket_key("trocador"), "rate_limit:trocador");
    assert_eq!(limiter.bucket_key(""), "rate_limit:");
}

#[test]
fn absent_bucket_counts_as_full() {
    let limiter = DistributedRateLimiter::new();
    let got = limiter.try_acquire_at(None, 500, 4);
    assert_eq!(
        got,
        Acquisition { granted: true, bucket: bucket(6, 500, 10, 1), ttl_secs: 3600 }
    );
    assert_eq!(limiter.get_wait_time_at(None, 500), 0);
}

#[test]
fn refused_acquisition_still_returns_the_bucket_to_store() {
    let limiter = DistributedRateLimiter::new();
    let got = limiter.try_acquire_at(Some(bucket(1, 500, 10, 1)), 500, 2);
    assert!(!got.granted);
    assert_eq!(got.bucket, bucket(1, 500, 10, 1));
    assert_eq!(got.ttl_secs, 3600);
}

#[test]
fn drained_bucket_denies_then_recovers_after_ten_seconds() {
    let limiter = DistributedRateLimiter::new();
    let drained = limiter.try_acquire_at(None, 1_000, 10);
    assert!(drained.granted);
    assert_eq!(drained.bucket.tokens, 0);

    let denied = limiter.try_acquire_at(Some(drained.bucket), 1_000, 1);
    assert!(!denied.granted);
    assert_eq!(limiter.get_wait_time_at(Some(denied.bucket), 1_000), 1_000_000_000);

    let again = limiter.try_acquire_at(Some(denied.bucket), 1_010, 10);
    assert!(again.granted);
    assert_eq!(again.bucket, bucket(0, 1_010, 10, 1));
}

#[test]
fn clocked_acquisition_from_an_absent_bucket() {
    let limiter = DistributedRateLimiter::new();
    let got = limiter.try_acquire(None, 10);
    assert!(got.granted);
    assert_eq!(got.bucket.tokens, 0);
    assert_eq!(got.ttl_secs, 3600);
    assert_eq!(limiter.get_wait_time(None), 0);
    assert_eq!(limiter.get_wait_time(Some(got.bucket)), 1_000_000_000);
}

#[test]
fn window_counter_allows_below_the_limit_only() {
    assert!(swap_sync::rate_limiter::check_rate_limit(None, 1));
    assert!(swap_sync::rate_limiter::check_rate_limit(Some(4), 5));
    assert!(!swap_sync::rate_limiter::check_rate_limit(Some(5), 5));
    assert!(!swap_sync::rate_limiter::check_rate_limit(None, 0));
}
