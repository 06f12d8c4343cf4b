use swap_sync::error::SwapError;
use swap_sync::retry::{backoff_seconds, is_rate_limit_error, RetryState, RetryStep, MAX_RETRIES};

fn fail(msg: &str) -> Result<u32, String> {
    Err(msg.to_string())
}

#[test]
fn rate_limit_messages_are_recognised() {
    assert!(is_rate_limit_error("Rate limit exceeded"));
    assert!(is_rate_limit_error("upstream rate limit hit"));
    assert!(is_rate_limit_error("HTTP status 429"));
    assert!(is_rate_limit_error("429"));
    assert!(is_rate_limit_error("Too Many Requests"));
    assert!(is_rate_limit_error("too many requests"));
    assert!(is_rate_limit_error("RATE LIMIT exceeded"));
    assert!(is_rate_limit_error("Rate Limit"));
}

#[test]
fn lowered_messages_are_matched_as_they_stand() {
    assert!(swap_sync::retry::is_rate_limit_lowered("rate limit"));
    assert!(swap_sync::retry::is_rate_limit_lowered("status 429"));
    assert!(swap_sync::retry::is_rate_limit_lowered("too many requests, slow down"));
    assert!(!swap_sync::retry::is_rate_limit_lowered("Rate limit"));
    assert!(!swap_sync::retry::is_rate_limit_lowered("Too Many Requests"));
    assert!(!swap_sync::retry::is_rate_limit_lowered(""));
}

#[test]
fn lowercase_failure_is_retried_after_one_second() {
    let calls = std::cell::Cell::new(0u32);
    let sleeps = std::cell::RefCell::new(Vec::new());
    let (result, state) = swap_sync::retry::call_with_retry(
        || {
            calls.set(calls.get() + 1);
            if calls.get() == 1 {
                Err("too many requests".to_string())
            } else {
                Ok(11u8)
            }
        },
        |secs| sleeps.borrow_mut().push(secs),
    );
    assert!(matches!(result, Ok(11)));
    assert_eq!(calls.get(), 2);
    assert_eq!(*sleeps.borrow(), vec![1]);
    assert_eq!(state, RetryState { retries: 1, slept_secs: 1 });
}

#[test]
fn other_messages_are_not() {
    assert!(!is_rate_limit_error(""));
    assert!(!is_rate_limit_error("invalid address"));
    assert!(!is_rate_limit_error("ratelimit"));
    assert!(!is_rate_limit_error("too many request"));
    assert!(!is_rate_limit_error("42 9"));
}

#[test]
fn backoff_doubles() {
    assert_eq!(backoff_seconds(1), 1);
    assert_eq!(backoff_seconds(2), 2);
    assert_eq!(backoff_seconds(3), 4);
    assert_eq!(backoff_seconds(4), 8);
    assert_eq!(backoff_seconds(64), 1u64 << 63);
}

#[test]
fn first_call_starts_from_nothing() {
    assert_eq!(RetryState::new(), RetryState { retries: 0, slept_secs: 0 });
}

#[test]
fn seconds_slept_stop_at_the_largest_number() {
    let state = RetryState { retries: 0, slept_secs: u64::MAX };
    match state.next(fail("429")) {
        RetryStep::Backoff { delay_secs, next } => {
            assert_eq!(delay_secs, 1);
            assert_eq!(next, RetryState { retries: 1, slept_secs: u64::MAX });
        }
        _ => panic!("expected a backoff"),
    }
}

#[test]
fn success_ends_the_operation_at_once() {
    let step = RetryState::new().next(Ok::<u32, String>(7));
    assert!(matches!(step, RetryStep::Finished(Ok(7))));
}

#[test]
fn two_rate_limit_failures_then_success() {
    let mut sleeps = Vec::new();
    let mut state = RetryState::new();
    let outcomes = vec![fail("429 Too Many Requests"), fail("Rate limit"), Ok(99)];
    let mut result = None;
    for outcome in outcomes {
        match state.next(outcome) {
            RetryStep::Backoff { delay_secs, next } => {
                sleeps.push(delay_secs);
                state = next;
            }
            RetryStep::Finished(r) => {
                result = Some(r);
                break;
            }
        }
    }
    assert!(matches!(result, Some(Ok(99))));
    assert_eq!(sleeps, vec![1, 2]);
    assert_eq!(state, RetryState { retries: 2, slept_secs: 3 });
}

#[test]
fn other_failure_ends_without_a_sleep() {
    let step = RetryState::new().next(fail("invalid address"));
    match step {
        RetryStep::Finished(Err(SwapError::ExternalApiError(msg))) => {
            assert_eq!(msg, "invalid address")
        }
        _ => panic!("expected a terminal upstream error"),
    }
}

#[test]
fn other_failure_after_a_retry_ends_too() {
    let first = RetryState::new().next(fail("429"));
    let state = match first {
        RetryStep::Backoff { delay_secs: 1, next } => next,
        _ => panic!("expected a backoff of one second"),
    };
    assert!(matches!(
        state.next(fail("malformed request")),
        RetryStep::Finished(Err(SwapError::ExternalApiError(_)))
    ));
}

#[test]
fn retries_run_out_after_three() {
    let mut state = RetryState::new();
    let mut sleeps = Vec::new();
    let mut last = None;
    for _ in 0..10 {
        match state.next(fail("rate limit")) {
            RetryStep::Backoff { delay_secs, next } => {
                sleeps.push(delay_secs);
                state = next;
            }
            RetryStep::Finished(r) => {
                last = Some(r);
                break;
            }
        }
    }
    assert_eq!(sleeps, vec![1, 2, 4]);
    assert_eq!(sleeps.iter().sum::<u64>(), 7);
    assert_eq!(state, RetryState { retries: MAX_RETRIES, slept_secs: 7 });
    match last {
        Some(Err(SwapError::RateLimited(msg))) => assert_eq!(msg, "rate limit"),
        _ => panic!("expected the rate-limited error"),
    }
}

#[test]
fn error_messages() {
    assert_eq!(SwapError::ProviderNotFound.message(), "Provider not found");
    assert_eq!(SwapError::CurrencyNotFound.message(), "Currency not found");
    assert_eq!(SwapError::PairNotAvailable.message(), "Trading pair not available");
    assert_eq!(
        SwapError::AmountOutOfRange { min: "0.1".to_string(), max: "5".to_string() }.message(),
        "Amount out of range: min=0.1, max=5"
    );
    assert_eq!(SwapError::InvalidAddress.message(), "Invalid address");
    assert_eq!(SwapError::SwapNotFound.message(), "Swap not found");
    assert_eq!(
        SwapError::ProviderUnavailable("down".to_string()).message(),
        "Provider unavailable: down"
    );
    assert_eq!(SwapError::DatabaseError("gone".to_string()).message(), "Database error: gone");
    assert_eq!(
        SwapError::ExternalApiError("boom".to_string()).message(),
        "External API error: boom"
    );
    assert_eq!(SwapError::RateLimited("429".to_string()).message(), "Rate limited: 429");
    assert_eq!(SwapError::RedisError("refused".to_string()).message(), "Redis error: refused");
}

#[test]
fn only_cache_failures_let_the_operation_go_on() {
    assert!(!SwapError::RedisError("refused".to_string()).ends_operation());
    assert!(SwapError::DatabaseError("gone".to_string()).ends_operation());
    assert!(SwapError::ExternalApiError("boom".to_string()).ends_operation());
    assert!(SwapError::InvalidAddress.ends_operation());
}

#[test]
fn refusal_by_the_local_limiter_backs_off_like_a_rate_limit_failure() {
    let mut state = RetryState::new();
    let mut sleeps = Vec::new();
    let mut last = None;
    for _ in 0..10 {
        match state.throttled::<u32>() {
            RetryStep::Backoff { delay_secs, next } => {
                sleeps.push(delay_secs);
                state = next;
            }
            RetryStep::Finished(r) => {
                last = Some(r);
                break;
            }
        }
    }
    assert_eq!(sleeps, vec![1, 2, 4]);
    match last {
        Some(Err(SwapError::RateLimited(msg))) => {
            assert_eq!(msg, "rate limit: no token left for the call");
            assert!(is_rate_limit_error(&msg));
        }
        _ => panic!("expected the rate-limited error"),
    }
}

#[test]
fn refusal_and_failure_share_the_retries() {
    let state = RetryState::new();
    let state = match state.throttled::<u32>() {
        RetryStep::Backoff { delay_secs: 1, next } => next,
        _ => panic!("expected a backoff of one second"),
    };
    let state = match state.next(fail("429")) {
        RetryStep::Backoff { delay_secs: 2, next } => next,
        _ => panic!("expected a backoff of two seconds"),
    };
    assert!(matches!(state.next(Ok::<u32, String>(5)), RetryStep::Finished(Ok(5))));
}

#[test]
fn executor_returns_the_value_of_the_third_attempt() {
    let calls = std::cell::Cell::new(0u32);
    let sleeps = std::cell::RefCell::new(Vec::new());
    let (result, state) = swap_sync::retry::call_with_retry(
        || {
            calls.set(calls.get() + 1);
            if calls.get() < 3 {
                Err("upstream answered 429".to_string())
            } else {
                Ok("quotes")
            }
        },
        |secs| sleeps.borrow_mut().push(secs),
    );
    assert!(matches!(result, Ok("quotes")));
    assert_eq!(calls.get(), 3);
    assert_eq!(*sleeps.borrow(), vec![1, 2]);
    assert_eq!(state, RetryState { retries: 2, slept_secs: 3 });
}

#[test]
fn executor_gives_up_at_once_on_another_failure() {
    let calls = std::cell::Cell::new(0u32);
    let sleeps = std::cell::RefCell::new(Vec::new());
    let (result, state): (Result<u8, SwapError>, RetryState) = swap_sync::retry::call_with_retry(
        || {
            calls.set(calls.get() + 1);
            Err("invalid address".to_string())
        },
        |secs| sleeps.borrow_mut().push(secs),
    );
    assert_eq!(state, RetryState { retries: 0, slept_secs: 0 });
    assert!(matches!(result, Err(SwapError::ExternalApiError(ref m)) if m == "invalid address"));
    assert_eq!(calls.get(), 1);
    assert!(sleeps.borrow().is_empty());
}

#[test]
fn executor_makes_four_calls_at_most() {
    let calls = std::cell::Cell::new(0u32);
    let sleeps = std::cell::RefCell::new(Vec::new());
    let (result, state): (Result<u8, SwapError>, RetryState) = swap_sync::retry::call_with_retry(
        || {
            calls.set(calls.get() + 1);
            Err(format!("Too Many Requests (call {})", calls.get()))
        },
        |secs| sleeps.borrow_mut().push(secs),
    );
    assert_eq!(state, RetryState { retries: 3, slept_secs: 7 });
    match result {
        Err(SwapError::RateLimited(msg)) => assert_eq!(msg, "Too Many Requests (call 4)"),
        _ => panic!("expected the rate-limited error"),
    }
    assert_eq!(calls.get(), 4);
    assert_eq!(*sleeps.borrow(), vec![1, 2, 4]);
}
